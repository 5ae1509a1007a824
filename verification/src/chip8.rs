//! The machine as a whole: the engine, the interconnect, and the
//! run/pause/stop state machine the debug control plane drives.
//!
//! The driving loop lives outside the library; each of its iterations
//! hands a pending control message (if any) to [`Chip8::run`], which
//! applies the state transition, produces at most one snapshot reply,
//! and — only while Running — executes one engine cycle.

use crate::cpu::{cycle_rel, machine, Cpu, CpuView, MachineView};
use crate::debug::{Chip8Snapshots, CpuSnapshot, DbgMessage};
use crate::display::Display;
use crate::keypad::{Keypad, KeypadState, KEY_COUNT};
use crate::mem::{dump_spec, write_block, Interconnect, RAM_SIZE};
use crate::Fault;
use vstd::prelude::*;

verus! {

/// Offset at which a program image is loaded.
pub const ROM_LOCATION: u16 = 0x200;

/// Offset at which the built-in font table is loaded.
pub const FONTS_LOCATION: u16 = 0x0;

/// The machine's run state; transitions happen only through the control
/// plane's command handling, never inside the engine.
#[derive(Clone, Copy, Debug, PartialEq, Eq, Structural)]
#[allow(non_camel_case_types)]
pub enum VmState {
    /// Constructed, not yet started.
    CREATED,
    /// The driver loop executes one cycle per iteration.
    RUNNING,
    /// Paused; cycles run only on explicit `step` commands.
    STOPPED,
}

/// The built-in hexadecimal sprite font: 16 glyphs of 5 bytes each.
pub open spec fn font_spec() -> Seq<u8> {
    seq![
        0xF0u8, 0x90, 0x90, 0x90, 0xF0, // 0
        0x20, 0x60, 0x20, 0x20, 0x70, // 1
        0xF0, 0x10, 0xF0, 0x80, 0xF0, // 2
        0xF0, 0x10, 0xF0, 0x10, 0xF0, // 3
        0x90, 0x90, 0xF0, 0x10, 0x10, // 4
        0xF0, 0x80, 0xF0, 0x10, 0xF0, // 5
        0xF0, 0x80, 0xF0, 0x90, 0xF0, // 6
        0xF0, 0x10, 0x20, 0x40, 0x40, // 7
        0xF0, 0x90, 0xF0, 0x90, 0xF0, // 8
        0xF0, 0x90, 0xF0, 0x10, 0xF0, // 9
        0xF0, 0x90, 0xF0, 0x90, 0x90, // A
        0xE0, 0x90, 0xE0, 0x90, 0xE0, // B
        0xF0, 0x80, 0x80, 0x80, 0xF0, // C
        0xE0, 0x90, 0x90, 0x90, 0xE0, // D
        0xF0, 0x80, 0xF0, 0x80, 0xF0, // E
        0xF0, 0x80, 0xF0, 0x80, 0x80, // F
    ]
}

/// The font table as bytes ready to write into the address space.
pub fn font_table() -> (r: Vec<u8>)
    ensures
        r@ == font_spec(),
        r@.len() == 80,
{
    let r: Vec<u8> = vec![
        0xF0, 0x90, 0x90, 0x90, 0xF0, // 0
        0x20, 0x60, 0x20, 0x20, 0x70, // 1
        0xF0, 0x10, 0xF0, 0x80, 0xF0, // 2
        0xF0, 0x10, 0xF0, 0x10, 0xF0, // 3
        0x90, 0x90, 0xF0, 0x10, 0x10, // 4
        0xF0, 0x80, 0xF0, 0x10, 0xF0, // 5
        0xF0, 0x80, 0xF0, 0x90, 0xF0, // 6
        0xF0, 0x10, 0x20, 0x40, 0x40, // 7
        0xF0, 0x90, 0xF0, 0x90, 0xF0, // 8
        0xF0, 0x90, 0xF0, 0x10, 0xF0, // 9
        0xF0, 0x90, 0xF0, 0x90, 0x90, // A
        0xE0, 0x90, 0xE0, 0x90, 0xE0, // B
        0xF0, 0x80, 0x80, 0x80, 0xF0, // C
        0xE0, 0x90, 0x90, 0x90, 0xE0, // D
        0xF0, 0x80, 0xF0, 0x80, 0xF0, // E
        0xF0, 0x80, 0xF0, 0x80, 0x80, // F
    ];
    proof {
        assert(r@ =~= font_spec());
    }
    r
}

/// How handling one control message relates the machine before it to the
/// machine after it, the run states, the reply, and the result. Only a
/// `STEP` can fault (through the cycle it executes); every other message
/// leaves the machine itself untouched.
pub open spec fn message_rel(
    pre_st: VmState,
    pre_m: MachineView,
    msg: DbgMessage,
    post_st: VmState,
    post_m: MachineView,
    resp: Option<Chip8Snapshots>,
    res: Result<(), Fault>,
) -> bool {
    match msg {
        DbgMessage::START => post_st == VmState::RUNNING && post_m == pre_m && resp is None
            && res is Ok,
        DbgMessage::STOP => post_st == VmState::STOPPED && post_m == pre_m && resp is None
            && res is Ok,
        DbgMessage::RESTART => post_st == pre_st && post_m == pre_m && resp is None && res is Ok,
        DbgMessage::STEP => post_st == pre_st && resp is None && exists|e: u8|
            cycle_rel(pre_m, post_m, e, res),
        DbgMessage::CPU => post_st == pre_st && post_m == pre_m && res is Ok && (
        resp matches Some(Chip8Snapshots::CPU(s)) && s.v@ == pre_m.cpu.v && s.i == pre_m.cpu.i
            && s.pc == pre_m.cpu.pc && s.sp == pre_m.cpu.sp && s.stack@ == pre_m.cpu.stack),
        DbgMessage::MEM(addr, size) => post_st == pre_st && post_m == pre_m && res is Ok && (
        resp matches Some(Chip8Snapshots::MEM(bytes)) && bytes@ == dump_spec(
            pre_m.ram,
            addr as int,
            size as int,
        )),
    }
}

/// The machine: engine, interconnect and run state.
pub struct Chip8 {
    cpu: Cpu,
    interconnect: Interconnect,
    vm_state: VmState,
}

impl Chip8 {
    /// Well-formedness of the parts.
    pub open spec fn wf(&self) -> bool {
        self.cpu_part().wf() && self.ic_part().wf()
    }

    /// The engine.
    pub closed spec fn cpu_part(&self) -> Cpu {
        self.cpu
    }

    /// The interconnect.
    pub closed spec fn ic_part(&self) -> Interconnect {
        self.interconnect
    }

    /// The run state.
    pub closed spec fn state(&self) -> VmState {
        self.vm_state
    }

    /// The whole machine as mathematical values.
    pub open spec fn m(&self) -> MachineView {
        machine(self.cpu_part(), self.ic_part())
    }

    /// A new machine wired to the given surfaces: engine zeroed, font
    /// table loaded at the font offset, everything else zero, state
    /// Created.
    pub fn new(display: Display, keypad: Keypad) -> (r: Chip8)
        requires
            display.wf(),
            keypad.keys_view().len() == KEY_COUNT,
        ensures
            r.wf(),
            r.state() == VmState::CREATED,
            r.m().cpu == (CpuView {
                v: Seq::new(16, |k: int| 0u8),
                i: 0,
                pc: 0x200,
                stack: Seq::new(16, |k: int| 0u16),
                sp: 0,
                delay_timer: 0,
                awaiting_key: None::<u8>,
            }),
            r.m().ram == write_block(
                Seq::new(RAM_SIZE as nat, |a: int| 0u8),
                FONTS_LOCATION as int,
                font_spec(),
            ),
            r.m().vram == display.vram_view(),
            r.m().keys == keypad.keys_view(),
            r.m().frames == display.frames(),
    {
        let mut interconnect = Interconnect::new(display, keypad);
        Chip8::load_fonts(&mut interconnect);
        Chip8 { cpu: Cpu::new(), interconnect, vm_state: VmState::CREATED }
    }

    /// Writes the built-in font table at the font offset, leaving the
    /// rest of the address space as it was.
    pub fn load_fonts(interconnect: &mut Interconnect)
        requires
            old(interconnect).wf(),
        ensures
            final(interconnect).wf(),
            final(interconnect).ram_view() == write_block(
                old(interconnect).ram_view(),
                FONTS_LOCATION as int,
                font_spec(),
            ),
            final(interconnect).disp() == old(interconnect).disp(),
            final(interconnect).kp() == old(interconnect).kp(),
    {
        let font_set = font_table();
        let r = interconnect.write_memory(FONTS_LOCATION, &font_set);
        assert(r is Ok);
    }

    /// Writes a program image starting at the load offset, unconditionally
    /// overwriting what is there. An image longer than the space before
    /// the end of the region is rejected whole.
    pub fn load_rom(&mut self, rom: &Vec<u8>) -> (r: Result<(), Fault>)
        requires
            old(self).wf(),
        ensures
            final(self).wf(),
            final(self).state() == old(self).state(),
            final(self).m().cpu == old(self).m().cpu,
            final(self).m().vram == old(self).m().vram,
            final(self).m().keys == old(self).m().keys,
            final(self).m().frames == old(self).m().frames,
            ROM_LOCATION + rom@.len() <= RAM_SIZE ==> (r is Ok && final(self).m().ram
                == write_block(old(self).m().ram, ROM_LOCATION as int, rom@)),
            ROM_LOCATION + rom@.len() > RAM_SIZE ==> (r == Result::<(), Fault>::Err(
                Fault::Address { addr: ROM_LOCATION },
            ) && final(self).m().ram == old(self).m().ram),
    {
        self.interconnect.write_memory(ROM_LOCATION, rom)
    }

    /// Replaces all 16 key states of the input surface, as the input
    /// collaborator does once per cycle.
    pub fn update_keypad(&mut self, keypad_state: KeypadState)
        requires
            old(self).wf(),
        ensures
            final(self).wf(),
            final(self).state() == old(self).state(),
            final(self).m() == (MachineView { keys: keypad_state@, ..old(self).m() }),
    {
        self.interconnect.keypad().update_state(keypad_state);
        proof {
            assert(self.m() =~= (MachineView { keys: keypad_state@, ..old(self).m() }));
        }
    }

    /// Executes exactly one engine cycle; see [`Cpu::execute_cycle`].
    pub fn step(&mut self) -> (r: Result<(), Fault>)
        requires
            old(self).wf(),
        ensures
            final(self).wf(),
            final(self).state() == old(self).state(),
            exists|e: u8| cycle_rel(old(self).m(), final(self).m(), e, r),
    {
        self.cpu.execute_cycle(&mut self.interconnect)
    }

    /// Applies one control message: `start`/`stop` switch the run state,
    /// `step` executes exactly one cycle whatever the run state, `cpu`
    /// and `mem` publish snapshots without disturbing execution.
    pub fn handle_dbg_message(&mut self, message: DbgMessage) -> (r: (
        Option<Chip8Snapshots>,
        Result<(), Fault>,
    ))
        requires
            old(self).wf(),
        ensures
            final(self).wf(),
            message_rel(
                old(self).state(),
                old(self).m(),
                message,
                final(self).state(),
                final(self).m(),
                r.0,
                r.1,
            ),
    {
        match message {
            DbgMessage::START => {
                self.vm_state = VmState::RUNNING;
                (None, Ok(()))
            },
            DbgMessage::STOP => {
                self.vm_state = VmState::STOPPED;
                (None, Ok(()))
            },
            DbgMessage::RESTART => (None, Ok(())),
            DbgMessage::STEP => {
                let res = self.cpu.execute_cycle(&mut self.interconnect);
                (None, res)
            },
            DbgMessage::CPU => {
                let snapshot = self.cpu.snapshot();
                (Some(Chip8Snapshots::CPU(snapshot)), Ok(()))
            },
            DbgMessage::MEM(addr, size) => {
                let bytes = self.interconnect.read_block(addr, size);
                (Some(Chip8Snapshots::MEM(bytes)), Ok(()))
            },
        }
    }

    /// One iteration of the driver loop: handle the pending control
    /// message, if any, then — only if the machine is then Running —
    /// execute one engine cycle. A faulting step or cycle is reported
    /// and the machine is left exactly as it was before the fault; the
    /// driver stops driving a faulted machine.
    pub fn run(&mut self, pending: Option<DbgMessage>) -> (r: (
        Option<Chip8Snapshots>,
        Result<(), Fault>,
    ))
        requires
            old(self).wf(),
        ensures
            final(self).wf(),
            ({
                let pre_m = old(self).m();
                let post_m = final(self).m();
                match pending {
                    None => r.0 is None && final(self).state() == old(self).state() && (
                    if old(self).state() == VmState::RUNNING {
                        exists|e: u8| cycle_rel(pre_m, post_m, e, r.1)
                    } else {
                        post_m == pre_m && r.1 is Ok
                    }),
                    Some(msg) => exists|mid: MachineView, st1: VmState, res1: Result<(), Fault>|
                        {
                            &&& #[trigger] message_rel(
                                old(self).state(),
                                pre_m,
                                msg,
                                st1,
                                mid,
                                r.0,
                                res1,
                            )
                            &&& final(self).state() == st1
                            &&& if res1 is Err {
                                r.1 == res1 && post_m == mid
                            } else if st1 == VmState::RUNNING {
                                exists|e: u8| cycle_rel(mid, post_m, e, r.1)
                            } else {
                                post_m == mid && r.1 is Ok
                            }
                        },
                }
            }),
    {
        let mut resp: Option<Chip8Snapshots> = None;
        match pending {
            None => {},
            Some(msg) => {
                let (rsp, res) = self.handle_dbg_message(msg);
                resp = rsp;
                if res.is_err() {
                    return (resp, res);
                }
            },
        }
        if matches!(self.vm_state, VmState::RUNNING) {
            let res = self.cpu.execute_cycle(&mut self.interconnect);
            return (resp, res);
        }
        (resp, Ok(()))
    }
}

} // verus!
