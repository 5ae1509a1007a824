//! The execution engine: register file, program counter, call stack, delay
//! timer and the fetch-decode-execute cycle, specified against a
//! mathematical model of the whole machine.
//!
//! Every cycle is described by [`cycle_spec`]: what one executed cycle does
//! to the machine for a given entropy byte, or which fault it raises. A
//! fault leaves the machine exactly as it was; the owner halts it.

use crate::disasm::{decode, nn_of, nnn_of, n_of, op1, op4, x_of, y_of, Opcode};
use crate::display::{bump_frames, CHIP8_HEIGHT, CHIP8_WIDTH, VRAM_SIZE};
use crate::keypad::KEY_COUNT;
use crate::mem::{write_block, Interconnect, RAM_SIZE};
use crate::Fault;
use vstd::prelude::*;

verus! {

/// Number of general-purpose registers.
pub const REG_COUNT: usize = 16;

/// Number of call-stack slots.
pub const STACK_SLOTS: usize = 16;

/// The register file, program counter, call stack and timer as mathematical
/// values.
#[verifier::ext_equal]
pub struct CpuView {
    /// The 16 general-purpose registers `V0..VF`.
    pub v: Seq<u8>,
    /// The 16-bit address register `I`.
    pub i: u16,
    /// The program counter.
    pub pc: u16,
    /// The 16 return-address slots.
    pub stack: Seq<u16>,
    /// The stack pointer: number of slots in use.
    pub sp: u8,
    /// The delay timer.
    pub delay_timer: u8,
    /// `Some(x)` while a key-wait instruction holds the engine, with `x`
    /// the register that receives the key.
    pub awaiting_key: Option<u8>,
}

/// The whole machine as mathematical values: engine state, address space
/// and both device surfaces.
#[verifier::ext_equal]
pub struct MachineView {
    /// The engine state.
    pub cpu: CpuView,
    /// The 4096 bytes of the address space.
    pub ram: Seq<u8>,
    /// The 2048 pixels of the output surface, row-major.
    pub vram: Seq<u8>,
    /// The 16 key states of the input surface.
    pub keys: Seq<bool>,
    /// How many frames the output surface has committed.
    pub frames: u64,
}

/// Well-formedness of an engine state: every collection has its fixed size,
/// the stack pointer stays within the stack, stacked return addresses point
/// at fetchable words, and a pending key-wait names a real register.
pub open spec fn wf_cpu(c: CpuView) -> bool {
    &&& c.v.len() == REG_COUNT
    &&& c.stack.len() == STACK_SLOTS
    &&& c.sp <= STACK_SLOTS
    &&& forall|k: int| 0 <= k < STACK_SLOTS ==> #[trigger] c.stack[k] + 1 < RAM_SIZE
    &&& c.awaiting_key matches Some(x) ==> c.awaiting_key->0 < REG_COUNT && c.pc + 1 < RAM_SIZE
}

/// Well-formedness of a whole machine.
pub open spec fn wf_machine(m: MachineView) -> bool {
    &&& wf_cpu(m.cpu)
    &&& m.ram.len() == RAM_SIZE
    &&& m.vram.len() == VRAM_SIZE
    &&& forall|p: int| 0 <= p < VRAM_SIZE ==> #[trigger] m.vram[p] <= 1
    &&& m.keys.len() == KEY_COUNT
}

/// The machine with its delay timer decremented by one if it was nonzero.
pub open spec fn tick_timer(m: MachineView) -> MachineView {
    if m.cpu.delay_timer > 0 {
        MachineView {
            cpu: CpuView { delay_timer: (m.cpu.delay_timer - 1) as u8, ..m.cpu },
            ..m
        }
    } else {
        m
    }
}

/// Addition wrapping modulo 256.
pub open spec fn add_wrap(a: u8, b: u8) -> u8 {
    if a + b < 256 {
        (a + b) as u8
    } else {
        (a + b - 256) as u8
    }
}

/// Subtraction wrapping modulo 256.
pub open spec fn sub_wrap(a: u8, b: u8) -> u8 {
    if a >= b {
        (a - b) as u8
    } else {
        (a + 256 - b) as u8
    }
}

/// Doubling wrapping modulo 256 (a left shift by one).
pub open spec fn shl_wrap(a: u8) -> u8 {
    if a < 128 {
        (2 * a) as u8
    } else {
        (2 * a - 256) as u8
    }
}

/// The value of the sprite-row byte `byte` at bit position `b`, counted
/// from the most significant bit: 0 or 1.
pub open spec fn sprite_bit(byte: u8, b: int) -> u8 {
    (((byte as int) / bit_weight(b)) % 2) as u8
}

/// The weight of bit position `b` of a sprite-row byte, most significant
/// first.
pub open spec fn bit_weight(b: int) -> int {
    if b == 0 {
        128
    } else if b == 1 {
        64
    } else if b == 2 {
        32
    } else if b == 3 {
        16
    } else if b == 4 {
        8
    } else if b == 5 {
        4
    } else if b == 6 {
        2
    } else {
        1
    }
}

/// The flat index of the pixel at column `x`, row `y`.
pub open spec fn pix(x: int, y: int) -> int {
    y * CHIP8_WIDTH + x
}

/// The pixel grid and collision flag after exclusive-oring the first
/// `bits` bits of sprite-row byte `byte` into row `py`, starting at column
/// `vx`; columns wrap modulo the surface width. The flag reports whether
/// any toggle turned a previously-set pixel off.
pub open spec fn draw_byte(vram: Seq<u8>, byte: u8, vx: int, py: int, bits: int) -> (Seq<u8>, bool)
    decreases bits,
{
    if bits <= 0 {
        (vram, false)
    } else {
        let (v1, c1) = draw_byte(vram, byte, vx, py, bits - 1);
        let b = bits - 1;
        if sprite_bit(byte, b) == 1 {
            let p = pix((vx + b) % (CHIP8_WIDTH as int), py);
            (v1.update(p, (1 - v1[p]) as u8), c1 || v1[p] == 1)
        } else {
            (v1, c1)
        }
    }
}

/// The pixel grid and collision flag after drawing the first `rows` rows
/// of the sprite whose bytes start at address `i`, at column `vx` and row
/// `vy`; rows wrap modulo the surface height.
pub open spec fn draw_rows(
    vram: Seq<u8>,
    ram: Seq<u8>,
    i: int,
    vx: int,
    vy: int,
    rows: int,
) -> (Seq<u8>, bool)
    decreases rows,
{
    if rows <= 0 {
        (vram, false)
    } else {
        let (v1, c1) = draw_rows(vram, ram, i, vx, vy, rows - 1);
        let j = rows - 1;
        let (v2, c2) = draw_byte(v1, ram[i + j], vx, (vy + j) % (CHIP8_HEIGHT as int), 8);
        (v2, c1 || c2)
    }
}

/// The registers after a memory-load instruction: the first `cnt`
/// registers filled from `ram` starting at `i`, the rest unchanged.
pub open spec fn load_regs(v: Seq<u8>, ram: Seq<u8>, i: int, cnt: int) -> Seq<u8> {
    Seq::new(v.len(), |k: int| if k < cnt { ram[i + k] } else { v[k] })
}

/// The lowest-numbered pressed key at or above position `k`, if any.
pub open spec fn first_pressed_from(keys: Seq<bool>, k: int) -> Option<u8>
    decreases KEY_COUNT - k,
{
    if k < 0 || k >= KEY_COUNT {
        None
    } else if keys[k] {
        Some(k as u8)
    } else {
        first_pressed_from(keys, k + 1)
    }
}

/// The lowest-numbered pressed key, if any.
pub open spec fn first_pressed(keys: Seq<bool>) -> Option<u8> {
    first_pressed_from(keys, 0)
}

/// What executing the instruction word `w` does to machine `m`, whose
/// program counter addresses `w`, for a given entropy byte; or the fault
/// it raises. The delay timer has already ticked for this cycle.
///
/// Flag-setting operations read their operands from the pre-instruction
/// registers, write the result to `Vx`, and write the flag to `VF` last:
/// `VF` always ends up holding exactly the flag, as the carry/borrow/
/// collision rule demands, even when `x` is 15.
///
/// Deliberate choices where interpreters have historically disagreed,
/// authoritative for this engine:
/// - the shift instructions read their operand from `Vy`, not `Vx`;
/// - sprite coordinates wrap around the surface edges rather than clip;
/// - the sprite-address lookup and the key-skip instructions use the low
///   4 bits of the register's value;
/// - adding `Vx` to `I` wraps modulo 2^16.
#[verifier::opaque]
pub open spec fn exec_op_spec(m: MachineView, w: u16, entropy: u8) -> Result<MachineView, Fault> {
    let pc = m.cpu.pc;
    let nnn = nnn_of(w);
    let nn = nn_of(w);
    let n = n_of(w);
    let x = x_of(w) as int;
    let y = y_of(w) as int;
    let vx = m.cpu.v[x];
    let vy = m.cpu.v[y];
    match decode(w) {
        Opcode::OP_00E0 => Ok(
            MachineView {
                cpu: CpuView { pc: (pc + 2) as u16, ..m.cpu },
                vram: Seq::new(VRAM_SIZE as nat, |p: int| 0u8),
                ..m
            },
        ),
        Opcode::OP_00EE => {
            if m.cpu.sp == 0 {
                Err(Fault::StackUnderflow { addr: pc })
            } else {
                Ok(
                    MachineView {
                        cpu: CpuView {
                            pc: (m.cpu.stack[m.cpu.sp - 1] + 2) as u16,
                            sp: (m.cpu.sp - 1) as u8,
                            ..m.cpu
                        },
                        ..m
                    },
                )
            }
        },
        // A machine-code call into the host: not an operation this engine
        // can perform, so it is reported like an unrecognized word.
        Opcode::OP_0NNN(_) => Err(Fault::Decode { addr: pc, word: w }),
        Opcode::OP_1NNN(_) => Ok(MachineView { cpu: CpuView { pc: nnn, ..m.cpu }, ..m }),
        Opcode::OP_2NNN(_) => {
            if m.cpu.sp >= STACK_SLOTS {
                Err(Fault::StackOverflow { addr: pc })
            } else {
                Ok(
                    MachineView {
                        cpu: CpuView {
                            pc: nnn,
                            sp: (m.cpu.sp + 1) as u8,
                            stack: m.cpu.stack.update(m.cpu.sp as int, pc),
                            ..m.cpu
                        },
                        ..m
                    },
                )
            }
        },
        Opcode::OP_3XNN(_, _) => Ok(
            MachineView {
                cpu: CpuView { pc: if vx == nn { (pc + 4) as u16 } else { (pc + 2) as u16 }, ..m.cpu },
                ..m
            },
        ),
        Opcode::OP_4XNN(_, _) => Ok(
            MachineView {
                cpu: CpuView { pc: if vx != nn { (pc + 4) as u16 } else { (pc + 2) as u16 }, ..m.cpu },
                ..m
            },
        ),
        Opcode::OP_5XY0(_, _) => Ok(
            MachineView {
                cpu: CpuView { pc: if vx == vy { (pc + 4) as u16 } else { (pc + 2) as u16 }, ..m.cpu },
                ..m
            },
        ),
        Opcode::OP_6XNN(_, _) => Ok(
            MachineView {
                cpu: CpuView { v: m.cpu.v.update(x, nn), pc: (pc + 2) as u16, ..m.cpu },
                ..m
            },
        ),
        Opcode::OP_7XNN(_, _) => Ok(
            MachineView {
                cpu: CpuView { v: m.cpu.v.update(x, add_wrap(vx, nn)), pc: (pc + 2) as u16, ..m.cpu },
                ..m
            },
        ),
        Opcode::OP_8XY0(_, _) => Ok(
            MachineView {
                cpu: CpuView { v: m.cpu.v.update(x, vy), pc: (pc + 2) as u16, ..m.cpu },
                ..m
            },
        ),
        Opcode::OP_8XY1(_, _) => Ok(
            MachineView {
                cpu: CpuView { v: m.cpu.v.update(x, vx | vy), pc: (pc + 2) as u16, ..m.cpu },
                ..m
            },
        ),
        Opcode::OP_8XY2(_, _) => Ok(
            MachineView {
                cpu: CpuView { v: m.cpu.v.update(x, vx & vy), pc: (pc + 2) as u16, ..m.cpu },
                ..m
            },
        ),
        Opcode::OP_8XY3(_, _) => Ok(
            MachineView {
                cpu: CpuView { v: m.cpu.v.update(x, vx ^ vy), pc: (pc + 2) as u16, ..m.cpu },
                ..m
            },
        ),
        Opcode::OP_8XY4(_, _) => Ok(
            MachineView {
                cpu: CpuView {
                    v: m.cpu.v.update(x, add_wrap(vx, vy)).update(
                        15,
                        if vx + vy > 255 { 1u8 } else { 0u8 },
                    ),
                    pc: (pc + 2) as u16,
                    ..m.cpu
                },
                ..m
            },
        ),
        Opcode::OP_8XY5(_, _) => Ok(
            MachineView {
                cpu: CpuView {
                    v: m.cpu.v.update(x, sub_wrap(vx, vy)).update(
                        15,
                        if vx > vy { 1u8 } else { 0u8 },
                    ),
                    pc: (pc + 2) as u16,
                    ..m.cpu
                },
                ..m
            },
        ),
        Opcode::OP_8XY6(_, _) => Ok(
            MachineView {
                cpu: CpuView {
                    v: m.cpu.v.update(x, vy / 2).update(15, vy % 2),
                    pc: (pc + 2) as u16,
                    ..m.cpu
                },
                ..m
            },
        ),
        Opcode::OP_8XY7(_, _) => Ok(
            MachineView {
                cpu: CpuView {
                    v: m.cpu.v.update(x, sub_wrap(vy, vx)).update(
                        15,
                        if vx > vy { 0u8 } else { 1u8 },
                    ),
                    pc: (pc + 2) as u16,
                    ..m.cpu
                },
                ..m
            },
        ),
        Opcode::OP_8XYE(_, _) => Ok(
            MachineView {
                cpu: CpuView {
                    v: m.cpu.v.update(x, shl_wrap(vy)).update(15, vy / 128),
                    pc: (pc + 2) as u16,
                    ..m.cpu
                },
                ..m
            },
        ),
        Opcode::OP_9XY0(_, _) => Ok(
            MachineView {
                cpu: CpuView { pc: if vx != vy { (pc + 4) as u16 } else { (pc + 2) as u16 }, ..m.cpu },
                ..m
            },
        ),
        Opcode::OP_ANNN(_) => Ok(
            MachineView { cpu: CpuView { i: nnn, pc: (pc + 2) as u16, ..m.cpu }, ..m },
        ),
        Opcode::OP_BNNN(_) => Ok(
            MachineView { cpu: CpuView { pc: (m.cpu.v[0] + nnn) as u16, ..m.cpu }, ..m },
        ),
        Opcode::OP_CXNN(_, _) => Ok(
            MachineView {
                cpu: CpuView { v: m.cpu.v.update(x, entropy & nn), pc: (pc + 2) as u16, ..m.cpu },
                ..m
            },
        ),
        Opcode::OP_DXYN(_, _, _) => {
            if m.cpu.i + n > RAM_SIZE {
                Err(Fault::Address { addr: pc })
            } else {
                let (vram2, collided) = draw_rows(
                    m.vram,
                    m.ram,
                    m.cpu.i as int,
                    vx as int,
                    vy as int,
                    n as int,
                );
                Ok(
                    MachineView {
                        cpu: CpuView {
                            v: m.cpu.v.update(15, if collided { 1u8 } else { 0u8 }),
                            pc: (pc + 2) as u16,
                            ..m.cpu
                        },
                        vram: vram2,
                        frames: bump_frames(m.frames),
                        ..m
                    },
                )
            }
        },
        Opcode::OP_EX9E(_) => Ok(
            MachineView {
                cpu: CpuView {
                    pc: if m.keys[vx as int % 16] { (pc + 4) as u16 } else { (pc + 2) as u16 },
                    ..m.cpu
                },
                ..m
            },
        ),
        Opcode::OP_EXA1(_) => Ok(
            MachineView {
                cpu: CpuView {
                    pc: if !m.keys[vx as int % 16] { (pc + 4) as u16 } else { (pc + 2) as u16 },
                    ..m.cpu
                },
                ..m
            },
        ),
        Opcode::OP_FX07(_) => Ok(
            MachineView {
                cpu: CpuView { v: m.cpu.v.update(x, m.cpu.delay_timer), pc: (pc + 2) as u16, ..m.cpu },
                ..m
            },
        ),
        Opcode::OP_FX0A(_) => Ok(
            MachineView { cpu: CpuView { awaiting_key: Some(x as u8), ..m.cpu }, ..m },
        ),
        Opcode::OP_FX15(_) => Ok(
            MachineView {
                cpu: CpuView { delay_timer: vx, pc: (pc + 2) as u16, ..m.cpu },
                ..m
            },
        ),
        // There is no sound timer in this machine; the instruction is
        // recognized and has no further effect.
        Opcode::OP_FX18(_) => Ok(
            MachineView { cpu: CpuView { pc: (pc + 2) as u16, ..m.cpu }, ..m },
        ),
        Opcode::OP_FX1E(_) => Ok(
            MachineView {
                cpu: CpuView {
                    i: if m.cpu.i + vx < 65536 { (m.cpu.i + vx) as u16 } else { (m.cpu.i + vx - 65536) as u16 },
                    pc: (pc + 2) as u16,
                    ..m.cpu
                },
                ..m
            },
        ),
        Opcode::OP_FX29(_) => Ok(
            MachineView {
                cpu: CpuView { i: ((vx % 16) * 5) as u16, pc: (pc + 2) as u16, ..m.cpu },
                ..m
            },
        ),
        Opcode::OP_FX33(_) => {
            if m.cpu.i + 3 > RAM_SIZE {
                Err(Fault::Address { addr: pc })
            } else {
                Ok(
                    MachineView {
                        cpu: CpuView { pc: (pc + 2) as u16, ..m.cpu },
                        ram: write_block(
                            m.ram,
                            m.cpu.i as int,
                            seq![vx / 100, (vx / 10) % 10, vx % 10],
                        ),
                        ..m
                    },
                )
            }
        },
        Opcode::OP_FX55(_) => {
            if m.cpu.i + x + 1 > RAM_SIZE {
                Err(Fault::Address { addr: pc })
            } else {
                Ok(
                    MachineView {
                        cpu: CpuView { pc: (pc + 2) as u16, ..m.cpu },
                        ram: write_block(m.ram, m.cpu.i as int, m.cpu.v.subrange(0, x + 1)),
                        ..m
                    },
                )
            }
        },
        Opcode::OP_FX65(_) => {
            if m.cpu.i + x + 1 > RAM_SIZE {
                Err(Fault::Address { addr: pc })
            } else {
                Ok(
                    MachineView {
                        cpu: CpuView {
                            v: load_regs(m.cpu.v, m.ram, m.cpu.i as int, x + 1),
                            pc: (pc + 2) as u16,
                            ..m.cpu
                        },
                        ..m
                    },
                )
            }
        },
        Opcode::UNKNOWN => Err(Fault::Decode { addr: pc, word: w }),
    }
}

/// What one executed cycle does to machine `m` for a given entropy byte,
/// or the fault it raises.
///
/// While a key-wait holds the engine, the cycle is an advance-less step:
/// the timer still ticks, and once some key is pressed the lowest-numbered
/// one is stored and the engine moves on. Otherwise the timer ticks, the
/// word at the program counter is fetched (big-endian) and executed.
pub open spec fn cycle_spec(m: MachineView, entropy: u8) -> Result<MachineView, Fault> {
    let m1 = tick_timer(m);
    if m.cpu.awaiting_key is Some {
        let x = m.cpu.awaiting_key->0 as int;
        match first_pressed(m.keys) {
            Some(k) => Ok(
                MachineView {
                    cpu: CpuView {
                        v: m1.cpu.v.update(x, k),
                        pc: (m1.cpu.pc + 2) as u16,
                        awaiting_key: None,
                        ..m1.cpu
                    },
                    ..m1
                },
            ),
            None => Ok(m1),
        }
    } else if m.cpu.pc + 1 >= RAM_SIZE {
        Err(Fault::Address { addr: m.cpu.pc })
    } else {
        let w = (m.ram[m.cpu.pc as int] * 256 + m.ram[m.cpu.pc as int + 1]) as u16;
        exec_op_spec(m1, w, entropy)
    }
}

/// What a whole sequence of executed cycles does to machine `m`, one
/// entropy byte per cycle, stopping at the first fault.
pub open spec fn run_spec(m: MachineView, es: Seq<u8>) -> Result<MachineView, Fault>
    decreases es.len(),
{
    if es.len() == 0 {
        Ok(m)
    } else {
        match run_spec(m, es.drop_last()) {
            Ok(m2) => cycle_spec(m2, es.last()),
            Err(f) => Err(f),
        }
    }
}

/// Appending one entropy byte to a run executes one more cycle at its end.
pub proof fn lemma_run_spec_snoc(m: MachineView, es: Seq<u8>, e: u8)
    ensures
        run_spec(m, es.push(e)) == (match run_spec(m, es) {
            Ok(m2) => cycle_spec(m2, e),
            Err(f) => Err(f),
        }),
{
    assert(es.push(e).drop_last() =~= es);
    assert(es.push(e).last() == e);
    assert(es.push(e).len() == es.len() + 1);
}

/// How a cycle's result relates the machine before the call to the
/// machine after it: on success the machine is exactly what the model
/// says; on a fault nothing has changed and the fault is reported.
pub open spec fn cycle_rel(
    pre: MachineView,
    post: MachineView,
    entropy: u8,
    r: Result<(), Fault>,
) -> bool {
    match cycle_spec(pre, entropy) {
        Ok(m) => r is Ok && post == m,
        Err(f) => r == Result::<(), Fault>::Err(f) && post == pre,
    }
}

/// The execution engine's architectural state.
pub struct Cpu {
    v: Vec<u8>,
    i: u16,
    pc: u16,
    stack: Vec<u16>,
    sp: u8,
    delay_timer: u8,
    awaiting_key: Option<u8>,
}

impl View for Cpu {
    type V = CpuView;

    closed spec fn view(&self) -> CpuView {
        CpuView {
            v: self.v@,
            i: self.i,
            pc: self.pc,
            stack: self.stack@,
            sp: self.sp,
            delay_timer: self.delay_timer,
            awaiting_key: self.awaiting_key,
        }
    }
}

/// The machine `cpu` and `ic` make up, as mathematical values.
pub open spec fn machine(cpu: Cpu, ic: Interconnect) -> MachineView {
    MachineView {
        cpu: cpu@,
        ram: ic.ram_view(),
        vram: ic.vram_view(),
        keys: ic.keys_view(),
        frames: ic.frames(),
    }
}

impl Cpu {
    /// Well-formedness: see [`wf_cpu`].
    pub open spec fn wf(&self) -> bool {
        wf_cpu(self@)
    }

    /// A freshly powered-on engine: registers and stack zeroed, the
    /// program counter at the program load offset 0x200.
    pub fn new() -> (r: Cpu)
        ensures
            r.wf(),
            r@ == (CpuView {
                v: Seq::new(REG_COUNT as nat, |k: int| 0u8),
                i: 0,
                pc: 0x200,
                stack: Seq::new(STACK_SLOTS as nat, |k: int| 0u16),
                sp: 0,
                delay_timer: 0,
                awaiting_key: None::<u8>,
            }),
    {
        let mut v: Vec<u8> = Vec::new();
        let mut stack: Vec<u16> = Vec::new();
        let mut k: usize = 0;
        while k < REG_COUNT
            invariant
                k <= REG_COUNT,
                v@.len() == k,
                stack@.len() == k,
                forall|j: int| 0 <= j < k ==> v@[j] == 0u8,
                forall|j: int| 0 <= j < k ==> stack@[j] == 0u16,
            decreases REG_COUNT - k,
        {
            v.push(0);
            stack.push(0);
            k += 1;
        }
        proof {
            assert(v@ =~= Seq::new(REG_COUNT as nat, |j: int| 0u8));
            assert(stack@ =~= Seq::new(STACK_SLOTS as nat, |j: int| 0u16));
        }
        Cpu { v, i: 0, pc: 0x200, stack, sp: 0, delay_timer: 0, awaiting_key: None }
    }

    /// Executes exactly one cycle for a given entropy byte: the delay
    /// timer ticks, a pending key-wait is serviced or the word at the
    /// program counter is fetched and executed. On a fault nothing
    /// changes and the fault is reported; the owner halts the machine.
    ///
    /// The outcome is exactly [`cycle_spec`] on the entropy byte: this
    /// function is verified for every value the entropy source may hand
    /// back.
    pub fn execute_cycle_with(&mut self, interconnect: &mut Interconnect, entropy: u8) -> (r:
        Result<(), Fault>)
        requires
            old(self).wf(),
            old(interconnect).wf(),
        ensures
            final(self).wf(),
            final(interconnect).wf(),
            cycle_rel(
                machine(*old(self), *old(interconnect)),
                machine(*final(self), *final(interconnect)),
                entropy,
                r,
            ),
    {
        if let Some(x) = self.awaiting_key {
            if self.delay_timer > 0 {
                self.delay_timer = self.delay_timer - 1;
            }
            let mut k: usize = 0;
            while k < KEY_COUNT && !interconnect.key_pressed(k)
                invariant
                    k <= KEY_COUNT,
                    interconnect.wf(),
                    k < KEY_COUNT ==> first_pressed(interconnect.keys_view())
                        == first_pressed_from(interconnect.keys_view(), k as int),
                    k == KEY_COUNT ==> first_pressed(interconnect.keys_view()) is None,
                decreases KEY_COUNT - k,
            {
                k += 1;
            }
            if k < KEY_COUNT {
                assert(first_pressed(interconnect.keys_view()) == Some(k as u8));
                self.v[x as usize] = k as u8;
                self.awaiting_key = None;
                self.pc = self.pc + 2;
            }
            return Ok(());
        }
        if self.pc as usize + 1 >= RAM_SIZE {
            return Err(Fault::Address { addr: self.pc });
        }
        let word = interconnect.read_word(self.pc);
        let saved_dt = self.delay_timer;
        if self.delay_timer > 0 {
            self.delay_timer = self.delay_timer - 1;
        }
        let r = self.execute_opcode(word, interconnect, entropy);
        if r.is_err() {
            self.delay_timer = saved_dt;
            proof {
                assert(machine(*self, *interconnect) =~= machine(*old(self), *old(interconnect)));
            }
        }
        r
    }

    /// Executes exactly one cycle, drawing the entropy byte for the
    /// random-number instruction from the process's entropy source. What
    /// holds of the outcome holds whichever byte came back: see
    /// [`Cpu::execute_cycle_with`].
    pub fn execute_cycle(&mut self, interconnect: &mut Interconnect) -> (r: Result<(), Fault>)
        requires
            old(self).wf(),
            old(interconnect).wf(),
        ensures
            final(self).wf(),
            final(interconnect).wf(),
            exists|entropy: u8|
                cycle_rel(
                    machine(*old(self), *old(interconnect)),
                    machine(*final(self), *final(interconnect)),
                    entropy,
                    r,
                ),
    {
        let entropy = random_byte();
        let r = self.execute_cycle_with(interconnect, entropy);
        r
    }

    /// Executes up to `cycles` cycles, stopping at the first fault. On
    /// success the machine is the model's result for some sequence of
    /// entropy bytes of length `cycles`; on a fault it is the state just
    /// before the faulting cycle.
    pub fn run(&mut self, interconnect: &mut Interconnect, cycles: usize) -> (r: Result<(), Fault>)
        requires
            old(self).wf(),
            old(interconnect).wf(),
        ensures
            final(self).wf(),
            final(interconnect).wf(),
            ({
                let pre = machine(*old(self), *old(interconnect));
                let post = machine(*final(self), *final(interconnect));
                match r {
                    Ok(()) => exists|es: Seq<u8>|
                        es.len() == cycles && #[trigger] run_spec(pre, es) == Ok::<
                            MachineView,
                            Fault,
                        >(post),
                    Err(f) => exists|es: Seq<u8>, e: u8|
                        #![trigger run_spec(pre, es), cycle_spec(post, e)]
                        es.len() < cycles && run_spec(pre, es) == Ok::<MachineView, Fault>(post)
                            && cycle_spec(post, e) == Err::<MachineView, Fault>(f),
                }
            }),
    {
        let ghost pre = machine(*old(self), *old(interconnect));
        let ghost mut es: Seq<u8> = Seq::empty();
        let mut c: usize = 0;
        while c < cycles
            invariant
                self.wf(),
                interconnect.wf(),
                pre == machine(*old(self), *old(interconnect)),
                c <= cycles,
                es.len() == c,
                run_spec(pre, es) == Ok::<MachineView, Fault>(machine(*self, *interconnect)),
            decreases cycles - c,
        {
            let ghost before = machine(*self, *interconnect);
            let r = self.execute_cycle(interconnect);
            let ghost e = choose|e: u8|
                cycle_rel(before, machine(*self, *interconnect), e, r);
            proof {
                assert(cycle_rel(before, machine(*self, *interconnect), e, r));
            }
            match r {
                Ok(()) => {
                    proof {
                        lemma_run_spec_snoc(pre, es, e);
                        es = es.push(e);
                    }
                },
                Err(f) => {
                    proof {
                        assert(machine(*self, *interconnect) == before);
                        assert(run_spec(pre, es) == Ok::<MachineView, Fault>(
                            machine(*self, *interconnect),
                        ));
                        assert(cycle_spec(machine(*self, *interconnect), e) == Err::<
                            MachineView,
                            Fault,
                        >(f));
                        assert(es.len() < cycles);
                    }
                    return Err(f);
                },
            }
            c += 1;
        }
        Ok(())
    }

    /// Executes the single instruction word `opcode`, whose address the
    /// program counter holds, applying its effects to the engine and the
    /// interconnect; `entropy` feeds the random-number instruction. On a
    /// fault nothing changes and the fault is reported.
    pub fn execute_opcode(
        &mut self,
        opcode: u16,
        interconnect: &mut Interconnect,
        entropy: u8,
    ) -> (r: Result<(), Fault>)
        requires
            old(self).wf(),
            old(interconnect).wf(),
            old(self)@.pc + 1 < RAM_SIZE,
            old(self)@.awaiting_key is None,
        ensures
            final(self).wf(),
            final(interconnect).wf(),
            ({
                let pre = machine(*old(self), *old(interconnect));
                let post = machine(*final(self), *final(interconnect));
                match exec_op_spec(pre, opcode, entropy) {
                    Ok(m) => r is Ok && post == m,
                    Err(f) => r == Result::<(), Fault>::Err(f) && post == pre,
                }
            }),
    {
        proof {
            reveal(exec_op_spec);
        }
        let nnn = opcode % 4096;
        let nn = (opcode % 256) as u8;
        let n = (opcode % 16) as u8;
        let x = ((opcode / 256) % 16) as usize;
        let y = ((opcode / 16) % 16) as usize;
        let vx = self.v[x];
        let vy = self.v[y];

        match crate::disasm::Disasm::opcode(opcode) {
            Opcode::OP_00E0 => {
                interconnect.display().clear();
                self.pc = self.pc + 2;
                Ok(())
            },
            Opcode::OP_00EE => {
                if self.sp == 0 {
                    return Err(Fault::StackUnderflow { addr: self.pc });
                }
                self.sp = self.sp - 1;
                self.pc = self.stack[self.sp as usize] + 2;
                Ok(())
            },
            Opcode::OP_0NNN(_) => Err(Fault::Decode { addr: self.pc, word: opcode }),
            Opcode::OP_1NNN(_) => {
                self.pc = nnn;
                Ok(())
            },
            Opcode::OP_2NNN(_) => {
                if self.sp as usize >= STACK_SLOTS {
                    return Err(Fault::StackOverflow { addr: self.pc });
                }
                self.stack[self.sp as usize] = self.pc;
                self.sp = self.sp + 1;
                self.pc = nnn;
                Ok(())
            },
            Opcode::OP_3XNN(_, _) => {
                self.pc = if vx == nn { self.pc + 4 } else { self.pc + 2 };
                Ok(())
            },
            Opcode::OP_4XNN(_, _) => {
                self.pc = if vx != nn { self.pc + 4 } else { self.pc + 2 };
                Ok(())
            },
            Opcode::OP_5XY0(_, _) => {
                self.pc = if vx == vy { self.pc + 4 } else { self.pc + 2 };
                Ok(())
            },
            Opcode::OP_6XNN(_, _) => {
                self.v[x] = nn;
                self.pc = self.pc + 2;
                Ok(())
            },
            Opcode::OP_7XNN(_, _) => {
                let sum = vx as u16 + nn as u16;
                self.v[x] = if sum < 256 { sum as u8 } else { (sum - 256) as u8 };
                self.pc = self.pc + 2;
                Ok(())
            },
            Opcode::OP_8XY0(_, _) => {
                self.v[x] = vy;
                self.pc = self.pc + 2;
                Ok(())
            },
            Opcode::OP_8XY1(_, _) => {
                self.v[x] = vx | vy;
                self.pc = self.pc + 2;
                Ok(())
            },
            Opcode::OP_8XY2(_, _) => {
                self.v[x] = vx & vy;
                self.pc = self.pc + 2;
                Ok(())
            },
            Opcode::OP_8XY3(_, _) => {
                self.v[x] = vx ^ vy;
                self.pc = self.pc + 2;
                Ok(())
            },
            Opcode::OP_8XY4(_, _) => {
                let sum = vx as u16 + vy as u16;
                self.v[x] = if sum < 256 { sum as u8 } else { (sum - 256) as u8 };
                self.v[15] = if sum > 255 { 1 } else { 0 };
                self.pc = self.pc + 2;
                Ok(())
            },
            Opcode::OP_8XY5(_, _) => {
                self.v[x] = if vx >= vy { vx - vy } else { ((vx as u16 + 256 - vy as u16)) as u8 };
                self.v[15] = if vx > vy { 1 } else { 0 };
                self.pc = self.pc + 2;
                Ok(())
            },
            Opcode::OP_8XY6(_, _) => {
                self.v[x] = vy / 2;
                self.v[15] = vy % 2;
                self.pc = self.pc + 2;
                Ok(())
            },
            Opcode::OP_8XY7(_, _) => {
                self.v[x] = if vy >= vx { vy - vx } else { ((vy as u16 + 256 - vx as u16)) as u8 };
                self.v[15] = if vx > vy { 0 } else { 1 };
                self.pc = self.pc + 2;
                Ok(())
            },
            Opcode::OP_8XYE(_, _) => {
                let dbl = 2 * (vy as u16);
                self.v[x] = if dbl < 256 { dbl as u8 } else { (dbl - 256) as u8 };
                self.v[15] = vy / 128;
                self.pc = self.pc + 2;
                Ok(())
            },
            Opcode::OP_9XY0(_, _) => {
                self.pc = if vx != vy { self.pc + 4 } else { self.pc + 2 };
                Ok(())
            },
            Opcode::OP_ANNN(_) => {
                self.i = nnn;
                self.pc = self.pc + 2;
                Ok(())
            },
            Opcode::OP_BNNN(_) => {
                self.pc = self.v[0] as u16 + nnn;
                Ok(())
            },
            Opcode::OP_CXNN(_, _) => {
                self.v[x] = entropy & nn;
                self.pc = self.pc + 2;
                Ok(())
            },
            Opcode::OP_DXYN(_, _, _) => {
                if self.i as usize + n as usize > RAM_SIZE {
                    return Err(Fault::Address { addr: self.pc });
                }
                let collided = Self::draw_sprite(interconnect, self.i, vx, vy, n);
                self.v[15] = if collided { 1 } else { 0 };
                interconnect.display().commit_frame();
                self.pc = self.pc + 2;
                Ok(())
            },
            Opcode::OP_EX9E(_) => {
                let pressed = interconnect.key_pressed((vx % 16) as usize);
                self.pc = if pressed { self.pc + 4 } else { self.pc + 2 };
                Ok(())
            },
            Opcode::OP_EXA1(_) => {
                let pressed = interconnect.key_pressed((vx % 16) as usize);
                self.pc = if !pressed { self.pc + 4 } else { self.pc + 2 };
                Ok(())
            },
            Opcode::OP_FX07(_) => {
                self.v[x] = self.delay_timer;
                self.pc = self.pc + 2;
                Ok(())
            },
            Opcode::OP_FX0A(_) => {
                self.awaiting_key = Some(x as u8);
                Ok(())
            },
            Opcode::OP_FX15(_) => {
                self.delay_timer = vx;
                self.pc = self.pc + 2;
                Ok(())
            },
            Opcode::OP_FX18(_) => {
                self.pc = self.pc + 2;
                Ok(())
            },
            Opcode::OP_FX1E(_) => {
                let sum = self.i as u32 + vx as u32;
                self.i = if sum < 65536 { sum as u16 } else { (sum - 65536) as u16 };
                self.pc = self.pc + 2;
                Ok(())
            },
            Opcode::OP_FX29(_) => {
                self.i = (vx % 16) as u16 * 5;
                self.pc = self.pc + 2;
                Ok(())
            },
            Opcode::OP_FX33(_) => {
                if self.i as usize + 3 > RAM_SIZE {
                    return Err(Fault::Address { addr: self.pc });
                }
                let mut digits: Vec<u8> = Vec::new();
                digits.push(vx / 100);
                digits.push((vx / 10) % 10);
                digits.push(vx % 10);
                proof {
                    assert(digits@ =~= seq![vx / 100, (vx / 10) % 10, vx % 10]);
                }
                let w = interconnect.write_memory(self.i, &digits);
                assert(w is Ok);
                self.pc = self.pc + 2;
                Ok(())
            },
            Opcode::OP_FX55(_) => {
                if self.i as usize + x + 1 > RAM_SIZE {
                    return Err(Fault::Address { addr: self.pc });
                }
                let mut regs: Vec<u8> = Vec::new();
                let mut k: usize = 0;
                while k < x + 1
                    invariant
                        k <= x + 1,
                        x < REG_COUNT,
                        self.v@.len() == REG_COUNT,
                        regs@.len() == k,
                        forall|j: int| 0 <= j < k ==> regs@[j] == self.v@[j],
                    decreases x + 1 - k,
                {
                    regs.push(self.v[k]);
                    k += 1;
                }
                proof {
                    assert(regs@ =~= self@.v.subrange(0, x + 1));
                }
                let w = interconnect.write_memory(self.i, &regs);
                assert(w is Ok);
                self.pc = self.pc + 2;
                Ok(())
            },
            Opcode::OP_FX65(_) => {
                if self.i as usize + x + 1 > RAM_SIZE {
                    return Err(Fault::Address { addr: self.pc });
                }
                let mut k: usize = 0;
                while k < x + 1
                    invariant
                        k <= x + 1,
                        x < REG_COUNT,
                        self.i + x + 1 <= RAM_SIZE,
                        interconnect == old(interconnect),
                        interconnect.wf(),
                        self.v@.len() == REG_COUNT,
                        self.i == old(self)@.i,
                        self.pc == old(self)@.pc,
                        self.stack@ == old(self)@.stack,
                        self.sp == old(self)@.sp,
                        self.delay_timer == old(self)@.delay_timer,
                        self.awaiting_key == old(self)@.awaiting_key,
                        forall|j: int|
                            0 <= j < k ==> self.v@[j] == interconnect.ram_view()[self@.i + j],
                        forall|j: int| k <= j < REG_COUNT ==> self.v@[j] == old(self)@.v[j],
                    decreases x + 1 - k,
                {
                    self.v[k] = interconnect.read_byte(self.i + k as u16);
                    k += 1;
                }
                proof {
                    assert(self@.v =~= load_regs(
                        old(self)@.v,
                        interconnect.ram_view(),
                        self@.i as int,
                        x + 1,
                    ));
                }
                self.pc = self.pc + 2;
                Ok(())
            },
            Opcode::UNKNOWN => Err(Fault::Decode { addr: self.pc, word: opcode }),
        }
    }

    /// A copy of the architectural state for the debug plane, decoupled
    /// from the live engine.
    pub fn snapshot(&self) -> (r: crate::debug::CpuSnapshot)
        requires
            self.wf(),
        ensures
            r.wf(),
            r.v@ == self@.v,
            r.i == self@.i,
            r.pc == self@.pc,
            r.sp == self@.sp,
            r.stack@ == self@.stack,
    {
        let mut v: Vec<u8> = Vec::new();
        let mut stack: Vec<u16> = Vec::new();
        let mut k: usize = 0;
        while k < REG_COUNT
            invariant
                k <= REG_COUNT,
                self.wf(),
                v@.len() == k,
                stack@.len() == k,
                forall|j: int| 0 <= j < k ==> v@[j] == self@.v[j],
                forall|j: int| 0 <= j < k ==> stack@[j] == self@.stack[j],
            decreases REG_COUNT - k,
        {
            v.push(self.v[k]);
            stack.push(self.stack[k]);
            k += 1;
        }
        proof {
            assert(v@ =~= self@.v);
            assert(stack@ =~= self@.stack);
        }
        crate::debug::CpuSnapshot { v, i: self.i, pc: self.pc, sp: self.sp, stack }
    }

    /// Exclusive-ors the `n`-row sprite at address `i` into the output
    /// surface at column `vx`, row `vy`, and reports whether any toggle
    /// turned a previously-set pixel off. Coordinates wrap around the
    /// surface edges.
    fn draw_sprite(interconnect: &mut Interconnect, i: u16, vx: u8, vy: u8, n: u8) -> (collided:
        bool)
        requires
            old(interconnect).wf(),
            i + n <= RAM_SIZE,
            n <= 15,
        ensures
            final(interconnect).wf(),
            final(interconnect).ram_view() == old(interconnect).ram_view(),
            final(interconnect).keys_view() == old(interconnect).keys_view(),
            final(interconnect).frames() == old(interconnect).frames(),
            (final(interconnect).vram_view(), collided) == draw_rows(
                old(interconnect).vram_view(),
                old(interconnect).ram_view(),
                i as int,
                vx as int,
                vy as int,
                n as int,
            ),
    {
        let mut collided = false;
        let mut j: u8 = 0;
        while j < n
            invariant
                interconnect.wf(),
                interconnect.ram_view() == old(interconnect).ram_view(),
                interconnect.keys_view() == old(interconnect).keys_view(),
                interconnect.frames() == old(interconnect).frames(),
                j <= n,
                n <= 15,
                i + n <= RAM_SIZE,
                (interconnect.vram_view(), collided) == draw_rows(
                    old(interconnect).vram_view(),
                    old(interconnect).ram_view(),
                    i as int,
                    vx as int,
                    vy as int,
                    j as int,
                ),
            decreases n - j,
        {
            let byte = interconnect.read_byte(i + j as u16);
            let py = (vy as usize + j as usize) % CHIP8_HEIGHT;
            let ghost row_start = interconnect.vram_view();
            let mut row_coll = false;
            let mut b: usize = 0;
            while b < 8
                invariant
                    interconnect.wf(),
                    interconnect.ram_view() == old(interconnect).ram_view(),
                    interconnect.keys_view() == old(interconnect).keys_view(),
                    interconnect.frames() == old(interconnect).frames(),
                    b <= 8,
                    py < CHIP8_HEIGHT,
                    (interconnect.vram_view(), row_coll) == draw_byte(
                        row_start,
                        byte,
                        vx as int,
                        py as int,
                        b as int,
                    ),
                decreases 8 - b,
            {
                let weight = bit_mask(b);
                if (byte / weight) % 2 == 1 {
                    let px = (vx as usize + b) % CHIP8_WIDTH;
                    let c = interconnect.display().xor_pixel(px, py);
                    row_coll = row_coll || c;
                }
                b += 1;
            }
            collided = collided || row_coll;
            j += 1;
        }
        collided
    }
}

/// Register-to-register arithmetic stays inside the register file and
/// sets `VF` exactly by each instruction's carry/borrow rule.
///
/// For every word of the arithmetic/shift family, the register indices
/// the word names lie in `[0, 15]`, the instruction succeeds, registers
/// other than `Vx` and `VF` keep their contents, and `VF` ends up holding
/// exactly the flag the rule states — a function of `Vx` and `Vy` alone,
/// independent of the other registers' contents.
pub proof fn lemma_arith_vf(m: MachineView, w: u16, entropy: u8)
    requires
        wf_machine(m),
        m.cpu.pc + 1 < RAM_SIZE,
        op1(w) == 0x8,
        decode(w) !is UNKNOWN,
    ensures
        0 <= x_of(w) < REG_COUNT,
        0 <= y_of(w) < REG_COUNT,
        exec_op_spec(m, w, entropy) is Ok,
        ({
            let x = x_of(w) as int;
            let vx = m.cpu.v[x];
            let vy = m.cpu.v[y_of(w) as int];
            let v2 = exec_op_spec(m, w, entropy)->Ok_0.cpu.v;
            &&& v2.len() == REG_COUNT
            &&& forall|k: int|
                0 <= k < REG_COUNT && k != x && k != 15 ==> v2[k] == m.cpu.v[k]
            &&& op4(w) == 0x4 ==> v2[15] == (if vx + vy > 255 { 1u8 } else { 0u8 })
            &&& op4(w) == 0x5 ==> v2[15] == (if vx > vy { 1u8 } else { 0u8 })
            &&& op4(w) == 0x6 ==> v2[15] == vy % 2
            &&& op4(w) == 0x7 ==> v2[15] == (if vx > vy { 0u8 } else { 1u8 })
            &&& op4(w) == 0xE ==> v2[15] == vy / 128
        }),
{
    reveal(exec_op_spec);
}

/// The block store and load instructions are exact inverses.
///
/// Storing registers `V0..Vx` (inclusive, `x + 1` of them) as consecutive
/// bytes at address `i`, then loading the same count from the same
/// address into any register file — a zeroed one in particular — yields
/// the stored contents in registers `0..=x`.
pub proof fn lemma_block_store_load_inverse(
    v: Seq<u8>,
    z: Seq<u8>,
    ram: Seq<u8>,
    i: int,
    x: int,
)
    requires
        v.len() == REG_COUNT,
        z.len() == REG_COUNT,
        ram.len() == RAM_SIZE,
        0 <= x < REG_COUNT,
        0 <= i,
        i + x + 1 <= RAM_SIZE,
    ensures
        forall|k: int|
            0 <= k <= x ==> load_regs(z, write_block(ram, i, v.subrange(0, x + 1)), i, x + 1)[k]
                == v[k],
{
}

/// Some bit among the first `bits` of sprite-row byte `byte`, drawn at
/// column `vx` into row `py`, lands set on pixel `p`.
pub open spec fn hit_row(byte: u8, vx: int, py: int, bits: int, p: int) -> bool {
    exists|b: int|
        0 <= b < bits && #[trigger] sprite_bit(byte, b) == 1 && p == pix(
            (vx + b) % (CHIP8_WIDTH as int),
            py,
        )
}

/// Some set bit of the `rows`-row sprite at address `i`, drawn at column
/// `vx`, row `vy`, lands on pixel `p`.
pub open spec fn hit_sprite(ram: Seq<u8>, i: int, vx: int, vy: int, rows: int, p: int) -> bool {
    exists|j: int|
        0 <= j < rows && #[trigger] hit_row(
            ram[i + j],
            vx,
            (vy + j) % (CHIP8_HEIGHT as int),
            8,
            p,
        )
}

/// Two distinct bit positions of one sprite row land on distinct pixels:
/// wrapped columns `vx + b1` and `vx + b2` differ when `b1` and `b2` are
/// less than a surface width apart.
proof fn lemma_wrap_col_distinct(vx: int, b1: int, b2: int)
    requires
        0 <= vx,
        0 <= b1 < b2,
        b2 - b1 < CHIP8_WIDTH,
    ensures
        (vx + b1) % (CHIP8_WIDTH as int) != (vx + b2) % (CHIP8_WIDTH as int),
{
    let m = CHIP8_WIDTH as int;
    let x = vx + b1;
    let y = vx + b2;
    vstd::arithmetic::div_mod::lemma_fundamental_div_mod(x, m);
    vstd::arithmetic::div_mod::lemma_fundamental_div_mod(y, m);
    vstd::arithmetic::div_mod::lemma_mod_bound(x, m);
    vstd::arithmetic::div_mod::lemma_mod_bound(y, m);
    if x % m == y % m {
        assert(y - x == m * (y / m) - m * (x / m));
        assert(m * (y / m) - m * (x / m) == m * (y / m - x / m)) by (nonlinear_arith);
        let k = y / m - x / m;
        assert(y - x == m * k);
        assert(0 < m * k < m);
        assert(false) by (nonlinear_arith)
            requires 0 < m * k < m && m == 64;
    }
}

/// Two distinct rows of one sprite land on distinct surface rows when
/// they are less than a surface height apart.
proof fn lemma_wrap_row_distinct(vy: int, j1: int, j2: int)
    requires
        0 <= vy,
        0 <= j1 < j2,
        j2 - j1 < CHIP8_HEIGHT,
    ensures
        (vy + j1) % (CHIP8_HEIGHT as int) != (vy + j2) % (CHIP8_HEIGHT as int),
{
    let m = CHIP8_HEIGHT as int;
    let x = vy + j1;
    let y = vy + j2;
    vstd::arithmetic::div_mod::lemma_fundamental_div_mod(x, m);
    vstd::arithmetic::div_mod::lemma_fundamental_div_mod(y, m);
    vstd::arithmetic::div_mod::lemma_mod_bound(x, m);
    vstd::arithmetic::div_mod::lemma_mod_bound(y, m);
    if x % m == y % m {
        assert(m * (y / m) - m * (x / m) == m * (y / m - x / m)) by (nonlinear_arith);
        let k = y / m - x / m;
        assert(y - x == m * k);
        assert(0 < m * k < m);
        assert(false) by (nonlinear_arith)
            requires 0 < m * k < m && m == 32;
    }
}

/// What drawing one sprite row does, pixel by pixel: every set bit
/// exclusive-ors its own pixel, no other pixel changes, and a collision
/// is reported exactly when some set bit lands on a lit pixel.
pub proof fn lemma_draw_byte_pixels(vram: Seq<u8>, byte: u8, vx: int, py: int, bits: int)
    requires
        vram.len() == VRAM_SIZE,
        forall|p: int| 0 <= p < VRAM_SIZE ==> vram[p] <= 1,
        0 <= py < CHIP8_HEIGHT,
        0 <= vx,
        0 <= bits <= 8,
    ensures
        ({
            let (v2, coll) = draw_byte(vram, byte, vx, py, bits);
            &&& v2.len() == VRAM_SIZE
            &&& forall|p: int| 0 <= p < VRAM_SIZE ==> #[trigger] v2[p] <= 1
            &&& forall|p: int|
                0 <= p < VRAM_SIZE && !hit_row(byte, vx, py, bits, p) ==> v2[p] == vram[p]
            &&& forall|b: int|
                0 <= b < bits && #[trigger] sprite_bit(byte, b) == 1 ==> v2[pix(
                    (vx + b) % (CHIP8_WIDTH as int),
                    py,
                )] == 1 - vram[pix((vx + b) % (CHIP8_WIDTH as int), py)]
            &&& coll <==> exists|b: int|
                0 <= b < bits && #[trigger] sprite_bit(byte, b) == 1 && vram[pix(
                    (vx + b) % (CHIP8_WIDTH as int),
                    py,
                )] == 1
        }),
    decreases bits,
{
    let width = CHIP8_WIDTH as int;
    if bits > 0 {
        lemma_draw_byte_pixels(vram, byte, vx, py, bits - 1);
        let (v1, c1) = draw_byte(vram, byte, vx, py, bits - 1);
        let (v2, coll) = draw_byte(vram, byte, vx, py, bits);
        let b0 = bits - 1;
        if sprite_bit(byte, b0) == 1 {
            let p0 = pix((vx + b0) % width, py);
            assert(0 <= (vx + b0) % width < width) by {
                vstd::arithmetic::div_mod::lemma_mod_bound(vx + b0, width);
            }
            assert(0 <= p0 < VRAM_SIZE);
            // no earlier bit of this row lands on p0
            assert(!hit_row(byte, vx, py, bits - 1, p0)) by {
                assert forall|b: int|
                    0 <= b < bits - 1 && #[trigger] sprite_bit(byte, b) == 1 implies p0 != pix(
                    (vx + b) % width,
                    py,
                ) by {
                    lemma_wrap_col_distinct(vx, b, b0);
                }
            }
            assert(v1[p0] == vram[p0]);
            // the untouched pixels
            assert forall|p: int|
                0 <= p < VRAM_SIZE && !hit_row(byte, vx, py, bits, p) implies v2[p] == vram[p] by {
                assert(!hit_row(byte, vx, py, bits - 1, p));
                assert(p != p0);
            }
            // the toggled pixels
            assert forall|b: int|
                0 <= b < bits && #[trigger] sprite_bit(byte, b) == 1 implies v2[pix(
                (vx + b) % width,
                py,
            )] == 1 - vram[pix((vx + b) % width, py)] by {
                vstd::arithmetic::div_mod::lemma_mod_bound(vx + b, width);
                if b < b0 {
                    lemma_wrap_col_distinct(vx, b, b0);
                    assert(pix((vx + b) % width, py) != p0);
                }
            }
            // the collision report
            if coll {
                if c1 {
                    let bw = choose|b: int|
                        0 <= b < bits - 1 && #[trigger] sprite_bit(byte, b) == 1 && vram[pix(
                            (vx + b) % width,
                            py,
                        )] == 1;
                    assert(0 <= bw < bits && sprite_bit(byte, bw) == 1 && vram[pix(
                        (vx + bw) % width,
                        py,
                    )] == 1);
                } else {
                    assert(vram[p0] == 1);
                }
            }
            if exists|b: int|
                0 <= b < bits && #[trigger] sprite_bit(byte, b) == 1 && vram[pix(
                    (vx + b) % width,
                    py,
                )] == 1 {
                let bw = choose|b: int|
                    0 <= b < bits && #[trigger] sprite_bit(byte, b) == 1 && vram[pix(
                        (vx + b) % width,
                        py,
                    )] == 1;
                if bw < bits - 1 {
                    assert(c1);
                } else {
                    assert(v1[p0] == 1);
                }
                assert(coll);
            }
        } else {
            assert forall|p: int|
                0 <= p < VRAM_SIZE && !hit_row(byte, vx, py, bits, p) implies v2[p] == vram[p] by {
                assert(!hit_row(byte, vx, py, bits - 1, p));
            }
            assert forall|b: int|
                0 <= b < bits && #[trigger] sprite_bit(byte, b) == 1 implies v2[pix(
                (vx + b) % width,
                py,
            )] == 1 - vram[pix((vx + b) % width, py)] by {
                assert(b != bits - 1);
            }
        }
    }
}

/// Some set bit of the sprite lands on a pixel that is already lit.
pub open spec fn collide_sprite(
    vram: Seq<u8>,
    ram: Seq<u8>,
    i: int,
    vx: int,
    vy: int,
    rows: int,
) -> bool {
    exists|j: int, b: int|
        0 <= j < rows && 0 <= b < 8 && #[trigger] sprite_bit(ram[i + j], b) == 1 && vram[pix(
            (vx + b) % (CHIP8_WIDTH as int),
            (vy + j) % (CHIP8_HEIGHT as int),
        )] == 1
}

/// Pixel indices are injective in (column, row) while the column is in
/// range.
proof fn lemma_pix_injective(c1: int, r1: int, c2: int, r2: int)
    requires
        0 <= c1 < CHIP8_WIDTH,
        0 <= c2 < CHIP8_WIDTH,
        pix(c1, r1) == pix(c2, r2),
    ensures
        c1 == c2,
        r1 == r2,
{
}

/// What drawing a whole sprite does, pixel by pixel: every set bit
/// exclusive-ors its own pixel, no other pixel changes, and a collision
/// is reported exactly when some set bit lands on a lit pixel.
pub proof fn lemma_draw_rows_pixels(vram: Seq<u8>, ram: Seq<u8>, i: int, vx: int, vy: int, rows: int)
    requires
        vram.len() == VRAM_SIZE,
        forall|p: int| 0 <= p < VRAM_SIZE ==> vram[p] <= 1,
        ram.len() == RAM_SIZE,
        0 <= vx,
        0 <= vy,
        0 <= rows <= 15,
        0 <= i,
        i + rows <= RAM_SIZE,
    ensures
        ({
            let (v2, coll) = draw_rows(vram, ram, i, vx, vy, rows);
            &&& v2.len() == VRAM_SIZE
            &&& forall|p: int| 0 <= p < VRAM_SIZE ==> #[trigger] v2[p] <= 1
            &&& forall|p: int|
                0 <= p < VRAM_SIZE && !hit_sprite(ram, i, vx, vy, rows, p) ==> v2[p] == vram[p]
            &&& forall|j: int, b: int|
                0 <= j < rows && 0 <= b < 8 && #[trigger] sprite_bit(ram[i + j], b) == 1 ==> v2[pix(
                    (vx + b) % (CHIP8_WIDTH as int),
                    (vy + j) % (CHIP8_HEIGHT as int),
                )] == 1 - vram[pix(
                    (vx + b) % (CHIP8_WIDTH as int),
                    (vy + j) % (CHIP8_HEIGHT as int),
                )]
            &&& coll <==> collide_sprite(vram, ram, i, vx, vy, rows)
        }),
    decreases rows,
{
    let width = CHIP8_WIDTH as int;
    let height = CHIP8_HEIGHT as int;
    if rows > 0 {
        lemma_draw_rows_pixels(vram, ram, i, vx, vy, rows - 1);
        let (v1, c1) = draw_rows(vram, ram, i, vx, vy, rows - 1);
        let j0 = rows - 1;
        let byte0 = ram[i + j0];
        let py0 = (vy + j0) % height;
        assert(0 <= py0 < height) by {
            vstd::arithmetic::div_mod::lemma_mod_bound(vy + j0, height);
        }
        lemma_draw_byte_pixels(v1, byte0, vx, py0, 8);
        let (v2, coll) = draw_rows(vram, ram, i, vx, vy, rows);
        assert((v2, coll) == {
            let (va, ca) = draw_byte(v1, byte0, vx, py0, 8);
            (va, c1 || ca)
        });
        let (va, ca) = draw_byte(v1, byte0, vx, py0, 8);

        // row j0's pixels hold their original values in v1
        assert forall|b: int|
            #![trigger sprite_bit(byte0, b)]
            0 <= b < 8 implies v1[pix((vx + b) % width, py0)] == vram[pix(
            (vx + b) % width,
            py0,
        )] by {
            vstd::arithmetic::div_mod::lemma_mod_bound(vx + b, width);
            let p = pix((vx + b) % width, py0);
            assert(0 <= p < VRAM_SIZE);
            assert(!hit_sprite(ram, i, vx, vy, rows - 1, p)) by {
                assert forall|j: int|
                    0 <= j < rows - 1 implies !#[trigger] hit_row(
                    ram[i + j],
                    vx,
                    (vy + j) % height,
                    8,
                    p,
                ) by {
                    lemma_wrap_row_distinct(vy, j, j0);
                    if hit_row(ram[i + j], vx, (vy + j) % height, 8, p) {
                        let bb = choose|bb: int|
                            0 <= bb < 8 && #[trigger] sprite_bit(ram[i + j], bb) == 1 && p == pix(
                                (vx + bb) % width,
                                (vy + j) % height,
                            );
                        vstd::arithmetic::div_mod::lemma_mod_bound(vx + bb, width);
                        lemma_pix_injective(
                            (vx + bb) % width,
                            (vy + j) % height,
                            (vx + b) % width,
                            py0,
                        );
                    }
                }
            }
        }

        // untouched pixels
        assert forall|p: int|
            0 <= p < VRAM_SIZE && !hit_sprite(ram, i, vx, vy, rows, p) implies v2[p] == vram[p] by {
            assert(!hit_sprite(ram, i, vx, vy, rows - 1, p)) by {
                assert forall|j: int|
                    0 <= j < rows - 1 && #[trigger] hit_row(
                        ram[i + j],
                        vx,
                        (vy + j) % height,
                        8,
                        p,
                    ) implies false by {
                    assert(hit_sprite(ram, i, vx, vy, rows, p));
                }
            }
            assert(!hit_row(byte0, vx, py0, 8, p)) by {
                if hit_row(byte0, vx, py0, 8, p) {
                    assert(hit_sprite(ram, i, vx, vy, rows, p));
                }
            }
        }

        // toggled pixels
        assert forall|j: int, b: int|
            0 <= j < rows && 0 <= b < 8 && #[trigger] sprite_bit(ram[i + j], b) == 1 implies v2[pix(
            (vx + b) % width,
            (vy + j) % height,
        )] == 1 - vram[pix((vx + b) % width, (vy + j) % height)] by {
            vstd::arithmetic::div_mod::lemma_mod_bound(vx + b, width);
            vstd::arithmetic::div_mod::lemma_mod_bound(vy + j, height);
            let p = pix((vx + b) % width, (vy + j) % height);
            if j == j0 {
                assert(va[p] == 1 - v1[p]);
                assert(v1[p] == vram[p]);
            } else {
                // toggled by its own row, then left alone by row j0
                lemma_wrap_row_distinct(vy, j, j0);
                assert(v1[p] == 1 - vram[p]);
                assert(!hit_row(byte0, vx, py0, 8, p)) by {
                    if hit_row(byte0, vx, py0, 8, p) {
                        let bb = choose|bb: int|
                            0 <= bb < 8 && #[trigger] sprite_bit(byte0, bb) == 1 && p == pix(
                                (vx + bb) % width,
                                py0,
                            );
                        vstd::arithmetic::div_mod::lemma_mod_bound(vx + bb, width);
                        lemma_pix_injective(
                            (vx + bb) % width,
                            py0,
                            (vx + b) % width,
                            (vy + j) % height,
                        );
                    }
                }
            }
        }

        // the collision report
        if coll {
            assert(collide_sprite(vram, ram, i, vx, vy, rows)) by {
                if c1 {
                    let (jw, bw) = choose|jw: int, bw: int|
                        0 <= jw < rows - 1 && 0 <= bw < 8 && #[trigger] sprite_bit(ram[i + jw], bw)
                            == 1 && vram[pix((vx + bw) % width, (vy + jw) % height)] == 1;
                    assert(0 <= jw < rows && 0 <= bw < 8 && sprite_bit(ram[i + jw], bw) == 1
                        && vram[pix((vx + bw) % width, (vy + jw) % height)] == 1);
                } else {
                    let bw = choose|bw: int|
                        0 <= bw < 8 && #[trigger] sprite_bit(byte0, bw) == 1 && v1[pix(
                            (vx + bw) % width,
                            py0,
                        )] == 1;
                    assert(vram[pix((vx + bw) % width, py0)] == 1);
                    assert(0 <= j0 < rows && 0 <= bw < 8 && sprite_bit(ram[i + j0], bw) == 1
                        && vram[pix((vx + bw) % width, (vy + j0) % height)] == 1);
                }
            }
        }
        if collide_sprite(vram, ram, i, vx, vy, rows) {
            let (jw, bw) = choose|jw: int, bw: int|
                0 <= jw < rows && 0 <= bw < 8 && #[trigger] sprite_bit(ram[i + jw], bw) == 1
                    && vram[pix((vx + bw) % width, (vy + jw) % height)] == 1;
            if jw < rows - 1 {
                assert(collide_sprite(vram, ram, i, vx, vy, rows - 1));
                assert(c1);
            } else {
                assert(v1[pix((vx + bw) % width, py0)] == vram[pix((vx + bw) % width, py0)]);
                assert(ca) by {
                    assert(0 <= bw < 8 && sprite_bit(byte0, bw) == 1 && v1[pix(
                        (vx + bw) % width,
                        py0,
                    )] == 1);
                }
            }
            assert(coll);
        }
    }
}

/// Drawing a sprite onto a cleared surface yields exactly the sprite's
/// bits: every set bit lights its own pixel, every other pixel stays
/// dark, and no collision is reported.
pub proof fn lemma_draw_on_cleared(ram: Seq<u8>, i: int, vx: int, vy: int, rows: int)
    requires
        ram.len() == RAM_SIZE,
        0 <= vx,
        0 <= vy,
        0 <= rows <= 15,
        0 <= i,
        i + rows <= RAM_SIZE,
    ensures
        ({
            let zv = Seq::new(VRAM_SIZE as nat, |p: int| 0u8);
            let (v2, coll) = draw_rows(zv, ram, i, vx, vy, rows);
            &&& !coll
            &&& forall|j: int, b: int|
                0 <= j < rows && 0 <= b < 8 && #[trigger] sprite_bit(ram[i + j], b) == 1 ==> v2[pix(
                    (vx + b) % (CHIP8_WIDTH as int),
                    (vy + j) % (CHIP8_HEIGHT as int),
                )] == 1
            &&& forall|p: int|
                0 <= p < VRAM_SIZE && !hit_sprite(ram, i, vx, vy, rows, p) ==> v2[p] == 0
        }),
{
    let zv = Seq::new(VRAM_SIZE as nat, |p: int| 0u8);
    lemma_draw_rows_pixels(zv, ram, i, vx, vy, rows);
}

/// Drawing the same sprite at the same location twice leaves an all-dark
/// surface, and the second draw reports a collision exactly when the
/// sprite has any set bit.
pub proof fn lemma_draw_twice_cancels(ram: Seq<u8>, i: int, vx: int, vy: int, rows: int)
    requires
        ram.len() == RAM_SIZE,
        0 <= vx,
        0 <= vy,
        0 <= rows <= 15,
        0 <= i,
        i + rows <= RAM_SIZE,
    ensures
        ({
            let zv = Seq::new(VRAM_SIZE as nat, |p: int| 0u8);
            let (v1, c1) = draw_rows(zv, ram, i, vx, vy, rows);
            let (v2, c2) = draw_rows(v1, ram, i, vx, vy, rows);
            &&& forall|p: int| 0 <= p < VRAM_SIZE ==> #[trigger] v2[p] == 0
            &&& c2 <==> exists|j: int, b: int|
                0 <= j < rows && 0 <= b < 8 && #[trigger] sprite_bit(ram[i + j], b) == 1
        }),
{
    let width = CHIP8_WIDTH as int;
    let height = CHIP8_HEIGHT as int;
    let zv = Seq::new(VRAM_SIZE as nat, |p: int| 0u8);
    lemma_draw_rows_pixels(zv, ram, i, vx, vy, rows);
    let (v1, c1) = draw_rows(zv, ram, i, vx, vy, rows);
    lemma_draw_rows_pixels(v1, ram, i, vx, vy, rows);
    let (v2, c2) = draw_rows(v1, ram, i, vx, vy, rows);

    assert forall|p: int| 0 <= p < VRAM_SIZE implies #[trigger] v2[p] == 0 by {
        if hit_sprite(ram, i, vx, vy, rows, p) {
            let j = choose|j: int|
                0 <= j < rows && #[trigger] hit_row(ram[i + j], vx, (vy + j) % height, 8, p);
            let b = choose|b: int|
                0 <= b < 8 && #[trigger] sprite_bit(ram[i + j], b) == 1 && p == pix(
                    (vx + b) % width,
                    (vy + j) % height,
                );
            assert(v1[p] == 1 - zv[p]);
            assert(v2[p] == 1 - v1[p]);
        } else {
            assert(v1[p] == zv[p]);
            assert(v2[p] == v1[p]);
        }
    }

    if c2 {
        let (jw, bw) = choose|jw: int, bw: int|
            0 <= jw < rows && 0 <= bw < 8 && #[trigger] sprite_bit(ram[i + jw], bw) == 1 && v1[pix(
                (vx + bw) % width,
                (vy + jw) % height,
            )] == 1;
        assert(0 <= jw < rows && 0 <= bw < 8 && sprite_bit(ram[i + jw], bw) == 1);
    }
    if exists|j: int, b: int|
        0 <= j < rows && 0 <= b < 8 && #[trigger] sprite_bit(ram[i + j], b) == 1 {
        let (jw, bw) = choose|jw: int, bw: int|
            0 <= jw < rows && 0 <= bw < 8 && #[trigger] sprite_bit(ram[i + jw], bw) == 1;
        vstd::arithmetic::div_mod::lemma_mod_bound(vx + bw, width);
        vstd::arithmetic::div_mod::lemma_mod_bound(vy + jw, height);
        assert(v1[pix((vx + bw) % width, (vy + jw) % height)] == 1 - zv[pix(
            (vx + bw) % width,
            (vy + jw) % height,
        )]);
        assert(collide_sprite(v1, ram, i, vx, vy, rows)) by {
            assert(0 <= jw < rows && 0 <= bw < 8 && sprite_bit(ram[i + jw], bw) == 1 && v1[pix(
                (vx + bw) % width,
                (vy + jw) % height,
            )] == 1);
        }
        assert(c2);
    }
}

/// A machine parked on a jump-to-itself is a fixed point of the cycle:
/// with the delay timer already zero, no key-wait pending, and the word
/// at the program counter jumping back to the program counter, one cycle
/// changes nothing — whatever the entropy byte.
pub proof fn lemma_jump_self_fixed_point(m: MachineView, e: u8)
    requires
        wf_machine(m),
        m.cpu.awaiting_key is None,
        m.cpu.delay_timer == 0,
        m.cpu.pc + 1 < RAM_SIZE,
        m.ram[m.cpu.pc as int] * 256 + m.ram[m.cpu.pc as int + 1] == 0x1000 + m.cpu.pc,
        m.cpu.pc < 0x1000,
    ensures
        cycle_spec(m, e) == Ok::<MachineView, Fault>(m),
{
    reveal(exec_op_spec);
    let w = (m.ram[m.cpu.pc as int] * 256 + m.ram[m.cpu.pc as int + 1]) as u16;
    assert(decode(w) == Opcode::OP_1NNN(m.cpu.pc));
    assert(exec_op_spec(m, w, e)->Ok_0 =~= m);
}

/// Once parked on a jump-to-itself, the machine stays exactly where it
/// is for any further number of cycles: the program counter keeps its
/// value and no register changes.
pub proof fn lemma_jump_self_forever(m: MachineView, es: Seq<u8>)
    requires
        wf_machine(m),
        m.cpu.awaiting_key is None,
        m.cpu.delay_timer == 0,
        m.cpu.pc + 1 < RAM_SIZE,
        m.ram[m.cpu.pc as int] * 256 + m.ram[m.cpu.pc as int + 1] == 0x1000 + m.cpu.pc,
        m.cpu.pc < 0x1000,
    ensures
        run_spec(m, es) == Ok::<MachineView, Fault>(m),
    decreases es.len(),
{
    if es.len() > 0 {
        lemma_jump_self_forever(m, es.drop_last());
        lemma_jump_self_fixed_point(m, es.last());
    }
}

/// The settled orbit of the two-instruction program `6A02 1200` loaded at
/// 0x200: once `VA` holds 2 and the program counter is back at 0x200,
/// cycles alternate between the two program addresses and no register
/// ever changes again. After any even number of further cycles the
/// machine is exactly where it was; after any odd number only the
/// program counter differs, holding the second instruction's address.
pub proof fn lemma_tight_loop_orbit(m: MachineView, es: Seq<u8>)
    requires
        wf_machine(m),
        m.cpu.awaiting_key is None,
        m.cpu.delay_timer == 0,
        m.cpu.pc == 0x200,
        m.cpu.v[10] == 2,
        m.ram[0x200] == 0x6A,
        m.ram[0x201] == 0x02,
        m.ram[0x202] == 0x12,
        m.ram[0x203] == 0x00,
    ensures
        run_spec(m, es) == Ok::<MachineView, Fault>(
            if es.len() % 2 == 0 {
                m
            } else {
                MachineView { cpu: CpuView { pc: 0x202, ..m.cpu }, ..m }
            },
        ),
    decreases es.len(),
{
    reveal(exec_op_spec);
    let m2 = MachineView { cpu: CpuView { pc: 0x202, ..m.cpu }, ..m };
    if es.len() == 0 {
    } else {
        lemma_tight_loop_orbit(m, es.drop_last());
        let e = es.last();
        // from 0x200 the word is 0x6A02: VA is already 2, so only the
        // program counter moves
        assert(decode(0x6A02) == Opcode::OP_6XNN(10, 2));
        assert(exec_op_spec(m, 0x6A02, e)->Ok_0 =~= m2) by {
            assert(m.cpu.v.update(10, 2u8) =~= m.cpu.v);
        }
        assert(cycle_spec(m, e) == Ok::<MachineView, Fault>(m2));
        // from 0x202 the word is 0x1200: jump back
        assert(decode(0x1200) == Opcode::OP_1NNN(0x200));
        assert(exec_op_spec(m2, 0x1200, e)->Ok_0 =~= m);
        assert(cycle_spec(m2, e) == Ok::<MachineView, Fault>(m));
    }
}

/// Relies on `rand::thread_rng` and `rand::Rng::gen::<u8>` for one
/// uniformly drawn byte; nothing is assumed of the value, so everything
/// proved of a cycle holds whichever byte comes back.
#[verifier::external_body]
fn random_byte() -> u8 {
    rand::Rng::gen::<u8>(&mut rand::thread_rng())
}

/// The weight of bit position `b` of a sprite-row byte, most significant
/// first, as an executable value.
fn bit_mask(b: usize) -> (r: u8)
    requires
        b < 8,
    ensures
        r == bit_weight(b as int),
{
    match b {
        0 => 128,
        1 => 64,
        2 => 32,
        3 => 16,
        4 => 8,
        5 => 4,
        6 => 2,
        _ => 1,
    }
}

} // verus!
