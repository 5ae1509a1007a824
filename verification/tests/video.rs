//! Draw, clear, frame commits, timers and key-wait, driven cycle by
//! cycle.

use chip8vm::chip8::Chip8;
use chip8vm::cpu::Cpu;
use chip8vm::debug::{Chip8Snapshots, DbgMessage};
use chip8vm::display::{Display, CHIP8_WIDTH};
use chip8vm::keypad::Keypad;
use chip8vm::mem::Interconnect;

fn machine() -> (Cpu, Interconnect) {
    (Cpu::new(), Interconnect::new(Display::new(), Keypad::new()))
}

fn exec(cpu: &mut Cpu, ic: &mut Interconnect, word: u16) {
    cpu.execute_opcode(word, ic, 0).expect("instruction must succeed");
}

fn pixel(ic: &mut Interconnect, x: usize, y: usize) -> u8 {
    ic.display().vram()[y * CHIP8_WIDTH + x]
}

/// The glyph for digit 0: F0 90 90 90 F0.
const GLYPH0: [[u8; 4]; 5] = [
    [1, 1, 1, 1],
    [1, 0, 0, 1],
    [1, 0, 0, 1],
    [1, 0, 0, 1],
    [1, 1, 1, 1],
];

#[test]
fn clear_then_draw_leaves_exactly_the_sprite() {
    let (mut cpu, mut ic) = machine();
    let font = chip8vm::chip8::font_table();
    ic.write_memory(0, &font).unwrap();
    // dirty the screen first, then clear it
    exec(&mut cpu, &mut ic, 0xA000); // I = 0 (glyph 0)
    exec(&mut cpu, &mut ic, 0x6000); // V0 = 0
    exec(&mut cpu, &mut ic, 0x6103); // V1 = 3
    exec(&mut cpu, &mut ic, 0xD015); // draw somewhere
    exec(&mut cpu, &mut ic, 0x00E0); // clear
    exec(&mut cpu, &mut ic, 0x6100); // V1 = 0
    exec(&mut cpu, &mut ic, 0xD015); // draw glyph 0 at (0, 0)
    // exactly the glyph's bits are set, nothing else
    for y in 0..32 {
        for x in 0..64 {
            let want = if x < 4 && y < 5 { GLYPH0[y][x] } else { 0 };
            assert_eq!(pixel(&mut ic, x, y), want, "pixel ({}, {})", x, y);
        }
    }
    assert_eq!(cpu.snapshot().v[15], 0); // no collision on a cleared screen
}

#[test]
fn drawing_twice_cancels_and_reports_collision() {
    let (mut cpu, mut ic) = machine();
    let font = chip8vm::chip8::font_table();
    ic.write_memory(0, &font).unwrap();
    exec(&mut cpu, &mut ic, 0xA000);
    exec(&mut cpu, &mut ic, 0x600A); // V0 = 10
    exec(&mut cpu, &mut ic, 0x6107); // V1 = 7
    exec(&mut cpu, &mut ic, 0xD015);
    assert_eq!(cpu.snapshot().v[15], 0);
    exec(&mut cpu, &mut ic, 0xD015); // same sprite, same location
    assert_eq!(cpu.snapshot().v[15], 1); // collision reported
    for y in 0..32 {
        for x in 0..64 {
            assert_eq!(pixel(&mut ic, x, y), 0, "pixel ({}, {})", x, y);
        }
    }
}

#[test]
fn draw_wraps_around_the_edges() {
    let (mut cpu, mut ic) = machine();
    let font = chip8vm::chip8::font_table();
    ic.write_memory(0, &font).unwrap();
    exec(&mut cpu, &mut ic, 0xA000);
    exec(&mut cpu, &mut ic, 0x603E); // V0 = 62
    exec(&mut cpu, &mut ic, 0x611E); // V1 = 30
    exec(&mut cpu, &mut ic, 0xD015);
    // the top-left bit of the glyph lands at (62, 30); its row wraps to
    // columns 62, 63, 0, 1 and its later rows wrap to rows 0..3
    assert_eq!(pixel(&mut ic, 62, 30), 1);
    assert_eq!(pixel(&mut ic, 1, 30), 1);
    assert_eq!(pixel(&mut ic, 62, 1), 1);
    assert_eq!(pixel(&mut ic, 1, 2), 1);
}

#[test]
fn each_draw_commits_one_frame_clear_commits_none() {
    let (mut cpu, mut ic) = machine();
    assert_eq!(ic.display().frame_count(), 0);
    exec(&mut cpu, &mut ic, 0xA000);
    exec(&mut cpu, &mut ic, 0xD011);
    assert_eq!(ic.display().frame_count(), 1);
    exec(&mut cpu, &mut ic, 0x00E0);
    assert_eq!(ic.display().frame_count(), 1);
    exec(&mut cpu, &mut ic, 0xD011);
    assert_eq!(ic.display().frame_count(), 2);
}

#[test]
fn sprite_read_past_memory_end_is_fatal() {
    let (mut cpu, mut ic) = machine();
    exec(&mut cpu, &mut ic, 0xAFFF); // I = 0xFFF
    let r = cpu.execute_opcode(0xD002, &mut ic, 0);
    assert_eq!(r, Err(chip8vm::Fault::Address { addr: 0x202 }));
}

#[test]
fn delay_timer_ticks_once_per_cycle() {
    let mut chip8 = Chip8::new(Display::new(), Keypad::new());
    // V0 = 5; DT = V0; V1 = DT; V2 = DT
    chip8.load_rom(&vec![0x60, 0x05, 0xF0, 0x15, 0xF1, 0x07, 0xF2, 0x07]).unwrap();
    for _ in 0..4 {
        chip8.step().unwrap();
    }
    let snap = match chip8.handle_dbg_message(DbgMessage::CPU) {
        (Some(Chip8Snapshots::CPU(s)), Ok(())) => s,
        other => panic!("expected a cpu snapshot, got {:?}", other.1),
    };
    // the timer ticks at the top of each cycle, before the read
    assert_eq!(snap.v[1], 4);
    assert_eq!(snap.v[2], 3);
}

#[test]
fn key_wait_holds_the_engine_until_a_press() {
    let mut chip8 = Chip8::new(Display::new(), Keypad::new());
    chip8.load_rom(&vec![0xF3, 0x0A]).unwrap(); // wait for a key into V3
    chip8.step().unwrap(); // enters the waiting sub-state
    chip8.step().unwrap(); // no key: an advance-less step
    chip8.step().unwrap();
    let snap = match chip8.handle_dbg_message(DbgMessage::CPU) {
        (Some(Chip8Snapshots::CPU(s)), Ok(())) => s,
        _ => panic!("expected a cpu snapshot"),
    };
    assert_eq!(snap.pc, 0x200); // still parked on the wait
    let mut keys = [false; 16];
    keys[7] = true;
    chip8.update_keypad(keys);
    chip8.step().unwrap();
    let snap = match chip8.handle_dbg_message(DbgMessage::CPU) {
        (Some(Chip8Snapshots::CPU(s)), Ok(())) => s,
        _ => panic!("expected a cpu snapshot"),
    };
    assert_eq!(snap.v[3], 7); // the pressed key's number
    assert_eq!(snap.pc, 0x202); // and the engine moved on
}

#[test]
fn a_parked_program_settles_into_its_loop() {
    // the font table at 0x000, then `6A02 1200` at 0x200: set VA to 2,
    // jump back to the start
    let mut chip8 = Chip8::new(Display::new(), Keypad::new());
    chip8.load_rom(&vec![0x6A, 0x02, 0x12, 0x00]).unwrap();
    let snap_of = |chip8: &mut Chip8| match chip8.handle_dbg_message(DbgMessage::CPU) {
        (Some(Chip8Snapshots::CPU(s)), Ok(())) => s,
        _ => panic!("expected a cpu snapshot"),
    };
    chip8.step().unwrap();
    let first = snap_of(&mut chip8);
    assert_eq!(first.v[10], 2);
    assert_eq!(first.pc, 0x202); // past the first instruction
    chip8.step().unwrap();
    assert_eq!(snap_of(&mut chip8).pc, 0x200); // the jump closes the loop
    // from here the machine only circles: the counter returns to 0x200
    // every other cycle and no register ever changes
    for round in 0..10 {
        chip8.step().unwrap();
        chip8.step().unwrap();
        let snap = snap_of(&mut chip8);
        assert_eq!(snap.pc, 0x200, "round {}", round);
        assert_eq!(snap.v, first.v);
        assert_eq!(snap.i, 0);
        assert_eq!(snap.sp, 0);
    }
}

#[test]
fn run_executes_the_requested_cycles() {
    let (mut cpu, mut ic) = machine();
    let rom = vec![0x6A, 0x02, 0x12, 0x00];
    ic.write_memory(0x200, &rom).unwrap();
    cpu.run(&mut ic, 10).unwrap();
    let s = cpu.snapshot();
    assert_eq!(s.v[10], 2);
    assert_eq!(s.pc, 0x200); // an even number of cycles closes the loop
}

#[test]
fn fetch_outside_memory_is_fatal() {
    let (mut cpu, mut ic) = machine();
    exec(&mut cpu, &mut ic, 0x1FFF); // jump to 0xFFF: no full word there
    let r = cpu.execute_cycle(&mut ic);
    assert_eq!(r, Err(chip8vm::Fault::Address { addr: 0xFFF }));
}
