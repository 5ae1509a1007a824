//! Instruction-level behavior of the execution engine.

use chip8vm::cpu::Cpu;
use chip8vm::display::Display;
use chip8vm::keypad::{Keypad, Keys};
use chip8vm::mem::Interconnect;
use chip8vm::Fault;

fn machine() -> (Cpu, Interconnect) {
    (Cpu::new(), Interconnect::new(Display::new(), Keypad::new()))
}

fn exec(cpu: &mut Cpu, ic: &mut Interconnect, word: u16) {
    cpu.execute_opcode(word, ic, 0).expect("instruction must succeed");
}

#[test]
fn add_with_carry_sets_vf() {
    let (mut cpu, mut ic) = machine();
    exec(&mut cpu, &mut ic, 0x60C8); // V0 = 200
    exec(&mut cpu, &mut ic, 0x6164); // V1 = 100
    exec(&mut cpu, &mut ic, 0x8014); // V0 += V1
    let s = cpu.snapshot();
    assert_eq!(s.v[0], 44); // 300 mod 256
    assert_eq!(s.v[15], 1);
}

#[test]
fn add_without_carry_clears_vf() {
    let (mut cpu, mut ic) = machine();
    exec(&mut cpu, &mut ic, 0x600A); // V0 = 10
    exec(&mut cpu, &mut ic, 0x6114); // V1 = 20
    exec(&mut cpu, &mut ic, 0x8014); // V0 += V1
    let s = cpu.snapshot();
    assert_eq!(s.v[0], 30);
    assert_eq!(s.v[15], 0);
}

#[test]
fn subtract_vf_from_strict_comparison_before() {
    let (mut cpu, mut ic) = machine();
    exec(&mut cpu, &mut ic, 0x600A); // V0 = 10
    exec(&mut cpu, &mut ic, 0x6114); // V1 = 20
    exec(&mut cpu, &mut ic, 0x8015); // V0 -= V1 (wraps)
    let s = cpu.snapshot();
    assert_eq!(s.v[0], 246); // 10 - 20 mod 256
    assert_eq!(s.v[15], 0); // 10 > 20 is false

    let (mut cpu, mut ic) = machine();
    exec(&mut cpu, &mut ic, 0x6014); // V0 = 20
    exec(&mut cpu, &mut ic, 0x610A); // V1 = 10
    exec(&mut cpu, &mut ic, 0x8015);
    let s = cpu.snapshot();
    assert_eq!(s.v[0], 10);
    assert_eq!(s.v[15], 1);
}

#[test]
fn subtract_equal_values_clears_vf() {
    let (mut cpu, mut ic) = machine();
    exec(&mut cpu, &mut ic, 0x6007); // V0 = 7
    exec(&mut cpu, &mut ic, 0x6107); // V1 = 7
    exec(&mut cpu, &mut ic, 0x8015);
    let s = cpu.snapshot();
    assert_eq!(s.v[0], 0);
    assert_eq!(s.v[15], 0); // 7 > 7 is false
}

#[test]
fn reverse_subtract_vf_is_complement() {
    let (mut cpu, mut ic) = machine();
    exec(&mut cpu, &mut ic, 0x6014); // V0 = 20
    exec(&mut cpu, &mut ic, 0x610A); // V1 = 10
    exec(&mut cpu, &mut ic, 0x8017); // V0 = V1 - V0
    let s = cpu.snapshot();
    assert_eq!(s.v[0], 246); // 10 - 20 mod 256
    assert_eq!(s.v[15], 0); // complement of 20 > 10
}

#[test]
fn shift_right_reads_source_register() {
    let (mut cpu, mut ic) = machine();
    exec(&mut cpu, &mut ic, 0x6105); // V1 = 5
    exec(&mut cpu, &mut ic, 0x8016); // V0 = V1 >> 1
    let s = cpu.snapshot();
    assert_eq!(s.v[0], 2);
    assert_eq!(s.v[1], 5); // source untouched
    assert_eq!(s.v[15], 1); // low bit shifted out
}

#[test]
fn shift_left_reads_source_register() {
    let (mut cpu, mut ic) = machine();
    exec(&mut cpu, &mut ic, 0x61C8); // V1 = 200
    exec(&mut cpu, &mut ic, 0x801E); // V0 = V1 << 1
    let s = cpu.snapshot();
    assert_eq!(s.v[0], 144); // 400 mod 256
    assert_eq!(s.v[15], 1); // high bit shifted out
}

#[test]
fn flag_last_when_destination_is_vf() {
    let (mut cpu, mut ic) = machine();
    exec(&mut cpu, &mut ic, 0x6FC8); // VF = 200
    exec(&mut cpu, &mut ic, 0x61C8); // V1 = 200
    exec(&mut cpu, &mut ic, 0x8F14); // VF += V1: flag wins
    let s = cpu.snapshot();
    assert_eq!(s.v[15], 1);
}

#[test]
fn bitwise_ops() {
    let (mut cpu, mut ic) = machine();
    exec(&mut cpu, &mut ic, 0x60F0);
    exec(&mut cpu, &mut ic, 0x613C);
    exec(&mut cpu, &mut ic, 0x8011); // OR
    assert_eq!(cpu.snapshot().v[0], 0xFC);
    exec(&mut cpu, &mut ic, 0x60F0);
    exec(&mut cpu, &mut ic, 0x8012); // AND
    assert_eq!(cpu.snapshot().v[0], 0x30);
    exec(&mut cpu, &mut ic, 0x60F0);
    exec(&mut cpu, &mut ic, 0x8013); // XOR
    assert_eq!(cpu.snapshot().v[0], 0xCC);
}

#[test]
fn skips_and_jumps() {
    let (mut cpu, mut ic) = machine();
    exec(&mut cpu, &mut ic, 0x6005); // V0 = 5, pc 0x202
    exec(&mut cpu, &mut ic, 0x3005); // equal: skip, pc 0x206
    assert_eq!(cpu.snapshot().pc, 0x206);
    exec(&mut cpu, &mut ic, 0x3006); // not equal: no skip, pc 0x208
    assert_eq!(cpu.snapshot().pc, 0x208);
    exec(&mut cpu, &mut ic, 0x4006); // not equal: skip
    assert_eq!(cpu.snapshot().pc, 0x20C);
    exec(&mut cpu, &mut ic, 0x6105); // V1 = 5
    exec(&mut cpu, &mut ic, 0x5010); // V0 == V1: skip
    assert_eq!(cpu.snapshot().pc, 0x212);
    exec(&mut cpu, &mut ic, 0x9010); // V0 != V1 false: no skip
    assert_eq!(cpu.snapshot().pc, 0x214);
    exec(&mut cpu, &mut ic, 0x1300); // jump
    assert_eq!(cpu.snapshot().pc, 0x300);
    exec(&mut cpu, &mut ic, 0xB100); // jump to V0 + 0x100
    assert_eq!(cpu.snapshot().pc, 0x105);
}

#[test]
fn call_and_return() {
    let (mut cpu, mut ic) = machine();
    exec(&mut cpu, &mut ic, 0x2400); // call 0x400
    let s = cpu.snapshot();
    assert_eq!(s.pc, 0x400);
    assert_eq!(s.sp, 1);
    assert_eq!(s.stack[0], 0x200);
    exec(&mut cpu, &mut ic, 0x00EE); // return
    let s = cpu.snapshot();
    assert_eq!(s.pc, 0x202);
    assert_eq!(s.sp, 0);
}

#[test]
fn return_on_empty_stack_is_fatal() {
    let (mut cpu, mut ic) = machine();
    let r = cpu.execute_opcode(0x00EE, &mut ic, 0);
    assert_eq!(r, Err(Fault::StackUnderflow { addr: 0x200 }));
    assert_eq!(cpu.snapshot().pc, 0x200); // nothing changed
}

#[test]
fn seventeenth_nested_call_is_fatal() {
    let (mut cpu, mut ic) = machine();
    for _ in 0..16 {
        exec(&mut cpu, &mut ic, 0x2400);
    }
    let pc = cpu.snapshot().pc;
    let r = cpu.execute_opcode(0x2400, &mut ic, 0);
    assert_eq!(r, Err(Fault::StackOverflow { addr: pc }));
}

#[test]
fn unrecognized_word_is_fatal_with_address_and_word() {
    let (mut cpu, mut ic) = machine();
    let r = cpu.execute_opcode(0x5001, &mut ic, 0);
    assert_eq!(r, Err(Fault::Decode { addr: 0x200, word: 0x5001 }));
    let r = cpu.execute_opcode(0xE0FF, &mut ic, 0);
    assert_eq!(r, Err(Fault::Decode { addr: 0x200, word: 0xE0FF }));
}

#[test]
fn machine_code_call_is_fatal() {
    let (mut cpu, mut ic) = machine();
    let r = cpu.execute_opcode(0x0123, &mut ic, 0);
    assert_eq!(r, Err(Fault::Decode { addr: 0x200, word: 0x0123 }));
}

#[test]
fn bcd_store() {
    let (mut cpu, mut ic) = machine();
    exec(&mut cpu, &mut ic, 0x60EA); // V0 = 234
    exec(&mut cpu, &mut ic, 0xA300); // I = 0x300
    exec(&mut cpu, &mut ic, 0xF033);
    assert_eq!(ic.read_byte(0x300), 2);
    assert_eq!(ic.read_byte(0x301), 3);
    assert_eq!(ic.read_byte(0x302), 4);
}

#[test]
fn bcd_store_out_of_range_is_fatal() {
    let (mut cpu, mut ic) = machine();
    exec(&mut cpu, &mut ic, 0xAFFE); // I = 0xFFE
    let r = cpu.execute_opcode(0xF033, &mut ic, 0);
    assert_eq!(r, Err(Fault::Address { addr: 0x202 }));
}

#[test]
fn block_store_then_load_is_identity() {
    let (mut cpu, mut ic) = machine();
    exec(&mut cpu, &mut ic, 0x6011); // V0 = 0x11
    exec(&mut cpu, &mut ic, 0x6122); // V1 = 0x22
    exec(&mut cpu, &mut ic, 0x6233); // V2 = 0x33
    exec(&mut cpu, &mut ic, 0x6344); // V3 = 0x44
    exec(&mut cpu, &mut ic, 0xA300); // I = 0x300
    exec(&mut cpu, &mut ic, 0xF355); // store V0..=V3
    // the count is x + 1 registers
    assert_eq!(ic.read_byte(0x303), 0x44);
    // zero the register file
    for x in 0..16u16 {
        exec(&mut cpu, &mut ic, 0x6000 | (x << 8));
    }
    assert_eq!(cpu.snapshot().v, vec![0u8; 16]);
    exec(&mut cpu, &mut ic, 0xF365); // load V0..=V3 back
    let s = cpu.snapshot();
    assert_eq!(&s.v[0..4], &[0x11, 0x22, 0x33, 0x44]);
    assert_eq!(&s.v[4..16], &[0u8; 12]);
}

#[test]
fn block_store_out_of_range_is_fatal() {
    let (mut cpu, mut ic) = machine();
    exec(&mut cpu, &mut ic, 0xAFFF); // I = 0xFFF
    exec(&mut cpu, &mut ic, 0xF055); // one register still fits
    let r = cpu.execute_opcode(0xF155, &mut ic, 0);
    assert_eq!(r, Err(Fault::Address { addr: 0x204 }));
}

#[test]
fn sprite_address_lookup() {
    let (mut cpu, mut ic) = machine();
    exec(&mut cpu, &mut ic, 0x600B); // V0 = 11
    exec(&mut cpu, &mut ic, 0xF029);
    assert_eq!(cpu.snapshot().i, 55); // 11 * 5
}

#[test]
fn add_to_index() {
    let (mut cpu, mut ic) = machine();
    exec(&mut cpu, &mut ic, 0xA300); // I = 0x300
    exec(&mut cpu, &mut ic, 0x6005); // V0 = 5
    exec(&mut cpu, &mut ic, 0xF01E);
    assert_eq!(cpu.snapshot().i, 0x305);
}

#[test]
fn random_is_masked_by_immediate() {
    let (mut cpu, mut ic) = machine();
    // a zero mask pins the result whatever the entropy
    cpu.execute_opcode(0xC000, &mut ic, 0xFF).unwrap();
    assert_eq!(cpu.snapshot().v[0], 0);
    // the entropy byte passes through a full mask
    cpu.execute_opcode(0xC1FF, &mut ic, 0xAB).unwrap();
    assert_eq!(cpu.snapshot().v[1], 0xAB);
    cpu.execute_opcode(0xC20F, &mut ic, 0xAB).unwrap();
    assert_eq!(cpu.snapshot().v[2], 0x0B);
}

#[test]
fn keys_map_to_their_keypad_positions() {
    assert_eq!(Keys::K0.index(), 0);
    assert_eq!(Keys::K9.index(), 9);
    assert_eq!(Keys::KA.index(), 10);
    assert_eq!(Keys::KF.index(), 15);
}

#[test]
fn a_run_stops_at_the_first_fault() {
    let (mut cpu, mut ic) = machine();
    // an all-zero program faults on its very first word
    let r = cpu.run(&mut ic, 5);
    assert_eq!(r, Err(Fault::Decode { addr: 0x200, word: 0 }));
    assert_eq!(cpu.snapshot().pc, 0x200); // halted where it faulted
}

#[test]
fn key_skips_use_key_in_vx() {
    let (mut cpu, mut ic) = machine();
    let mut keys = [false; 16];
    keys[5] = true;
    ic.keypad().update_state(keys);
    exec(&mut cpu, &mut ic, 0x6005); // V0 = 5, pc 0x202
    exec(&mut cpu, &mut ic, 0xE09E); // key 5 pressed: skip
    assert_eq!(cpu.snapshot().pc, 0x206);
    exec(&mut cpu, &mut ic, 0xE0A1); // not-pressed skip: no skip
    assert_eq!(cpu.snapshot().pc, 0x208);
    exec(&mut cpu, &mut ic, 0x6104); // V1 = 4
    exec(&mut cpu, &mut ic, 0xE1A1); // key 4 not pressed: skip
    assert_eq!(cpu.snapshot().pc, 0x20E);
}
