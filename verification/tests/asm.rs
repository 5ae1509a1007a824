//! Decoding and the textual disassembler.

use chip8vm::disasm::{Disasm, Opcode};

#[test]
fn decoding_is_total_and_deterministic() {
    // every 16-bit word decodes, and the same word decodes the same way
    for w in 0..=0xFFFFu16 {
        let a = Disasm::opcode(w);
        let b = Disasm::opcode(w);
        assert_eq!(a, b);
    }
}

#[test]
fn recognized_patterns_decode_to_their_operations() {
    assert_eq!(Disasm::opcode(0x00E0), Opcode::OP_00E0);
    assert_eq!(Disasm::opcode(0x00EE), Opcode::OP_00EE);
    assert_eq!(Disasm::opcode(0x0123), Opcode::OP_0NNN(0x123));
    assert_eq!(Disasm::opcode(0x1234), Opcode::OP_1NNN(0x234));
    assert_eq!(Disasm::opcode(0x2ABC), Opcode::OP_2NNN(0xABC));
    assert_eq!(Disasm::opcode(0x3A7F), Opcode::OP_3XNN(0xA, 0x7F));
    assert_eq!(Disasm::opcode(0x4A7F), Opcode::OP_4XNN(0xA, 0x7F));
    assert_eq!(Disasm::opcode(0x5AB0), Opcode::OP_5XY0(0xA, 0xB));
    assert_eq!(Disasm::opcode(0x6A02), Opcode::OP_6XNN(0xA, 0x02));
    assert_eq!(Disasm::opcode(0x7A02), Opcode::OP_7XNN(0xA, 0x02));
    assert_eq!(Disasm::opcode(0x8AB0), Opcode::OP_8XY0(0xA, 0xB));
    assert_eq!(Disasm::opcode(0x8AB4), Opcode::OP_8XY4(0xA, 0xB));
    assert_eq!(Disasm::opcode(0x8ABE), Opcode::OP_8XYE(0xA, 0xB));
    assert_eq!(Disasm::opcode(0x9AB0), Opcode::OP_9XY0(0xA, 0xB));
    assert_eq!(Disasm::opcode(0xA123), Opcode::OP_ANNN(0x123));
    assert_eq!(Disasm::opcode(0xB123), Opcode::OP_BNNN(0x123));
    assert_eq!(Disasm::opcode(0xCA55), Opcode::OP_CXNN(0xA, 0x55));
    assert_eq!(Disasm::opcode(0xDAB5), Opcode::OP_DXYN(0xA, 0xB, 5));
    assert_eq!(Disasm::opcode(0xEA9E), Opcode::OP_EX9E(0xA));
    assert_eq!(Disasm::opcode(0xEAA1), Opcode::OP_EXA1(0xA));
    assert_eq!(Disasm::opcode(0xFA07), Opcode::OP_FX07(0xA));
    assert_eq!(Disasm::opcode(0xFA0A), Opcode::OP_FX0A(0xA));
    assert_eq!(Disasm::opcode(0xFA15), Opcode::OP_FX15(0xA));
    assert_eq!(Disasm::opcode(0xFA18), Opcode::OP_FX18(0xA));
    assert_eq!(Disasm::opcode(0xFA1E), Opcode::OP_FX1E(0xA));
    assert_eq!(Disasm::opcode(0xFA29), Opcode::OP_FX29(0xA));
    assert_eq!(Disasm::opcode(0xFA33), Opcode::OP_FX33(0xA));
    assert_eq!(Disasm::opcode(0xFA55), Opcode::OP_FX55(0xA));
    assert_eq!(Disasm::opcode(0xFA65), Opcode::OP_FX65(0xA));
}

#[test]
fn unrecognized_patterns_decode_to_unknown() {
    assert_eq!(Disasm::opcode(0x5AB1), Opcode::UNKNOWN);
    assert_eq!(Disasm::opcode(0x8AB8), Opcode::UNKNOWN);
    assert_eq!(Disasm::opcode(0x9AB9), Opcode::UNKNOWN);
    assert_eq!(Disasm::opcode(0xE000), Opcode::UNKNOWN);
    assert_eq!(Disasm::opcode(0xFFFF), Opcode::UNKNOWN);
    assert_eq!(Disasm::opcode(0xF00B), Opcode::UNKNOWN);
}

#[test]
fn words_are_read_big_endian() {
    let code = vec![0x12, 0x34, 0xAB, 0xCD];
    assert_eq!(Disasm::read_word(&code, 0), 0x1234);
    assert_eq!(Disasm::read_word(&code, 2), 0xABCD);
}

#[test]
fn disassembly_pairs_operations_with_their_words() {
    let code = vec![0x00, 0xE0, 0x6A, 0x02, 0x12, 0x00, 0xFF];
    let listing = Disasm::disasm(&code);
    assert_eq!(listing.len(), 3); // the odd trailing byte is dropped
    assert_eq!(listing[0], (Opcode::OP_00E0, 0x00E0));
    assert_eq!(listing[1], (Opcode::OP_6XNN(0xA, 2), 0x6A02));
    assert_eq!(listing[2], (Opcode::OP_1NNN(0x200), 0x1200));
    assert!(Disasm::disasm(&Vec::new()).is_empty());
    assert!(Disasm::disasm(&vec![0x42]).is_empty());
}

#[test]
fn mnemonics_render_registers_in_decimal_and_immediates_in_hex() {
    assert_eq!(Opcode::OP_00E0.repr(), "CLS");
    assert_eq!(Opcode::OP_00EE.repr(), "RET");
    assert_eq!(Opcode::OP_0NNN(0x123).repr(), "SYS 0x123");
    assert_eq!(Opcode::OP_1NNN(0x200).repr(), "JP 0x200");
    assert_eq!(Opcode::OP_2NNN(0xABC).repr(), "CALL 0xabc");
    assert_eq!(Opcode::OP_3XNN(10, 0x7F).repr(), "SE V10, 0x7f");
    assert_eq!(Opcode::OP_4XNN(1, 0).repr(), "SNE V1, 0x0");
    assert_eq!(Opcode::OP_5XY0(1, 2).repr(), "SE V1, V2");
    assert_eq!(Opcode::OP_6XNN(10, 2).repr(), "LD V10, 0x2");
    assert_eq!(Opcode::OP_7XNN(3, 0xFF).repr(), "ADD V3, 0xff");
    assert_eq!(Opcode::OP_8XY0(1, 2).repr(), "LD V1, V2");
    assert_eq!(Opcode::OP_8XY1(1, 2).repr(), "OR V1, V2");
    assert_eq!(Opcode::OP_8XY2(1, 2).repr(), "AND V1, V2");
    assert_eq!(Opcode::OP_8XY3(1, 2).repr(), "XOR V1, V2");
    assert_eq!(Opcode::OP_8XY4(1, 2).repr(), "ADD V1, V2");
    assert_eq!(Opcode::OP_8XY5(1, 2).repr(), "SUB V1, V2");
    assert_eq!(Opcode::OP_8XY6(1, 2).repr(), "SHR V1 {, V2}");
    assert_eq!(Opcode::OP_8XY7(1, 2).repr(), "SUBN V1, V2");
    assert_eq!(Opcode::OP_8XYE(1, 2).repr(), "SHL V1 {, V2}");
    assert_eq!(Opcode::OP_9XY0(1, 2).repr(), "SNE V1, V2");
    assert_eq!(Opcode::OP_ANNN(0x300).repr(), "LD I, 0x300");
    assert_eq!(Opcode::OP_BNNN(0x300).repr(), "JP V0, 0x300");
    assert_eq!(Opcode::OP_CXNN(4, 0x0F).repr(), "RND V4, 0xf");
    assert_eq!(Opcode::OP_DXYN(1, 2, 5).repr(), "DRW V1, V2, 0x5");
    assert_eq!(Opcode::OP_EX9E(1).repr(), "SKP V1");
    assert_eq!(Opcode::OP_EXA1(1).repr(), "SKNP V1");
    assert_eq!(Opcode::OP_FX07(1).repr(), "LD V1, DT");
    assert_eq!(Opcode::OP_FX0A(1).repr(), "LD V1, K");
    assert_eq!(Opcode::OP_FX15(1).repr(), "LD DT, V1");
    assert_eq!(Opcode::OP_FX18(1).repr(), "LD ST, V1");
    assert_eq!(Opcode::OP_FX1E(1).repr(), "ADD I, V1");
    assert_eq!(Opcode::OP_FX29(1).repr(), "LD F, V1");
    assert_eq!(Opcode::OP_FX33(1).repr(), "LD B, V1");
    assert_eq!(Opcode::OP_FX55(1).repr(), "LD [I], V1");
    assert_eq!(Opcode::OP_FX65(1).repr(), "LD V1, [I]");
    assert_eq!(Opcode::UNKNOWN.repr(), "???");
}
