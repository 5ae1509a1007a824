//! Instruction decoding: the 16-bit instruction word split into its 4-bit
//! fields and mapped to one of the 35 recognized operations, plus the
//! textual mnemonics used for human display.
//!
//! Decoding is a pure function of the word: the engine and the
//! disassembler share it, so the same word always decodes to the same
//! operation and operands.

use vstd::prelude::*;

verus! {

/// The leading 4-bit field of an instruction word (bits 12..16).
pub open spec fn op1(w: u16) -> u16 {
    w / 4096
}

/// The second 4-bit field of an instruction word (bits 8..12).
pub open spec fn op2(w: u16) -> u16 {
    (w / 256) % 16
}

/// The third 4-bit field of an instruction word (bits 4..8).
pub open spec fn op3(w: u16) -> u16 {
    (w / 16) % 16
}

/// The trailing 4-bit field of an instruction word (bits 0..4).
pub open spec fn op4(w: u16) -> u16 {
    w % 16
}

/// The 12-bit address field of an instruction word.
pub open spec fn nnn_of(w: u16) -> u16 {
    w % 4096
}

/// The immediate byte of an instruction word.
pub open spec fn nn_of(w: u16) -> u8 {
    (w % 256) as u8
}

/// The 4-bit count of an instruction word.
pub open spec fn n_of(w: u16) -> u8 {
    (w % 16) as u8
}

/// The first register index of an instruction word.
pub open spec fn x_of(w: u16) -> u8 {
    ((w / 256) % 16) as u8
}

/// The second register index of an instruction word.
pub open spec fn y_of(w: u16) -> u8 {
    ((w / 16) % 16) as u8
}

/// A decoded operation: one variant per recognized opcode pattern, carrying
/// the word's operand fields, and `UNKNOWN` for every other word.
#[allow(non_camel_case_types)]
#[derive(Clone, Copy, Debug, PartialEq, Eq, Structural)]
pub enum Opcode {
    OP_00E0,
    OP_00EE,
    OP_0NNN(u16),
    OP_1NNN(u16),
    OP_2NNN(u16),
    OP_3XNN(u8, u8),
    OP_4XNN(u8, u8),
    OP_5XY0(u8, u8),
    OP_6XNN(u8, u8),
    OP_7XNN(u8, u8),
    OP_8XY0(u8, u8),
    OP_8XY1(u8, u8),
    OP_8XY2(u8, u8),
    OP_8XY3(u8, u8),
    OP_8XY4(u8, u8),
    OP_8XY5(u8, u8),
    OP_8XY6(u8, u8),
    OP_8XY7(u8, u8),
    OP_8XYE(u8, u8),
    OP_9XY0(u8, u8),
    OP_ANNN(u16),
    OP_BNNN(u16),
    OP_CXNN(u8, u8),
    OP_DXYN(u8, u8, u8),
    OP_EX9E(u8),
    OP_EXA1(u8),
    OP_FX07(u8),
    OP_FX0A(u8),
    OP_FX15(u8),
    OP_FX18(u8),
    OP_FX1E(u8),
    OP_FX29(u8),
    OP_FX33(u8),
    OP_FX55(u8),
    OP_FX65(u8),
    UNKNOWN,
}

/// What each instruction word decodes to. Total: every word maps to
/// exactly one variant, `UNKNOWN` where no recognized pattern matches.
pub open spec fn decode(w: u16) -> Opcode {
    let nnn = nnn_of(w);
    let nn = nn_of(w);
    let n = n_of(w);
    let x = x_of(w);
    let y = y_of(w);
    if w == 0x00E0 {
        Opcode::OP_00E0
    } else if w == 0x00EE {
        Opcode::OP_00EE
    } else if op1(w) == 0x0 {
        Opcode::OP_0NNN(nnn)
    } else if op1(w) == 0x1 {
        Opcode::OP_1NNN(nnn)
    } else if op1(w) == 0x2 {
        Opcode::OP_2NNN(nnn)
    } else if op1(w) == 0x3 {
        Opcode::OP_3XNN(x, nn)
    } else if op1(w) == 0x4 {
        Opcode::OP_4XNN(x, nn)
    } else if op1(w) == 0x5 && op4(w) == 0x0 {
        Opcode::OP_5XY0(x, y)
    } else if op1(w) == 0x6 {
        Opcode::OP_6XNN(x, nn)
    } else if op1(w) == 0x7 {
        Opcode::OP_7XNN(x, nn)
    } else if op1(w) == 0x8 && op4(w) == 0x0 {
        Opcode::OP_8XY0(x, y)
    } else if op1(w) == 0x8 && op4(w) == 0x1 {
        Opcode::OP_8XY1(x, y)
    } else if op1(w) == 0x8 && op4(w) == 0x2 {
        Opcode::OP_8XY2(x, y)
    } else if op1(w) == 0x8 && op4(w) == 0x3 {
        Opcode::OP_8XY3(x, y)
    } else if op1(w) == 0x8 && op4(w) == 0x4 {
        Opcode::OP_8XY4(x, y)
    } else if op1(w) == 0x8 && op4(w) == 0x5 {
        Opcode::OP_8XY5(x, y)
    } else if op1(w) == 0x8 && op4(w) == 0x6 {
        Opcode::OP_8XY6(x, y)
    } else if op1(w) == 0x8 && op4(w) == 0x7 {
        Opcode::OP_8XY7(x, y)
    } else if op1(w) == 0x8 && op4(w) == 0xE {
        Opcode::OP_8XYE(x, y)
    } else if op1(w) == 0x9 && op4(w) == 0x0 {
        Opcode::OP_9XY0(x, y)
    } else if op1(w) == 0xA {
        Opcode::OP_ANNN(nnn)
    } else if op1(w) == 0xB {
        Opcode::OP_BNNN(nnn)
    } else if op1(w) == 0xC {
        Opcode::OP_CXNN(x, nn)
    } else if op1(w) == 0xD {
        Opcode::OP_DXYN(x, y, n)
    } else if op1(w) == 0xE && op3(w) == 0x9 && op4(w) == 0xE {
        Opcode::OP_EX9E(x)
    } else if op1(w) == 0xE && op3(w) == 0xA && op4(w) == 0x1 {
        Opcode::OP_EXA1(x)
    } else if op1(w) == 0xF && op3(w) == 0x0 && op4(w) == 0x7 {
        Opcode::OP_FX07(x)
    } else if op1(w) == 0xF && op3(w) == 0x0 && op4(w) == 0xA {
        Opcode::OP_FX0A(x)
    } else if op1(w) == 0xF && op3(w) == 0x1 && op4(w) == 0x5 {
        Opcode::OP_FX15(x)
    } else if op1(w) == 0xF && op3(w) == 0x1 && op4(w) == 0x8 {
        Opcode::OP_FX18(x)
    } else if op1(w) == 0xF && op3(w) == 0x1 && op4(w) == 0xE {
        Opcode::OP_FX1E(x)
    } else if op1(w) == 0xF && op3(w) == 0x2 && op4(w) == 0x9 {
        Opcode::OP_FX29(x)
    } else if op1(w) == 0xF && op3(w) == 0x3 && op4(w) == 0x3 {
        Opcode::OP_FX33(x)
    } else if op1(w) == 0xF && op3(w) == 0x5 && op4(w) == 0x5 {
        Opcode::OP_FX55(x)
    } else if op1(w) == 0xF && op3(w) == 0x6 && op4(w) == 0x5 {
        Opcode::OP_FX65(x)
    } else {
        Opcode::UNKNOWN
    }
}

/// A word matches one of the 35 recognized opcode patterns, written out
/// family by family.
pub open spec fn recognized(w: u16) -> bool {
    ||| op1(w) == 0x0
    ||| op1(w) == 0x1
    ||| op1(w) == 0x2
    ||| op1(w) == 0x3
    ||| op1(w) == 0x4
    ||| (op1(w) == 0x5 && op4(w) == 0x0)
    ||| op1(w) == 0x6
    ||| op1(w) == 0x7
    ||| (op1(w) == 0x8 && (op4(w) <= 0x7 || op4(w) == 0xE))
    ||| (op1(w) == 0x9 && op4(w) == 0x0)
    ||| op1(w) == 0xA
    ||| op1(w) == 0xB
    ||| op1(w) == 0xC
    ||| op1(w) == 0xD
    ||| (op1(w) == 0xE && ((op3(w) == 0x9 && op4(w) == 0xE) || (op3(w) == 0xA && op4(w) == 0x1)))
    ||| (op1(w) == 0xF && ((op3(w) == 0x0 && op4(w) == 0x7) || (op3(w) == 0x0 && op4(w) == 0xA) || (
        op3(w) == 0x1 && op4(w) == 0x5) || (op3(w) == 0x1 && op4(w) == 0x8) || (op3(w) == 0x1
        && op4(w) == 0xE) || (op3(w) == 0x2 && op4(w) == 0x9) || (op3(w) == 0x3 && op4(w) == 0x3)
        || (op3(w) == 0x5 && op4(w) == 0x5) || (op3(w) == 0x6 && op4(w) == 0x5)))
}

/// Decoding is total and deterministic: `decode` is a function defined on
/// every 16-bit word, and it yields an operation (not `UNKNOWN`) exactly
/// for the words that match a recognized opcode pattern.
pub proof fn lemma_decode_total(w: u16)
    ensures
        decode(w) !is UNKNOWN <==> recognized(w),
{
}

/// The character for one hexadecimal digit value, lower case.
pub open spec fn hex_digit(d: int) -> char {
    if d == 0 {
        '0'
    } else if d == 1 {
        '1'
    } else if d == 2 {
        '2'
    } else if d == 3 {
        '3'
    } else if d == 4 {
        '4'
    } else if d == 5 {
        '5'
    } else if d == 6 {
        '6'
    } else if d == 7 {
        '7'
    } else if d == 8 {
        '8'
    } else if d == 9 {
        '9'
    } else if d == 10 {
        'a'
    } else if d == 11 {
        'b'
    } else if d == 12 {
        'c'
    } else if d == 13 {
        'd'
    } else if d == 14 {
        'e'
    } else {
        'f'
    }
}

/// The hexadecimal digits of `n`, lower case, no leading zeros.
pub open spec fn hex_seq(n: int) -> Seq<char>
    decreases n,
{
    if n < 16 {
        seq![hex_digit(n)]
    } else {
        hex_seq(n / 16).push(hex_digit(n % 16))
    }
}

/// The decimal digits of `n`, no leading zeros.
pub open spec fn dec_seq(n: int) -> Seq<char>
    decreases n,
{
    if n < 10 {
        seq![hex_digit(n)]
    } else {
        dec_seq(n / 10).push(hex_digit(n % 10))
    }
}

/// The assembly mnemonic for a decoded operation: operation name, then
/// registers in decimal and immediates in lower-case hexadecimal.
pub open spec fn repr_spec(op: Opcode) -> Seq<char> {
    match op {
        Opcode::OP_00E0 => "CLS"@,
        Opcode::OP_00EE => "RET"@,
        Opcode::OP_0NNN(nnn) => "SYS 0x"@ + hex_seq(nnn as int),
        Opcode::OP_1NNN(nnn) => "JP 0x"@ + hex_seq(nnn as int),
        Opcode::OP_2NNN(nnn) => "CALL 0x"@ + hex_seq(nnn as int),
        Opcode::OP_3XNN(x, nn) => "SE V"@ + dec_seq(x as int) + ", 0x"@ + hex_seq(nn as int),
        Opcode::OP_4XNN(x, nn) => "SNE V"@ + dec_seq(x as int) + ", 0x"@ + hex_seq(nn as int),
        Opcode::OP_5XY0(x, y) => "SE V"@ + dec_seq(x as int) + ", V"@ + dec_seq(y as int),
        Opcode::OP_6XNN(x, nn) => "LD V"@ + dec_seq(x as int) + ", 0x"@ + hex_seq(nn as int),
        Opcode::OP_7XNN(x, nn) => "ADD V"@ + dec_seq(x as int) + ", 0x"@ + hex_seq(nn as int),
        Opcode::OP_8XY0(x, y) => "LD V"@ + dec_seq(x as int) + ", V"@ + dec_seq(y as int),
        Opcode::OP_8XY1(x, y) => "OR V"@ + dec_seq(x as int) + ", V"@ + dec_seq(y as int),
        Opcode::OP_8XY2(x, y) => "AND V"@ + dec_seq(x as int) + ", V"@ + dec_seq(y as int),
        Opcode::OP_8XY3(x, y) => "XOR V"@ + dec_seq(x as int) + ", V"@ + dec_seq(y as int),
        Opcode::OP_8XY4(x, y) => "ADD V"@ + dec_seq(x as int) + ", V"@ + dec_seq(y as int),
        Opcode::OP_8XY5(x, y) => "SUB V"@ + dec_seq(x as int) + ", V"@ + dec_seq(y as int),
        Opcode::OP_8XY6(x, y) => "SHR V"@ + dec_seq(x as int) + " {, V"@ + dec_seq(y as int)
            + "}"@,
        Opcode::OP_8XY7(x, y) => "SUBN V"@ + dec_seq(x as int) + ", V"@ + dec_seq(y as int),
        Opcode::OP_8XYE(x, y) => "SHL V"@ + dec_seq(x as int) + " {, V"@ + dec_seq(y as int)
            + "}"@,
        Opcode::OP_9XY0(x, y) => "SNE V"@ + dec_seq(x as int) + ", V"@ + dec_seq(y as int),
        Opcode::OP_ANNN(nnn) => "LD I, 0x"@ + hex_seq(nnn as int),
        Opcode::OP_BNNN(nnn) => "JP V0, 0x"@ + hex_seq(nnn as int),
        Opcode::OP_CXNN(x, nn) => "RND V"@ + dec_seq(x as int) + ", 0x"@ + hex_seq(nn as int),
        Opcode::OP_DXYN(x, y, n) => "DRW V"@ + dec_seq(x as int) + ", V"@ + dec_seq(y as int)
            + ", 0x"@ + hex_seq(n as int),
        Opcode::OP_EX9E(x) => "SKP V"@ + dec_seq(x as int),
        Opcode::OP_EXA1(x) => "SKNP V"@ + dec_seq(x as int),
        Opcode::OP_FX07(x) => "LD V"@ + dec_seq(x as int) + ", DT"@,
        Opcode::OP_FX0A(x) => "LD V"@ + dec_seq(x as int) + ", K"@,
        Opcode::OP_FX15(x) => "LD DT, V"@ + dec_seq(x as int),
        Opcode::OP_FX18(x) => "LD ST, V"@ + dec_seq(x as int),
        Opcode::OP_FX1E(x) => "ADD I, V"@ + dec_seq(x as int),
        Opcode::OP_FX29(x) => "LD F, V"@ + dec_seq(x as int),
        Opcode::OP_FX33(x) => "LD B, V"@ + dec_seq(x as int),
        Opcode::OP_FX55(x) => "LD [I], V"@ + dec_seq(x as int),
        Opcode::OP_FX65(x) => "LD V"@ + dec_seq(x as int) + ", [I]"@,
        Opcode::UNKNOWN => "???"@,
    }
}

/// The one-character string for a digit value.
fn hex_digit_str(d: u16) -> (r: &'static str)
    requires
        d < 16,
    ensures
        r@ == seq![hex_digit(d as int)],
{
    proof {
        reveal_strlit("0");
        reveal_strlit("1");
        reveal_strlit("2");
        reveal_strlit("3");
        reveal_strlit("4");
        reveal_strlit("5");
        reveal_strlit("6");
        reveal_strlit("7");
        reveal_strlit("8");
        reveal_strlit("9");
        reveal_strlit("a");
        reveal_strlit("b");
        reveal_strlit("c");
        reveal_strlit("d");
        reveal_strlit("e");
        reveal_strlit("f");
    }
    let r = match d {
        0 => "0",
        1 => "1",
        2 => "2",
        3 => "3",
        4 => "4",
        5 => "5",
        6 => "6",
        7 => "7",
        8 => "8",
        9 => "9",
        10 => "a",
        11 => "b",
        12 => "c",
        13 => "d",
        14 => "e",
        _ => "f",
    };
    proof {
        assert(r@ =~= seq![hex_digit(d as int)]);
    }
    r
}

/// The hexadecimal digits of `n`, lower case, as a string.
fn hex_str(n: u16) -> (r: String)
    ensures
        r@ == hex_seq(n as int),
    decreases n,
{
    if n < 16 {
        String::from_str(hex_digit_str(n))
    } else {
        let mut s = hex_str(n / 16);
        s.append(hex_digit_str(n % 16));
        proof {
            assert(s@ =~= hex_seq(n as int));
        }
        s
    }
}

/// The decimal digits of `n`, as a string.
fn dec_str(n: u8) -> (r: String)
    ensures
        r@ == dec_seq(n as int),
    decreases n,
{
    if n < 10 {
        String::from_str(hex_digit_str(n as u16))
    } else {
        let mut s = dec_str(n / 10);
        s.append(hex_digit_str((n % 10) as u16));
        proof {
            assert(s@ =~= dec_seq(n as int));
        }
        s
    }
}

impl Opcode {
    /// The operation's assembly mnemonic, for human display.
    pub fn repr(&self) -> (r: String)
        ensures
            r@ == repr_spec(*self),
    {
        let r = match self {
            Opcode::OP_00E0 => String::from_str("CLS"),
            Opcode::OP_00EE => String::from_str("RET"),
            Opcode::OP_0NNN(nnn) => {
                let mut s = String::from_str("SYS 0x");
                s.append(hex_str(*nnn).as_str());
                s
            },
            Opcode::OP_1NNN(nnn) => {
                let mut s = String::from_str("JP 0x");
                s.append(hex_str(*nnn).as_str());
                s
            },
            Opcode::OP_2NNN(nnn) => {
                let mut s = String::from_str("CALL 0x");
                s.append(hex_str(*nnn).as_str());
                s
            },
            Opcode::OP_3XNN(x, nn) => Self::two_arg_imm("SE V", *x, *nn),
            Opcode::OP_4XNN(x, nn) => Self::two_arg_imm("SNE V", *x, *nn),
            Opcode::OP_5XY0(x, y) => Self::two_arg_reg("SE V", *x, *y),
            Opcode::OP_6XNN(x, nn) => Self::two_arg_imm("LD V", *x, *nn),
            Opcode::OP_7XNN(x, nn) => Self::two_arg_imm("ADD V", *x, *nn),
            Opcode::OP_8XY0(x, y) => Self::two_arg_reg("LD V", *x, *y),
            Opcode::OP_8XY1(x, y) => Self::two_arg_reg("OR V", *x, *y),
            Opcode::OP_8XY2(x, y) => Self::two_arg_reg("AND V", *x, *y),
            Opcode::OP_8XY3(x, y) => Self::two_arg_reg("XOR V", *x, *y),
            Opcode::OP_8XY4(x, y) => Self::two_arg_reg("ADD V", *x, *y),
            Opcode::OP_8XY5(x, y) => Self::two_arg_reg("SUB V", *x, *y),
            Opcode::OP_8XY6(x, y) => Self::shift_arg("SHR V", *x, *y),
            Opcode::OP_8XY7(x, y) => Self::two_arg_reg("SUBN V", *x, *y),
            Opcode::OP_8XYE(x, y) => Self::shift_arg("SHL V", *x, *y),
            Opcode::OP_9XY0(x, y) => Self::two_arg_reg("SNE V", *x, *y),
            Opcode::OP_ANNN(nnn) => {
                let mut s = String::from_str("LD I, 0x");
                s.append(hex_str(*nnn).as_str());
                s
            },
            Opcode::OP_BNNN(nnn) => {
                let mut s = String::from_str("JP V0, 0x");
                s.append(hex_str(*nnn).as_str());
                s
            },
            Opcode::OP_CXNN(x, nn) => Self::two_arg_imm("RND V", *x, *nn),
            Opcode::OP_DXYN(x, y, n) => {
                let mut s = Self::two_arg_reg("DRW V", *x, *y);
                s.append(", 0x");
                s.append(hex_str(*n as u16).as_str());
                s
            },
            Opcode::OP_EX9E(x) => Self::one_arg("SKP V", *x),
            Opcode::OP_EXA1(x) => Self::one_arg("SKNP V", *x),
            Opcode::OP_FX07(x) => {
                let mut s = Self::one_arg("LD V", *x);
                s.append(", DT");
                s
            },
            Opcode::OP_FX0A(x) => {
                let mut s = Self::one_arg("LD V", *x);
                s.append(", K");
                s
            },
            Opcode::OP_FX15(x) => Self::one_arg("LD DT, V", *x),
            Opcode::OP_FX18(x) => Self::one_arg("LD ST, V", *x),
            Opcode::OP_FX1E(x) => Self::one_arg("ADD I, V", *x),
            Opcode::OP_FX29(x) => Self::one_arg("LD F, V", *x),
            Opcode::OP_FX33(x) => Self::one_arg("LD B, V", *x),
            Opcode::OP_FX55(x) => Self::one_arg("LD [I], V", *x),
            Opcode::OP_FX65(x) => {
                let mut s = Self::one_arg("LD V", *x);
                s.append(", [I]");
                s
            },
            Opcode::UNKNOWN => String::from_str("???"),
        };
        proof {
            assert(r@ =~= repr_spec(*self));
        }
        r
    }

    /// `word` followed by the register number.
    fn one_arg(word: &str, x: u8) -> (r: String)
        ensures
            r@ == word@ + dec_seq(x as int),
    {
        let mut s = String::from_str(word);
        s.append(dec_str(x).as_str());
        s
    }

    /// `word`, the first register, `, V`, the second register.
    fn two_arg_reg(word: &str, x: u8, y: u8) -> (r: String)
        ensures
            r@ == word@ + dec_seq(x as int) + ", V"@ + dec_seq(y as int),
    {
        let mut s = String::from_str(word);
        s.append(dec_str(x).as_str());
        s.append(", V");
        s.append(dec_str(y).as_str());
        s
    }

    /// `word`, the register, `, 0x`, the immediate in hexadecimal.
    fn two_arg_imm(word: &str, x: u8, nn: u8) -> (r: String)
        ensures
            r@ == word@ + dec_seq(x as int) + ", 0x"@ + hex_seq(nn as int),
    {
        let mut s = String::from_str(word);
        s.append(dec_str(x).as_str());
        s.append(", 0x");
        s.append(hex_str(nn as u16).as_str());
        s
    }

    /// `word`, the destination register, and the shift source register in
    /// braces.
    fn shift_arg(word: &str, x: u8, y: u8) -> (r: String)
        ensures
            r@ == word@ + dec_seq(x as int) + " {, V"@ + dec_seq(y as int) + "}"@,
    {
        let mut s = String::from_str(word);
        s.append(dec_str(x).as_str());
        s.append(" {, V");
        s.append(dec_str(y).as_str());
        s.append("}");
        s
    }
}

/// The textual disassembler.
pub struct Disasm {}

impl Disasm {
    /// Decodes one instruction word.
    pub fn opcode(opcode: u16) -> (r: Opcode)
        ensures
            r == decode(opcode),
    {
        let o1 = opcode / 4096;
        let o3 = (opcode / 16) % 16;
        let o4 = opcode % 16;
        let nnn = opcode % 4096;
        let nn = (opcode % 256) as u8;
        let n = (opcode % 16) as u8;
        let x = ((opcode / 256) % 16) as u8;
        let y = ((opcode / 16) % 16) as u8;

        if opcode == 0x00E0 {
            Opcode::OP_00E0
        } else if opcode == 0x00EE {
            Opcode::OP_00EE
        } else if o1 == 0x0 {
            Opcode::OP_0NNN(nnn)
        } else if o1 == 0x1 {
            Opcode::OP_1NNN(nnn)
        } else if o1 == 0x2 {
            Opcode::OP_2NNN(nnn)
        } else if o1 == 0x3 {
            Opcode::OP_3XNN(x, nn)
        } else if o1 == 0x4 {
            Opcode::OP_4XNN(x, nn)
        } else if o1 == 0x5 && o4 == 0x0 {
            Opcode::OP_5XY0(x, y)
        } else if o1 == 0x6 {
            Opcode::OP_6XNN(x, nn)
        } else if o1 == 0x7 {
            Opcode::OP_7XNN(x, nn)
        } else if o1 == 0x8 && o4 == 0x0 {
            Opcode::OP_8XY0(x, y)
        } else if o1 == 0x8 && o4 == 0x1 {
            Opcode::OP_8XY1(x, y)
        } else if o1 == 0x8 && o4 == 0x2 {
            Opcode::OP_8XY2(x, y)
        } else if o1 == 0x8 && o4 == 0x3 {
            Opcode::OP_8XY3(x, y)
        } else if o1 == 0x8 && o4 == 0x4 {
            Opcode::OP_8XY4(x, y)
        } else if o1 == 0x8 && o4 == 0x5 {
            Opcode::OP_8XY5(x, y)
        } else if o1 == 0x8 && o4 == 0x6 {
            Opcode::OP_8XY6(x, y)
        } else if o1 == 0x8 && o4 == 0x7 {
            Opcode::OP_8XY7(x, y)
        } else if o1 == 0x8 && o4 == 0xE {
            Opcode::OP_8XYE(x, y)
        } else if o1 == 0x9 && o4 == 0x0 {
            Opcode::OP_9XY0(x, y)
        } else if o1 == 0xA {
            Opcode::OP_ANNN(nnn)
        } else if o1 == 0xB {
            Opcode::OP_BNNN(nnn)
        } else if o1 == 0xC {
            Opcode::OP_CXNN(x, nn)
        } else if o1 == 0xD {
            Opcode::OP_DXYN(x, y, n)
        } else if o1 == 0xE && o3 == 0x9 && o4 == 0xE {
            Opcode::OP_EX9E(x)
        } else if o1 == 0xE && o3 == 0xA && o4 == 0x1 {
            Opcode::OP_EXA1(x)
        } else if o1 == 0xF && o3 == 0x0 && o4 == 0x7 {
            Opcode::OP_FX07(x)
        } else if o1 == 0xF && o3 == 0x0 && o4 == 0xA {
            Opcode::OP_FX0A(x)
        } else if o1 == 0xF && o3 == 0x1 && o4 == 0x5 {
            Opcode::OP_FX15(x)
        } else if o1 == 0xF && o3 == 0x1 && o4 == 0x8 {
            Opcode::OP_FX18(x)
        } else if o1 == 0xF && o3 == 0x1 && o4 == 0xE {
            Opcode::OP_FX1E(x)
        } else if o1 == 0xF && o3 == 0x2 && o4 == 0x9 {
            Opcode::OP_FX29(x)
        } else if o1 == 0xF && o3 == 0x3 && o4 == 0x3 {
            Opcode::OP_FX33(x)
        } else if o1 == 0xF && o3 == 0x5 && o4 == 0x5 {
            Opcode::OP_FX55(x)
        } else if o1 == 0xF && o3 == 0x6 && o4 == 0x5 {
            Opcode::OP_FX65(x)
        } else {
            Opcode::UNKNOWN
        }
    }

    /// The big-endian word at `location` of a flat code buffer.
    pub fn read_word(code: &Vec<u8>, location: usize) -> (r: u16)
        requires
            location + 1 < code@.len(),
        ensures
            r == code@[location as int] * 256 + code@[location as int + 1],
    {
        let n = code.len();
        assert(location + 1 < n);
        code[location] as u16 * 256 + code[location + 1] as u16
    }

    /// Decodes a flat code buffer two bytes at a time, pairing each decoded
    /// operation with its raw word.
    pub fn disasm(code: &Vec<u8>) -> (r: Vec<(Opcode, u16)>)
        ensures
            r@.len() == code@.len() / 2,
            forall|k: int|
                0 <= k < r@.len() ==> #[trigger] r@[k] == {
                    let w = (code@[2 * k] * 256 + code@[2 * k + 1]) as u16;
                    (decode(w), w)
                },
    {
        let mut opcodes: Vec<(Opcode, u16)> = Vec::new();
        let mut i: usize = 0;
        while i + 1 < code.len()
            invariant
                i % 2 == 0,
                i <= code@.len(),
                opcodes@.len() == i / 2,
                forall|k: int|
                    0 <= k < opcodes@.len() ==> #[trigger] opcodes@[k] == {
                        let w = (code@[2 * k] * 256 + code@[2 * k + 1]) as u16;
                        (decode(w), w)
                    },
            decreases code@.len() - i,
        {
            let word = Self::read_word(code, i);
            opcodes.push((Self::opcode(word), word));
            i += 2;
        }
        opcodes
    }
}

} // verus!
