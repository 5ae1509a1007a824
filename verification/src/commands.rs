//! The operator's command language, one command per input line: `cpu`,
//! `start`, `step`, `stop`, and `disasm`/`mem` with a decimal address.

use crate::protocol::{lit_cpu, lit_mem, lit_start, lit_step, lit_stop};
use crate::text::{end_token, parse_u16, parse_u16_spec, scan_spaces, scan_token, skip_spaces};
use vstd::prelude::*;

verus! {

/// The bytes of the word `disasm`.
pub open spec fn lit_disasm() -> Seq<u8> {
    seq![0x64u8, 0x69, 0x73, 0x61, 0x73, 0x6D]
}

/// A parsed operator command.
#[derive(Clone, Copy, Debug, PartialEq, Eq, Structural)]
pub enum Commands {
    /// Show the CPU state.
    Cpu,
    /// Disassemble from the given address.
    Disasm(u16),
    /// Dump memory from the given address.
    Mem(u16),
    /// Resume the machine.
    Start,
    /// Execute one cycle.
    Step,
    /// Pause the machine.
    Stop,
}

/// What a stripped command line parses to: the command word, with one
/// decimal address for `disasm` and `mem`; trailing spaces are allowed.
pub open spec fn parse_command_spec(s: Seq<u8>) -> Option<Commands> {
    let e0 = end_token(s, 0);
    let cmd = s.subrange(0, e0);
    if cmd == lit_cpu() && skip_spaces(s, e0) == s.len() {
        Some(Commands::Cpu)
    } else if cmd == lit_start() && skip_spaces(s, e0) == s.len() {
        Some(Commands::Start)
    } else if cmd == lit_step() && skip_spaces(s, e0) == s.len() {
        Some(Commands::Step)
    } else if cmd == lit_stop() && skip_spaces(s, e0) == s.len() {
        Some(Commands::Stop)
    } else if cmd == lit_disasm() || cmd == lit_mem() {
        let a0 = skip_spaces(s, e0);
        let a1 = end_token(s, a0);
        if skip_spaces(s, a1) == s.len() {
            match parse_u16_spec(s.subrange(a0, a1)) {
                Some(addr) => if cmd == lit_disasm() {
                    Some(Commands::Disasm(addr))
                } else {
                    Some(Commands::Mem(addr))
                },
                None => None,
            }
        } else {
            None
        }
    } else {
        None
    }
}

impl Commands {
    /// Parses one stripped command line.
    pub fn parse(line: &Vec<u8>) -> (r: Option<Commands>)
        ensures
            r == parse_command_spec(line@),
    {
        let e0 = scan_token(line, 0);
        if Self::token_is(line, e0, 0x63, 0x70, 0x75) && scan_spaces(line, e0) == line.len() {
            proof {
                assert(line@.subrange(0, e0 as int) =~= lit_cpu());
            }
            Some(Commands::Cpu)
        } else if Self::token_is_word5(line, e0, 0x73, 0x74, 0x61, 0x72, 0x74) && scan_spaces(
            line,
            e0,
        ) == line.len() {
            proof {
                assert(line@.subrange(0, e0 as int) =~= lit_start());
            }
            Some(Commands::Start)
        } else if Self::token_is_word4(line, e0, 0x73, 0x74, 0x65, 0x70) && scan_spaces(line, e0)
            == line.len() {
            proof {
                assert(line@.subrange(0, e0 as int) =~= lit_step());
            }
            Some(Commands::Step)
        } else if Self::token_is_word4(line, e0, 0x73, 0x74, 0x6F, 0x70) && scan_spaces(line, e0)
            == line.len() {
            proof {
                assert(line@.subrange(0, e0 as int) =~= lit_stop());
            }
            Some(Commands::Stop)
        } else {
            let is_disasm = Self::token_is_word6(line, e0, 0x64, 0x69, 0x73, 0x61, 0x73, 0x6D);
            let is_mem = Self::token_is(line, e0, 0x6D, 0x65, 0x6D);
            proof {
                if is_disasm {
                    assert(line@.subrange(0, e0 as int) =~= lit_disasm());
                }
                if is_mem {
                    assert(line@.subrange(0, e0 as int) =~= lit_mem());
                }
                lemma_lits_shape();
            }
            if !(is_disasm || is_mem) {
                return None;
            }
            let a0 = scan_spaces(line, e0);
            let a1 = scan_token(line, a0);
            if scan_spaces(line, a1) != line.len() {
                return None;
            }
            match parse_u16(line, a0, a1) {
                Some(addr) => if is_disasm {
                    Some(Commands::Disasm(addr))
                } else {
                    Some(Commands::Mem(addr))
                },
                None => None,
            }
        }
    }

    /// The command token of `line` (up to `e0`) is the given 3-byte word.
    fn token_is(line: &Vec<u8>, e0: usize, b0: u8, b1: u8, b2: u8) -> (r: bool)
        requires
            e0 <= line@.len(),
        ensures
            r == (line@.subrange(0, e0 as int) == seq![b0, b1, b2]),
    {
        let r = e0 == 3 && line[0] == b0 && line[1] == b1 && line[2] == b2;
        proof {
            lemma_token_eq(line@, e0 as int, seq![b0, b1, b2]);
            if r {
                assert(line@.subrange(0, e0 as int) =~= seq![b0, b1, b2]);
            }
        }
        r
    }

    /// The command token of `line` (up to `e0`) is the given 4-byte word.
    fn token_is_word4(line: &Vec<u8>, e0: usize, b0: u8, b1: u8, b2: u8, b3: u8) -> (r: bool)
        requires
            e0 <= line@.len(),
        ensures
            r == (line@.subrange(0, e0 as int) == seq![b0, b1, b2, b3]),
    {
        let r = e0 == 4 && line[0] == b0 && line[1] == b1 && line[2] == b2 && line[3] == b3;
        proof {
            lemma_token_eq(line@, e0 as int, seq![b0, b1, b2, b3]);
            if r {
                assert(line@.subrange(0, e0 as int) =~= seq![b0, b1, b2, b3]);
            }
        }
        r
    }

    /// The command token of `line` (up to `e0`) is the given 5-byte word.
    fn token_is_word5(line: &Vec<u8>, e0: usize, b0: u8, b1: u8, b2: u8, b3: u8, b4: u8) -> (r:
        bool)
        requires
            e0 <= line@.len(),
        ensures
            r == (line@.subrange(0, e0 as int) == seq![b0, b1, b2, b3, b4]),
    {
        let r = e0 == 5 && line[0] == b0 && line[1] == b1 && line[2] == b2 && line[3] == b3
            && line[4] == b4;
        proof {
            lemma_token_eq(line@, e0 as int, seq![b0, b1, b2, b3, b4]);
            if r {
                assert(line@.subrange(0, e0 as int) =~= seq![b0, b1, b2, b3, b4]);
            }
        }
        r
    }

    /// The command token of `line` (up to `e0`) is the given 6-byte word.
    fn token_is_word6(
        line: &Vec<u8>,
        e0: usize,
        b0: u8,
        b1: u8,
        b2: u8,
        b3: u8,
        b4: u8,
        b5: u8,
    ) -> (r: bool)
        requires
            e0 <= line@.len(),
        ensures
            r == (line@.subrange(0, e0 as int) == seq![b0, b1, b2, b3, b4, b5]),
    {
        let r = e0 == 6 && line[0] == b0 && line[1] == b1 && line[2] == b2 && line[3] == b3
            && line[4] == b4 && line[5] == b5;
        proof {
            lemma_token_eq(line@, e0 as int, seq![b0, b1, b2, b3, b4, b5]);
            if r {
                assert(line@.subrange(0, e0 as int) =~= seq![b0, b1, b2, b3, b4, b5]);
            }
        }
        r
    }
}

/// If a token prefix equals a word, the prefix has the word's length and
/// its bytes.
proof fn lemma_token_eq(s: Seq<u8>, e0: int, word: Seq<u8>)
    requires
        0 <= e0 <= s.len(),
    ensures
        s.subrange(0, e0) == word ==> e0 == word.len() && forall|j: int|
            0 <= j < word.len() ==> s[j] == #[trigger] word[j],
{
    if s.subrange(0, e0) == word {
        assert(s.subrange(0, e0).len() == e0);
        assert forall|j: int| 0 <= j < word.len() implies s[j] == #[trigger] word[j] by {
            assert(s.subrange(0, e0)[j] == s[j]);
        }
    }
}

/// The command words are pairwise distinct as byte strings.
proof fn lemma_lits_shape()
    ensures
        lit_disasm() != lit_cpu(),
        lit_disasm() != lit_start(),
        lit_disasm() != lit_step(),
        lit_disasm() != lit_stop(),
        lit_mem() != lit_cpu(),
        lit_mem() != lit_start(),
        lit_mem() != lit_step(),
        lit_mem() != lit_stop(),
        lit_mem() != lit_disasm(),
{
    assert(lit_disasm().len() == 6);
    assert(lit_cpu().len() == 3);
    assert(lit_start().len() == 5);
    assert(lit_step().len() == 4);
    assert(lit_stop().len() == 4);
    assert(lit_mem().len() == 3);
    assert(lit_mem()[0] == 0x6D && lit_cpu()[0] == 0x63);
}

} // verus!
