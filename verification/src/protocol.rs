//! The debug wire protocol: one newline-terminated line of text per
//! request, parsed here into a control message; replies are either empty,
//! a fixed-layout CPU snapshot record, or a raw byte dump.
//!
//! The listener that owns the sockets hands each stripped request line to
//! [`RemoteDbg::parse_request`] and writes back what
//! [`RemoteDbg::encode_response`] returns; nothing else crosses the wire.

use crate::debug::{Chip8Snapshots, DbgMessage};
use crate::text::{
    dec_of, end_token, is_digit, lemma_dec_of_val, lemma_end_token_run, lemma_skip_spaces_run,
    parse_u16, parse_u16_spec, scan_spaces, scan_token, skip_spaces, u16_to_dec, SPACE,
};
use vstd::prelude::*;

verus! {

/// The bytes of the word `start`.
pub open spec fn lit_start() -> Seq<u8> {
    seq![0x73u8, 0x74, 0x61, 0x72, 0x74]
}

/// The bytes of the word `stop`.
pub open spec fn lit_stop() -> Seq<u8> {
    seq![0x73u8, 0x74, 0x6F, 0x70]
}

/// The bytes of the word `step`.
pub open spec fn lit_step() -> Seq<u8> {
    seq![0x73u8, 0x74, 0x65, 0x70]
}

/// The bytes of the word `cpu`.
pub open spec fn lit_cpu() -> Seq<u8> {
    seq![0x63u8, 0x70, 0x75]
}

/// The bytes of the word `mem`.
pub open spec fn lit_mem() -> Seq<u8> {
    seq![0x6Du8, 0x65, 0x6D]
}

/// What a stripped request line parses to. The first token names the
/// command; `mem` takes a decimal address and a decimal byte count,
/// separated by runs of spaces; trailing spaces are allowed; anything
/// else is a protocol fault, local to the connection.
pub open spec fn parse_request_spec(s: Seq<u8>) -> Option<DbgMessage> {
    let e0 = end_token(s, 0);
    let cmd = s.subrange(0, e0);
    if cmd == lit_start() && skip_spaces(s, e0) == s.len() {
        Some(DbgMessage::START)
    } else if cmd == lit_stop() && skip_spaces(s, e0) == s.len() {
        Some(DbgMessage::STOP)
    } else if cmd == lit_step() && skip_spaces(s, e0) == s.len() {
        Some(DbgMessage::STEP)
    } else if cmd == lit_cpu() && skip_spaces(s, e0) == s.len() {
        Some(DbgMessage::CPU)
    } else if cmd == lit_mem() {
        let a0 = skip_spaces(s, e0);
        let a1 = end_token(s, a0);
        let b0 = skip_spaces(s, a1);
        let b1 = end_token(s, b0);
        if skip_spaces(s, b1) == s.len() {
            match (parse_u16_spec(s.subrange(a0, a1)), parse_u16_spec(s.subrange(b0, b1))) {
                (Some(addr), Some(len)) => Some(DbgMessage::MEM(addr, len as usize)),
                _ => None,
            }
        } else {
            None
        }
    } else {
        None
    }
}

/// The canonical request line for a message (without the newline): the
/// command word, and for `mem` its two decimal arguments, single-spaced.
pub open spec fn format_request_spec(msg: DbgMessage) -> Seq<u8> {
    match msg {
        DbgMessage::START => lit_start(),
        DbgMessage::STOP => lit_stop(),
        DbgMessage::STEP => lit_step(),
        DbgMessage::CPU => lit_cpu(),
        DbgMessage::RESTART => Seq::empty(),
        DbgMessage::MEM(addr, len) => lit_mem() + seq![SPACE] + dec_of(addr as nat) + seq![SPACE]
            + dec_of(len as nat),
    }
}

/// A formatted request parses back to the message it came from: the wire
/// encoding loses nothing. (`RESTART` has no wire command, and a `mem`
/// byte count is a 16-bit field.)
pub proof fn lemma_request_round_trip(msg: DbgMessage)
    requires
        !(msg is RESTART),
        msg matches DbgMessage::MEM(_, len) ==> len <= 0xFFFF,
    ensures
        parse_request_spec(format_request_spec(msg)) == Some(msg),
{
    match msg {
        DbgMessage::START => {
            let s = lit_start();
            assert(s[0] != SPACE && s[1] != SPACE && s[2] != SPACE && s[3] != SPACE && s[4]
                != SPACE);
            lemma_end_token_run(s, 0, 5);
            assert(s.subrange(0, 5) =~= s);
            lemma_skip_spaces_run(s, 5, 5);
        },
        DbgMessage::STOP => {
            let s = lit_stop();
            assert(s[0] != SPACE && s[1] != SPACE && s[2] != SPACE && s[3] != SPACE);
            lemma_end_token_run(s, 0, 4);
            assert(s.subrange(0, 4) =~= s);
            lemma_skip_spaces_run(s, 4, 4);
        },
        DbgMessage::STEP => {
            let s = lit_step();
            assert(s[0] != SPACE && s[1] != SPACE && s[2] != SPACE && s[3] != SPACE);
            lemma_end_token_run(s, 0, 4);
            assert(s.subrange(0, 4) =~= s);
            lemma_skip_spaces_run(s, 4, 4);
        },
        DbgMessage::CPU => {
            let s = lit_cpu();
            assert(s[0] != SPACE && s[1] != SPACE && s[2] != SPACE);
            lemma_end_token_run(s, 0, 3);
            assert(s.subrange(0, 3) =~= s);
            lemma_skip_spaces_run(s, 3, 3);
        },
        DbgMessage::RESTART => {},
        DbgMessage::MEM(addr, len) => {
            let d1 = dec_of(addr as nat);
            let d2 = dec_of(len as nat);
            lemma_dec_of_val(addr as nat);
            lemma_dec_of_val(len as nat);
            let n1 = d1.len() as int;
            let n2 = d2.len() as int;
            let s = format_request_spec(msg);
            assert(s == lit_mem() + seq![SPACE] + d1 + seq![SPACE] + d2);
            assert(s.len() == 5 + n1 + n2);
            assert(s[0] == 0x6D && s[1] == 0x65 && s[2] == 0x6D);
            assert(s[3] == SPACE);
            assert forall|j: int| 0 <= j < n1 implies s[4 + j] == d1[j] by {
                assert((lit_mem() + seq![SPACE] + d1)[4 + j] == d1[j]);
            }
            assert(s[4 + n1] == SPACE);
            assert forall|j: int| 0 <= j < n2 implies s[5 + n1 + j] == d2[j] by {}

            // the command token
            lemma_end_token_run(s, 0, 3);
            assert(s.subrange(0, 3) =~= lit_mem());
            // the first argument
            lemma_skip_spaces_run(s, 3, 4);
            assert forall|j: int| 4 <= j < 4 + n1 implies s[j] != SPACE by {
                assert(s[j] == d1[j - 4]);
                assert(is_digit(d1[j - 4]));
            }
            lemma_end_token_run(s, 4, 4 + n1);
            assert(s.subrange(4, 4 + n1) =~= d1);
            assert(parse_u16_spec(d1) == Some(addr));
            // the second argument
            lemma_skip_spaces_run(s, 4 + n1, 5 + n1);
            assert forall|j: int| 5 + n1 <= j < 5 + n1 + n2 implies s[j] != SPACE by {
                assert(s[j] == d2[j - 5 - n1]);
                assert(is_digit(d2[j - 5 - n1]));
            }
            lemma_end_token_run(s, 5 + n1, 5 + n1 + n2);
            assert(s.subrange(5 + n1, 5 + n1 + n2) =~= d2);
            assert(parse_u16_spec(d2) == Some(len as u16));
            lemma_skip_spaces_run(s, 5 + n1 + n2, 5 + n1 + n2);
        },
    }
}

/// The verified half of the debug server: the translation between wire
/// bytes and control messages. The sockets and threads live outside the
/// library.
pub struct RemoteDbg;

impl RemoteDbg {
    /// Parses one stripped request line.
    pub fn parse_request(line: &Vec<u8>) -> (r: Option<DbgMessage>)
        ensures
            r == parse_request_spec(line@),
    {
        let e0 = scan_token(line, 0);
        if Self::token_is_start(line, e0) && scan_spaces(line, e0) == line.len() {
            Some(DbgMessage::START)
        } else if Self::token_is_stop(line, e0) && scan_spaces(line, e0) == line.len() {
            Some(DbgMessage::STOP)
        } else if Self::token_is_step(line, e0) && scan_spaces(line, e0) == line.len() {
            Some(DbgMessage::STEP)
        } else if Self::token_is_cpu(line, e0) && scan_spaces(line, e0) == line.len() {
            Some(DbgMessage::CPU)
        } else if Self::token_is_mem(line, e0) {
            let a0 = scan_spaces(line, e0);
            let a1 = scan_token(line, a0);
            let b0 = scan_spaces(line, a1);
            let b1 = scan_token(line, b0);
            if scan_spaces(line, b1) != line.len() {
                return None;
            }
            let addr = parse_u16(line, a0, a1);
            let len = parse_u16(line, b0, b1);
            match (addr, len) {
                (Some(a), Some(l)) => Some(DbgMessage::MEM(a, l as usize)),
                _ => None,
            }
        } else {
            None
        }
    }

    /// Serializes a message as its canonical request line (without the
    /// newline). The protocol has no command for `RESTART`, so no line
    /// is defined for it; a `mem` byte count is a 16-bit field.
    pub fn format_request(msg: &DbgMessage) -> (r: Vec<u8>)
        requires
            !(msg is RESTART),
            msg matches DbgMessage::MEM(_, len) ==> len <= 0xFFFF,
        ensures
            r@ == format_request_spec(*msg),
    {
        match msg {
            DbgMessage::START => {
                let r: Vec<u8> = vec![0x73, 0x74, 0x61, 0x72, 0x74];
                proof {
                    assert(r@ =~= lit_start());
                }
                r
            },
            DbgMessage::STOP => {
                let r: Vec<u8> = vec![0x73, 0x74, 0x6F, 0x70];
                proof {
                    assert(r@ =~= lit_stop());
                }
                r
            },
            DbgMessage::STEP => {
                let r: Vec<u8> = vec![0x73, 0x74, 0x65, 0x70];
                proof {
                    assert(r@ =~= lit_step());
                }
                r
            },
            DbgMessage::CPU => {
                let r: Vec<u8> = vec![0x63, 0x70, 0x75];
                proof {
                    assert(r@ =~= lit_cpu());
                }
                r
            },
            DbgMessage::RESTART => {
                // excluded by the precondition
                Vec::new()
            },
            DbgMessage::MEM(addr, len) => {
                let mut r: Vec<u8> = vec![0x6D, 0x65, 0x6D, SPACE];
                let a = u16_to_dec(*addr);
                let mut k: usize = 0;
                while k < a.len()
                    invariant
                        k <= a@.len(),
                        r@.len() == 4 + k,
                        r@ == seq![0x6Du8, 0x65, 0x6D, SPACE] + a@.subrange(0, k as int),
                    decreases a@.len() - k,
                {
                    r.push(a[k]);
                    proof {
                        assert(r@ =~= seq![0x6Du8, 0x65, 0x6D, SPACE] + a@.subrange(0, k + 1));
                    }
                    k += 1;
                }
                r.push(SPACE);
                let l = u16_to_dec(*len as u16);
                let ghost mid = r@;
                let mut k: usize = 0;
                while k < l.len()
                    invariant
                        k <= l@.len(),
                        r@ == mid + l@.subrange(0, k as int),
                    decreases l@.len() - k,
                {
                    r.push(l[k]);
                    proof {
                        assert(r@ =~= mid + l@.subrange(0, k + 1));
                    }
                    k += 1;
                }
                proof {
                    assert(a@.subrange(0, a@.len() as int) =~= a@);
                    assert(l@.subrange(0, l@.len() as int) =~= l@);
                    assert(r@ =~= format_request_spec(*msg));
                }
                r
            },
        }
    }

    /// Serializes a reply: the snapshot's fixed-layout record, or the raw
    /// bytes of a memory dump.
    pub fn encode_response(snapshot: &Chip8Snapshots) -> (r: Vec<u8>)
        requires
            snapshot matches Chip8Snapshots::CPU(s) ==> s.wf(),
        ensures
            (snapshot matches Chip8Snapshots::CPU(s) ==> r@ == crate::debug::encode_spec(
                s.v@,
                s.i,
                s.pc,
                s.sp,
                s.stack@,
            )),
            (snapshot matches Chip8Snapshots::MEM(bytes) ==> r@ == bytes@),
    {
        match snapshot {
            Chip8Snapshots::CPU(s) => s.encode(),
            Chip8Snapshots::MEM(bytes) => {
                let mut out: Vec<u8> = Vec::new();
                let mut k: usize = 0;
                while k < bytes.len()
                    invariant
                        k <= bytes@.len(),
                        out@ == bytes@.subrange(0, k as int),
                    decreases bytes@.len() - k,
                {
                    out.push(bytes[k]);
                    proof {
                        assert(out@ =~= bytes@.subrange(0, k + 1));
                    }
                    k += 1;
                }
                proof {
                    assert(out@ =~= bytes@);
                }
                out
            },
        }
    }

    /// The command token of `line` (up to `e0`) is the word `start`.
    fn token_is_start(line: &Vec<u8>, e0: usize) -> (r: bool)
        requires
            e0 <= line@.len(),
        ensures
            r == (line@.subrange(0, e0 as int) == lit_start()),
    {
        let r = e0 == 5 && line[0] == 0x73 && line[1] == 0x74 && line[2] == 0x61 && line[3] == 0x72
            && line[4] == 0x74;
        proof {
            if r {
                assert(line@.subrange(0, e0 as int) =~= lit_start());
            } else {
                if line@.subrange(0, e0 as int) == lit_start() {
                    assert(lit_start().len() == 5);
                    assert(line@.subrange(0, e0 as int).len() == e0);
                    assert(e0 == 5);
                    assert(line@.subrange(0, 5)[0] == line@[0]);
                    assert(line@.subrange(0, 5)[1] == line@[1]);
                    assert(line@.subrange(0, 5)[2] == line@[2]);
                    assert(line@.subrange(0, 5)[3] == line@[3]);
                    assert(line@.subrange(0, 5)[4] == line@[4]);
                }
            }
        }
        r
    }

    /// The command token of `line` (up to `e0`) is the word `stop`.
    fn token_is_stop(line: &Vec<u8>, e0: usize) -> (r: bool)
        requires
            e0 <= line@.len(),
        ensures
            r == (line@.subrange(0, e0 as int) == lit_stop()),
    {
        let r = e0 == 4 && line[0] == 0x73 && line[1] == 0x74 && line[2] == 0x6F && line[3] == 0x70;
        proof {
            if r {
                assert(line@.subrange(0, e0 as int) =~= lit_stop());
            } else {
                if line@.subrange(0, e0 as int) == lit_stop() {
                    assert(lit_stop().len() == 4);
                    assert(line@.subrange(0, e0 as int).len() == e0);
                    assert(e0 == 4);
                    assert(line@.subrange(0, 4)[0] == line@[0]);
                    assert(line@.subrange(0, 4)[1] == line@[1]);
                    assert(line@.subrange(0, 4)[2] == line@[2]);
                    assert(line@.subrange(0, 4)[3] == line@[3]);
                }
            }
        }
        r
    }

    /// The command token of `line` (up to `e0`) is the word `step`.
    fn token_is_step(line: &Vec<u8>, e0: usize) -> (r: bool)
        requires
            e0 <= line@.len(),
        ensures
            r == (line@.subrange(0, e0 as int) == lit_step()),
    {
        let r = e0 == 4 && line[0] == 0x73 && line[1] == 0x74 && line[2] == 0x65 && line[3] == 0x70;
        proof {
            if r {
                assert(line@.subrange(0, e0 as int) =~= lit_step());
            } else {
                if line@.subrange(0, e0 as int) == lit_step() {
                    assert(lit_step().len() == 4);
                    assert(line@.subrange(0, e0 as int).len() == e0);
                    assert(e0 == 4);
                    assert(line@.subrange(0, 4)[0] == line@[0]);
                    assert(line@.subrange(0, 4)[1] == line@[1]);
                    assert(line@.subrange(0, 4)[2] == line@[2]);
                    assert(line@.subrange(0, 4)[3] == line@[3]);
                }
            }
        }
        r
    }

    /// The command token of `line` (up to `e0`) is the word `cpu`.
    fn token_is_cpu(line: &Vec<u8>, e0: usize) -> (r: bool)
        requires
            e0 <= line@.len(),
        ensures
            r == (line@.subrange(0, e0 as int) == lit_cpu()),
    {
        let r = e0 == 3 && line[0] == 0x63 && line[1] == 0x70 && line[2] == 0x75;
        proof {
            if r {
                assert(line@.subrange(0, e0 as int) =~= lit_cpu());
            } else {
                if line@.subrange(0, e0 as int) == lit_cpu() {
                    assert(lit_cpu().len() == 3);
                    assert(line@.subrange(0, e0 as int).len() == e0);
                    assert(e0 == 3);
                    assert(line@.subrange(0, 3)[0] == line@[0]);
                    assert(line@.subrange(0, 3)[1] == line@[1]);
                    assert(line@.subrange(0, 3)[2] == line@[2]);
                }
            }
        }
        r
    }

    /// The command token of `line` (up to `e0`) is the word `mem`.
    fn token_is_mem(line: &Vec<u8>, e0: usize) -> (r: bool)
        requires
            e0 <= line@.len(),
        ensures
            r == (line@.subrange(0, e0 as int) == lit_mem()),
    {
        let r = e0 == 3 && line[0] == 0x6D && line[1] == 0x65 && line[2] == 0x6D;
        proof {
            if r {
                assert(line@.subrange(0, e0 as int) =~= lit_mem());
            } else {
                if line@.subrange(0, e0 as int) == lit_mem() {
                    assert(lit_mem().len() == 3);
                    assert(line@.subrange(0, e0 as int).len() == e0);
                    assert(e0 == 3);
                    assert(line@.subrange(0, 3)[0] == line@[0]);
                    assert(line@.subrange(0, 3)[1] == line@[1]);
                    assert(line@.subrange(0, 3)[2] == line@[2]);
                }
            }
        }
        r
    }
}

} // verus!
