//! Byte-level text helpers for the line-oriented debug protocol: token
//! scanning and decimal numbers, with exact round-trip guarantees.

use vstd::prelude::*;

verus! {

/// An ASCII space.
pub const SPACE: u8 = 0x20;

/// An ASCII decimal digit.
pub open spec fn is_digit(b: u8) -> bool {
    0x30 <= b <= 0x39
}

/// Every byte of `s` is a decimal digit, and there is at least one.
pub open spec fn all_digits(s: Seq<u8>) -> bool {
    s.len() > 0 && forall|k: int| 0 <= k < s.len() ==> is_digit(#[trigger] s[k])
}

/// The numeric value of a digit string.
pub open spec fn digits_val(s: Seq<u8>) -> int
    decreases s.len(),
{
    if s.len() == 0 {
        0
    } else {
        digits_val(s.drop_last()) * 10 + (s.last() - 0x30)
    }
}

/// What a digit string parses to: its value, if it is all digits and the
/// value fits in 16 bits; nothing otherwise.
pub open spec fn parse_u16_spec(s: Seq<u8>) -> Option<u16> {
    if all_digits(s) && digits_val(s) <= 0xFFFF {
        Some(digits_val(s) as u16)
    } else {
        None
    }
}

/// The canonical decimal digits of `n`: no leading zeros.
pub open spec fn dec_of(n: nat) -> Seq<u8>
    decreases n,
{
    if n < 10 {
        seq![(0x30 + n) as u8]
    } else {
        dec_of(n / 10).push((0x30 + n % 10) as u8)
    }
}

/// The canonical decimal digits of a number are all digits and carry
/// exactly its value: printing then parsing gives the number back.
pub proof fn lemma_dec_of_val(n: nat)
    ensures
        all_digits(dec_of(n)),
        digits_val(dec_of(n)) == n,
    decreases n,
{
    if n < 10 {
        assert(dec_of(n).drop_last() =~= Seq::<u8>::empty());
        assert(dec_of(n).last() == (0x30 + n) as u8);
        assert(digits_val(Seq::<u8>::empty()) == 0);
    } else {
        lemma_dec_of_val(n / 10);
        assert(dec_of(n).drop_last() =~= dec_of(n / 10));
        assert(dec_of(n).last() == (0x30 + n % 10) as u8);
        assert(n == 10 * (n / 10) + n % 10) by {
            vstd::arithmetic::div_mod::lemma_fundamental_div_mod(n as int, 10);
        }
    }
}

/// The first position at or after `k` whose byte is not a space, or the
/// end of the string.
pub open spec fn skip_spaces(s: Seq<u8>, k: int) -> int
    decreases s.len() - k,
{
    if k < 0 || k >= s.len() || s[k] != SPACE {
        k
    } else {
        skip_spaces(s, k + 1)
    }
}

/// The first position at or after `k` whose byte is a space, or the end
/// of the string.
pub open spec fn end_token(s: Seq<u8>, k: int) -> int
    decreases s.len() - k,
{
    if k < 0 || k >= s.len() || s[k] == SPACE {
        k
    } else {
        end_token(s, k + 1)
    }
}

/// Scanning for the end of a token runs exactly to the end of a run of
/// non-space bytes.
pub proof fn lemma_end_token_run(s: Seq<u8>, k: int, e: int)
    requires
        0 <= k <= e <= s.len(),
        forall|j: int| k <= j < e ==> s[j] != SPACE,
        e == s.len() || s[e] == SPACE,
    ensures
        end_token(s, k) == e,
    decreases e - k,
{
    if k < e {
        lemma_end_token_run(s, k + 1, e);
    }
}

/// Scanning past spaces runs exactly to the end of a run of spaces.
pub proof fn lemma_skip_spaces_run(s: Seq<u8>, k: int, e: int)
    requires
        0 <= k <= e <= s.len(),
        forall|j: int| k <= j < e ==> s[j] == SPACE,
        e == s.len() || s[e] != SPACE,
    ensures
        skip_spaces(s, k) == e,
    decreases e - k,
{
    if k < e {
        lemma_skip_spaces_run(s, k + 1, e);
    }
}

/// The scan results stay within the string and move forward.
pub proof fn lemma_scan_bounds(s: Seq<u8>, k: int)
    requires
        0 <= k <= s.len(),
    ensures
        k <= skip_spaces(s, k) <= s.len(),
        k <= end_token(s, k) <= s.len(),
    decreases s.len() - k,
{
    if k < s.len() {
        lemma_scan_bounds(s, k + 1);
    }
}

/// Executable scan for the first non-space at or after `from`.
pub fn scan_spaces(s: &Vec<u8>, from: usize) -> (r: usize)
    requires
        from <= s@.len(),
    ensures
        r == skip_spaces(s@, from as int),
        from <= r <= s@.len(),
{
    let mut k = from;
    while k < s.len() && s[k] == SPACE
        invariant
            from <= k <= s@.len(),
            skip_spaces(s@, from as int) == skip_spaces(s@, k as int),
        decreases s@.len() - k,
    {
        k += 1;
    }
    proof {
        lemma_scan_bounds(s@, k as int);
    }
    k
}

/// Executable scan for the first space at or after `from`.
pub fn scan_token(s: &Vec<u8>, from: usize) -> (r: usize)
    requires
        from <= s@.len(),
    ensures
        r == end_token(s@, from as int),
        from <= r <= s@.len(),
{
    let mut k = from;
    while k < s.len() && s[k] != SPACE
        invariant
            from <= k <= s@.len(),
            end_token(s@, from as int) == end_token(s@, k as int),
        decreases s@.len() - k,
    {
        k += 1;
    }
    proof {
        lemma_scan_bounds(s@, k as int);
    }
    k
}

/// Parses the bytes of `s` between `lo` and `hi` as a decimal 16-bit
/// number: exactly the all-digit substrings whose value fits parse.
pub fn parse_u16(s: &Vec<u8>, lo: usize, hi: usize) -> (r: Option<u16>)
    requires
        lo <= hi <= s@.len(),
    ensures
        r == parse_u16_spec(s@.subrange(lo as int, hi as int)),
{
    let ghost sub = s@.subrange(lo as int, hi as int);
    if lo == hi {
        return None;
    }
    let mut acc: u32 = 0;
    let mut k = lo;
    while k < hi
        invariant
            lo <= k <= hi <= s@.len(),
            sub == s@.subrange(lo as int, hi as int),
            forall|j: int| lo <= j < k ==> is_digit(#[trigger] s@[j]),
            acc <= 65535 ==> acc == digits_val(sub.subrange(0, k - lo)),
            acc > 65535 ==> acc == 70000 && digits_val(sub.subrange(0, k - lo)) > 65535,
        decreases hi - k,
    {
        let b = s[k];
        if b < 0x30 || b > 0x39 {
            proof {
                assert(sub[k - lo] == s@[k as int]);
                assert(!all_digits(sub));
            }
            return None;
        }
        proof {
            assert(sub.subrange(0, k + 1 - lo).drop_last() =~= sub.subrange(0, k - lo));
            assert(sub.subrange(0, k + 1 - lo).last() == s@[k as int]);
        }
        let d = (b - 0x30) as u32;
        let next = acc * 10 + d;
        acc = if next > 65535 {
            70000
        } else {
            next
        };
        k += 1;
    }
    proof {
        assert(sub.subrange(0, hi - lo) =~= sub);
        assert(all_digits(sub));
    }
    if acc > 65535 {
        None
    } else {
        Some(acc as u16)
    }
}

/// The canonical decimal digits of `n`, as bytes ready for the wire.
pub fn u16_to_dec(n: u16) -> (r: Vec<u8>)
    ensures
        r@ == dec_of(n as nat),
        all_digits(r@),
        digits_val(r@) == n,
    decreases n,
{
    proof {
        lemma_dec_of_val(n as nat);
    }
    if n < 10 {
        let mut out: Vec<u8> = Vec::new();
        out.push(0x30 + n as u8);
        proof {
            assert(out@ =~= dec_of(n as nat));
        }
        out
    } else {
        let mut out = u16_to_dec(n / 10);
        out.push(0x30 + (n % 10) as u8);
        proof {
            assert(out@ =~= dec_of(n as nat));
        }
        out
    }
}

} // verus!
