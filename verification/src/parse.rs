//! Parsing decimal unsigned integers, with the same grammar as Rust's
//! standard `u32` parser: an optional leading `'+'`, then one or more
//! decimal digits, and a value that fits in 32 bits.

use vstd::prelude::*;
use vstd::string::StrSliceExecFns;

verus! {

pub open spec fn is_digit(c: char) -> bool {
    48 <= c as u32 <= 57
}

pub open spec fn digit_val(c: char) -> int {
    c as u32 - 48
}

/// The value of a sequence of decimal digits, most significant first.
pub open spec fn digits_val(s: Seq<char>) -> int
    decreases s.len(),
{
    if s.len() == 0 {
        0
    } else {
        digits_val(s.drop_last()) * 10 + digit_val(s.last())
    }
}

pub open spec fn all_digits(s: Seq<char>) -> bool {
    forall|i: int| 0 <= i < s.len() ==> is_digit(s[i])
}

/// The digit part of an unsigned literal: everything after an optional
/// leading `'+'`.
pub open spec fn uint_body(s: Seq<char>) -> Seq<char> {
    if s.len() > 0 && s[0] == '+' {
        s.drop_first()
    } else {
        s
    }
}

/// Whether `s` is a valid `u32` literal.
pub open spec fn is_u32_literal(s: Seq<char>) -> bool {
    let b = uint_body(s);
    b.len() > 0 && all_digits(b) && digits_val(b) <= u32::MAX
}

pub open spec fn u32_literal_value(s: Seq<char>) -> int {
    digits_val(uint_body(s))
}

pub proof fn lemma_digits_val_nonneg(s: Seq<char>)
    requires
        all_digits(s),
    ensures
        digits_val(s) >= 0,
    decreases s.len(),
{
    if s.len() > 0 {
        lemma_digits_val_nonneg(s.drop_last());
    }
}

/// A prefix of a digit string never exceeds the whole string's value.
pub proof fn lemma_digits_val_prefix(s: Seq<char>, m: int)
    requires
        all_digits(s),
        0 <= m <= s.len(),
    ensures
        digits_val(s.take(m)) <= digits_val(s),
    decreases s.len(),
{
    if m == s.len() {
        assert(s.take(m) =~= s);
    } else {
        lemma_digits_val_nonneg(s.drop_last());
        lemma_digits_val_prefix(s.drop_last(), m);
        assert(s.drop_last().take(m) =~= s.take(m));
    }
}

/// Parses `s` as a `u32`, accepting exactly the strings that
/// `is_u32_literal` describes.
pub fn parse_u32(s: &str) -> (r: Option<u32>)
    ensures
        match r {
            Some(v) => is_u32_literal(s@) && v as int == u32_literal_value(s@),
            None => !is_u32_literal(s@),
        },
{
    let n = s.unicode_len();
    let mut i: usize = 0;
    if n > 0 && s.get_char(0) == '+' {
        i = 1;
    }
    let ghost start = i as int;
    proof {
        assert(uint_body(s@) =~= s@.skip(start));
    }
    if i >= n {
        return None;
    }
    let mut acc: u64 = 0;
    while i < n
        invariant
            n as nat == s@.len(),
            0 <= start <= i <= n,
            uint_body(s@) =~= s@.skip(start),
            forall|j: int| start <= j < i ==> is_digit(s@[j]),
            acc as int == digits_val(s@.subrange(start, i as int)),
            acc <= u32::MAX,
        decreases n - i,
    {
        let c = s.get_char(i);
        let u = c as u32;
        if u < 48 || u > 57 {
            proof {
                let body = s@.skip(start);
                assert(body.len() == s@.len() - start);
                assert(body[i - start] == s@[(i - start) + start]);
                assert(!is_digit(s@[i as int]));
            }
            return None;
        }
        let d = (u - 48) as u64;
        let next: u64 = acc * 10 + d;
        proof {
            assert(s@.subrange(start, i + 1).drop_last() =~= s@.subrange(start, i as int));
            assert(s@.subrange(start, i + 1).last() == s@[i as int]);
        }
        if next > 0xffff_ffff {
            proof {
                let body = s@.skip(start);
                if is_u32_literal(s@) {
                    lemma_digits_val_prefix(body, i + 1 - start);
                    assert(body.take(i + 1 - start) =~= s@.subrange(start, i + 1));
                }
            }
            return None;
        }
        acc = next;
        i = i + 1;
    }
    proof {
        assert(s@.subrange(start, n as int) =~= s@.skip(start));
    }
    Some(acc as u32)
}

} // verus!
