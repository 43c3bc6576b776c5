//! The route handlers: greeting, diagnostic error, and the XOR-cube
//! computation over numbers taken from the request path.

use vstd::prelude::*;
use vstd::seq_lib::{commutative_foldr, lemma_fold_right_permutation};

use crate::decimal::{int_to_dec, i128_to_decimal};
use crate::parse::{is_u32_literal, u32_literal_value, parse_u32};
use crate::split::{split_slash, split_slash_str};
use crate::HttpError;

verus! {

/// The binary XOR step used to combine the path numbers.
pub open spec fn xor_op() -> spec_fn(u32, u32) -> u32 {
    |x: u32, acc: u32| x ^ acc
}

/// XOR of all elements of `s` (zero for an empty sequence).
pub open spec fn xor_all(s: Seq<u32>) -> u32 {
    s.fold_right(xor_op(), 0u32)
}

pub open spec fn cube(x: int) -> int {
    x * x * x
}

pub proof fn lemma_xor_op_commutative()
    ensures
        commutative_foldr(xor_op()),
{
    assert forall|x: u32, y: u32, v: u32| #[trigger] xor_op()(x, xor_op()(y, v)) == xor_op()(
        y,
        xor_op()(x, v),
    ) by {
        assert(x ^ (y ^ v) == y ^ (x ^ v)) by (bit_vector);
    }
}

/// XOR of a list of numbers does not depend on their order: any two
/// lists with the same elements (as a multiset) have the same XOR.
pub proof fn lemma_xor_all_order_invariant(a: Seq<u32>, b: Seq<u32>)
    requires
        a.to_multiset() == b.to_multiset(),
    ensures
        xor_all(a) == xor_all(b),
{
    lemma_xor_op_commutative();
    lemma_fold_right_permutation(a, b, xor_op(), 0u32);
}

/// Whether every path segment is a valid `u32` literal.
pub open spec fn all_segments_parse(segs: Seq<Seq<char>>) -> bool {
    forall|i: int| 0 <= i < segs.len() ==> is_u32_literal(segs[i])
}

/// The numbers named by the path segments.
pub open spec fn segment_values(segs: Seq<Seq<char>>) -> Seq<u32> {
    segs.map_values(|t: Seq<char>| u32_literal_value(t) as u32)
}

/// What `day_one` returns for a captured path: a bad request if the
/// path names more than twenty numbers or a segment is not a valid
/// number, and otherwise the decimal rendering of the cube of the XOR
/// of all the numbers.
pub open spec fn day_one_spec(path: Seq<char>) -> Result<Seq<char>, HttpError> {
    let segs = split_slash(path);
    if segs.len() > 20 {
        Err(HttpError::BadRequest)
    } else if !all_segments_parse(segs) {
        Err(HttpError::BadRequest)
    } else {
        Ok(int_to_dec(cube(xor_all(segment_values(segs)) as int)))
    }
}

/// Shuffling the numbers in the path does not change the XOR-cube
/// route's answer: two paths that both parse, stay within the twenty
/// number limit, and name the same numbers (as a multiset) get the
/// same response.
pub proof fn lemma_day_one_order_invariant(a: Seq<char>, b: Seq<char>)
    requires
        split_slash(a).len() <= 20,
        split_slash(b).len() <= 20,
        all_segments_parse(split_slash(a)),
        all_segments_parse(split_slash(b)),
        segment_values(split_slash(a)).to_multiset() == segment_values(
            split_slash(b),
        ).to_multiset(),
    ensures
        day_one_spec(a) == day_one_spec(b),
{
    lemma_xor_all_order_invariant(
        segment_values(split_slash(a)),
        segment_values(split_slash(b)),
    );
}

/// The greeting route.
pub fn hello_world() -> (r: &'static str)
    ensures
        r@ == "Hello, world!"@,
{
    "Hello, world!"
}

/// The diagnostic route that always fails with an internal error.
pub fn zero_day_error() -> (r: Result<String, HttpError>)
    ensures
        r == Err::<String, HttpError>(HttpError::InternalServerError),
{
    Err(HttpError::InternalServerError)
}

/// The XOR-cube route: `path` is the slash-separated list of numbers
/// captured from the request path after the route prefix.
pub fn day_one(path: &str) -> (r: Result<String, HttpError>)
    ensures
        match r {
            Ok(out) => day_one_spec(path@) == Ok::<Seq<char>, HttpError>(out@),
            Err(e) => day_one_spec(path@) == Err::<Seq<char>, HttpError>(e),
        },
{
    let segs = split_slash_str(path);
    let ghost sv = split_slash(path@);
    if segs.len() > 20 {
        return Err(HttpError::BadRequest);
    }
    let mut vals: Vec<u32> = Vec::new();
    let mut idx: usize = 0;
    while idx < segs.len()
        invariant
            sv == split_slash(path@),
            segs@.map_values(|t: String| t@) == sv,
            idx <= segs.len() == sv.len() <= 20,
            vals@.len() == idx,
            forall|j: int| 0 <= j < idx ==> is_u32_literal(sv[j]),
            forall|j: int|
                0 <= j < idx ==> vals@[j] as int == u32_literal_value(sv[j]),
        decreases segs.len() - idx,
    {
        proof {
            assert(sv[idx as int] == segs@.map_values(|t: String| t@)[idx as int]);
        }
        match parse_u32(segs[idx].as_str()) {
            Some(v) => {
                vals.push(v);
            },
            None => {
                proof {
                    assert(!is_u32_literal(sv[idx as int]));
                    assert(!all_segments_parse(sv));
                }
                return Err(HttpError::BadRequest);
            },
        }
        idx = idx + 1;
    }
    proof {
        assert(vals@ =~= segment_values(sv));
    }
    let mut acc: u32 = 0;
    let mut i: usize = vals.len();
    proof {
        assert(vals@.subrange(0, vals@.len() as int) =~= vals@);
    }
    while i > 0
        invariant
            sv == split_slash(path@),
            sv.len() <= 20,
            all_segments_parse(sv),
            vals@ == segment_values(sv),
            i <= vals@.len(),
            xor_all(vals@) == vals@.subrange(0, i as int).fold_right(xor_op(), acc),
        decreases i,
    {
        i = i - 1;
        proof {
            let pre = vals@.subrange(0, i + 1);
            assert(pre.drop_last() =~= vals@.subrange(0, i as int));
            assert(pre.last() == vals@[i as int]);
            assert(xor_op()(vals@[i as int], acc) == vals@[i as int] ^ acc);
        }
        acc = vals[i] ^ acc;
    }
    proof {
        assert(vals@.subrange(0, 0).fold_right(xor_op(), acc) == acc);
    }
    let big: u128 = acc as u128;
    proof {
        assert(big * big < 0x10000000000000000) by (nonlinear_arith)
            requires
                big < 0x100000000,
        ;
        assert(big * big * big < 0x1000000000000000000000000) by (nonlinear_arith)
            requires
                big < 0x100000000,
        ;
    }
    let c: u128 = big * big * big;
    let out = i128_to_decimal(c as i128);
    Ok(out)
}

} // verus!
