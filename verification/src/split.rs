//! Splitting a path string on `'/'` separators.

use vstd::prelude::*;
use vstd::string::StrSliceExecFns;

verus! {

/// The segments of `s` between `'/'` separators, in order. Splitting
/// never yields an empty list: an empty string has the single empty
/// segment, and each separator starts a new (possibly empty) segment.
pub open spec fn split_slash(s: Seq<char>) -> Seq<Seq<char>>
    decreases s.len(),
{
    if s.len() == 0 {
        seq![Seq::<char>::empty()]
    } else if s[0] == '/' {
        seq![Seq::<char>::empty()] + split_slash(s.drop_first())
    } else {
        let rest = split_slash(s.drop_first());
        seq![seq![s[0]] + rest[0]] + rest.drop_first()
    }
}

pub proof fn lemma_split_slash_nonempty(s: Seq<char>)
    ensures
        split_slash(s).len() >= 1,
    decreases s.len(),
{
    if s.len() != 0 && s[0] == '/' {
        lemma_split_slash_nonempty(s.drop_first());
    }
}

/// A string without separators is its own single segment.
pub proof fn lemma_split_slash_no_sep(s: Seq<char>)
    requires
        forall|i: int| 0 <= i < s.len() ==> s[i] != '/',
    ensures
        split_slash(s) =~~= seq![s],
    decreases s.len(),
{
    if s.len() > 0 {
        lemma_split_slash_no_sep(s.drop_first());
        assert(seq![s[0]] + s.drop_first() =~= s);
    }
}

/// Splitting at the first separator: everything before it is the first
/// segment, and the rest splits on its own.
pub proof fn lemma_split_slash_first_sep(s: Seq<char>, k: int)
    requires
        0 <= k < s.len(),
        s[k] == '/',
        forall|i: int| 0 <= i < k ==> s[i] != '/',
    ensures
        split_slash(s) =~~= seq![s.take(k)] + split_slash(s.skip(k + 1)),
    decreases k,
{
    if k == 0 {
        assert(s.take(0) =~= Seq::<char>::empty());
        assert(s.skip(1) =~= s.drop_first());
    } else {
        let t = s.drop_first();
        lemma_split_slash_first_sep(t, k - 1);
        lemma_split_slash_nonempty(t.skip(k));
        assert(t.take(k - 1) =~= s.subrange(1, k));
        assert(seq![s[0]] + s.subrange(1, k) =~= s.take(k));
        assert(t.skip(k) =~= s.skip(k + 1));
    }
}

/// Splits `s` on `'/'`, returning the segments in order.
pub fn split_slash_str(s: &str) -> (r: Vec<String>)
    ensures
        r@.map_values(|t: String| t@) =~~= split_slash(s@),
{
    let n = s.unicode_len();
    let mut out: Vec<String> = Vec::new();
    let mut seg_start: usize = 0;
    let mut i: usize = 0;
    proof {
        assert(s@.skip(0) =~= s@);
    }
    while i < n
        invariant
            n as nat == s@.len(),
            seg_start <= i <= n,
            forall|j: int| seg_start <= j < i ==> s@[j] != '/',
            split_slash(s@) =~~= out@.map_values(|t: String| t@) + split_slash(
                s@.skip(seg_start as int),
            ),
        decreases n - i,
    {
        let c = s.get_char(i);
        if c == '/' {
            let seg = s.substring_char(seg_start, i).to_owned();
            proof {
                let suffix = s@.skip(seg_start as int);
                lemma_split_slash_first_sep(suffix, i - seg_start);
                assert(suffix.take(i - seg_start) =~= s@.subrange(
                    seg_start as int,
                    i as int,
                ));
                assert(suffix.skip(i - seg_start + 1) =~= s@.skip(i + 1));
            }
            let ghost old_out = out@;
            out.push(seg);
            proof {
                assert(out@.map_values(|t: String| t@) =~= old_out.map_values(
                    |t: String| t@,
                ).push(s@.subrange(seg_start as int, i as int)));
            }
            seg_start = i + 1;
        }
        i = i + 1;
    }
    let seg = s.substring_char(seg_start, n).to_owned();
    proof {
        let suffix = s@.skip(seg_start as int);
        lemma_split_slash_no_sep(suffix);
        assert(suffix =~= s@.subrange(seg_start as int, n as int));
    }
    let ghost old_out = out@;
    out.push(seg);
    proof {
        assert(out@.map_values(|t: String| t@) =~= old_out.map_values(|t: String| t@).push(
            s@.subrange(seg_start as int, n as int),
        ));
    }
    out
}

} // verus!
