//! Reindeer records and the two aggregations over them: the strength
//! sum and the contest summary.
//!
//! Oddity kept on purpose: the "fastest" category is decided by the
//! minimum strength (not by speed), and its sentence quotes that
//! strength; the "tallest" category is decided by the minimum antler
//! width. The sentences below reproduce that wording exactly.

use vstd::prelude::*;
use vstd::string::StringExecFns;

use crate::decimal::{int_to_dec, i128_to_decimal};

verus! {

/// A record posted to the strength route.
pub struct StrengthReindeer {
    pub name: String,
    pub strength: i32,
}

/// A record posted to the contest route. The wire format also carries a
/// floating-point speed field that no contest category reads and an
/// oddly spelled alias for `candies`; the server layer owns both and
/// hands this crate only the fields the contest looks at.
pub struct ContestReindeer {
    pub name: String,
    pub strength: i32,
    pub height: i32,
    pub antler_width: i32,
    pub snow_magic_power: u64,
    pub favorite_food: String,
    pub candies: u32,
}

/// The four narrative strings of the contest summary.
pub struct ContestResponse {
    pub fastest: String,
    pub tallest: String,
    pub magician: String,
    pub consumer: String,
}

/// Sum of the strength fields of all records.
pub open spec fn sum_strength(s: Seq<StrengthReindeer>) -> int
    decreases s.len(),
{
    if s.len() == 0 {
        0
    } else {
        sum_strength(s.drop_last()) + s.last().strength
    }
}

/// The strength route: the decimal sum of all strengths, `"0"` for an
/// empty list.
pub fn day_four_strength(payload: &Vec<StrengthReindeer>) -> (r: String)
    ensures
        r@ == int_to_dec(sum_strength(payload@)),
        payload@.len() == 0 ==> r@ == seq!['0'],
{
    let mut acc: i128 = 0;
    let mut i: usize = 0;
    while i < payload.len()
        invariant
            i <= payload@.len(),
            acc == sum_strength(payload@.take(i as int)),
            -0x8000_0000 * (i as int) <= acc <= 0x8000_0000 * (i as int),
        decreases payload@.len() - i,
    {
        proof {
            assert(payload@.take(i + 1).drop_last() =~= payload@.take(i as int));
            assert((i + 1) * 0x8000_0000 == i * 0x8000_0000 + 0x8000_0000) by (nonlinear_arith);
            assert(i * 0x8000_0000 <= 0xffff_ffff_ffff_ffff * 0x8000_0000i128) by (
            nonlinear_arith)
                requires
                    0 <= i <= 0xffff_ffff_ffff_ffffu64,
            ;
        }
        acc = acc + payload[i].strength as i128;
        i = i + 1;
    }
    proof {
        assert(payload@.take(payload@.len() as int) =~= payload@);
    }
    i128_to_decimal(acc)
}

/// Running strict minimum over scored names: a later entry replaces the
/// current best only when its score is strictly smaller, so the first
/// of equally scored entries is kept.
pub open spec fn run_min(pairs: Seq<(int, Seq<char>)>, sc: int, nm: Seq<char>) -> (int, Seq<char>)
    decreases pairs.len(),
{
    if pairs.len() == 0 {
        (sc, nm)
    } else if pairs[0].0 < sc {
        run_min(pairs.drop_first(), pairs[0].0, pairs[0].1)
    } else {
        run_min(pairs.drop_first(), sc, nm)
    }
}

/// Running strict maximum over scored names, first-wins like `run_min`.
pub open spec fn run_max(pairs: Seq<(int, Seq<char>)>, sc: int, nm: Seq<char>) -> (int, Seq<char>)
    decreases pairs.len(),
{
    if pairs.len() == 0 {
        (sc, nm)
    } else if pairs[0].0 > sc {
        run_max(pairs.drop_first(), pairs[0].0, pairs[0].1)
    } else {
        run_max(pairs.drop_first(), sc, nm)
    }
}

pub open spec fn strength_pairs(s: Seq<ContestReindeer>) -> Seq<(int, Seq<char>)> {
    s.map_values(|r: ContestReindeer| (r.strength as int, r.name@))
}

pub open spec fn antler_pairs(s: Seq<ContestReindeer>) -> Seq<(int, Seq<char>)> {
    s.map_values(|r: ContestReindeer| (r.antler_width as int, r.name@))
}

pub open spec fn magic_pairs(s: Seq<ContestReindeer>) -> Seq<(int, Seq<char>)> {
    s.map_values(|r: ContestReindeer| (r.snow_magic_power as int, r.name@))
}

pub open spec fn candy_pairs(s: Seq<ContestReindeer>) -> Seq<(int, Seq<char>)> {
    s.map_values(|r: ContestReindeer| (r.candies as int, r.name@))
}

/// Lowest strength wins the "fastest" title; the sentinel score is the
/// largest 32-bit value with an empty name, which an empty list leaves
/// in place.
pub open spec fn fastest_winner(s: Seq<ContestReindeer>) -> (int, Seq<char>) {
    run_min(strength_pairs(s), i32::MAX as int, Seq::empty())
}

/// Lowest antler width wins the "tallest" title.
pub open spec fn tallest_winner(s: Seq<ContestReindeer>) -> (int, Seq<char>) {
    run_min(antler_pairs(s), i32::MAX as int, Seq::empty())
}

/// Highest snow magic power wins the "magician" title; the sentinel is
/// a zero score with an empty name.
pub open spec fn magician_winner(s: Seq<ContestReindeer>) -> (int, Seq<char>) {
    run_max(magic_pairs(s), 0, Seq::empty())
}

/// Most candies eaten wins the "consumer" title.
pub open spec fn consumer_winner(s: Seq<ContestReindeer>) -> (int, Seq<char>) {
    run_max(candy_pairs(s), 0, Seq::empty())
}

pub open spec fn fastest_line(s: Seq<ContestReindeer>) -> Seq<char> {
    "Speeding past the finish line with a strength of "@ + int_to_dec(fastest_winner(s).0)
        + " is "@ + fastest_winner(s).1
}

pub open spec fn tallest_line(s: Seq<ContestReindeer>) -> Seq<char> {
    tallest_winner(s).1 + " is standing tall with his "@ + int_to_dec(tallest_winner(s).0)
        + " cm wide antlers"@
}

pub open spec fn magician_line(s: Seq<ContestReindeer>) -> Seq<char> {
    magician_winner(s).1 + " could blast you away with a snow magic power of "@ + int_to_dec(
        magician_winner(s).0,
    )
}

pub open spec fn consumer_line(s: Seq<ContestReindeer>) -> Seq<char> {
    consumer_winner(s).1 + " ate lots of candies, but also some grass"@
}

/// First entry wins a minimum tie: a further entry whose score only
/// ties (or exceeds) the winning score changes nothing.
pub proof fn lemma_run_min_tie_keeps_first(
    pairs: Seq<(int, Seq<char>)>,
    sc: int,
    nm: Seq<char>,
    p: (int, Seq<char>),
)
    requires
        p.0 >= run_min(pairs, sc, nm).0,
    ensures
        run_min(pairs.push(p), sc, nm) == run_min(pairs, sc, nm),
    decreases pairs.len(),
{
    reveal_with_fuel(run_min, 3);
    if pairs.len() == 0 {
        assert(pairs.push(p)[0] == p);
        assert(pairs.push(p).drop_first() =~= Seq::<(int, Seq<char>)>::empty());
    } else {
        assert(pairs.push(p)[0] == pairs[0]);
        assert(pairs.push(p).drop_first() =~= pairs.drop_first().push(p));
        if pairs[0].0 < sc {
            lemma_run_min_tie_keeps_first(pairs.drop_first(), pairs[0].0, pairs[0].1, p);
        } else {
            lemma_run_min_tie_keeps_first(pairs.drop_first(), sc, nm, p);
        }
    }
}

/// First entry wins a maximum tie: a further entry whose score only
/// ties (or falls below) the winning score changes nothing.
pub proof fn lemma_run_max_tie_keeps_first(
    pairs: Seq<(int, Seq<char>)>,
    sc: int,
    nm: Seq<char>,
    p: (int, Seq<char>),
)
    requires
        p.0 <= run_max(pairs, sc, nm).0,
    ensures
        run_max(pairs.push(p), sc, nm) == run_max(pairs, sc, nm),
    decreases pairs.len(),
{
    reveal_with_fuel(run_max, 3);
    if pairs.len() == 0 {
        assert(pairs.push(p)[0] == p);
        assert(pairs.push(p).drop_first() =~= Seq::<(int, Seq<char>)>::empty());
    } else {
        assert(pairs.push(p)[0] == pairs[0]);
        assert(pairs.push(p).drop_first() =~= pairs.drop_first().push(p));
        if pairs[0].0 > sc {
            lemma_run_max_tie_keeps_first(pairs.drop_first(), pairs[0].0, pairs[0].1, p);
        } else {
            lemma_run_max_tie_keeps_first(pairs.drop_first(), sc, nm, p);
        }
    }
}

/// First record wins exact ties on any tracked field: appending a
/// record that does not strictly beat a category's winning score leaves
/// that category's winner — score and name — unchanged.
pub proof fn lemma_contest_first_wins(s: Seq<ContestReindeer>, r: ContestReindeer)
    ensures
        r.strength as int >= fastest_winner(s).0 ==> fastest_winner(s.push(r)) == fastest_winner(
            s,
        ),
        r.antler_width as int >= tallest_winner(s).0 ==> tallest_winner(s.push(r))
            == tallest_winner(s),
        r.snow_magic_power as int <= magician_winner(s).0 ==> magician_winner(s.push(r))
            == magician_winner(s),
        r.candies as int <= consumer_winner(s).0 ==> consumer_winner(s.push(r))
            == consumer_winner(s),
{
    assert(strength_pairs(s.push(r)) =~= strength_pairs(s).push((r.strength as int, r.name@)));
    assert(antler_pairs(s.push(r)) =~= antler_pairs(s).push((r.antler_width as int, r.name@)));
    assert(magic_pairs(s.push(r)) =~= magic_pairs(s).push((r.snow_magic_power as int, r.name@)));
    assert(candy_pairs(s.push(r)) =~= candy_pairs(s).push((r.candies as int, r.name@)));
    if r.strength as int >= fastest_winner(s).0 {
        lemma_run_min_tie_keeps_first(
            strength_pairs(s),
            i32::MAX as int,
            Seq::empty(),
            (r.strength as int, r.name@),
        );
    }
    if r.antler_width as int >= tallest_winner(s).0 {
        lemma_run_min_tie_keeps_first(
            antler_pairs(s),
            i32::MAX as int,
            Seq::empty(),
            (r.antler_width as int, r.name@),
        );
    }
    if r.snow_magic_power as int <= magician_winner(s).0 {
        lemma_run_max_tie_keeps_first(
            magic_pairs(s),
            0,
            Seq::empty(),
            (r.snow_magic_power as int, r.name@),
        );
    }
    if r.candies as int <= consumer_winner(s).0 {
        lemma_run_max_tie_keeps_first(
            candy_pairs(s),
            0,
            Seq::empty(),
            (r.candies as int, r.name@),
        );
    }
}

/// The contest route: one pass over the records, tracking the four
/// categories independently with first-wins tie-breaks.
pub fn day_four_contest(payload: &Vec<ContestReindeer>) -> (r: ContestResponse)
    ensures
        r.fastest@ == fastest_line(payload@),
        r.tallest@ == tallest_line(payload@),
        r.magician@ == magician_line(payload@),
        r.consumer@ == consumer_line(payload@),
{
    let mut fastest_score: i32 = i32::MAX;
    let mut fastest_name = String::new();
    let mut tallest_score: i32 = i32::MAX;
    let mut tallest_name = String::new();
    let mut magician_score: u64 = 0;
    let mut magician_name = String::new();
    let mut consumer_score: u32 = 0;
    let mut consumer_name = String::new();
    let mut i: usize = 0;
    proof {
        assert(payload@.skip(0) =~= payload@);
        assert(strength_pairs(payload@.skip(0)) =~= strength_pairs(payload@));
        assert(antler_pairs(payload@.skip(0)) =~= antler_pairs(payload@));
        assert(magic_pairs(payload@.skip(0)) =~= magic_pairs(payload@));
        assert(candy_pairs(payload@.skip(0)) =~= candy_pairs(payload@));
    }
    while i < payload.len()
        invariant
            i <= payload@.len(),
            fastest_winner(payload@) == run_min(
                strength_pairs(payload@.skip(i as int)),
                fastest_score as int,
                fastest_name@,
            ),
            tallest_winner(payload@) == run_min(
                antler_pairs(payload@.skip(i as int)),
                tallest_score as int,
                tallest_name@,
            ),
            magician_winner(payload@) == run_max(
                magic_pairs(payload@.skip(i as int)),
                magician_score as int,
                magician_name@,
            ),
            consumer_winner(payload@) == run_max(
                candy_pairs(payload@.skip(i as int)),
                consumer_score as int,
                consumer_name@,
            ),
        decreases payload@.len() - i,
    {
        proof {
            let suffix = payload@.skip(i as int);
            assert(suffix[0] == payload@[i as int]);
            assert(suffix.drop_first() =~= payload@.skip(i + 1));
            assert(strength_pairs(suffix).drop_first() =~= strength_pairs(payload@.skip(i + 1)));
            assert(antler_pairs(suffix).drop_first() =~= antler_pairs(payload@.skip(i + 1)));
            assert(magic_pairs(suffix).drop_first() =~= magic_pairs(payload@.skip(i + 1)));
            assert(candy_pairs(suffix).drop_first() =~= candy_pairs(payload@.skip(i + 1)));
        }
        let r = &payload[i];
        if r.strength < fastest_score {
            fastest_score = r.strength;
            fastest_name = r.name.clone();
        }
        if r.antler_width < tallest_score {
            tallest_score = r.antler_width;
            tallest_name = r.name.clone();
        }
        if r.snow_magic_power > magician_score {
            magician_score = r.snow_magic_power;
            magician_name = r.name.clone();
        }
        if r.candies > consumer_score {
            consumer_score = r.candies;
            consumer_name = r.name.clone();
        }
        i = i + 1;
    }
    proof {
        assert(payload@.skip(payload@.len() as int) =~= Seq::<ContestReindeer>::empty());
        assert(strength_pairs(Seq::<ContestReindeer>::empty()) =~= Seq::<(int, Seq<char>)>::empty());
        assert(antler_pairs(Seq::<ContestReindeer>::empty()) =~= Seq::<(int, Seq<char>)>::empty());
        assert(magic_pairs(Seq::<ContestReindeer>::empty()) =~= Seq::<(int, Seq<char>)>::empty());
        assert(candy_pairs(Seq::<ContestReindeer>::empty()) =~= Seq::<(int, Seq<char>)>::empty());
    }
    let mut fastest = String::new();
    fastest.append("Speeding past the finish line with a strength of ");
    let fastest_dec = i128_to_decimal(fastest_score as i128);
    fastest.append(fastest_dec.as_str());
    fastest.append(" is ");
    fastest.append(fastest_name.as_str());
    proof {
        assert(fastest@ =~= fastest_line(payload@));
    }
    let mut tallest_out = tallest_name;
    tallest_out.append(" is standing tall with his ");
    let tallest_dec = i128_to_decimal(tallest_score as i128);
    tallest_out.append(tallest_dec.as_str());
    tallest_out.append(" cm wide antlers");
    proof {
        assert(tallest_out@ =~= tallest_line(payload@));
    }
    let mut magician_out = magician_name;
    magician_out.append(" could blast you away with a snow magic power of ");
    let magician_dec = i128_to_decimal(magician_score as i128);
    magician_out.append(magician_dec.as_str());
    proof {
        assert(magician_out@ =~= magician_line(payload@));
    }
    let mut consumer_out = consumer_name;
    consumer_out.append(" ate lots of candies, but also some grass");
    proof {
        assert(consumer_out@ =~= consumer_line(payload@));
    }
    ContestResponse {
        fastest,
        tallest: tallest_out,
        magician: magician_out,
        consumer: consumer_out,
    }
}

} // verus!
