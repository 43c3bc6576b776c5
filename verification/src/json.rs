//! Rendering the contest summary as a JSON object, byte for byte: the
//! four fields in a fixed order, each value a JSON string with the
//! standard escapes.

use vstd::prelude::*;
use vstd::string::{StrSliceExecFns, StringExecFns};

use crate::reindeer::ContestResponse;

verus! {

/// The character for a single hexadecimal digit value, lower case.
pub open spec fn hex_char(d: nat) -> char {
    if d == 0 {
        '0'
    } else if d == 1 {
        '1'
    } else if d == 2 {
        '2'
    } else if d == 3 {
        '3'
    } else if d == 4 {
        '4'
    } else if d == 5 {
        '5'
    } else if d == 6 {
        '6'
    } else if d == 7 {
        '7'
    } else if d == 8 {
        '8'
    } else if d == 9 {
        '9'
    } else if d == 10 {
        'a'
    } else if d == 11 {
        'b'
    } else if d == 12 {
        'c'
    } else if d == 13 {
        'd'
    } else if d == 14 {
        'e'
    } else {
        'f'
    }
}

/// How one character appears inside a JSON string: quotes and
/// backslashes get a backslash escape, the five control characters with
/// short names get those, the remaining control characters a
/// `\u00` escape with two lower-case hex digits, and everything else
/// stands as itself.
pub open spec fn json_escape_char(c: char) -> Seq<char> {
    if c == '"' {
        seq!['\\', '"']
    } else if c == '\\' {
        seq!['\\', '\\']
    } else if c as u32 == 8 {
        seq!['\\', 'b']
    } else if c as u32 == 9 {
        seq!['\\', 't']
    } else if c as u32 == 10 {
        seq!['\\', 'n']
    } else if c as u32 == 12 {
        seq!['\\', 'f']
    } else if c as u32 == 13 {
        seq!['\\', 'r']
    } else if (c as u32) < 32 {
        let hi = hex_char((c as u32 / 16) as nat);
        let lo = hex_char((c as u32 % 16) as nat);
        seq!['\\', 'u', '0', '0', hi, lo]
    } else {
        seq![c]
    }
}

/// The JSON-string form of `s`: each character escaped as needed.
pub open spec fn json_escape(s: Seq<char>) -> Seq<char>
    decreases s.len(),
{
    if s.len() == 0 {
        Seq::empty()
    } else {
        json_escape(s.drop_last()) + json_escape_char(s.last())
    }
}

/// The contest summary as a JSON object, fields in this fixed order.
pub open spec fn contest_json(
    fastest: Seq<char>,
    tallest: Seq<char>,
    magician: Seq<char>,
    consumer: Seq<char>,
) -> Seq<char> {
    "{\"fastest\":\""@ + json_escape(fastest) + "\",\"tallest\":\""@ + json_escape(tallest)
        + "\",\"magician\":\""@ + json_escape(magician) + "\",\"consumer\":\""@ + json_escape(
        consumer,
    ) + "\"}"@
}

/// The two-character string for a `\u00` escape's hex digits.
fn hex_pair_str(u: u32) -> (r: (&'static str, &'static str))
    requires
        u < 32,
    ensures
        r.0@ == seq![hex_char((u / 16) as nat)],
        r.1@ == seq![hex_char((u % 16) as nat)],
{
    proof {
        reveal_strlit("0");
        reveal_strlit("1");
        reveal_strlit("2");
        reveal_strlit("3");
        reveal_strlit("4");
        reveal_strlit("5");
        reveal_strlit("6");
        reveal_strlit("7");
        reveal_strlit("8");
        reveal_strlit("9");
        reveal_strlit("a");
        reveal_strlit("b");
        reveal_strlit("c");
        reveal_strlit("d");
        reveal_strlit("e");
        reveal_strlit("f");
    }
    let hi = if u < 16 {
        "0"
    } else {
        "1"
    };
    let lo = match u % 16 {
        0 => "0",
        1 => "1",
        2 => "2",
        3 => "3",
        4 => "4",
        5 => "5",
        6 => "6",
        7 => "7",
        8 => "8",
        9 => "9",
        10 => "a",
        11 => "b",
        12 => "c",
        13 => "d",
        14 => "e",
        _ => "f",
    };
    (hi, lo)
}

/// Escapes `s` for use inside a JSON string literal.
pub fn json_escape_str(s: &str) -> (r: String)
    ensures
        r@ == json_escape(s@),
{
    let n = s.unicode_len();
    let mut out = String::new();
    let mut i: usize = 0;
    while i < n
        invariant
            n as nat == s@.len(),
            i <= n,
            out@ == json_escape(s@.take(i as int)),
        decreases n - i,
    {
        proof {
            assert(s@.take(i + 1).drop_last() =~= s@.take(i as int));
            assert(s@.take(i + 1).last() == s@[i as int]);
        }
        let c = s.get_char(i);
        let u = c as u32;
        if c == '"' {
            proof {
                reveal_strlit("\\\"");
            }
            out.append("\\\"");
        } else if c == '\\' {
            proof {
                reveal_strlit("\\\\");
            }
            out.append("\\\\");
        } else if u == 8 {
            proof {
                reveal_strlit("\\b");
            }
            out.append("\\b");
        } else if u == 9 {
            proof {
                reveal_strlit("\\t");
            }
            out.append("\\t");
        } else if u == 10 {
            proof {
                reveal_strlit("\\n");
            }
            out.append("\\n");
        } else if u == 12 {
            proof {
                reveal_strlit("\\f");
            }
            out.append("\\f");
        } else if u == 13 {
            proof {
                reveal_strlit("\\r");
            }
            out.append("\\r");
        } else if u < 32 {
            proof {
                reveal_strlit("\\u00");
            }
            out.append("\\u00");
            let (hi, lo) = hex_pair_str(u);
            out.append(hi);
            out.append(lo);
        } else {
            let piece = s.substring_char(i, i + 1);
            proof {
                assert(piece@ =~= seq![s@[i as int]]);
            }
            out.append(piece);
        }
        proof {
            assert(out@ =~= json_escape(s@.take(i + 1)));
        }
        i = i + 1;
    }
    proof {
        assert(s@.take(n as int) =~= s@);
    }
    out
}

/// Renders the contest summary as its JSON object.
pub fn contest_response_to_json(r: &ContestResponse) -> (out: String)
    ensures
        out@ == contest_json(r.fastest@, r.tallest@, r.magician@, r.consumer@),
{
    let mut out = String::new();
    out.append("{\"fastest\":\"");
    let fastest = json_escape_str(r.fastest.as_str());
    out.append(fastest.as_str());
    out.append("\",\"tallest\":\"");
    let tallest = json_escape_str(r.tallest.as_str());
    out.append(tallest.as_str());
    out.append("\",\"magician\":\"");
    let magician = json_escape_str(r.magician.as_str());
    out.append(magician.as_str());
    out.append("\",\"consumer\":\"");
    let consumer = json_escape_str(r.consumer.as_str());
    out.append(consumer.as_str());
    out.append("\"}");
    proof {
        assert(out@ =~= contest_json(r.fastest@, r.tallest@, r.magician@, r.consumer@));
    }
    out
}

} // verus!
