//! Rendering a parse error as text: the offending string in quoted form and
//! each offender with its byte offset in decimal.

use vstd::prelude::*;
use vstd::string::*;
use crate::chars::pairs_view;

verus! {

/// The decimal digit character for `d`.
pub open spec fn digit_char(d: nat) -> char
    recommends
        d < 10,
{
    ((d + 48) as u8) as char
}

/// The decimal rendering of `n`, most significant digit first, without
/// leading zeros.
pub open spec fn decimal_digits(n: nat) -> Seq<char>
    decreases n,
{
    if n < 10 {
        seq![digit_char(n)]
    } else {
        decimal_digits(n / 10).push(digit_char(n % 10))
    }
}

/// What std's Debug formatting prints for the text `s`: the string quoted
/// and escaped, a function of the characters alone.
pub uninterp spec fn debug_quoted(s: Seq<char>) -> Seq<char>;

/// Relies on std's Debug formatting of `str` (through the `format!`
/// macro): the quoted, escaped form of the string, a function of its
/// characters alone.
#[verifier::external_body]
fn quote_str(s: &str) -> (r: String)
    ensures
        r@ == debug_quoted(s@),
{
    format!("{s:?}")
}

/// Relies on std's Display formatting of `usize` (through the `format!`
/// macro): the decimal digits of `n`, without leading zeros.
#[verifier::external_body]
fn decimal_string(n: usize) -> (r: String)
    ensures
        r@ == decimal_digits(n as nat),
{
    format!("{n}")
}

/// The per-offender tail of the message: a backquoted character and its
/// byte offset, for each pair in order.
pub open spec fn pairs_suffix(pairs: Seq<(int, char)>) -> Seq<char>
    decreases pairs.len(),
{
    if pairs.len() == 0 {
        Seq::empty()
    } else {
        pairs_suffix(pairs.drop_last()) + " `"@ + seq![pairs.last().1] + "`@"@ + decimal_digits(
            pairs.last().0 as nat,
        )
    }
}

/// The rendered message for a list of illegal characters: the role text,
/// the quoted offending string, a colon, then each offender.
pub open spec fn illegal_chars_message(
    role: Seq<char>,
    text: Seq<char>,
    pairs: Seq<(int, char)>,
) -> Seq<char> {
    role + debug_quoted(text) + ":"@ + pairs_suffix(pairs)
}

/// Renders `role`, the quoted `text`, and every offending pair.
#[verifier::loop_isolation(false)]
pub fn render_illegal_chars(role: &str, text: &str, pairs: &Vec<(usize, char)>) -> (r: String)
    ensures
        r@ == illegal_chars_message(role@, text@, pairs_view(pairs@)),
{
    let mut out = String::new();
    out.append(role);
    let quoted = quote_str(text);
    out.append(quoted.as_str());
    out.append(":");
    let ghost head = role@ + debug_quoted(text@) + ":"@;
    let ghost pv = pairs_view(pairs@);
    proof {
        assert(out@ =~= head + pairs_suffix(pv.take(0)));
    }
    let n = pairs.len();
    let mut i: usize = 0;
    while i < n
        invariant
            i <= n,
            out@ == head + pairs_suffix(pv.take(i as int)),
        decreases n - i,
    {
        let p = pairs[i];
        out.append(" `");
        out.push(p.1);
        out.append("`@");
        let digits = decimal_string(p.0);
        out.append(digits.as_str());
        proof {
            assert(pv.take(i as int + 1).drop_last() =~= pv.take(i as int));
            assert(pv.take(i as int + 1).last() == (p.0 as int, p.1));
            assert(out@ =~= head + pairs_suffix(pv.take(i as int + 1)));
        }
        i += 1;
    }
    proof {
        assert(pv.take(n as int) =~= pv);
        assert(out@ =~= illegal_chars_message(role@, text@, pv));
    }
    out
}

} // verus!
