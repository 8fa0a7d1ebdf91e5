//! Display widths of characters, as the diagnostic formatter needs them: a
//! trusted lookup into unicode_width's table, and the column arithmetic over
//! it.

use vstd::prelude::*;
use unicode_width::UnicodeWidthChar;

verus! {

/// The displayed width of `c` in columns per unicode_width's table, or `None`
/// for a control character.
pub uninterp spec fn char_display_width(c: char) -> Option<usize>;

/// Relies on unicode_width's `UnicodeWidthChar::width`: a pure lookup in a
/// fixed table, so the result depends on the character alone; printable
/// ASCII (U+0020 up to but excluding U+007F) is single-width.
#[verifier::external_body]
pub fn display_width(c: char) -> (r: Option<usize>)
    ensures
        r == char_display_width(c),
        ' ' <= c && c < '\u{7F}' ==> r == Some(1usize),
{
    UnicodeWidthChar::width(c)
}

/// The width the formatter uses for `c`: its displayed width, defaulting to
/// one column for control characters.
pub open spec fn width_or_default(c: char) -> nat {
    match char_display_width(c) {
        Some(w) => w as nat,
        None => 1,
    }
}

/// The column at which the `i`th character of `s` starts: the sum of the
/// widths of the characters before it.
pub open spec fn width_sum(s: Seq<char>, i: int) -> nat
    decreases i,
{
    if i <= 0 {
        0
    } else {
        width_sum(s, i - 1) + width_or_default(s[i - 1])
    }
}

/// The column of a character depends only on the characters before it.
pub proof fn lemma_width_sum_take(s: Seq<char>, k: int, i: int)
    requires
        0 <= i <= k <= s.len(),
    ensures
        width_sum(s.take(k), i) == width_sum(s, i),
    decreases i,
{
    if i > 0 {
        lemma_width_sum_take(s, k, i - 1);
    }
}

/// Columns are monotonic: a later character starts at the same or a later
/// column.
pub proof fn lemma_width_sum_le(s: Seq<char>, i: int, j: int)
    requires
        0 <= i <= j,
    ensures
        width_sum(s, i) <= width_sum(s, j),
    decreases j,
{
    if i < j {
        lemma_width_sum_le(s, i, j - 1);
    }
}

/// The width the formatter uses for `c`; the executable form of
/// [`width_or_default`].
pub fn char_width_or_default(c: char) -> (r: usize)
    ensures
        r as nat == width_or_default(c),
{
    match display_width(c) {
        Some(w) => w,
        None => 1,
    }
}

} // verus!
