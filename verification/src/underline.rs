//! The diagnostic formatter: renders a two-line message whose second line
//! places a marker character directly under every flagged character of the
//! input, aligned by displayed column rather than by byte.

use vstd::prelude::*;
use vstd::string::*;
use crate::chars::byte_offset;
use crate::chars::lemma_byte_offset_le;
use crate::chars::lemma_byte_offset_total;
use crate::chars::char_utf8_len;
use crate::widths::width_sum;
use crate::widths::lemma_width_sum_le;
use crate::widths::char_width_or_default;

verus! {

/// Relies on String::push: appends the given character to the end of the
/// string.
pub assume_specification[ String::push ](s: &mut String, ch: char)
    ensures
        final(s)@ == old(s)@.push(ch),
;

/// `n` space characters.
pub open spec fn spaces(n: nat) -> Seq<char> {
    Seq::new(n, |i: int| ' ')
}

/// Whether some character of `input` before index `hi` is flagged (its byte
/// offset occurs in `bad`) and starts at column `p`.
pub open spec fn marked_at_before(input: Seq<char>, bad: Seq<int>, p: int, hi: int) -> bool {
    exists|j: int|
        0 <= j < hi && bad.contains(byte_offset(input, j) as int) && width_sum(input, j) == p
}

/// Whether some flagged character of `input` starts at column `p`.
pub open spec fn marked_at(input: Seq<char>, bad: Seq<int>, p: int) -> bool {
    marked_at_before(input, bad, p, input.len() as int)
}

/// The underline row: one position per display column of `input`, holding
/// `marker` under the starting column of each flagged character and a space
/// everywhere else.
pub open spec fn underline_columns(input: Seq<char>, bad: Seq<int>, marker: char) -> Seq<char> {
    Seq::new(
        width_sum(input, input.len() as int),
        |p: int| if marked_at(input, bad, p) { marker } else { ' ' },
    )
}

/// The whole two-line message: the label and the input on the first line,
/// then an underline row indented by the label's display width plus the
/// separating space.
pub open spec fn underline_message(
    label: Seq<char>,
    input: Seq<char>,
    bad: Seq<int>,
    marker: char,
) -> Seq<char> {
    label + seq![' '] + input + seq!['\n'] + spaces(
        (1 + width_sum(label, label.len() as int)) as nat,
    ) + underline_columns(input, bad, marker)
}

/// Determinism law: the rendered message is a function of the label, the
/// input, the flagged offsets and the marker alone, so two results of
/// [`make_underline_message`] on identical arguments are identical.
pub proof fn lemma_underline_deterministic(
    r1: Seq<char>,
    r2: Seq<char>,
    label: Seq<char>,
    input: Seq<char>,
    bad: Seq<int>,
    marker: char,
)
    requires
        r1 == underline_message(label, input, bad, marker),
        r2 == underline_message(label, input, bad, marker),
    ensures
        r1 == r2,
{
}

/// Appends `w` spaces to `out`.
fn push_spaces(out: &mut String, w: usize)
    ensures
        final(out)@ == old(out)@ + spaces(w as nat),
{
    proof {
        assert(old(out)@ + spaces(0) =~= old(out)@);
    }
    let mut k: usize = 0;
    while k < w
        invariant
            k <= w,
            out@ == old(out)@ + spaces(k as nat),
        decreases w - k,
    {
        out.push(' ');
        proof {
            assert(old(out)@ + spaces((k + 1) as nat) =~= (old(out)@ + spaces(k as nat)).push(' '));
        }
        k += 1;
    }
}

/// Appends `w` spaces to the column vector `v`.
fn push_space_cols(v: &mut Vec<char>, w: usize)
    ensures
        final(v)@ == old(v)@ + spaces(w as nat),
{
    proof {
        assert(old(v)@ + spaces(0) =~= old(v)@);
    }
    let mut k: usize = 0;
    while k < w
        invariant
            k <= w,
            v@ == old(v)@ + spaces(k as nat),
        decreases w - k,
    {
        v.push(' ');
        proof {
            assert(old(v)@ + spaces((k + 1) as nat) =~= (old(v)@ + spaces(k as nat)).push(' '));
        }
        k += 1;
    }
}

/// Whether the byte offset `off` occurs in `bad`.
fn contains_offset(bad: &Vec<usize>, off: usize) -> (r: bool)
    ensures
        r == bad@.map_values(|u: usize| u as int).contains(off as int),
{
    let ghost m = bad@.map_values(|u: usize| u as int);
    let n = bad.len();
    let mut i: usize = 0;
    while i < n
        invariant
            n == bad@.len(),
            i <= n,
            m == bad@.map_values(|u: usize| u as int),
            forall|j: int| 0 <= j < i ==> bad@[j] != off,
        decreases n - i,
    {
        if bad[i] == off {
            proof {
                assert(m[i as int] == off as int);
            }
            return true;
        }
        i += 1;
    }
    proof {
        assert forall|k: int| 0 <= k < m.len() implies m[k] != off as int by {
            assert(m[k] == bad@[k] as int);
        }
    }
    false
}

/// Makes a string that "underlines" characters of `input` denoted by
/// `bad_indices` (byte offsets), preceded by a `label`, using the given
/// marker `character`. A flagged offset that matches no character start is
/// ignored, as is a flagged character that starts past the last column.
#[verifier::loop_isolation(false)]
pub fn make_underline_message(
    label: &str,
    input: &str,
    bad_indices: Vec<usize>,
    character: char,
) -> (r: String)
    ensures
        r@ == underline_message(
            label@,
            input@,
            bad_indices@.map_values(|u: usize| u as int),
            character,
        ),
{
    let ghost bad = bad_indices@.map_values(|u: usize| u as int);

    // The label and the input line.
    let mut out = String::new();
    out.append(label);
    out.push(' ');
    out.append(input);
    out.push('\n');
    let ghost head = label@ + seq![' '] + input@ + seq!['\n'];
    proof {
        assert(out@ =~= head);
    }

    // Indentation aligning the underline row under the input: one space for
    // the separator, then the display width of the label.
    out.push(' ');
    proof {
        assert(out@ =~= head + spaces((1 + width_sum(label@, 0)) as nat));
    }
    let ln = label.unicode_len();
    let mut i: usize = 0;
    while i < ln
        invariant
            i <= ln,
            out@ == head + spaces((1 + width_sum(label@, i as int)) as nat),
        decreases ln - i,
    {
        let w = char_width_or_default(label.get_char(i));
        push_spaces(&mut out, w);
        proof {
            assert(head + spaces((1 + width_sum(label@, i as int + 1)) as nat) =~= (head + spaces(
                (1 + width_sum(label@, i as int)) as nat,
            )) + spaces(w as nat));
        }
        i += 1;
    }
    let ghost head2 = head + spaces((1 + width_sum(label@, label@.len() as int)) as nat);
    proof {
        assert(out@ == head2);
    }

    // The underline row, blank first: one position per display column.
    let cn = input.unicode_len();
    let mut cols: Vec<char> = Vec::new();
    let mut j: usize = 0;
    while j < cn
        invariant
            j <= cn,
            cols@ == spaces(width_sum(input@, j as int)),
        decreases cn - j,
    {
        let w = char_width_or_default(input.get_char(j));
        push_space_cols(&mut cols, w);
        proof {
            assert(spaces(width_sum(input@, j as int + 1)) =~= spaces(
                width_sum(input@, j as int),
            ) + spaces(w as nat));
        }
        j += 1;
    }
    let total_cols = cols.len();

    // Place the marker under the starting column of each flagged character.
    let total_bytes = input.as_bytes().len();
    proof {
        lemma_byte_offset_total(input@);
    }
    let mut off: usize = 0;
    let mut col: usize = 0;
    let mut k: usize = 0;
    while k < cn
        invariant
            k <= cn,
            off as nat == byte_offset(input@, k as int),
            col as nat == width_sum(input@, k as int),
            cols@.len() == total_cols,
            forall|p: int|
                0 <= p < total_cols ==> cols@[p] == (if marked_at_before(
                    input@,
                    bad,
                    p,
                    k as int,
                ) {
                    character
                } else {
                    ' '
                }),
        decreases cn - k,
    {
        let c = input.get_char(k);
        let flagged = contains_offset(&bad_indices, off);
        let ghost prev_cols = cols@;
        if flagged && col < total_cols {
            cols.set(col, character);
        }
        proof {
            assert forall|p: int|
                0 <= p < total_cols implies cols@[p] == (if marked_at_before(
                input@,
                bad,
                p,
                k as int + 1,
            ) {
                character
            } else {
                ' '
            }) by {
                if marked_at_before(input@, bad, p, k as int + 1) {
                    if !marked_at_before(input@, bad, p, k as int) {
                        let jj = choose|jj: int|
                            0 <= jj < k as int + 1 && bad.contains(byte_offset(input@, jj) as int)
                                && width_sum(input@, jj) == p;
                        assert(jj == k as int);
                        assert(flagged);
                        assert(p == col as int);
                        assert(cols@[p] == character);
                    } else {
                        assert(prev_cols[p] == character);
                        assert(cols@[p] == character);
                    }
                } else {
                    assert(!marked_at_before(input@, bad, p, k as int));
                    assert(prev_cols[p] == ' ');
                    if flagged && col < total_cols && p == col as int {
                        assert(marked_at_before(input@, bad, p, k as int + 1));
                        assert(false);
                    }
                    assert(cols@[p] == ' ');
                }
            }
            lemma_byte_offset_le(input@, k as int + 1, cn as int);
            lemma_width_sum_le(input@, k as int + 1, cn as int);
        }
        off = off + char_utf8_len(c);
        col = col + char_width_or_default(c);
        k += 1;
    }
    proof {
        assert(cols@ =~= underline_columns(input@, bad, character));
    }

    // Append the underline row.
    let mut q: usize = 0;
    proof {
        assert(out@ =~= head2 + cols@.take(0));
    }
    while q < total_cols
        invariant
            q <= total_cols,
            cols@.len() == total_cols,
            cols@ == underline_columns(input@, bad, character),
            out@ == head2 + cols@.take(q as int),
        decreases total_cols - q,
    {
        out.push(cols[q]);
        proof {
            assert(head2 + cols@.take(q as int + 1) =~= (head2 + cols@.take(q as int)).push(
                cols@[q as int],
            ));
        }
        q += 1;
    }
    proof {
        assert(cols@.take(total_cols as int) =~= cols@);
        assert(out@ =~= underline_message(label@, input@, bad, character));
    }
    out
}

} // verus!
