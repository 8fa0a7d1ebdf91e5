//! Splitting an input at the first occurrence of a separator character into
//! a namespace candidate and a value candidate.

use vstd::prelude::*;
use vstd::string::*;

verus! {

/// The index of the first occurrence of `sep` in `s`, or `s.len()` when
/// `sep` does not occur.
pub open spec fn sep_index(s: Seq<char>, sep: char) -> int
    decreases s.len(),
{
    if s.len() == 0 {
        0
    } else if s[0] == sep {
        0
    } else {
        1 + sep_index(s.drop_first(), sep)
    }
}

/// Whether `sep` occurs in `s`.
pub open spec fn has_sep(s: Seq<char>, sep: char) -> bool {
    sep_index(s, sep) < s.len()
}

/// The namespace candidate: the text before the first `sep`, or empty when
/// `sep` does not occur.
pub open spec fn namespace_half(s: Seq<char>, sep: char) -> Seq<char> {
    if has_sep(s, sep) {
        s.take(sep_index(s, sep))
    } else {
        Seq::empty()
    }
}

/// The value candidate: the text after the first `sep`, or the whole input
/// when `sep` does not occur. Later separator characters stay in the value.
pub open spec fn value_half(s: Seq<char>, sep: char) -> Seq<char> {
    if has_sep(s, sep) {
        s.skip(sep_index(s, sep) + 1)
    } else {
        s
    }
}

/// `sep_index` is in bounds, nothing before it is `sep`, and it points at
/// `sep` whenever `sep` occurs.
pub proof fn lemma_sep_index_bounds(s: Seq<char>, sep: char)
    ensures
        0 <= sep_index(s, sep) <= s.len(),
        forall|j: int| 0 <= j < sep_index(s, sep) ==> s[j] != sep,
        has_sep(s, sep) ==> s[sep_index(s, sep)] == sep,
    decreases s.len(),
{
    if s.len() > 0 && s[0] != sep {
        lemma_sep_index_bounds(s.drop_first(), sep);
        assert forall|j: int| 0 <= j < sep_index(s, sep) implies s[j] != sep by {
            if j > 0 {
                assert(s.drop_first()[j - 1] == s[j]);
            }
        }
        if has_sep(s, sep) {
            assert(s.drop_first()[sep_index(s, sep) - 1] == s[sep_index(s, sep)]);
        }
    }
}

/// An index with no `sep` before it that either is the length or points at
/// `sep` is exactly `sep_index`.
pub proof fn lemma_sep_index_first(s: Seq<char>, sep: char, i: int)
    requires
        0 <= i <= s.len(),
        forall|j: int| 0 <= j < i ==> s[j] != sep,
        i < s.len() ==> s[i] == sep,
    ensures
        sep_index(s, sep) == i,
    decreases s.len(),
{
    if s.len() > 0 && s[0] != sep {
        assert(i > 0);
        assert forall|j: int| 0 <= j < i - 1 implies s.drop_first()[j] != sep by {
            assert(s.drop_first()[j] == s[j + 1]);
        }
        if i - 1 < s.len() - 1 {
            assert(s.drop_first()[i - 1] == s[i]);
        }
        lemma_sep_index_first(s.drop_first(), sep, i - 1);
    }
}

/// Joining two halves with a separator that occurs in neither the first
/// half splits back into exactly those halves.
pub proof fn lemma_split_joined(ns: Seq<char>, val: Seq<char>, sep: char)
    requires
        forall|j: int| 0 <= j < ns.len() ==> ns[j] != sep,
    ensures
        namespace_half(ns + seq![sep] + val, sep) == ns,
        value_half(ns + seq![sep] + val, sep) == val,
{
    let s = ns + seq![sep] + val;
    let n = ns.len() as int;
    assert(s[n] == sep);
    assert forall|j: int| 0 <= j < n implies s[j] != sep by {
        assert(s[j] == ns[j]);
    }
    lemma_sep_index_first(s, sep, n);
    assert(s.take(n) =~= ns);
    assert(s.skip(n + 1) =~= val);
}

/// Splits `s` at the first occurrence of `sep`: the text before and the
/// text after it, or `None` when `sep` does not occur.
pub fn split_first(s: &str, sep: char) -> (r: Option<(&str, &str)>)
    ensures
        has_sep(s@, sep) ==> {
            &&& r is Some
            &&& r->Some_0.0@ == namespace_half(s@, sep)
            &&& r->Some_0.1@ == value_half(s@, sep)
        },
        !has_sep(s@, sep) ==> r is None,
{
    let n = s.unicode_len();
    let mut i: usize = 0;
    while i < n
        invariant
            n == s@.len(),
            i <= n,
            forall|j: int| 0 <= j < i ==> s@[j] != sep,
        decreases n - i,
    {
        if s.get_char(i) == sep {
            proof {
                lemma_sep_index_first(s@, sep, i as int);
            }
            let before = s.substring_char(0, i);
            let after = s.substring_char(i + 1, n);
            proof {
                assert(before@ =~= namespace_half(s@, sep));
                assert(after@ =~= value_half(s@, sep));
            }
            return Some((before, after));
        }
        i += 1;
    }
    proof {
        lemma_sep_index_first(s@, sep, n as int);
    }
    None
}

} // verus!
