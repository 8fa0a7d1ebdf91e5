//! Legal-character sets and the validator: which characters may appear in the
//! namespace and value halves of an identifier, and a scan that reports the
//! byte offset of every character outside an allowlist.

use vstd::prelude::*;
use vstd::string::*;
use vstd::utf8::encode_utf8;
use vstd::utf8::char_is_scalar;

verus! {

/// A character legal in a namespace: an ASCII digit, a lowercase ASCII
/// letter, `_`, `-` or `.`.
pub open spec fn is_namespace_char(c: char) -> bool {
    ('0' <= c && c <= '9') || ('a' <= c && c <= 'z') || c == '_' || c == '-' || c == '.'
}

/// A character legal in a value: everything legal in a namespace, plus the
/// path separator `/`.
pub open spec fn is_value_char(c: char) -> bool {
    is_namespace_char(c) || c == '/'
}

/// Every character of `s` is legal in a namespace.
pub open spec fn valid_namespace(s: Seq<char>) -> bool {
    forall|i: int| 0 <= i < s.len() ==> is_namespace_char(#[trigger] s[i])
}

/// Every character of `s` is legal in a value.
pub open spec fn valid_value(s: Seq<char>) -> bool {
    forall|i: int| 0 <= i < s.len() ==> is_value_char(#[trigger] s[i])
}

/// The number of bytes of the UTF-8 encoding of `c`.
pub open spec fn utf8_len(c: char) -> nat {
    if (c as u32) < 0x80 {
        1
    } else if (c as u32) < 0x800 {
        2
    } else if (c as u32) < 0x10000 {
        3
    } else {
        4
    }
}

/// The byte offset at which the `i`th character of `s` starts, counted over
/// the UTF-8 encoding of `s`.
pub open spec fn byte_offset(s: Seq<char>, i: int) -> nat
    decreases i,
{
    if i <= 0 {
        0
    } else {
        byte_offset(s, i - 1) + utf8_len(s[i - 1])
    }
}

/// The offset of a character depends only on the characters before it.
pub proof fn lemma_byte_offset_take(s: Seq<char>, k: int, i: int)
    requires
        0 <= i <= k <= s.len(),
    ensures
        byte_offset(s.take(k), i) == byte_offset(s, i),
    decreases i,
{
    if i > 0 {
        lemma_byte_offset_take(s, k, i - 1);
    }
}

/// Byte offsets are monotonic: a later character starts at a later offset.
pub proof fn lemma_byte_offset_le(s: Seq<char>, i: int, j: int)
    requires
        0 <= i <= j,
    ensures
        byte_offset(s, i) <= byte_offset(s, j),
    decreases j,
{
    if i < j {
        lemma_byte_offset_le(s, i, j - 1);
    }
}

/// The pairs `(byte offset, character)` of every character of `s` that the
/// predicate `legal` rejects, in left-to-right order.
pub open spec fn bad_pairs(s: Seq<char>, legal: spec_fn(char) -> bool) -> Seq<(int, char)>
    decreases s.len(),
{
    if s.len() == 0 {
        Seq::empty()
    } else if legal(s.last()) {
        bad_pairs(s.drop_last(), legal)
    } else {
        bad_pairs(s.drop_last(), legal).push(
            (byte_offset(s, s.len() - 1) as int, s.last()),
        )
    }
}

/// The byte offsets alone of the rejected characters of `s`.
pub open spec fn bad_offsets(s: Seq<char>, legal: spec_fn(char) -> bool) -> Seq<int> {
    bad_pairs(s, legal).map_values(|p: (int, char)| p.0)
}

/// The mathematical view of a reported offset/character list.
pub open spec fn pairs_view(v: Seq<(usize, char)>) -> Seq<(int, char)> {
    v.map_values(|p: (usize, char)| (p.0 as int, p.1))
}

/// The offending `(byte offset, character)` pairs of a namespace candidate.
pub open spec fn namespace_bad_pairs(s: Seq<char>) -> Seq<(int, char)> {
    bad_pairs(s, (|c: char| is_namespace_char(c)))
}

/// The offending `(byte offset, character)` pairs of a value candidate.
pub open spec fn value_bad_pairs(s: Seq<char>) -> Seq<(int, char)> {
    bad_pairs(s, (|c: char| is_value_char(c)))
}

/// The byte offsets alone of the namespace offenders.
pub open spec fn namespace_bad_offsets(s: Seq<char>) -> Seq<int> {
    bad_offsets(s, (|c: char| is_namespace_char(c)))
}

/// The byte offsets alone of the value offenders.
pub open spec fn value_bad_offsets(s: Seq<char>) -> Seq<int> {
    bad_offsets(s, (|c: char| is_value_char(c)))
}

/// Predicates that agree on every character find the same offenders.
pub proof fn lemma_bad_pairs_congruence(
    s: Seq<char>,
    p: spec_fn(char) -> bool,
    q: spec_fn(char) -> bool,
)
    requires
        forall|c: char| #[trigger] p(c) == q(c),
    ensures
        bad_pairs(s, p) == bad_pairs(s, q),
    decreases s.len(),
{
    if s.len() > 0 {
        lemma_bad_pairs_congruence(s.drop_last(), p, q);
    }
}

/// The scan finds nothing exactly when every character is legal.
pub proof fn lemma_bad_pairs_empty(s: Seq<char>, legal: spec_fn(char) -> bool)
    ensures
        bad_pairs(s, legal).len() == 0 <==> (forall|i: int|
            0 <= i < s.len() ==> legal(#[trigger] s[i])),
    decreases s.len(),
{
    if s.len() > 0 {
        lemma_bad_pairs_empty(s.drop_last(), legal);
        if bad_pairs(s, legal).len() == 0 {
            assert(forall|i: int|
                0 <= i < s.len() - 1 ==> legal(#[trigger] s.drop_last()[i]));
            assert forall|i: int| 0 <= i < s.len() implies legal(#[trigger] s[i]) by {
                if i < s.len() - 1 {
                    assert(s.drop_last()[i] == s[i]);
                }
            }
        } else {
            if forall|i: int| 0 <= i < s.len() ==> legal(#[trigger] s[i]) {
                assert forall|i: int| 0 <= i < s.len() - 1
                    implies legal(#[trigger] s.drop_last()[i]) by {
                    assert(s.drop_last()[i] == s[i]);
                }
                assert(legal(s.last()));
                assert(false);
            }
        }
    }
}

/// A byte offset shifts down by the first character's length when that
/// character is dropped.
proof fn lemma_byte_offset_shift(s: Seq<char>, i: int)
    requires
        1 <= i <= s.len(),
    ensures
        byte_offset(s, i) == utf8_len(s[0]) + byte_offset(s.drop_first(), i - 1),
    decreases i,
{
    if i == 1 {
        assert(byte_offset(s, 0) == 0);
        assert(byte_offset(s.drop_first(), 0) == 0);
    } else {
        lemma_byte_offset_shift(s, i - 1);
        assert(s.drop_first()[i - 2] == s[i - 1]);
        assert(byte_offset(s.drop_first(), i - 1) == byte_offset(s.drop_first(), i - 2)
            + utf8_len(s[i - 1]));
    }
}

/// The offset just past the last character is the length of the UTF-8
/// encoding of the whole string.
pub proof fn lemma_byte_offset_total(s: Seq<char>)
    ensures
        byte_offset(s, s.len() as int) == encode_utf8(s).len(),
    decreases s.len(),
{
    if s.len() > 0 {
        char_is_scalar(s[0]);
        lemma_byte_offset_total(s.drop_first());
        lemma_byte_offset_shift(s, s.len() as int);
        assert(encode_utf8(s).len() == vstd::utf8::encode_scalar(s[0] as u32).len()
            + encode_utf8(s.drop_first()).len());
    }
}

/// Whether `c` is legal in a namespace; the executable form of
/// [`is_namespace_char`].
pub fn namespace_char_allowed(c: char) -> (r: bool)
    ensures
        r == is_namespace_char(c),
{
    ('0' <= c && c <= '9') || ('a' <= c && c <= 'z') || c == '_' || c == '-' || c == '.'
}

/// Whether `c` is legal in a value; the executable form of [`is_value_char`].
pub fn value_char_allowed(c: char) -> (r: bool)
    ensures
        r == is_value_char(c),
{
    namespace_char_allowed(c) || c == '/'
}

/// The number of bytes of the UTF-8 encoding of `c`; the executable form of
/// [`utf8_len`].
pub fn char_utf8_len(c: char) -> (r: usize)
    ensures
        r as nat == utf8_len(c),
{
    let u = c as u32;
    if u < 0x80 {
        1
    } else if u < 0x800 {
        2
    } else if u < 0x10000 {
        3
    } else {
        4
    }
}

/// Whether `c` occurs in the slice `a`.
pub fn slice_contains_char(a: &[char], c: char) -> (r: bool)
    ensures
        r == a@.contains(c),
{
    let n = a.len();
    let mut i: usize = 0;
    while i < n
        invariant
            n == a@.len(),
            i <= n,
            forall|j: int| 0 <= j < i ==> a@[j] != c,
        decreases n - i,
    {
        if a[i] == c {
            return true;
        }
        i += 1;
    }
    false
}

/// The characters legal in a namespace, in their canonical order.
pub open spec fn namespace_allowlist() -> Seq<char> {
    "0123456789abcdefghijklmnopqrstuvwxyz_-."@
}

/// The characters legal in a value: the namespace set plus `/`.
pub open spec fn value_allowlist() -> Seq<char> {
    "0123456789abcdefghijklmnopqrstuvwxyz_-./"@
}

/// Collects the characters of `s` into a vector, in order.
fn str_chars_vec(s: &str) -> (v: Vec<char>)
    ensures
        v@ == s@,
{
    let n = s.unicode_len();
    let mut v: Vec<char> = Vec::new();
    let mut i: usize = 0;
    while i < n
        invariant
            n == s@.len(),
            i <= n,
            v@ == s@.take(i as int),
        decreases n - i,
    {
        v.push(s.get_char(i));
        proof {
            assert(v@ =~= s@.take(i as int + 1));
        }
        i += 1;
    }
    proof {
        assert(s@.take(n as int) =~= s@);
    }
    v
}

/// Returns the set of characters legal in namespaces.
pub fn legal_namespace_chars() -> (r: Vec<char>)
    ensures
        r@ == namespace_allowlist(),
{
    str_chars_vec("0123456789abcdefghijklmnopqrstuvwxyz_-.")
}

/// Returns the set of characters legal in values.
pub fn legal_value_chars() -> (r: Vec<char>)
    ensures
        r@ == value_allowlist(),
{
    str_chars_vec("0123456789abcdefghijklmnopqrstuvwxyz_-./")
}

/// The namespace allowlist holds exactly the characters that
/// [`is_namespace_char`] accepts.
pub proof fn lemma_namespace_allowlist_chars()
    ensures
        forall|c: char| #[trigger] namespace_allowlist().contains(c) <==> is_namespace_char(c),
{
    reveal_strlit("0123456789abcdefghijklmnopqrstuvwxyz_-.");
    let s = namespace_allowlist();
    assert forall|c: char| #[trigger] s.contains(c) implies is_namespace_char(c) by {
        let i = choose|i: int| 0 <= i < s.len() && s[i] == c;
        assert(is_namespace_char(s[i]));
    }
    assert forall|c: char| is_namespace_char(c) implies s.contains(c) by {
        if '0' <= c && c <= '9' {
            let i = c as int - '0' as int;
            assert(s[i] == c);
        } else if 'a' <= c && c <= 'z' {
            let i = 10 + (c as int - 'a' as int);
            assert(s[i] == c);
        } else if c == '_' {
            assert(s[36] == c);
        } else if c == '-' {
            assert(s[37] == c);
        } else {
            assert(s[38] == c);
        }
    }
}

/// The value allowlist holds exactly the characters that [`is_value_char`]
/// accepts.
pub proof fn lemma_value_allowlist_chars()
    ensures
        forall|c: char| #[trigger] value_allowlist().contains(c) <==> is_value_char(c),
{
    reveal_strlit("0123456789abcdefghijklmnopqrstuvwxyz_-./");
    let s = value_allowlist();
    assert forall|c: char| #[trigger] s.contains(c) implies is_value_char(c) by {
        let i = choose|i: int| 0 <= i < s.len() && s[i] == c;
        assert(is_value_char(s[i]));
    }
    assert forall|c: char| is_value_char(c) implies s.contains(c) by {
        if '0' <= c && c <= '9' {
            let i = c as int - '0' as int;
            assert(s[i] == c);
        } else if 'a' <= c && c <= 'z' {
            let i = 10 + (c as int - 'a' as int);
            assert(s[i] == c);
        } else if c == '_' {
            assert(s[36] == c);
        } else if c == '-' {
            assert(s[37] == c);
        } else if c == '.' {
            assert(s[38] == c);
        } else {
            assert(s[39] == c);
        }
    }
}

/// Ensures a string only contains characters in an allowlist.
/// Returns the byte offsets of the illegal characters, if any.
pub fn check_string(string: &str, allowlist: &[char]) -> (r: Option<Vec<usize>>)
    ensures
        ({
            let bad = bad_offsets(string@, (|c: char| allowlist@.contains(c)));
            match r {
                None => bad.len() == 0,
                Some(v) => bad.len() > 0 && v@.map_values(|u: usize| u as int) == bad,
            }
        }),
{
    let ghost legal = (|c: char| allowlist@.contains(c));
    let total = string.as_bytes().len();
    proof {
        lemma_byte_offset_total(string@);
    }
    let n = string.unicode_len();
    let mut out: Vec<usize> = Vec::new();
    let mut off: usize = 0;
    let mut i: usize = 0;
    while i < n
        invariant
            n == string@.len(),
            i <= n,
            total as nat == byte_offset(string@, n as int),
            off as nat == byte_offset(string@, i as int),
            out@.map_values(|u: usize| u as int) == bad_offsets(string@.take(i as int), legal),
            legal == (|c: char| allowlist@.contains(c)),
        decreases n - i,
    {
        let c = string.get_char(i);
        proof {
            assert(string@.take(i as int + 1).drop_last() =~= string@.take(i as int));
            assert(string@.take(i as int + 1).last() == c);
            lemma_byte_offset_take(string@, i as int + 1, i as int);
        }
        let allowed = slice_contains_char(allowlist, c);
        proof {
            assert(legal(c) == allowlist@.contains(c));
        }
        if !allowed {
            let ghost prev = out@;
            out.push(off);
            proof {
                let s1 = string@.take(i as int + 1);
                assert(bad_pairs(s1, legal) == bad_pairs(string@.take(i as int), legal).push(
                    ((off as int), c),
                ));
                assert(bad_offsets(s1, legal) =~= bad_offsets(string@.take(i as int), legal).push(
                    off as int,
                ));
                assert(out@.map_values(|u: usize| u as int) =~= prev.map_values(
                    |u: usize| u as int,
                ).push(off as int));
            }
        }
        proof {
            lemma_byte_offset_le(string@, i as int + 1, n as int);
        }
        off = off + char_utf8_len(c);
        i += 1;
    }
    proof {
        assert(string@.take(n as int) =~= string@);
    }
    if out.len() == 0 {
        proof {
            assert(bad_offsets(string@, legal).len() == 0);
        }
        None
    } else {
        Some(out)
    }
}

} // verus!
