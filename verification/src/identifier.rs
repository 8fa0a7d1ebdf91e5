//! The core identifier: a validated `(namespace, value)` pair with an
//! interned namespace and a phantom kind tag, its parser, and its canonical
//! string form.

use vstd::prelude::*;
use vstd::string::*;
use core::marker::PhantomData;
use internment::Intern;
use crate::chars::is_namespace_char;
use crate::chars::is_value_char;
use crate::chars::valid_namespace;
use crate::chars::valid_value;
use crate::chars::byte_offset;
use crate::chars::bad_pairs;
use crate::chars::pairs_view;
use crate::chars::namespace_bad_pairs;
use crate::chars::value_bad_pairs;
use crate::chars::lemma_bad_pairs_empty;
use crate::chars::lemma_byte_offset_take;
use crate::chars::lemma_byte_offset_le;
use crate::chars::lemma_byte_offset_total;
use crate::chars::char_utf8_len;
use crate::chars::namespace_char_allowed;
use crate::chars::value_char_allowed;
use crate::interning::intern_content;
use crate::interning::intern_string;
use crate::interning::intern_str;
use crate::interning::intern_eq;
use crate::split::namespace_half;
use crate::split::value_half;
use crate::split::split_first;
use crate::split::lemma_split_joined;
use crate::render::illegal_chars_message;
use crate::render::render_illegal_chars;
use crate::order::lex_lt;
use crate::order::str_compare;
use core::cmp::Ordering;

verus! {

/// The default namespace string when none is provided.
pub const DEFAULT_NAMESPACE: &'static str = "unspecified";

/// The separator character between the namespace and value.
pub const DEFAULT_SEPARATOR: char = ':';

/// The namespace assumed when the caller supplies an empty one.
pub open spec fn default_namespace() -> Seq<char> {
    "unspecified"@
}

/// The default namespace string when none is provided.
pub fn default_namespace_str() -> (r: &'static str)
    ensures
        r@ == default_namespace(),
{
    "unspecified"
}

/// The default namespace is itself a legal, non-empty namespace.
pub proof fn lemma_default_namespace_wf()
    ensures
        default_namespace().len() > 0,
        valid_namespace(default_namespace()),
{
    reveal_strlit("unspecified");
    assert forall|i: int| 0 <= i < default_namespace().len() implies is_namespace_char(
        #[trigger] default_namespace()[i],
    ) by {
    }
}

/// Error type returned when an [`Identifier`] cannot be parsed.
#[derive(Debug)]
pub enum ParseError {
    /// No value after the separator.
    EmptyValue,
    /// One or more illegal characters in the namespace, each with the byte
    /// offset at which it starts.
    IllegalCharsInNamespace(String, Vec<(usize, char)>),
    /// One or more illegal characters in the value, each with the byte
    /// offset at which it starts.
    IllegalCharsInValue(String, Vec<(usize, char)>),
}

impl ParseError {
    /// Renders the error as text: `empty value`, or the role, the quoted
    /// offending string, and every offender with its byte offset.
    pub fn to_message(&self) -> (r: String)
        ensures
            self is EmptyValue ==> r@ == "empty value"@,
            self is IllegalCharsInNamespace ==> r@ == illegal_chars_message(
                "illegal character(s) in namespace "@,
                self->IllegalCharsInNamespace_0@,
                pairs_view(self->IllegalCharsInNamespace_1@),
            ),
            self is IllegalCharsInValue ==> r@ == illegal_chars_message(
                "illegal character(s) in value "@,
                self->IllegalCharsInValue_0@,
                pairs_view(self->IllegalCharsInValue_1@),
            ),
    {
        match self {
            ParseError::EmptyValue => String::from_str("empty value"),
            ParseError::IllegalCharsInNamespace(ns, bad) => render_illegal_chars(
                "illegal character(s) in namespace ",
                ns.as_str(),
                bad,
            ),
            ParseError::IllegalCharsInValue(val, bad) => render_illegal_chars(
                "illegal character(s) in value ",
                val.as_str(),
                bad,
            ),
        }
    }
}

/// Relies on PhantomData's Clone: a zero-sized marker clones to itself.
pub assume_specification<T: core::marker::PointeeSized>[ <PhantomData<T> as Clone>::clone ](
    p: &PhantomData<T>,
) -> (r: PhantomData<T>)
    ensures
        r == *p,
;

/// Collects the `(byte offset, character)` pair of every character of `s`
/// illegal in its role: the value role when `allow_slash` is set, otherwise
/// the namespace role.
fn collect_bad_pairs(s: &str, allow_slash: bool) -> (r: Vec<(usize, char)>)
    ensures
        pairs_view(r@) == if allow_slash {
            value_bad_pairs(s@)
        } else {
            namespace_bad_pairs(s@)
        },
{
    let ghost legal = if allow_slash {
        (|c: char| is_value_char(c))
    } else {
        (|c: char| is_namespace_char(c))
    };
    let total = s.as_bytes().len();
    proof {
        lemma_byte_offset_total(s@);
    }
    let n = s.unicode_len();
    let mut out: Vec<(usize, char)> = Vec::new();
    let mut off: usize = 0;
    let mut i: usize = 0;
    while i < n
        invariant
            n == s@.len(),
            i <= n,
            total as nat == byte_offset(s@, n as int),
            off as nat == byte_offset(s@, i as int),
            pairs_view(out@) == bad_pairs(s@.take(i as int), legal),
            legal == if allow_slash {
                (|c: char| is_value_char(c))
            } else {
                (|c: char| is_namespace_char(c))
            },
        decreases n - i,
    {
        let c = s.get_char(i);
        proof {
            assert(s@.take(i as int + 1).drop_last() =~= s@.take(i as int));
            assert(s@.take(i as int + 1).last() == c);
            lemma_byte_offset_take(s@, i as int + 1, i as int);
        }
        let ok = if allow_slash {
            value_char_allowed(c)
        } else {
            namespace_char_allowed(c)
        };
        proof {
            assert(legal(c) == ok);
        }
        if !ok {
            let ghost prev = out@;
            out.push((off, c));
            proof {
                assert(bad_pairs(s@.take(i as int + 1), legal) == bad_pairs(
                    s@.take(i as int),
                    legal,
                ).push(((off as int), c)));
                assert(pairs_view(out@) =~= pairs_view(prev).push(((off as int), c)));
            }
        }
        proof {
            lemma_byte_offset_le(s@, i as int + 1, n as int);
        }
        off = off + char_utf8_len(c);
        i += 1;
    }
    proof {
        assert(s@.take(n as int) =~= s@);
    }
    out
}

/// An identifier consisting of a `namespace` and a `value`, tagged with a
/// phantom kind `T` that takes no part in the runtime representation.
///
/// Cloning an `Identifier` is cheap: the namespace is interned, so instances
/// sharing the same namespace text share one allocation.
#[derive(Debug, Hash, Eq)]
pub struct Identifier<T> {
    pub namespace: Intern<String>,
    pub value: String,
    pub type_marker: PhantomData<T>,
}

pub type IdentifierUntyped = Identifier<()>;

impl<T> Identifier<T> {
    /// The namespace, as the character sequence the handle points to.
    pub open spec fn ns(self) -> Seq<char> {
        intern_content(self.namespace)
    }

    /// The value, as a character sequence.
    pub open spec fn val(self) -> Seq<char> {
        self.value@
    }

    /// Well-formedness: both halves non-empty and drawn from their
    /// allowlists.
    pub open spec fn wf(self) -> bool {
        &&& self.ns().len() > 0
        &&& valid_namespace(self.ns())
        &&& self.val().len() > 0
        &&& valid_value(self.val())
    }

    /// Validates `namespace` and `value`, interns the namespace (after
    /// substituting the default for an empty one) and constructs the
    /// identifier. Fails exactly when the value is empty or either half
    /// holds an illegal character, reporting every offender.
    pub fn new(namespace: &str, value: &str) -> (r: Result<Self, ParseError>)
        ensures
            r is Ok <==> (value@.len() > 0 && valid_namespace(namespace@) && valid_value(value@)),
            r is Ok ==> ({
                let id = r->Ok_0;
                &&& id.val() == value@
                &&& id.ns() == if namespace@.len() == 0 {
                    default_namespace()
                } else {
                    namespace@
                }
                &&& id.wf()
            }),
            value@.len() == 0 ==> (r matches Err(ParseError::EmptyValue)),
            value@.len() > 0 && !valid_namespace(namespace@) ==> {
                &&& r is Err
                &&& r->Err_0 is IllegalCharsInNamespace
                &&& r->Err_0->IllegalCharsInNamespace_0@ == namespace@
                &&& pairs_view(r->Err_0->IllegalCharsInNamespace_1@) == namespace_bad_pairs(
                    namespace@,
                )
            },
            value@.len() > 0 && valid_namespace(namespace@) && !valid_value(value@) ==> {
                &&& r is Err
                &&& r->Err_0 is IllegalCharsInValue
                &&& r->Err_0->IllegalCharsInValue_0@ == value@
                &&& pairs_view(r->Err_0->IllegalCharsInValue_1@) == value_bad_pairs(value@)
            },
    {
        if value.is_empty() {
            return Err(ParseError::EmptyValue);
        }
        let bad_ns = collect_bad_pairs(namespace, false);
        if bad_ns.len() > 0 {
            proof {
                lemma_bad_pairs_empty(namespace@, (|c: char| is_namespace_char(c)));
            }
            return Err(ParseError::IllegalCharsInNamespace(namespace.to_owned(), bad_ns));
        }
        let bad_val = collect_bad_pairs(value, true);
        if bad_val.len() > 0 {
            proof {
                lemma_bad_pairs_empty(namespace@, (|c: char| is_namespace_char(c)));
                lemma_bad_pairs_empty(value@, (|c: char| is_value_char(c)));
            }
            return Err(ParseError::IllegalCharsInValue(value.to_owned(), bad_val));
        }
        proof {
            lemma_bad_pairs_empty(namespace@, (|c: char| is_namespace_char(c)));
            lemma_bad_pairs_empty(value@, (|c: char| is_value_char(c)));
            lemma_default_namespace_wf();
        }
        let ns_string = if namespace.is_empty() {
            default_namespace_str().to_owned()
        } else {
            namespace.to_owned()
        };
        Ok(
            Identifier {
                namespace: intern_string(ns_string),
                value: value.to_owned(),
                type_marker: PhantomData,
            },
        )
    }

    /// Parses a string into an [`Identifier`]: the text before the first `:`
    /// is the namespace candidate (empty, hence defaulted, when `:` is
    /// absent or leading), the rest is the value. Validation and interning
    /// are as in [`Identifier::new`].
    pub fn parse(s: &str) -> (r: Result<Self, ParseError>)
        ensures
            ({
                let ns0 = namespace_half(s@, ':');
                let val = value_half(s@, ':');
                &&& (r is Ok <==> (val.len() > 0 && valid_namespace(ns0) && valid_value(val)))
                &&& r is Ok ==> ({
                    let id = r->Ok_0;
                    &&& id.val() == val
                    &&& id.ns() == if ns0.len() == 0 {
                        default_namespace()
                    } else {
                        ns0
                    }
                    &&& id.wf()
                })
                &&& val.len() == 0 ==> (r matches Err(ParseError::EmptyValue))
                &&& val.len() > 0 && !valid_namespace(ns0) ==> {
                    &&& r is Err
                    &&& r->Err_0 is IllegalCharsInNamespace
                    &&& r->Err_0->IllegalCharsInNamespace_0@ == ns0
                    &&& pairs_view(r->Err_0->IllegalCharsInNamespace_1@) == namespace_bad_pairs(
                        ns0,
                    )
                }
                &&& val.len() > 0 && valid_namespace(ns0) && !valid_value(val) ==> {
                    &&& r is Err
                    &&& r->Err_0 is IllegalCharsInValue
                    &&& r->Err_0->IllegalCharsInValue_0@ == val
                    &&& pairs_view(r->Err_0->IllegalCharsInValue_1@) == value_bad_pairs(val)
                }
            }),
    {
        match split_first(s, ':') {
            Some(parts) => Self::new(parts.0, parts.1),
            None => {
                proof {
                    reveal_strlit("");
                    assert(""@ =~= namespace_half(s@, ':'));
                }
                Self::new("", s)
            },
        }
    }

    /// Returns the namespace as a string slice.
    pub fn namespace(&self) -> (r: &str)
        ensures
            r@ == self.ns(),
    {
        intern_str(&self.namespace)
    }

    /// Returns the namespace as a String.
    pub fn namespace_string(&self) -> (r: String)
        ensures
            r@ == self.ns(),
    {
        intern_str(&self.namespace).to_owned()
    }

    /// Change the phantom kind tag to `U`; the represented pair is
    /// unchanged.
    pub fn cast<U>(self) -> (r: Identifier<U>)
        ensures
            r.ns() == self.ns(),
            r.val() == self.val(),
    {
        Identifier { namespace: self.namespace, value: self.value, type_marker: PhantomData }
    }

    /// Erase the kind tag.
    pub fn erase(self) -> (r: Identifier<()>)
        ensures
            r.ns() == self.ns(),
            r.val() == self.val(),
    {
        self.cast::<()>()
    }

    /// The canonical string form: `namespace`, `:`, `value`.
    pub fn to_string(&self) -> (r: String)
        ensures
            r@ == self.ns() + seq![':'] + self.val(),
    {
        let mut out = intern_str(&self.namespace).to_owned();
        out.push(':');
        out.append(self.value.as_str());
        proof {
            assert(out@ =~= self.ns() + seq![':'] + self.val());
        }
        out
    }
}

/// How two identifiers of one kind compare: by namespace first, then by
/// value, each lexicographically; the kind tag takes no part.
pub open spec fn identifier_ordering<T>(a: Identifier<T>, b: Identifier<T>) -> Ordering {
    if a.ns() == b.ns() {
        if a.val() == b.val() {
            Ordering::Equal
        } else if lex_lt(a.val(), b.val()) {
            Ordering::Less
        } else {
            Ordering::Greater
        }
    } else if lex_lt(a.ns(), b.ns()) {
        Ordering::Less
    } else {
        Ordering::Greater
    }
}

impl<T> Clone for Identifier<T> {
    /// Cloning yields an equal identifier; the namespace handle is copied,
    /// not re-interned, so the interned string stays shared.
    fn clone(&self) -> (r: Self)
        ensures
            r == *self,
    {
        Identifier {
            namespace: self.namespace.clone(),
            value: self.value.clone(),
            type_marker: self.type_marker.clone(),
        }
    }
}

impl<T> PartialEq for Identifier<T> {
    fn eq(&self, other: &Self) -> (r: bool) {
        intern_eq(&self.namespace, &other.namespace) && self.value == other.value
    }
}

impl<T> vstd::std_specs::cmp::PartialEqSpecImpl for Identifier<T> {
    open spec fn obeys_eq_spec() -> bool {
        true
    }

    open spec fn eq_spec(&self, other: &Self) -> bool {
        self.ns() == other.ns() && self.val() == other.val()
    }
}

impl<T> PartialOrd for Identifier<T> {
    fn partial_cmp(&self, other: &Self) -> (r: Option<Ordering>) {
        let ns_ord = str_compare(intern_str(&self.namespace), intern_str(&other.namespace));
        match ns_ord {
            Ordering::Equal => Some(
                str_compare(self.value.as_str(), other.value.as_str()),
            ),
            Ordering::Less => Some(Ordering::Less),
            Ordering::Greater => Some(Ordering::Greater),
        }
    }
}

impl<T> vstd::std_specs::cmp::PartialOrdSpecImpl for Identifier<T> {
    open spec fn obeys_partial_cmp_spec() -> bool {
        true
    }

    open spec fn partial_cmp_spec(&self, other: &Self) -> Option<Ordering> {
        Some(identifier_ordering(*self, *other))
    }
}

/// Round-trip law: the canonical form of a well-formed identifier splits
/// back into exactly its namespace and value, so by [`Identifier::parse`]'s
/// contract, parsing [`Identifier::to_string`]'s result succeeds and
/// rebuilds the same pair.
pub proof fn lemma_round_trip<T>(id: Identifier<T>)
    requires
        id.wf(),
    ensures
        namespace_half(id.ns() + seq![':'] + id.val(), ':') == id.ns(),
        value_half(id.ns() + seq![':'] + id.val(), ':') == id.val(),
{
    assert forall|j: int| 0 <= j < id.ns().len() implies id.ns()[j] != ':' by {
        assert(is_namespace_char(id.ns()[j]));
        assert(!is_namespace_char(':'));
    }
    lemma_split_joined(id.ns(), id.val(), ':');
}

/// Ordering law: comparison is by namespace first and by value second, and
/// is `Equal` exactly for identifiers equal as pairs.
pub proof fn lemma_compare_by_namespace_then_value<T>(a: Identifier<T>, b: Identifier<T>)
    ensures
        identifier_ordering(a, b) == Ordering::Less <==> (lex_lt(a.ns(), b.ns()) || (a.ns()
            == b.ns() && lex_lt(a.val(), b.val()))),
        identifier_ordering(a, b) == Ordering::Equal <==> (a.ns() == b.ns() && a.val()
            == b.val()),
{
    crate::order::lemma_lex_irrefl(a.ns());
    crate::order::lemma_lex_irrefl(a.val());
}

} // verus!

