//! `NamespacedKey`: the plain, owned-string identifier of a namespace and a
//! path, validated against the same allowlists as [`crate::identifier`] and
//! reporting failures through [`InvalidKeyError`] with an underline
//! diagnostic.

use vstd::prelude::*;
use vstd::string::*;
use crate::chars::valid_namespace;
use crate::chars::valid_value;
use crate::chars::is_namespace_char;
use crate::chars::is_value_char;
use crate::chars::namespace_bad_offsets;
use crate::chars::value_bad_offsets;
use crate::chars::lemma_namespace_allowlist_chars;
use crate::chars::lemma_value_allowlist_chars;
use crate::chars::lemma_bad_pairs_congruence;
use crate::chars::lemma_bad_pairs_empty;
use crate::chars::check_string;
use crate::chars::legal_namespace_chars;
use crate::chars::legal_value_chars;
use crate::underline::make_underline_message;
use crate::underline::underline_message;
use crate::invalid_key_error::InvalidKeyError;
use crate::identifier::default_namespace;
use crate::identifier::default_namespace_str;
use crate::identifier::lemma_default_namespace_wf;
use crate::split::namespace_half;
use crate::split::value_half;
use crate::split::split_first;
use crate::split::lemma_split_joined;
use crate::keyed::Keyed;

verus! {

/// `NamespacedKey` is an identifier composed of a namespace and a path,
/// both held as owned strings.
#[derive(Debug, Eq)]
pub struct NamespacedKey {
    namespace: String,
    path: String,
}

impl NamespacedKey {
    /// The namespace, as a character sequence.
    pub closed spec fn namespace_view(self) -> Seq<char> {
        self.namespace@
    }

    /// The path, as a character sequence.
    pub closed spec fn path_view(self) -> Seq<char> {
        self.path@
    }

    /// Well-formedness: both halves non-empty and drawn from their
    /// allowlists.
    pub open spec fn wf(self) -> bool {
        &&& self.namespace_view().len() > 0
        &&& valid_namespace(self.namespace_view())
        &&& self.path_view().len() > 0
        &&& valid_value(self.path_view())
    }

    /// Creates a new `NamespacedKey` from a `namespace` and a `path`,
    /// substituting the default namespace for an empty one. Fails exactly
    /// when the path is empty or either half holds an illegal character;
    /// the error then carries an underline diagnostic naming every
    /// offender.
    pub fn new(namespace: &str, path: &str) -> (r: Result<NamespacedKey, InvalidKeyError>)
        ensures
            r is Ok <==> (path@.len() > 0 && valid_namespace(namespace@) && valid_value(path@)),
            r is Ok ==> ({
                let k = r->Ok_0;
                &&& k.path_view() == path@
                &&& k.namespace_view() == if namespace@.len() == 0 {
                    default_namespace()
                } else {
                    namespace@
                }
                &&& k.wf()
            }),
            path@.len() == 0 ==> ({
                let e = r->Err_0;
                &&& r is Err
                &&& e.namespace_view() == namespace@
                &&& e.path_view() == path@
                &&& e.message_view() is None
            }),
            path@.len() > 0 && !valid_namespace(namespace@) ==> ({
                let e = r->Err_0;
                &&& r is Err
                &&& e.namespace_view() == namespace@
                &&& e.path_view() == path@
                &&& e.message_view() == Some(
                    underline_message(
                        "Illegal characters in namespace:"@,
                        namespace@,
                        namespace_bad_offsets(namespace@),
                        '^',
                    ),
                )
            }),
            path@.len() > 0 && valid_namespace(namespace@) && !valid_value(path@) ==> ({
                let e = r->Err_0;
                &&& r is Err
                &&& e.namespace_view() == namespace@
                &&& e.path_view() == path@
                &&& e.message_view() == Some(
                    underline_message(
                        "Illegal characters in path:"@,
                        path@,
                        value_bad_offsets(path@),
                        '^',
                    ),
                )
            }),
    {
        if path.is_empty() {
            return Err(InvalidKeyError::new(namespace, path));
        }
        let ns_allow = legal_namespace_chars();
        let ns_slice = ns_allow.as_slice();
        let ns_checked = check_string(namespace, ns_slice);
        proof {
            lemma_namespace_allowlist_chars();
            lemma_bad_pairs_congruence(
                namespace@,
                (|c: char| ns_slice@.contains(c)),
                (|c: char| is_namespace_char(c)),
            );
            lemma_bad_pairs_empty(namespace@, (|c: char| is_namespace_char(c)));
        }
        if let Some(indices) = ns_checked {
            let msg = make_underline_message(
                "Illegal characters in namespace:",
                namespace,
                indices,
                '^',
            );
            return Err(InvalidKeyError::new(namespace, path).with_message(msg.as_str()));
        }
        let path_allow = legal_value_chars();
        let path_slice = path_allow.as_slice();
        let path_checked = check_string(path, path_slice);
        proof {
            lemma_value_allowlist_chars();
            lemma_bad_pairs_congruence(
                path@,
                (|c: char| path_slice@.contains(c)),
                (|c: char| is_value_char(c)),
            );
            lemma_bad_pairs_empty(path@, (|c: char| is_value_char(c)));
        }
        if let Some(indices) = path_checked {
            let msg = make_underline_message("Illegal characters in path:", path, indices, '^');
            return Err(InvalidKeyError::new(namespace, path).with_message(msg.as_str()));
        }
        proof {
            lemma_default_namespace_wf();
        }
        let ns_string = if namespace.is_empty() {
            default_namespace_str().to_owned()
        } else {
            namespace.to_owned()
        };
        Ok(NamespacedKey { namespace: ns_string, path: path.to_owned() })
    }

    /// Gets the namespace of this `NamespacedKey`.
    pub fn namespace(&self) -> (r: &str)
        ensures
            r@ == self.namespace_view(),
    {
        self.namespace.as_str()
    }

    /// Gets the path of this `NamespacedKey`.
    pub fn path(&self) -> (r: &str)
        ensures
            r@ == self.path_view(),
    {
        self.path.as_str()
    }

    /// The string form of this key with the namespace and path separated by
    /// the given `separator` character.
    pub fn to_string_with_separator(&self, separator: char) -> (r: String)
        ensures
            r@ == self.namespace_view() + seq![separator] + self.path_view(),
    {
        let mut out = self.namespace.clone();
        out.push(separator);
        out.append(self.path.as_str());
        proof {
            assert(out@ =~= self.namespace_view() + seq![separator] + self.path_view());
        }
        out
    }

    /// The canonical string form: namespace and path separated by `:`.
    pub fn to_string(&self) -> (r: String)
        ensures
            r@ == self.namespace_view() + seq![':'] + self.path_view(),
    {
        self.to_string_with_separator(':')
    }

    /// Parses using an arbitrary `separator` character, e.g. `"foo>bar"`
    /// with `separator = '>'`: the text before its first occurrence is the
    /// namespace candidate (empty, hence defaulted, when the separator is
    /// absent or leading), the rest is the path candidate.
    pub fn from_str_with_separator(string: &str, separator: char) -> (r: Result<
        NamespacedKey,
        InvalidKeyError,
    >)
        ensures
            ({
                let ns0 = namespace_half(string@, separator);
                let val = value_half(string@, separator);
                &&& (r is Ok <==> (val.len() > 0 && valid_namespace(ns0) && valid_value(val)))
                &&& r is Ok ==> ({
                    let k = r->Ok_0;
                    &&& k.path_view() == val
                    &&& k.namespace_view() == if ns0.len() == 0 {
                        default_namespace()
                    } else {
                        ns0
                    }
                    &&& k.wf()
                })
                &&& val.len() == 0 ==> ({
                    let e = r->Err_0;
                    &&& r is Err
                    &&& e.namespace_view() == ns0
                    &&& e.path_view() == val
                    &&& e.message_view() is None
                })
                &&& val.len() > 0 && !valid_namespace(ns0) ==> ({
                    let e = r->Err_0;
                    &&& r is Err
                    &&& e.namespace_view() == ns0
                    &&& e.path_view() == val
                    &&& e.message_view() == Some(
                        underline_message(
                            "Illegal characters in namespace:"@,
                            ns0,
                            namespace_bad_offsets(ns0),
                            '^',
                        ),
                    )
                })
                &&& val.len() > 0 && valid_namespace(ns0) && !valid_value(val) ==> ({
                    let e = r->Err_0;
                    &&& r is Err
                    &&& e.namespace_view() == ns0
                    &&& e.path_view() == val
                    &&& e.message_view() == Some(
                        underline_message(
                            "Illegal characters in path:"@,
                            val,
                            value_bad_offsets(val),
                            '^',
                        ),
                    )
                })
            }),
    {
        match split_first(string, separator) {
            Some(parts) => Self::new(parts.0, parts.1),
            None => {
                proof {
                    reveal_strlit("");
                    assert(""@ =~= namespace_half(string@, separator));
                }
                Self::new("", string)
            },
        }
    }

    /// Parses the canonical `namespace:path` form; equivalent to
    /// [`NamespacedKey::from_str_with_separator`] with `:`.
    pub fn from_str(string: &str) -> (r: Result<NamespacedKey, InvalidKeyError>)
        ensures
            ({
                let ns0 = namespace_half(string@, ':');
                let val = value_half(string@, ':');
                &&& (r is Ok <==> (val.len() > 0 && valid_namespace(ns0) && valid_value(val)))
                &&& r is Ok ==> ({
                    let k = r->Ok_0;
                    &&& k.path_view() == val
                    &&& k.namespace_view() == if ns0.len() == 0 {
                        default_namespace()
                    } else {
                        ns0
                    }
                    &&& k.wf()
                })
                &&& val.len() == 0 ==> ({
                    let e = r->Err_0;
                    &&& r is Err
                    &&& e.namespace_view() == ns0
                    &&& e.path_view() == val
                    &&& e.message_view() is None
                })
                &&& val.len() > 0 && !valid_namespace(ns0) ==> ({
                    let e = r->Err_0;
                    &&& r is Err
                    &&& e.namespace_view() == ns0
                    &&& e.path_view() == val
                    &&& e.message_view() == Some(
                        underline_message(
                            "Illegal characters in namespace:"@,
                            ns0,
                            namespace_bad_offsets(ns0),
                            '^',
                        ),
                    )
                })
                &&& val.len() > 0 && valid_namespace(ns0) && !valid_value(val) ==> ({
                    let e = r->Err_0;
                    &&& r is Err
                    &&& e.namespace_view() == ns0
                    &&& e.path_view() == val
                    &&& e.message_view() == Some(
                        underline_message(
                            "Illegal characters in path:"@,
                            val,
                            value_bad_offsets(val),
                            '^',
                        ),
                    )
                })
            }),
    {
        Self::from_str_with_separator(string, ':')
    }
}

/// Round-trip law for any separator that does not occur in the namespace —
/// which holds in particular of every character outside the namespace
/// allowlist, the canonical `:` included: rendering a key with
/// [`NamespacedKey::to_string_with_separator`] and splitting the result
/// recovers exactly its namespace and path, so by
/// [`NamespacedKey::from_str_with_separator`]'s contract, parsing it back
/// succeeds with the same pair.
pub proof fn lemma_key_round_trip(key: NamespacedKey, sep: char)
    requires
        !key.namespace_view().contains(sep),
    ensures
        namespace_half(key.namespace_view() + seq![sep] + key.path_view(), sep)
            == key.namespace_view(),
        value_half(key.namespace_view() + seq![sep] + key.path_view(), sep) == key.path_view(),
{
    assert forall|j: int| 0 <= j < key.namespace_view().len() implies key.namespace_view()[j]
        != sep by {
        if key.namespace_view()[j] == sep {
            assert(key.namespace_view().contains(sep));
        }
    }
    lemma_split_joined(key.namespace_view(), key.path_view(), sep);
}

impl Keyed for NamespacedKey {
    /// A key is its own key.
    open spec fn spec_key(&self) -> NamespacedKey {
        *self
    }

    fn key(&self) -> (r: &NamespacedKey) {
        self
    }
}

impl Clone for NamespacedKey {
    /// Cloning yields an equal key.
    fn clone(&self) -> (r: Self)
        ensures
            r == *self,
    {
        NamespacedKey { namespace: self.namespace.clone(), path: self.path.clone() }
    }
}

impl PartialEq for NamespacedKey {
    fn eq(&self, other: &Self) -> (r: bool) {
        self.namespace == other.namespace && self.path == other.path
    }
}

impl vstd::std_specs::cmp::PartialEqSpecImpl for NamespacedKey {
    open spec fn obeys_eq_spec() -> bool {
        true
    }

    open spec fn eq_spec(&self, other: &Self) -> bool {
        self.namespace_view() == other.namespace_view() && self.path_view() == other.path_view()
    }
}

} // verus!
