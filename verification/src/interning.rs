//! The namespace interner: a thin layer over internment's process-wide
//! intern pool. Equal namespace strings intern to one shared allocation, so
//! handles copy in O(1) and compare by pointer.

use vstd::prelude::*;
use internment::Intern;

verus! {

#[verifier::external_type_specification]
#[verifier::external_body]
#[verifier::reject_recursive_types(T)]
pub struct ExIntern<T: 'static + ?Sized>(Intern<T>);

/// The string an interned namespace handle points to.
pub uninterp spec fn intern_content(i: Intern<String>) -> Seq<char>;

/// Relies on Intern::new: returns a handle whose interned value is `s`
/// (either a fresh allocation or the pool's existing copy of an equal
/// string).
#[verifier::external_body]
pub fn intern_string(s: String) -> (r: Intern<String>)
    ensures
        intern_content(r) == s@,
{
    Intern::new(s)
}

/// Relies on Intern's Clone: a handle is a copied pointer, so its clone is
/// the same handle.
pub assume_specification<T: ?Sized>[ <Intern<T> as Clone>::clone ](i: &Intern<T>) -> (r: Intern<
    T,
>)
    ensures
        r == *i,
;

/// Relies on Intern::as_ref: a handle dereferences to the interned string.
#[verifier::external_body]
pub fn intern_str(i: &Intern<String>) -> (r: &str)
    ensures
        r@ == intern_content(*i),
{
    i.as_ref().as_str()
}

/// Relies on Intern's PartialEq: handles are compared by pointer, and the
/// pool keeps exactly one never-freed copy per distinct value, so handles
/// are pointer-equal exactly when the interned strings are equal.
#[verifier::external_body]
pub fn intern_eq(a: &Intern<String>, b: &Intern<String>) -> (r: bool)
    ensures
        r == (intern_content(*a) == intern_content(*b)),
{
    a == b
}

} // verus!
