//! The error returned when a namespaced key is invalid: it carries the
//! namespace and path that were tested, and optionally a custom message.

use vstd::prelude::*;
use vstd::string::*;

verus! {

/// The message rendered when no custom one was set.
pub open spec fn default_error_message(ns: Seq<char>, path: Seq<char>) -> Seq<char> {
    "Invalid namespaced key (namespace = '"@ + ns + "', path = '"@ + path + "')"@
}

/// An error returned when a namespaced key is invalid.
#[derive(Debug)]
pub struct InvalidKeyError {
    namespace: String,
    path: String,
    message: Option<String>,
}

impl InvalidKeyError {
    /// The namespace that was tested.
    pub closed spec fn namespace_view(self) -> Seq<char> {
        self.namespace@
    }

    /// The path that was tested.
    pub closed spec fn path_view(self) -> Seq<char> {
        self.path@
    }

    /// The custom message, if one was set.
    pub closed spec fn message_view(self) -> Option<Seq<char>> {
        match self.message {
            Some(m) => Some(m@),
            None => None,
        }
    }

    /// What [`InvalidKeyError::to_string`] renders: the custom message if
    /// set, the default one otherwise.
    pub open spec fn rendered(self) -> Seq<char> {
        match self.message_view() {
            Some(m) => m,
            None => default_error_message(self.namespace_view(), self.path_view()),
        }
    }

    /// Creates a new `InvalidKeyError` without a custom message.
    pub fn new(namespace: &str, path: &str) -> (r: Self)
        ensures
            r.namespace_view() == namespace@,
            r.path_view() == path@,
            r.message_view() is None,
    {
        InvalidKeyError {
            namespace: namespace.to_owned(),
            path: path.to_owned(),
            message: None,
        }
    }

    /// Sets this error's message.
    #[must_use]
    pub fn with_message(self, message: &str) -> (r: Self)
        ensures
            r.namespace_view() == self.namespace_view(),
            r.path_view() == self.path_view(),
            r.message_view() == Some(message@),
    {
        InvalidKeyError {
            namespace: self.namespace,
            path: self.path,
            message: Some(message.to_owned()),
        }
    }

    /// Gets the namespace involved in this error.
    pub fn namespace(&self) -> (r: &str)
        ensures
            r@ == self.namespace_view(),
    {
        self.namespace.as_str()
    }

    /// Gets the path involved in this error.
    pub fn path(&self) -> (r: &str)
        ensures
            r@ == self.path_view(),
    {
        self.path.as_str()
    }

    /// Renders the error: the custom message if one was set, otherwise a
    /// default naming the namespace and the path.
    pub fn to_string(&self) -> (r: String)
        ensures
            r@ == self.rendered(),
    {
        match &self.message {
            Some(m) => m.clone(),
            None => {
                let mut out = String::new();
                out.append("Invalid namespaced key (namespace = '");
                out.append(self.namespace.as_str());
                out.append("', path = '");
                out.append(self.path.as_str());
                out.append("')");
                proof {
                    assert(out@ =~= self.rendered());
                }
                out
            },
        }
    }
}

} // verus!
