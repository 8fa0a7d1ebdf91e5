//! Namespaced identifiers: values of the form `namespace:value` (for example
//! `game:item/sword`), validated against fixed character allowlists, with
//! interned namespaces, plus a diagnostic formatter that underlines every
//! illegal character of a rejected input.

pub mod chars;
pub mod identifier;
pub mod invalid_key_error;
pub mod keyed;
pub mod namespaced_key;
pub mod interning;
pub mod order;
pub mod render;
pub mod split;
pub mod underline;
pub mod widths;

pub use chars::check_string;
pub use chars::legal_namespace_chars;
pub use chars::legal_value_chars;
pub use identifier::Identifier;
pub use identifier::IdentifierUntyped;
pub use identifier::ParseError;
pub use identifier::DEFAULT_NAMESPACE;
pub use identifier::DEFAULT_SEPARATOR;
pub use invalid_key_error::InvalidKeyError;
pub use keyed::Keyed;
pub use namespaced_key::NamespacedKey;
pub use underline::make_underline_message;
