//! Value types for JSON based specifications such as JOSE and JSON-LD: a
//! single-or-many container, a URI-or-string identifier and a base64url
//! encoded unsigned integer.

pub mod base64url;
pub mod error;
pub mod object;
pub mod one_or_many;
pub mod uri;

pub use base64url::Alphabet;
pub use base64url::Base64urlUInt;
pub use error::Error;
pub use object::ObjectWithId;
pub use one_or_many::OneOrMany;
pub use uri::StringOrUri;
pub use uri::Uri;
