//! Validated URIs, and identifiers that are either a URI or a plain label.

use vstd::prelude::*;
use vstd::string::StrSliceExecFns;
use uriparse::URI;
use uriparse::URIReference;
use crate::error::Error;

verus! {

#[verifier::external_type_specification]
#[verifier::external_body]
pub struct ExURI<'uri>(URI<'uri>);

/// Whether text has the generic URI syntax (scheme, authority, path, query
/// and fragment grammar) that uriparse accepts.
pub uninterp spec fn is_uri(s: Seq<char>) -> bool;

/// The structured view of a text that uriparse parses as a URI.
pub uninterp spec fn parsed_uri(s: Seq<char>) -> URI<'static>;

/// Relies on uriparse's `URIReference::try_from(&str)`, which parses the text
/// against the generic URI-reference grammar and returns its error rather
/// than panicking, then on `URI::try_from(URIReference)`, which accepts the
/// reference exactly when it has a scheme. Both are pure parses, so the
/// outcome depends on the text alone.
#[verifier::external_body]
fn parse_uri<'a>(s: &'a str) -> (r: Option<URI<'a>>)
    ensures
        r is Some <==> is_uri(s@),
        r matches Some(u) ==> u == parsed_uri(s@),
{
    match URIReference::try_from(s) {
        Ok(reference) => URI::try_from(reference).ok(),
        Err(_) => None,
    }
}

/// Whether the character `c` occurs in `s`.
fn contains_char(s: &str, c: char) -> (r: bool)
    ensures
        r == s@.contains(c),
{
    let n = s.unicode_len();
    let mut i: usize = 0;
    while i < n
        invariant
            n == s@.len(),
            0 <= i <= n,
            forall|j: int| 0 <= j < i ==> s@[j] != c,
        decreases n - i,
    {
        if s.get_char(i) == c {
            return true;
        }
        i = i + 1;
    }
    false
}

/// A text that has passed URI syntax validation. It keeps the text exactly
/// as given: equality and conversion to text are byte for byte on it.
#[derive(Debug, PartialEq, Eq)]
pub struct Uri(String);

impl Clone for Uri {
    fn clone(&self) -> (r: Uri)
        ensures
            r@ == self@,
    {
        proof {
            use_type_invariant(self);
        }
        Uri(self.0.clone())
    }
}

impl View for Uri {
    type V = Seq<char>;

    closed spec fn view(&self) -> Seq<char> {
        self.0@
    }
}

impl Uri {
    /// Every value holds a syntactically valid URI.
    #[verifier::type_invariant]
    spec fn inv(self) -> bool {
        is_uri(self.0@)
    }

    /// Validates `value` as a URI and keeps it verbatim; `InvalidUri` when it
    /// is not one.
    pub fn new(value: &str) -> (r: Result<Uri, Error>)
        ensures
            r is Ok <==> is_uri(value@),
            r matches Ok(u) ==> u@ == value@,
            r matches Err(e) ==> e == Error::InvalidUri,
    {
        match parse_uri(value) {
            Some(_) => Ok(Uri(value.to_string())),
            None => Err(Error::InvalidUri),
        }
    }

    /// The text parsed into uriparse's structured view. Parsing cannot fail,
    /// since the text was validated when the value was made.
    pub fn as_uri(&self) -> (r: URI<'_>)
        ensures
            r == parsed_uri(self@),
    {
        proof {
            use_type_invariant(self);
        }
        match parse_uri(self.0.as_str()) {
            Some(u) => u,
            None => vstd::pervasive::unreached(),
        }
    }

    /// The URI text, which always has URI syntax.
    pub fn as_str(&self) -> (r: &str)
        ensures
            r@ == self@,
            is_uri(r@),
    {
        proof {
            use_type_invariant(self);
        }
        self.0.as_str()
    }

    /// The URI text, as an owned string.
    pub fn to_string(&self) -> (r: String)
        ensures
            r@ == self@,
    {
        self.0.clone()
    }

}

impl From<Uri> for String {
    fn from(uri: Uri) -> (r: String) {
        uri.0
    }
}

impl vstd::std_specs::convert::FromSpecImpl<Uri> for String {
    open spec fn obeys_from_spec() -> bool {
        true
    }

    closed spec fn from_spec(uri: Uri) -> String {
        uri.0
    }
}

/// Converting a `Uri` into a `String` gives its stored text, verbatim.
pub proof fn lemma_uri_into_string(uri: Uri)
    ensures
        <String as vstd::std_specs::convert::FromSpec<Uri>>::from_spec(uri)@ == uri@,
{
}

impl TryFrom<String> for Uri {
    type Error = Error;

    fn try_from(uri: String) -> (r: Result<Uri, Error>)
        ensures
            r is Ok <==> is_uri(uri@),
            r matches Ok(u) ==> u@ == uri@,
            r matches Err(e) ==> e == Error::InvalidUri,
    {
        Uri::new(uri.as_str())
    }
}

impl vstd::std_specs::convert::TryFromSpecImpl<String> for Uri {
    /// No spec-level value: the contract stands on `try_from` itself.
    open spec fn obeys_try_from_spec() -> bool {
        false
    }

    closed spec fn try_from_spec(v: String) -> Result<Uri, Error> {
        arbitrary()
    }
}

impl std::str::FromStr for Uri {
    type Err = Error;

    fn from_str(uri: &str) -> (r: Result<Uri, Error>)
        ensures
            r is Ok <==> is_uri(uri@),
            r matches Ok(u) ==> u@ == uri@,
            r matches Err(e) ==> e == Error::InvalidUri,
    {
        Uri::new(uri)
    }
}

/// An identifier that is either a plain label or a validated URI.
#[derive(Debug, Clone, PartialEq, Eq)]
pub enum StringOrUri {
    /// A plain label.
    String(String),
    /// A URI.
    Uri(Uri),
}

impl View for StringOrUri {
    type V = Seq<char>;

    /// The identifier's text, whatever its variant.
    open spec fn view(&self) -> Seq<char> {
        match self {
            StringOrUri::String(s) => s@,
            StringOrUri::Uri(u) => u@,
        }
    }
}

impl StringOrUri {
    /// Classifies `text`: with a colon it must be a URI (else `InvalidUri`);
    /// without one it is a plain label, which always succeeds.
    pub fn new(text: &str) -> (r: Result<StringOrUri, Error>)
        ensures
            r is Ok <==> (!text@.contains(':') || is_uri(text@)),
            r matches Ok(v) ==> v@ == text@ && (v is Uri <==> text@.contains(':')),
            r matches Err(e) ==> e == Error::InvalidUri,
    {
        if contains_char(text, ':') {
            match Uri::new(text) {
                Ok(uri) => Ok(StringOrUri::Uri(uri)),
                Err(e) => Err(e),
            }
        } else {
            Ok(StringOrUri::String(text.to_string()))
        }
    }

    /// The identifier's text.
    pub fn as_str(&self) -> (r: &str)
        ensures
            r@ == self@,
    {
        match self {
            StringOrUri::Uri(uri) => uri.as_str(),
            StringOrUri::String(string) => string.as_str(),
        }
    }
}

impl TryFrom<String> for StringOrUri {
    type Error = Error;

    fn try_from(string: String) -> (r: Result<StringOrUri, Error>)
        ensures
            r is Ok <==> (!string@.contains(':') || is_uri(string@)),
            r matches Ok(v) ==> v@ == string@ && (v is Uri <==> string@.contains(':')),
            r matches Err(e) ==> e == Error::InvalidUri,
    {
        StringOrUri::new(string.as_str())
    }
}

impl vstd::std_specs::convert::TryFromSpecImpl<String> for StringOrUri {
    /// No spec-level value: the contract stands on `try_from` itself.
    open spec fn obeys_try_from_spec() -> bool {
        false
    }

    closed spec fn try_from_spec(v: String) -> Result<StringOrUri, Error> {
        arbitrary()
    }
}

impl TryFrom<&str> for StringOrUri {
    type Error = Error;

    fn try_from(string: &str) -> (r: Result<StringOrUri, Error>)
        ensures
            r is Ok <==> (!string@.contains(':') || is_uri(string@)),
            r matches Ok(v) ==> v@ == string@ && (v is Uri <==> string@.contains(':')),
            r matches Err(e) ==> e == Error::InvalidUri,
    {
        StringOrUri::new(string)
    }
}

impl vstd::std_specs::convert::TryFromSpecImpl<&str> for StringOrUri {
    /// No spec-level value: the contract stands on `try_from` itself.
    open spec fn obeys_try_from_spec() -> bool {
        false
    }

    closed spec fn try_from_spec(v: &str) -> Result<StringOrUri, Error> {
        arbitrary()
    }
}

impl std::str::FromStr for StringOrUri {
    type Err = Error;

    fn from_str(string: &str) -> (r: Result<StringOrUri, Error>)
        ensures
            r is Ok <==> (!string@.contains(':') || is_uri(string@)),
            r matches Ok(v) ==> v@ == string@ && (v is Uri <==> string@.contains(':')),
            r matches Err(e) ==> e == Error::InvalidUri,
    {
        StringOrUri::new(string)
    }
}

impl From<Uri> for StringOrUri {
    fn from(uri: Uri) -> (r: StringOrUri) {
        StringOrUri::Uri(uri)
    }
}

impl vstd::std_specs::convert::FromSpecImpl<Uri> for StringOrUri {
    open spec fn obeys_from_spec() -> bool {
        true
    }

    open spec fn from_spec(uri: Uri) -> StringOrUri {
        StringOrUri::Uri(uri)
    }
}

impl From<StringOrUri> for String {
    fn from(id: StringOrUri) -> (r: String) {
        match id {
            StringOrUri::Uri(uri) => uri.0,
            StringOrUri::String(s) => s,
        }
    }
}

impl vstd::std_specs::convert::FromSpecImpl<StringOrUri> for String {
    open spec fn obeys_from_spec() -> bool {
        true
    }

    closed spec fn from_spec(id: StringOrUri) -> String {
        match id {
            StringOrUri::Uri(uri) => uri.0,
            StringOrUri::String(s) => s,
        }
    }
}

/// Converting a `StringOrUri` into a `String` drops the variant and keeps
/// the text.
pub proof fn lemma_string_or_uri_into_string(id: StringOrUri)
    ensures
        <String as vstd::std_specs::convert::FromSpec<StringOrUri>>::from_spec(id)@ == id@,
{
}

} // verus!
