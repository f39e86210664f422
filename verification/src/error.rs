use vstd::prelude::*;
use vstd::std_specs::convert::FromSpecImpl;
use crate::text::push_str;

verus! {

#[verifier::external_type_specification]
pub struct ExUrlParseError(url::ParseError);

#[verifier::external_type_specification]
#[verifier::external_body]
pub struct ExReqwestError(reqwest::Error);

#[verifier::external_type_specification]
#[verifier::external_body]
pub struct ExIoError(std::io::Error);

#[verifier::external_type_specification]
pub struct ExIoErrorKind(std::io::ErrorKind);

/// The kind of an I/O error.
pub uninterp spec fn io_error_kind(e: std::io::Error) -> std::io::ErrorKind;

/// The message that an I/O error carries where it was made from a string,
/// `None` for any other error.
pub uninterp spec fn io_error_message(e: std::io::Error) -> Option<Seq<char>>;

/// An I/O error of the kind `kind` that carries `message`.
///
/// Trusted: calls `std::io::Error::new`, documented to make an error of the
/// given kind from the given payload; a string payload is kept as the error's
/// message.
#[verifier::external_body]
pub(crate) fn io_error_new(kind: std::io::ErrorKind, message: &str) -> (e: std::io::Error)
    ensures
        io_error_kind(e) == kind,
        io_error_message(e) == Some(message@),
{
    std::io::Error::new(kind, message)
}

/// Why a client could not be made.
#[derive(Debug)]
pub enum ClientInitializationError {
    UrlParseError(url::ParseError),
    ClientBuildingError(reqwest::Error),
}

impl From<url::ParseError> for ClientInitializationError {
    fn from(value: url::ParseError) -> (r: Self) {
        Self::UrlParseError(value)
    }
}

impl FromSpecImpl<url::ParseError> for ClientInitializationError {
    open spec fn obeys_from_spec() -> bool {
        true
    }

    open spec fn from_spec(value: url::ParseError) -> Self {
        Self::UrlParseError(value)
    }
}

impl From<reqwest::Error> for ClientInitializationError {
    fn from(value: reqwest::Error) -> (r: Self) {
        Self::ClientBuildingError(value)
    }
}

impl FromSpecImpl<reqwest::Error> for ClientInitializationError {
    open spec fn obeys_from_spec() -> bool {
        true
    }

    open spec fn from_spec(value: reqwest::Error) -> Self {
        Self::ClientBuildingError(value)
    }
}

/// Why a request could not be made or sent.
#[derive(Debug)]
pub enum ClientRequestError {
    UrlParseError(url::ParseError),
    TokenUnset(std::io::Error),
    ClientSendError(reqwest::Error),
}

impl From<url::ParseError> for ClientRequestError {
    fn from(value: url::ParseError) -> (r: Self) {
        Self::UrlParseError(value)
    }
}

impl FromSpecImpl<url::ParseError> for ClientRequestError {
    open spec fn obeys_from_spec() -> bool {
        true
    }

    open spec fn from_spec(value: url::ParseError) -> Self {
        Self::UrlParseError(value)
    }
}

impl From<std::io::Error> for ClientRequestError {
    fn from(value: std::io::Error) -> (r: Self) {
        Self::TokenUnset(value)
    }
}

impl FromSpecImpl<std::io::Error> for ClientRequestError {
    open spec fn obeys_from_spec() -> bool {
        true
    }

    open spec fn from_spec(value: std::io::Error) -> Self {
        Self::TokenUnset(value)
    }
}

impl From<reqwest::Error> for ClientRequestError {
    fn from(value: reqwest::Error) -> (r: Self) {
        Self::ClientSendError(value)
    }
}

impl FromSpecImpl<reqwest::Error> for ClientRequestError {
    open spec fn obeys_from_spec() -> bool {
        true
    }

    open spec fn from_spec(value: reqwest::Error) -> Self {
        Self::ClientSendError(value)
    }
}

/// The `Display` text of a URL parse error: a fixed sentence for each kind
/// of error. The last branch is `Overflow`, the only kind left.
pub open spec fn url_error_display(e: url::ParseError) -> Seq<char> {
    if e is EmptyHost {
        "empty host"@
    } else if e is IdnaError {
        "invalid international domain name"@
    } else if e is InvalidPort {
        "invalid port number"@
    } else if e is InvalidIpv4Address {
        "invalid IPv4 address"@
    } else if e is InvalidIpv6Address {
        "invalid IPv6 address"@
    } else if e is InvalidDomainCharacter {
        "invalid domain character"@
    } else if e is RelativeUrlWithoutBase {
        "relative URL without a base"@
    } else if e is RelativeUrlWithCannotBeABaseBase {
        "relative URL with a cannot-be-a-base base"@
    } else if e is SetHostOnCannotBeABaseUrl {
        "a cannot-be-a-base URL doesn’t have a host to set"@
    } else {
        "URLs more than 4 GB are not supported"@
    }
}

/// The `Display` text of an HTTP client error.
pub uninterp spec fn reqwest_error_display(e: reqwest::Error) -> Seq<char>;

/// The `Display` text of a URL parse error.
///
/// Trusted: formats the error with `url::ParseError`'s `Display`, which the
/// source shows to write the fixed sentence of `url_error_display` for each
/// kind of error.
#[verifier::external_body]
fn url_error_text(err: &url::ParseError) -> (t: String)
    ensures
        t@ == url_error_display(*err),
{
    format!("{err}")
}

/// The `Display` text of an HTTP client error.
///
/// Trusted: formats the error with `reqwest::Error`'s `Display`, which the
/// source shows to write from the error's kind and URL alone: the text is
/// named `reqwest_error_display`.
#[verifier::external_body]
fn reqwest_error_text(err: &reqwest::Error) -> (t: String)
    ensures
        t@ == reqwest_error_display(*err),
{
    format!("{err}")
}

/// The `Display` text of an I/O error.
///
/// Trusted: formats the error with `std::io::Error`'s `Display`, which writes
/// the message of an error made from a string. The text of other I/O errors
/// (such as those of the operating system, which depend on its language) is
/// not stated.
#[verifier::external_body]
fn io_error_text(err: &std::io::Error) -> (t: String)
    ensures
        io_error_message(*err) matches Some(m) ==> t@ == m,
{
    format!("{err}")
}

impl ClientInitializationError {
    /// The message of the error: a sentence that says which step failed,
    /// followed by the message of the underlying error.
    pub fn message(&self) -> (m: String)
        ensures
            self matches ClientInitializationError::UrlParseError(e) ==> m@
                == "Client initialization error: could not parse URL: "@ + url_error_display(*e),
            self matches ClientInitializationError::ClientBuildingError(e) ==> m@
                == "Client initialization error: could not build HTTP client: "@
                + reqwest_error_display(*e),
    {
        let mut m = String::new();
        match self {
            ClientInitializationError::UrlParseError(err) => {
                push_str(&mut m, "Client initialization error: could not parse URL: ");
                let t = url_error_text(err);
                push_str(&mut m, t.as_str());
            },
            ClientInitializationError::ClientBuildingError(err) => {
                push_str(&mut m, "Client initialization error: could not build HTTP client: ");
                let t = reqwest_error_text(err);
                push_str(&mut m, t.as_str());
            },
        }
        m
    }
}

/// `s` begins with `prefix`.
pub open spec fn starts_with(s: Seq<char>, prefix: Seq<char>) -> bool {
    prefix.len() <= s.len() && s.subrange(0, prefix.len() as int) == prefix
}

proof fn lemma_starts_with(prefix: Seq<char>, rest: Seq<char>)
    ensures
        starts_with(prefix + rest, prefix),
{
    assert((prefix + rest).subrange(0, prefix.len() as int) == prefix);
}

impl ClientRequestError {
    /// The message of an error whose token could not be had, given the text
    /// of its I/O error: `Client request error: ` followed by that text.
    pub fn token_unset_message(io_text: &str) -> (m: String)
        ensures
            m@ == "Client request error: "@ + io_text@,
    {
        let mut m = String::new();
        push_str(&mut m, "Client request error: ");
        push_str(&mut m, io_text);
        m
    }

    /// The message of the error: a sentence that says which step failed,
    /// followed by the message of the underlying error. For an error whose
    /// token could not be had it is `token_unset_message` of the I/O error's
    /// `Display` text, which is known here only for an I/O error made from a
    /// string: the text of any other I/O error depends on the machine.
    pub fn message(&self) -> (m: String)
        ensures
            self matches ClientRequestError::UrlParseError(e) ==> m@
                == "Client request error: could not parse URL: "@ + url_error_display(*e),
            self matches ClientRequestError::TokenUnset(e) ==> starts_with(
                m@,
                "Client request error: "@,
            ),
            self matches ClientRequestError::TokenUnset(e) ==> (io_error_message(*e) matches Some(t)
                ==> m@ == "Client request error: "@ + t),
            self matches ClientRequestError::ClientSendError(e) ==> m@
                == "Client request error: request failed: "@ + reqwest_error_display(*e),
    {
        let mut m = String::new();
        match self {
            ClientRequestError::UrlParseError(err) => {
                push_str(&mut m, "Client request error: could not parse URL: ");
                let t = url_error_text(err);
                push_str(&mut m, t.as_str());
            },
            ClientRequestError::TokenUnset(err) => {
                let t = io_error_text(err);
                m = Self::token_unset_message(t.as_str());
                proof {
                    lemma_starts_with("Client request error: "@, t@);
                }
            },
            ClientRequestError::ClientSendError(err) => {
                push_str(&mut m, "Client request error: request failed: ");
                let t = reqwest_error_text(err);
                push_str(&mut m, t.as_str());
            },
        }
        m
    }
}

} // verus!
