use vstd::prelude::*;
use crate::error::{
    ClientInitializationError, ClientRequestError, io_error_kind, io_error_message, io_error_new,
};
use crate::utils::{
    API_ENDPOINT_UPDATE, HTTP_HEADER_UPDATE_TOKEN, header_fields, ingress_fields, is_header_value,
    law_ingress_headers, set_ingress_headers,
};
use vstd::utf8::encode_utf8;

verus! {

#[verifier::external_type_specification]
#[verifier::external_body]
pub struct ExUrl(url::Url);

/// Trusted: `url::Url` derives `Clone`, so a clone holds the same
/// serialization and positions as the URL it copies. The `Clone` that
/// `Client` derives calls it, and Verus refuses that derive without it.
pub assume_specification[ <url::Url as Clone>::clone ](u: &url::Url) -> (r: url::Url)
    ensures
        r == *u,
;

/// What `url::Url::parse` gives for `input`: the absolute URL written in it,
/// or the reason it is none.
pub uninterp spec fn url_parsed(input: Seq<char>) -> Result<url::Url, url::ParseError>;

/// What `url::Url::join` gives for `input` read against `base`.
pub uninterp spec fn url_joined(base: url::Url, input: Seq<char>) -> Result<url::Url, url::ParseError>;

/// The URL written in `input`.
///
/// Trusted: calls `url::Url::parse`, which gives the same result for the
/// same text every time: the contract names that result `url_parsed`.
#[verifier::external_body]
fn parse_url(input: &str) -> (r: Result<url::Url, url::ParseError>)
    ensures
        r == url_parsed(input@),
{
    url::Url::parse(input)
}

/// `input` read against the URL `base`.
///
/// Trusted: calls `url::Url::join`, which gives the same result for the
/// same base and text every time: the contract names that result
/// `url_joined`.
#[verifier::external_body]
fn join_url(base: &url::Url, input: &str) -> (r: Result<url::Url, url::ParseError>)
    ensures
        r == url_joined(*base, input@),
{
    base.join(input)
}

/// The message of the error for an update without write token.
pub const TOKEN_UNSET_MESSAGE: &'static str = "Write Token is unset";

/// The error for an update without write token: an invalid input, with the
/// message `TOKEN_UNSET_MESSAGE`.
pub open spec fn is_token_unset_error(e: std::io::Error) -> bool {
    io_error_kind(e) == std::io::ErrorKind::InvalidInput && io_error_message(e) == Some(
        TOKEN_UNSET_MESSAGE@,
    )
}

/// A client of a Warp 10 instance: the base URL of the instance, and the
/// tokens used to read and to write. The HTTP client that sends the requests
/// is held beside it by the caller, who performs the network I/O.
#[derive(Debug, Clone)]
pub struct Client {
    pub base_url: url::Url,
    pub read_token: Option<String>,
    pub write_token: Option<String>,
}

/// An update request, ready to be sent: where to, with which headers, and
/// with which body.
#[derive(Debug)]
pub struct IngressRequest {
    pub url: url::Url,
    pub headers: http::HeaderMap<Vec<u8>>,
    pub body: String,
}

/// The headers of an update request of `client`: none without a write token.
pub open spec fn update_headers(client: Client, body_compression: bool) -> Option<
    Map<Seq<char>, Seq<Seq<u8>>>,
> {
    match client.write_token {
        Some(token) => Some(ingress_fields(token@, body_compression)),
        None => None,
    }
}

impl Client {
    /// A client of the instance at `base_url`, with no token set; refused
    /// with `UrlParseError` where `base_url` is not an absolute URL.
    pub fn new(base_url: &str) -> (r: Result<Client, ClientInitializationError>)
        ensures
            r is Ok <==> url_parsed(base_url@) is Ok,
            r matches Ok(c) ==> url_parsed(base_url@) == Ok::<url::Url, url::ParseError>(c.base_url)
                && c.read_token is None && c.write_token is None,
            url_parsed(base_url@) matches Err(e) ==> r == Err::<Client, ClientInitializationError>(
                ClientInitializationError::UrlParseError(e),
            ),
    {
        let base_url = match parse_url(base_url) {
            Ok(url) => url,
            Err(err) => return Err(ClientInitializationError::UrlParseError(err)),
        };
        Ok(Client { base_url, read_token: None, write_token: None })
    }

    /// Sets the token used to read.
    pub fn set_read_token(&mut self, token: String)
        ensures
            *final(self) == (Client { read_token: Some(token), ..*old(self) }),
    {
        self.read_token = Some(token);
    }

    /// Sets the token used to write.
    pub fn set_write_token(&mut self, token: String)
        ensures
            *final(self) == (Client { write_token: Some(token), ..*old(self) }),
    {
        self.write_token = Some(token);
    }

    /// The URL of the update endpoint of the instance: `API_ENDPOINT_UPDATE`
    /// read against the base URL.
    pub fn ingress_url(&self) -> (r: Result<url::Url, url::ParseError>)
        ensures
            r == url_joined(self.base_url, API_ENDPOINT_UPDATE@),
    {
        join_url(&self.base_url, API_ENDPOINT_UPDATE)
    }

    /// The update request that sends `series`, given the URL of the update
    /// endpoint (or the error met in making it): the URL error first, then a
    /// missing write token, are refused.
    pub fn ingress_request_to(
        &self,
        url: Result<url::Url, url::ParseError>,
        series: String,
        body_compression: bool,
    ) -> (r: Result<IngressRequest, ClientRequestError>)
        ensures
            url is Err ==> r == Err::<IngressRequest, ClientRequestError>(
                ClientRequestError::UrlParseError(url->Err_0),
            ),
            url is Ok && self.write_token is None ==> (r matches Err(ClientRequestError::TokenUnset(e))
                && is_token_unset_error(e)),
            url is Ok && self.write_token is Some ==> (r matches Ok(req) && req.url == url->Ok_0
                && req.body == series && Some(header_fields(req.headers)) == update_headers(
                *self,
                body_compression,
            )),
    {
        let url = match url {
            Ok(url) => url,
            Err(err) => return Err(ClientRequestError::UrlParseError(err)),
        };
        match &self.write_token {
            Some(token) => {
                let headers = set_ingress_headers(token.as_str(), body_compression);
                Ok(IngressRequest { url, headers, body: series })
            },
            None => Err(
                ClientRequestError::TokenUnset(
                    io_error_new(std::io::ErrorKind::InvalidInput, TOKEN_UNSET_MESSAGE),
                ),
            ),
        }
    }

    /// The update request that sends `series` to the instance, with the write
    /// token and, for a compressed body, its content type.
    pub fn ingress_request(&self, series: String, body_compression: bool) -> (r: Result<
        IngressRequest,
        ClientRequestError,
    >)
        ensures
            url_joined(self.base_url, API_ENDPOINT_UPDATE@) matches Err(e) ==> r == Err::<
                IngressRequest,
                ClientRequestError,
            >(ClientRequestError::UrlParseError(e)),
            url_joined(self.base_url, API_ENDPOINT_UPDATE@) is Ok && self.write_token is None ==> (
            r matches Err(ClientRequestError::TokenUnset(e)) && is_token_unset_error(e)),
            url_joined(self.base_url, API_ENDPOINT_UPDATE@) is Ok && self.write_token is Some ==> (
            r matches Ok(req) && url_joined(self.base_url, API_ENDPOINT_UPDATE@) == Ok::<
                url::Url,
                url::ParseError,
            >(req.url)
                && req.body == series && Some(header_fields(req.headers)) == update_headers(
                *self,
                body_compression,
            )),
    {
        let url = self.ingress_url();
        self.ingress_request_to(url, series, body_compression)
    }
}

/// Once a write token is set, every update request carries it: under
/// `x-warp10-token` where it can be a header value, whatever token was set
/// before.
pub proof fn law_write_token_reaches_request(client: Client, token: String, body_compression: bool)
    ensures
        ({
            let set = Client { write_token: Some(token), ..client };
            &&& update_headers(set, body_compression) is Some
            &&& is_header_value(encode_utf8(token@)) ==> update_headers(
                set,
                body_compression,
            )->0[HTTP_HEADER_UPDATE_TOKEN@] == seq![encode_utf8(token@)]
            &&& is_header_value(encode_utf8(token@)) ==> update_headers(
                set,
                body_compression,
            )->0.contains_key(HTTP_HEADER_UPDATE_TOKEN@)
        }),
{
    law_ingress_headers(token@, body_compression);
}

/// Setting the read token leaves what updates send unchanged.
pub proof fn law_read_token_leaves_updates(client: Client, token: String, body_compression: bool)
    ensures
        update_headers(Client { read_token: Some(token), ..client }, body_compression)
            == update_headers(client, body_compression),
{
}

} // verus!
