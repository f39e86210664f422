use vstd::prelude::*;
use vstd::string::*;
use vstd::utf8::*;

verus! {

/// The path of the update endpoint of the Warp 10 API.
pub const API_ENDPOINT_UPDATE: &'static str = "/api/v0/update";

/// The response header in which Warp 10 puts its error message.
pub const HTTP_HEADER_ERROR_MESSAGE: &'static str = "x-warp10-error-message";

/// The request header that carries a token.
pub const HTTP_HEADER_TOKEN: &'static str = "x-warp10-token";

/// The request header that carries the write token of an update.
pub const HTTP_HEADER_UPDATE_TOKEN: &'static str = "x-warp10-token";

/// The `Content-Type` header, by its name in a header map.
pub const CONTENT_TYPE: &'static str = "content-type";

/// The content type of a compressed update body.
pub const GZIP_CONTENT_TYPE: &'static str = "application/gzip";

#[verifier::external_type_specification]
#[verifier::external_body]
#[verifier::reject_recursive_types(T)]
pub struct ExHeaderMap<T>(http::HeaderMap<T>);

/// What a header map holds: for each header name, the values stored under
/// it, in order.
pub uninterp spec fn header_fields(m: http::HeaderMap<Vec<u8>>) -> Map<Seq<char>, Seq<Seq<u8>>>;

/// A character that a header name as a header map stores it may hold: a
/// lower-case letter, a digit, or one of ``! # $ % & ' * + - . ^ _ ` | ~``.
pub open spec fn is_header_name_char(c: char) -> bool {
    ||| ('a' <= c <= 'z') || ('0' <= c <= '9')
    ||| c == '!' || c == '#' || c == '$' || c == '%' || c == '&' || c == '\'' || c == '*'
    ||| c == '+' || c == '-' || c == '.' || c == '^' || c == '_' || c == '`' || c == '|' || c == '~'
}

/// A header name as a header map stores it: at least one and fewer than
/// 65536 characters of `is_header_name_char`.
pub open spec fn is_header_name(s: Seq<char>) -> bool {
    &&& 0 < s.len() < 65536
    &&& forall|i: int| 0 <= i < s.len() ==> is_header_name_char(#[trigger] s[i])
}

/// A byte that a header value may hold: visible ASCII, a space, a tab, or
/// any byte from 128 on.
pub open spec fn is_header_value_byte(b: u8) -> bool {
    (b >= 32 && b != 127) || b == 9
}

/// A byte string that a header value may be.
pub open spec fn is_header_value(bytes: Seq<u8>) -> bool {
    forall|i: int| 0 <= i < bytes.len() ==> is_header_value_byte(#[trigger] bytes[i])
}

/// The fields of a map without headers.
pub open spec fn no_fields() -> Map<Seq<char>, Seq<Seq<u8>>> {
    Map::empty()
}

/// A header map that can take one more header name: it holds fewer than
/// 3277 names. Below that many names its table has at most 16384 slots, so
/// the growth that an insertion may ask for stays within the map's maximum of
/// 32768 slots.
pub open spec fn has_room(m: Map<Seq<char>, Seq<Seq<u8>>>) -> bool {
    m.dom().finite() && m.dom().len() < 3277
}

/// An empty header map.
///
/// Trusted: calls `http::HeaderMap::with_capacity` with no capacity, which
/// the source documents to create an empty map (and to panic only on a
/// capacity over its maximum).
#[verifier::external_body]
fn header_map_new() -> (map: http::HeaderMap<Vec<u8>>)
    ensures
        header_fields(map) == no_fields(),
{
    http::HeaderMap::with_capacity(0)
}

/// Stores `value` under `name`, in place of every value stored under it.
///
/// Trusted: calls `http::HeaderMap::insert` with a static name. The source
/// shows that the name is parsed with `HdrName::from_static`, which panics
/// on a name that is not a valid header name (refused here by `requires`)
/// and maps each character of `is_header_name_char` to itself, so the name
/// is stored as it is;
/// that every value stored under the name before is removed and the other
/// names keep theirs; and that `try_reserve_one` panics where growing the
/// table would pass `1 << 15` slots. The table reaches `1 << 15` slots only
/// once it holds at least 3277 names, so `has_room` keeps below that.
#[verifier::external_body]
fn header_map_insert(m: &mut http::HeaderMap<Vec<u8>>, name: &'static str, value: Vec<u8>)
    requires
        is_header_name(name@),
        has_room(header_fields(*old(m))),
    ensures
        header_fields(*final(m)) == header_fields(*old(m)).insert(name@, seq![value@]),
{
    m.insert(name, value);
}

/// The first value stored under `name`.
///
/// Trusted: calls `http::HeaderMap::get` with a string name, which the
/// source documents to return the first value associated with the name and
/// `None` where there is none.
#[verifier::external_body]
fn header_map_get<'a>(m: &'a http::HeaderMap<Vec<u8>>, name: &str) -> (r: Option<&'a Vec<u8>>)
    requires
        is_header_name(name@),
    ensures
        r is Some <==> header_fields(*m).contains_key(name@),
        r matches Some(v) ==> header_fields(*m)[name@].len() > 0 && v@ == header_fields(*m)[name@][0],
{
    m.get(name)
}

/// Whether `s` can be a header value.
///
/// Trusted: calls `http::HeaderValue::from_str`; the source shows it accepts
/// a string exactly when each of its UTF-8 bytes is a tab, or from 32 on but
/// not 127.
#[verifier::external_body]
fn header_value_accepts(s: &str) -> (ok: bool)
    ensures
        ok == is_header_value(s.spec_bytes()),
{
    http::HeaderValue::from_str(s).is_ok()
}

/// The string whose UTF-8 encoding `bytes` is, where they are valid UTF-8.
///
/// Trusted: calls `String::from_utf8`, documented to fail exactly on bytes
/// that are not valid UTF-8.
#[verifier::external_body]
fn string_from_utf8(bytes: Vec<u8>) -> (r: Option<String>)
    ensures
        r is Some <==> valid_utf8(bytes@),
        r matches Some(s) ==> s@ == decode_utf8(bytes@),
{
    String::from_utf8(bytes).ok()
}

/// A header map without headers, ready for `set_token_header`.
pub fn empty_header_map() -> (headers: http::HeaderMap<Vec<u8>>)
    ensures
        header_fields(headers) == no_fields(),
{
    header_map_new()
}

/// The header fields after `set_token_header` puts `token` under `name`:
/// unchanged where `token` cannot be a header value.
pub open spec fn with_token(
    fields: Map<Seq<char>, Seq<Seq<u8>>>,
    token: Seq<char>,
    name: Seq<char>,
) -> Map<Seq<char>, Seq<Seq<u8>>> {
    if is_header_value(encode_utf8(token)) {
        fields.insert(name, seq![encode_utf8(token)])
    } else {
        fields
    }
}

/// Puts `token` into `headers` under `token_header`, or under
/// `HTTP_HEADER_TOKEN` where none is given, if it can be a header value;
/// leaves `headers` as they were otherwise.
pub fn set_token_header(
    token: &str,
    headers: &mut http::HeaderMap<Vec<u8>>,
    token_header: Option<&'static str>,
)
    requires
        token_header matches Some(n) ==> is_header_name(n@),
        has_room(header_fields(*old(headers))),
    ensures
        header_fields(*final(headers)) == with_token(
            header_fields(*old(headers)),
            token@,
            match token_header {
                Some(n) => n@,
                None => HTTP_HEADER_TOKEN@,
            },
        ),
{
    if header_value_accepts(token) {
        let name = match token_header {
            Some(n) => n,
            None => HTTP_HEADER_TOKEN,
        };
        proof {
            reveal_strlit("x-warp10-token");
        }
        header_map_insert(headers, name, token.as_bytes_vec());
    }
}

/// Puts the write token of an update into `headers`, under
/// `HTTP_HEADER_UPDATE_TOKEN`, if it can be a header value.
pub fn set_token_ingress_header(write_token: &str, headers: &mut http::HeaderMap<Vec<u8>>)
    requires
        has_room(header_fields(*old(headers))),
    ensures
        header_fields(*final(headers)) == with_token(
            header_fields(*old(headers)),
            write_token@,
            HTTP_HEADER_UPDATE_TOKEN@,
        ),
{
    proof {
        reveal_strlit("x-warp10-token");
    }
    set_token_header(write_token, headers, Some(HTTP_HEADER_UPDATE_TOKEN));
}

/// The headers of an update: the write token where it can be a header value,
/// and `content-type: application/gzip` for a compressed body.
pub open spec fn ingress_fields(write_token: Seq<char>, body_compression: bool) -> Map<Seq<char>, Seq<Seq<u8>>> {
    let with_write_token = with_token(no_fields(), write_token, HTTP_HEADER_UPDATE_TOKEN@);
    if body_compression {
        with_write_token.insert(CONTENT_TYPE@, seq![GZIP_CONTENT_TYPE.spec_bytes()])
    } else {
        with_write_token
    }
}

/// The headers that an update request carries.
pub fn set_ingress_headers(write_token: &str, body_compression: bool) -> (headers: http::HeaderMap<Vec<u8>>)
    ensures
        header_fields(headers) == ingress_fields(write_token@, body_compression),
{
    let mut headers = header_map_new();
    set_token_ingress_header(write_token, &mut headers);
    if body_compression {
        proof {
            reveal_strlit("content-type");
        }
        header_map_insert(&mut headers, CONTENT_TYPE, GZIP_CONTENT_TYPE.as_bytes_vec());
    }
    headers
}

/// The error message of a Warp 10 response: the value of its
/// `HTTP_HEADER_ERROR_MESSAGE` header, where it is there and valid UTF-8.
pub fn extract_header_err(headers: &http::HeaderMap<Vec<u8>>) -> (message: Option<String>)
    ensures
        message is Some <==> header_fields(*headers).contains_key(HTTP_HEADER_ERROR_MESSAGE@)
            && valid_utf8(header_fields(*headers)[HTTP_HEADER_ERROR_MESSAGE@][0]),
        message matches Some(m) ==> m@ == decode_utf8(
            header_fields(*headers)[HTTP_HEADER_ERROR_MESSAGE@][0],
        ),
{
    proof {
        reveal_strlit("x-warp10-error-message");
    }
    match header_map_get(headers, HTTP_HEADER_ERROR_MESSAGE) {
        Some(bytes) => string_from_utf8(bytes.clone()),
        None => None,
    }
}

/// An update carries its write token under `x-warp10-token` exactly when
/// the token can be a header value, and `content-type: application/gzip`
/// exactly when its body is compressed; it carries no other header.
pub proof fn law_ingress_headers(write_token: Seq<char>, body_compression: bool)
    ensures
        ({
            let fields = ingress_fields(write_token, body_compression);
            &&& fields.contains_key(HTTP_HEADER_UPDATE_TOKEN@) <==> is_header_value(
                encode_utf8(write_token),
            )
            &&& is_header_value(encode_utf8(write_token)) ==> fields[HTTP_HEADER_UPDATE_TOKEN@]
                == seq![encode_utf8(write_token)]
            &&& fields.contains_key(CONTENT_TYPE@) <==> body_compression
            &&& body_compression ==> fields[CONTENT_TYPE@] == seq![GZIP_CONTENT_TYPE.spec_bytes()]
            &&& forall|k: Seq<char>|
                #[trigger] fields.contains_key(k) ==> k == HTTP_HEADER_UPDATE_TOKEN@ || k
                    == CONTENT_TYPE@
        }),
{
    reveal_strlit("x-warp10-token");
    reveal_strlit("content-type");
    assert(HTTP_HEADER_UPDATE_TOKEN@ != CONTENT_TYPE@) by {
        assert(HTTP_HEADER_UPDATE_TOKEN@[0] != CONTENT_TYPE@[0]);
    }
}

} // verus!
