use vstd::prelude::*;
use vstd::string::*;
use vstd::utf8::*;
use crate::text::{push_char, push_str};

verus! {

/// `b` is an ASCII letter or digit.
pub open spec fn is_ascii_alphanumeric(b: u8) -> bool {
    (48 <= b <= 57) || (65 <= b <= 90) || (97 <= b <= 122)
}

/// The upper-case hexadecimal digit for `d < 16`.
pub open spec fn hex_digit(d: nat) -> char {
    if d < 10 {
        (d + 48) as char
    } else {
        (d + 55) as char
    }
}

/// The value of an upper-case hexadecimal digit.
pub open spec fn hex_value(c: char) -> nat {
    if c as nat >= 65 {
        (c as nat - 55) as nat
    } else {
        (c as nat - 48) as nat
    }
}

/// A byte that a string value keeps as it is: an ASCII letter or digit, or
/// one of `{`, `}`, `"`, `:` and `'`, so that a JSON text stays readable in
/// a string value.
pub open spec fn is_value_kept_byte(b: u8) -> bool {
    is_ascii_alphanumeric(b) || b == 0x7B || b == 0x7D || b == 0x22 || b == 0x3A || b == 0x27
}

/// A byte written as it is: in names and labels only an ASCII letter or
/// digit; in a string value (`in_value`) also the bytes of
/// `is_value_kept_byte`.
pub open spec fn is_kept_byte(b: u8, in_value: bool) -> bool {
    if in_value {
        is_value_kept_byte(b)
    } else {
        is_ascii_alphanumeric(b)
    }
}

/// `%` and the two upper-case hexadecimal digits of a byte.
pub open spec fn escape_text(b: u8) -> Seq<char> {
    seq!['%', hex_digit(b as nat / 16), hex_digit(b as nat % 16)]
}

/// The text that stands for one byte: a kept byte stands for itself, every
/// other byte is `%` and its two upper-case hexadecimal digits.
pub open spec fn encode_byte(b: u8, in_value: bool) -> Seq<char> {
    if is_kept_byte(b, in_value) {
        seq![b as char]
    } else {
        escape_text(b)
    }
}

/// The percent-encoding of a byte string, byte after byte.
pub open spec fn percent_encoded(bytes: Seq<u8>, in_value: bool) -> Seq<char>
    decreases bytes.len(),
{
    if bytes.len() == 0 {
        seq![]
    } else {
        encode_byte(bytes[0], in_value) + percent_encoded(bytes.drop_first(), in_value)
    }
}

/// The percent-encoding of the UTF-8 bytes of a name or a label, in which
/// every byte that is not an ASCII letter or digit is written `%XX`.
pub open spec fn url_encoded(s: Seq<char>) -> Seq<char> {
    percent_encoded(encode_utf8(s), false)
}

/// The percent-encoding of the UTF-8 bytes of a string value, in which every
/// byte that is not an ASCII letter or digit, `{`, `}`, `"`, `:` or `'` is
/// written `%XX`.
pub open spec fn value_encoded(s: Seq<char>) -> Seq<char> {
    percent_encoded(encode_utf8(s), true)
}

/// A character that an encoded name or label may hold: an ASCII letter or
/// digit, or `%`.
pub open spec fn is_encoded_char(c: char) -> bool {
    ('0' <= c <= '9') || ('A' <= c <= 'Z') || ('a' <= c <= 'z') || c == '%'
}

/// Reads percent-encoded text back into bytes.
pub open spec fn percent_decoded(text: Seq<char>) -> Seq<u8>
    decreases text.len(),
{
    if text.len() == 0 {
        seq![]
    } else if text[0] == '%' && text.len() >= 3 {
        seq![(hex_value(text[1]) * 16 + hex_value(text[2])) as u8] + percent_decoded(text.skip(3))
    } else {
        seq![text[0] as u8] + percent_decoded(text.drop_first())
    }
}

/// `%` and the two upper-case hexadecimal digits of `b`.
///
/// Trusted: calls `percent_encoding::percent_encode_byte`, which the source
/// shows to cut the three characters for `b` out of a table that holds
/// `%00` to `%FF` in order, with upper-case digits.
#[verifier::external_body]
fn percent_encode_byte(b: u8) -> (t: &'static str)
    ensures
        t@ == escape_text(b),
{
    percent_encoding::percent_encode_byte(b)
}

fn is_kept(b: u8, in_value: bool) -> (r: bool)
    ensures
        r == is_kept_byte(b, in_value),
{
    let alnum = (b >= 48 && b <= 57) || (b >= 65 && b <= 90) || (b >= 97 && b <= 122);
    if in_value {
        alnum || b == 0x7B || b == 0x7D || b == 0x22 || b == 0x3A || b == 0x27
    } else {
        alnum
    }
}

/// Encoding two byte strings one after the other encodes their concatenation.
proof fn lemma_percent_encoded_concat(a: Seq<u8>, b: Seq<u8>, in_value: bool)
    ensures
        percent_encoded(a + b, in_value) == percent_encoded(a, in_value) + percent_encoded(b, in_value),
    decreases a.len(),
{
    if a.len() > 0 {
        lemma_percent_encoded_concat(a.drop_first(), b, in_value);
        assert((a + b).drop_first() == a.drop_first() + b);
        assert((a + b)[0] == a[0]);
    } else {
        assert(a + b == b);
    }
}

/// Percent-encodes the UTF-8 bytes of `input`, byte after byte, keeping the
/// bytes of `is_kept_byte(_, in_value)`.
fn encode_text(input: &str, in_value: bool) -> (code: String)
    ensures
        code@ == percent_encoded(encode_utf8(input@), in_value),
{
    let bytes = input.as_bytes();
    let n = bytes.len();
    let mut code = String::new();
    let mut i: usize = 0;
    while i < n
        invariant
            i <= n,
            n == bytes@.len(),
            bytes@ == encode_utf8(input@),
            code@ == percent_encoded(bytes@.take(i as int), in_value),
        decreases n - i,
    {
        let b = bytes[i];
        proof {
            lemma_percent_encoded_concat(bytes@.take(i as int), seq![b], in_value);
            assert(bytes@.take(i + 1) == bytes@.take(i as int) + seq![b]);
            assert(seq![b].drop_first().len() == 0);
            assert(percent_encoded(seq![b], in_value) == encode_byte(b, in_value) + percent_encoded(
                seq![b].drop_first(),
                in_value,
            ));
        }
        if is_kept(b, in_value) {
            push_char(&mut code, b as char);
        } else {
            push_str(&mut code, percent_encode_byte(b));
        }
        i = i + 1;
    }
    assert(bytes@.take(n as int) == bytes@);
    code
}

/// Percent-encodes a name or a label for the line format: every UTF-8 byte
/// of it that is not an ASCII letter or digit becomes `%` and two upper-case
/// hexadecimal digits.
pub(crate) fn url_encode(input: &str) -> (code: String)
    ensures
        code@ == url_encoded(input@),
{
    encode_text(input, false)
}

/// Percent-encodes a string value for the line format: every UTF-8 byte of
/// it that is not an ASCII letter or digit, `{`, `}`, `"`, `:` or `'` becomes
/// `%` and two upper-case hexadecimal digits.
pub(crate) fn value_encode(input: &str) -> (code: String)
    ensures
        code@ == value_encoded(input@),
{
    encode_text(input, true)
}

proof fn lemma_hex_roundtrip(b: u8)
    ensures
        hex_value(hex_digit(b as nat / 16)) * 16 + hex_value(hex_digit(b as nat % 16)) == b,
{
}

/// Decoding gives back the bytes that were encoded.
pub proof fn lemma_percent_decode_encoded(bytes: Seq<u8>, in_value: bool)
    ensures
        percent_decoded(percent_encoded(bytes, in_value)) == bytes,
    decreases bytes.len(),
{
    if bytes.len() > 0 {
        let b = bytes[0];
        let rest = percent_encoded(bytes.drop_first(), in_value);
        let text = encode_byte(b, in_value) + rest;
        lemma_percent_decode_encoded(bytes.drop_first(), in_value);
        if is_kept_byte(b, in_value) {
            assert(text[0] == b as char);
            assert(text.drop_first() == rest);
        } else {
            lemma_hex_roundtrip(b);
            assert(text[0] == '%');
            assert(text.skip(3) == rest);
        }
        assert(bytes == seq![b] + bytes.drop_first());
    }
}

/// Every character of an encoded name or label is an ASCII letter, digit or
/// `%`.
pub proof fn lemma_percent_encoded_chars(bytes: Seq<u8>)
    ensures
        forall|i: int|
            0 <= i < percent_encoded(bytes, false).len() ==> is_encoded_char(
                #[trigger] percent_encoded(bytes, false)[i],
            ),
    decreases bytes.len(),
{
    if bytes.len() > 0 {
        lemma_percent_encoded_chars(bytes.drop_first());
        let head = encode_byte(bytes[0], false);
        let rest = percent_encoded(bytes.drop_first(), false);
        assert forall|i: int| 0 <= i < head.len() implies is_encoded_char(#[trigger] head[i]) by {
        }
        assert forall|i: int| 0 <= i < (head + rest).len() implies is_encoded_char(
            #[trigger] (head + rest)[i],
        ) by {
            if i >= head.len() {
                assert((head + rest)[i] == rest[i - head.len()]);
            }
        }
    }
}

/// Two different names or labels never have the same encoding: the encoding
/// can be read back into the text.
pub proof fn law_url_encoding_injective(s1: Seq<char>, s2: Seq<char>)
    ensures
        url_encoded(s1) == url_encoded(s2) ==> s1 == s2,
{
    lemma_percent_decode_encoded(encode_utf8(s1), false);
    lemma_percent_decode_encoded(encode_utf8(s2), false);
    encode_utf8_decode_utf8(s1);
    encode_utf8_decode_utf8(s2);
}

/// Two different string values never have the same encoding: the encoding
/// can be read back into the text.
pub proof fn law_value_encoding_injective(s1: Seq<char>, s2: Seq<char>)
    ensures
        value_encoded(s1) == value_encoded(s2) ==> s1 == s2,
{
    lemma_percent_decode_encoded(encode_utf8(s1), true);
    lemma_percent_decode_encoded(encode_utf8(s2), true);
    encode_utf8_decode_utf8(s1);
    encode_utf8_decode_utf8(s2);
}

/// A character that an encoded string value may hold: an ASCII letter or
/// digit, `%`, or one of `{`, `}`, `"`, `:` and `'`.
pub open spec fn is_value_encoded_char(c: char) -> bool {
    ||| ('0' <= c <= '9') || ('A' <= c <= 'Z') || ('a' <= c <= 'z') || c == '%'
    ||| c == '{' || c == '}' || c == '"' || c == ':' || c == '\''
}

/// Every character of an encoded string value is one of
/// `is_value_encoded_char`.
proof fn lemma_value_encoded_chars(bytes: Seq<u8>)
    ensures
        forall|i: int|
            0 <= i < percent_encoded(bytes, true).len() ==> is_value_encoded_char(
                #[trigger] percent_encoded(bytes, true)[i],
            ),
    decreases bytes.len(),
{
    if bytes.len() > 0 {
        lemma_value_encoded_chars(bytes.drop_first());
        let head = encode_byte(bytes[0], true);
        let rest = percent_encoded(bytes.drop_first(), true);
        assert forall|i: int| 0 <= i < head.len() implies is_value_encoded_char(#[trigger] head[i]) by {
        }
        assert forall|i: int| 0 <= i < (head + rest).len() implies is_value_encoded_char(
            #[trigger] (head + rest)[i],
        ) by {
            if i >= head.len() {
                assert((head + rest)[i] == rest[i - head.len()]);
            }
        }
    }
}

/// An encoded string value holds nothing but ASCII letters, digits, `%` and
/// `{`, `}`, `"`, `:`, `'`: no space, line break or other byte of the line
/// format comes through as it is.
pub proof fn law_value_encoding_alphabet(s: Seq<char>)
    ensures
        forall|i: int|
            0 <= i < value_encoded(s).len() ==> is_value_encoded_char(#[trigger] value_encoded(s)[i]),
{
    lemma_value_encoded_chars(encode_utf8(s));
}

/// The upper-case hexadecimal digits, from 0 to 15.
pub proof fn law_hex_digits()
    ensures
        Seq::new(16, |d: int| hex_digit(d as nat)) == seq![
            '0', '1', '2', '3', '4', '5', '6', '7', '8', '9', 'A', 'B', 'C', 'D', 'E', 'F',
        ],
{
    assert(Seq::new(16, |d: int| hex_digit(d as nat)) =~= seq![
        '0', '1', '2', '3', '4', '5', '6', '7', '8', '9', 'A', 'B', 'C', 'D', 'E', 'F',
    ]);
}

/// How one byte is encoded. In a name or a label an ASCII letter or digit
/// stands for itself and every other byte becomes `%` and its two
/// hexadecimal digits; in a string value `{`, `}`, `"`, `:` and `'` also
/// stand for themselves.
pub proof fn law_byte_encoding(b: u8)
    ensures
        (48 <= b <= 57 || 65 <= b <= 90 || 97 <= b <= 122) ==> percent_encoded(seq![b], false)
            == seq![b as char] && percent_encoded(seq![b], true) == seq![b as char],
        !(48 <= b <= 57 || 65 <= b <= 90 || 97 <= b <= 122) ==> percent_encoded(seq![b], false)
            == seq!['%', hex_digit(b as nat / 16), hex_digit(b as nat % 16)],
        (b == 0x7B || b == 0x7D || b == 0x22 || b == 0x3A || b == 0x27) ==> percent_encoded(
            seq![b],
            true,
        ) == seq![b as char],
        !(48 <= b <= 57 || 65 <= b <= 90 || 97 <= b <= 122 || b == 0x7B || b == 0x7D || b == 0x22
            || b == 0x3A || b == 0x27) ==> percent_encoded(seq![b], true) == seq![
            '%',
            hex_digit(b as nat / 16),
            hex_digit(b as nat % 16),
        ],
{
    assert(seq![b].drop_first().len() == 0);
    assert(percent_encoded(seq![b], false) == encode_byte(b, false) + percent_encoded(seq![b].drop_first(), false));
    assert(percent_encoded(seq![b], true) == encode_byte(b, true) + percent_encoded(seq![b].drop_first(), true));
    assert(encode_byte(b, false) + seq![] =~= encode_byte(b, false));
    assert(encode_byte(b, true) + seq![] =~= encode_byte(b, true));
}

/// An encoded name or label holds nothing but ASCII letters, digits and `%`:
/// no space, comma, equals sign, brace, slash or line break of the line
/// format can come from it.
pub proof fn law_url_encoding_alphabet(s: Seq<char>)
    ensures
        forall|i: int| 0 <= i < url_encoded(s).len() ==> is_encoded_char(#[trigger] url_encoded(s)[i]),
{
    lemma_percent_encoded_chars(encode_utf8(s));
}

} // verus!
