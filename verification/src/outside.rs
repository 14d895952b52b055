//! The calls into other crates and into parts of the standard library whose
//! behaviour is taken on trust, each behind one function.

use vstd::prelude::*;
use vstd::utf8::*;

verus! {

/// Whether the characters of `s` from `from` up to `to` are decimal digits.
pub open spec fn digits_between(s: Seq<char>, from: int, to: int) -> bool {
    forall|i: int| from <= i < to ==> '0' <= #[trigger] s[i] <= '9'
}

/// The shape of a point in time in UTC whose year takes `year` characters, and
/// whose fraction of a second takes `fraction` characters with its point.
pub open spec fn is_timestamp(s: Seq<char>, year: int, fraction: int) -> bool {
    &&& s.len() == year + 15 + fraction + 6
    &&& (year == 4 && digits_between(s, 0, 4)) || (6 <= year <= 7 && s[0] == '+'
        && digits_between(s, 1, year))
    &&& s[year] == '-' && digits_between(s, year + 1, year + 3)
    &&& s[year + 3] == '-' && digits_between(s, year + 4, year + 6)
    &&& s[year + 6] == 'T' && digits_between(s, year + 7, year + 9)
    &&& s[year + 9] == ':' && digits_between(s, year + 10, year + 12)
    &&& s[year + 12] == ':' && digits_between(s, year + 13, year + 15)
    &&& fraction == 0 || ((fraction == 4 || fraction == 7 || fraction == 10) && s[year + 15] == '.'
        && digits_between(s, year + 16, year + 15 + fraction))
    &&& s.skip(year + 15 + fraction) == "+00:00"@
}

/// The shape of a point in time in UTC with a numeric offset: a year of four
/// digits, or of more behind a plus sign, month and day, a `T`, hours, minutes
/// and seconds, perhaps a fraction of three, six or nine digits, and the
/// offset, as in `2024-01-31T08:15:30.250+00:00`.
pub open spec fn is_utc_timestamp(s: Seq<char>) -> bool {
    exists|year: int, fraction: int| #[trigger] is_timestamp(s, year, fraction)
}

/// The present time, by `chrono::Utc::now` and `chrono::DateTime::to_rfc3339`.
///
/// What is taken on trust: the text has the shape of a point in time in UTC.
/// Which time it names rests on the clock and is left open. The clock is taken
/// to stand within the years that can be represented, and not before 1970.
#[verifier::external_body]
pub(crate) fn utc_timestamp() -> (text: String)
    ensures
        is_utc_timestamp(text@),
{
    chrono::Utc::now().to_rfc3339()
}

/// A hexadecimal digit, for a number below 16.
pub open spec fn hex_digit(d: int) -> char {
    if d < 10 {
        (48 + d) as char
    } else {
        (87 + d) as char
    }
}

/// How a character stands in a JSON string: quotation mark, backslash and the
/// control characters are escaped, by two characters where there is such a
/// form and by their number where there is none; any other stands for itself.
pub open spec fn json_escape(c: char) -> Seq<char> {
    if c == '"' || c == '\\' {
        seq!['\\', c]
    } else if c == '\u{8}' {
        seq!['\\', 'b']
    } else if c == '\u{c}' {
        seq!['\\', 'f']
    } else if c == '\n' {
        seq!['\\', 'n']
    } else if c == '\r' {
        seq!['\\', 'r']
    } else if c == '\t' {
        seq!['\\', 't']
    } else if ' ' > c {
        seq!['\\', 'u', '0', '0', hex_digit(c as int / 16), hex_digit(c as int % 16)]
    } else {
        seq![c]
    }
}

/// The characters of `s` as they stand in a JSON string.
pub open spec fn json_escaped(s: Seq<char>) -> Seq<char>
    decreases s.len(),
{
    if s.len() == 0 {
        Seq::empty()
    } else {
        json_escape(s[0]) + json_escaped(s.drop_first())
    }
}

/// `s` as a JSON string.
pub open spec fn json_string_text(s: Seq<char>) -> Seq<char> {
    seq!['"'] + json_escaped(s) + seq!['"']
}

/// `s` as a JSON string, by `serde_json::to_string`.
///
/// What is taken on trust: the characters of `s` stand between two quotation
/// marks, and of them only quotation mark, backslash and the control
/// characters below the space are escaped, with the letters of their numbers
/// in lower case.
#[verifier::external_body]
pub(crate) fn json_string(s: &str) -> (text: String)
    ensures
        text@ == json_string_text(s@),
{
    serde_json::to_string(s).unwrap_or_default()
}

/// What `pem::encode` makes of a block with the label `tag`, without headers,
/// around `contents`.
pub uninterp spec fn pem_text(tag: Seq<char>, contents: Seq<u8>) -> Seq<char>;

/// `contents` as a PEM block with the label `tag`, by `pem::Pem::new` and
/// `pem::encode`.
///
/// What is taken on trust: the text depends on the label and the contents
/// alone.
#[verifier::external_body]
pub(crate) fn pem_block(tag: &str, contents: &[u8]) -> (text: String)
    ensures
        text@ == pem_text(tag@, contents@),
{
    pem::encode(&pem::Pem::new(tag, contents))
}

/// The characters that the name of a trust domain may hold.
pub open spec fn trust_domain_char(c: char) -> bool {
    'a' <= c <= 'z' || '0' <= c <= '9' || c == '-' || c == '.' || c == '_'
}

/// Whether `s` is the bare name of a trust domain.
pub open spec fn is_trust_domain(s: Seq<char>) -> bool {
    s.len() > 0 && forall|i: int| 0 <= i < s.len() ==> trust_domain_char(#[trigger] s[i])
}

/// `s` up to its first slash.
pub open spec fn up_to_slash(s: Seq<char>) -> Seq<char>
    decreases s.len(),
{
    if s.len() == 0 || s[0] == '/' {
        Seq::empty()
    } else {
        seq![s[0]] + up_to_slash(s.drop_first())
    }
}

/// The bytes that a SPIFFE ID may have.
pub const MAX_SPIFFE_ID_BYTES: usize = 2048;

/// The trust domain that `s` names: by its bare name, or by a SPIFFE ID in it
/// that is not too long.
pub open spec fn trust_domain_in(s: Seq<char>) -> Option<Seq<char>> {
    let name = if crate::text::starts_with(s, "spiffe://"@) {
        up_to_slash(s.skip("spiffe://"@.len() as int))
    } else {
        s
    };
    if is_trust_domain(name) && (name == s || encode_utf8(s).len() <= MAX_SPIFFE_ID_BYTES) {
        Some(name)
    } else {
        None
    }
}

/// What is wrong with an `s` that names no trust domain.
pub open spec fn trust_domain_error(s: Seq<char>) -> Seq<char> {
    let is_id = crate::text::starts_with(s, "spiffe://"@);
    let name = if is_id {
        up_to_slash(s.skip("spiffe://"@.len() as int))
    } else {
        s
    };
    if is_id && encode_utf8(s).len() > MAX_SPIFFE_ID_BYTES {
        "SPIFFE ID URI exceeds maximum length (2048 bytes)"@
    } else if name.len() == 0 {
        "trust domain is missing"@
    } else if !is_id && exists|at: int| #[trigger] crate::text::occurs_at(s, ":/"@, at) {
        "scheme is missing or invalid"@
    } else {
        "trust domain characters are limited to lowercase letters, numbers, dots, dashes, and \
         underscores"@
    }
}

/// The trust domain that `s` names, or what is wrong with `s`.
pub open spec fn trust_domain_name(s: Seq<char>) -> Result<Seq<char>, Seq<char>> {
    match trust_domain_in(s) {
        Some(name) => Ok(name),
        None => Err(trust_domain_error(s)),
    }
}

/// The characters of a text, or of what is wrong.
pub open spec fn characters(text: Result<String, String>) -> Result<Seq<char>, Seq<char>> {
    match text {
        Ok(text) => Ok(text@),
        Err(why) => Err(why@),
    }
}

/// The trust domain that `s` names, by `spiffe::TrustDomain::new`; an error
/// comes as the text that it displays.
///
/// What is taken on trust: a bare name of a trust domain stands for itself, a
/// SPIFFE ID for what it has between its scheme and the next slash; all else
/// is an error, which says that an ID is too long, that there is no name, that
/// there is another scheme, or that the name has other characters.
#[verifier::external_body]
pub(crate) fn parse_trust_domain(s: &str) -> (name: Result<String, String>)
    ensures
        name is Ok <==> trust_domain_in(s@) is Some,
        name is Ok ==> name->Ok_0@ == trust_domain_in(s@)->0,
        name is Err ==> name->Err_0@ == trust_domain_error(s@),
{
    spiffe::TrustDomain::new(s).map(|td| td.as_str().to_string()).map_err(|e| e.to_string())
}

/// Whether `tonic::transport::Channel::from_shared` takes `s` for the address
/// of a server.
pub uninterp spec fn is_endpoint_uri(s: Seq<char>) -> bool;

/// Whether a channel can be addressed to `s`, by
/// `tonic::transport::Channel::from_shared`.
///
/// What is taken on trust: the answer depends on `s` alone.
#[verifier::external_body]
pub(crate) fn endpoint_is_valid(s: &str) -> (valid: bool)
    ensures
        valid == is_endpoint_uri(s@),
{
    tonic::transport::Channel::from_shared(s.to_string()).is_ok()
}

/// The digits of a UUID.
pub open spec fn lower_hex(c: char) -> bool {
    '0' <= c <= '9' || 'a' <= c <= 'f'
}

/// The shape of a random UUID in its hyphenated form.
pub open spec fn is_random_uuid(s: Seq<char>) -> bool {
    &&& s.len() == 36
    &&& forall|i: int|
        0 <= i < 36 ==> if i == 8 || i == 13 || i == 18 || i == 23 {
            #[trigger] s[i] == '-'
        } else {
            lower_hex(s[i])
        }
    &&& s[14] == '4'
    &&& (s[19] == '8' || s[19] == '9' || s[19] == 'a' || s[19] == 'b')
}

/// A fresh random UUID, by `uuid::Uuid::new_v4`.
///
/// What is taken on trust: the text has the hyphenated form of a version 4
/// UUID in lower case. Which one it is rests on chance and is left open. The
/// machine is taken to have a source of random numbers.
#[verifier::external_body]
pub(crate) fn random_uuid() -> (text: String)
    ensures
        is_random_uuid(text@),
{
    uuid::Uuid::new_v4().to_string()
}

/// What `String::from_utf8_lossy` makes of `bytes`.
pub uninterp spec fn lossy_text(bytes: Seq<u8>) -> Seq<char>;

/// The text in `bytes`, by `String::from_utf8_lossy`.
///
/// What is taken on trust: the text depends on the bytes alone, and bytes that
/// are UTF-8 stand for the characters that they encode.
#[verifier::external_body]
pub(crate) fn text_from_bytes(bytes: &[u8]) -> (text: String)
    ensures
        text@ == lossy_text(bytes@),
        valid_utf8(bytes@) ==> text@ == decode_utf8(bytes@),
{
    String::from_utf8_lossy(bytes).to_string()
}

} // verus!
