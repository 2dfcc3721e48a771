//! What the library has from other crates, and from the standard library where vstd says
//! nothing of it. Every contract in this file is taken on trust; the rest of the library is
//! proved from them.

use base64::Engine;
use vstd::prelude::*;
use vstd::utf8::*;

verus! {

/// A YAML mapping, as `serde_yaml_ng` holds one.
#[verifier::external_type_specification]
#[verifier::external_body]
pub struct ExMapping(serde_yaml_ng::Mapping);

/// Why `serde_yaml_ng` did not read a text.
#[verifier::external_type_specification]
#[verifier::external_body]
pub struct ExYamlError(serde_yaml_ng::Error);

/// Why `base64` did not read a text.
#[verifier::external_type_specification]
#[verifier::external_body]
pub struct ExDecodeError(base64::DecodeError);

/// Why the standard library did not take bytes for UTF-8.
#[verifier::external_type_specification]
#[verifier::external_body]
pub struct ExFromUtf8Error(std::string::FromUtf8Error);

/// The keys of `mapping` that are plain strings.
pub uninterp spec fn string_keys(mapping: serde_yaml_ng::Mapping) -> Set<Seq<char>>;

/// The plain string keys of the mapping that `text` holds as one YAML document, or `None`
/// where `text` is not read as one mapping.
pub uninterp spec fn yaml_keys(text: Seq<char>) -> Option<Set<Seq<char>>>;

/// The bytes that `text` holds in Base64 with the standard alphabet and padding, or `None`
/// where `text` is no such encoding.
pub uninterp spec fn base64_bytes(text: Seq<char>) -> Option<Seq<u8>>;

pub open spec fn is_lower_hex(c: char) -> bool {
    '0' <= c <= '9' || 'a' <= c <= 'f'
}

/// The form in which a UUID is written: 36 characters, hyphens after the 8th, 12th, 16th and
/// 20th digit, and lower case hexadecimal digits elsewhere.
pub open spec fn is_hyphenated_uuid(s: Seq<char>) -> bool {
    &&& s.len() == 36
    &&& forall|i: int|
        0 <= i < 36 ==> if i == 8 || i == 13 || i == 18 || i == 23 {
            #[trigger] s[i] == '-'
        } else {
            is_lower_hex(s[i])
        }
}

/// The form of a UUID of version 4, which is random but for the digits that mark the version and
/// the variant.
pub open spec fn is_random_uuid(s: Seq<char>) -> bool {
    &&& is_hyphenated_uuid(s)
    &&& s[14] == '4'
    &&& s[19] == '8' || s[19] == '9' || s[19] == 'a' || s[19] == 'b'
}

/// `serde_yaml_ng::from_str` into a `Mapping`. The text alone decides whether it is read as a
/// mapping and with which keys; `yaml_keys` names that.
#[verifier::external_body]
pub(crate) fn yaml_mapping(text: &str) -> (res: Result<
    serde_yaml_ng::Mapping,
    serde_yaml_ng::Error,
>)
    ensures
        match res {
            Ok(mapping) => yaml_keys(text@) == Some(string_keys(mapping)),
            Err(_) => yaml_keys(text@) is None,
        },
{
    serde_yaml_ng::from_str::<serde_yaml_ng::Mapping>(text)
}

/// `serde_yaml_ng::Mapping::contains_key` with a string: whether that string is a key.
#[verifier::external_body]
pub(crate) fn has_key(mapping: &serde_yaml_ng::Mapping, key: &str) -> (res: bool)
    ensures
        res == string_keys(*mapping).contains(key@),
{
    mapping.contains_key(key)
}

/// `decode` of `base64::engine::general_purpose::STANDARD`. The text alone decides the
/// outcome; `base64_bytes` names it.
#[verifier::external_body]
pub(crate) fn base64_decode(text: &str) -> (res: Result<Vec<u8>, base64::DecodeError>)
    ensures
        match res {
            Ok(bytes) => base64_bytes(text@) == Some(bytes@),
            Err(_) => base64_bytes(text@) is None,
        },
{
    base64::engine::general_purpose::STANDARD.decode(text)
}

/// `String::from_utf8`: the characters that the bytes encode, or an error where they are not
/// UTF-8.
pub assume_specification[ String::from_utf8 ](vec: Vec<u8>) -> (res: Result<
    String,
    std::string::FromUtf8Error,
>)
    ensures
        match res {
            Ok(s) => valid_utf8(vec@) && s@ == decode_utf8(vec@),
            Err(_) => !valid_utf8(vec@),
        },
;

/// `uuid::Uuid::new_v4`, written out by its `to_string`: a random UUID in the hyphenated form,
/// with the digits that mark version 4 and its variant. It panics where the system gives no
/// random bytes.
#[verifier::external_body]
pub(crate) fn random_uuid() -> (res: String)
    ensures
        is_random_uuid(res@),
{
    uuid::Uuid::new_v4().to_string()
}

/// `chrono::Utc::now().timestamp()`: the seconds since 1970 by the system clock, of which
/// nothing is claimed. It panics where the clock stands before 1970.
#[verifier::external_body]
pub(crate) fn unix_seconds() -> (res: i64) {
    chrono::Utc::now().timestamp()
}

} // verus!
