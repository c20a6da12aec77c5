//! The calls into `base64`, `serde_json`, `rand` and `std::str` that the
//! library makes, each with the contract that the rest of the library relies
//! on. None of these contracts is proved here: each states what the called
//! function's source and documentation show.

use vstd::prelude::*;
use vstd::string::to_string_from_display_ensures;
use vstd::utf8::{encode_utf8, valid_utf8};

verus! {

/// `base64::DecodeError`, carried through opaquely.
#[verifier::external_type_specification]
#[verifier::external_body]
pub struct ExDecodeError(base64::DecodeError);

/// `serde_json::Error`, carried through opaquely.
#[verifier::external_type_specification]
#[verifier::external_body]
pub struct ExJsonError(serde_json::Error);

/// What `base64`'s engine with the URL-safe alphabet and no padding
/// (`GeneralPurpose::new(&alphabet::URL_SAFE, general_purpose::NO_PAD)`)
/// decodes from `input`: the bytes, or, where its `decode` returns an error,
/// the text that the error displays.
pub uninterp spec fn base64url_nopad_decoded(input: Seq<u8>) -> Result<Seq<u8>, Seq<char>>;

/// The strings that `serde_json::from_str::<Vec<String>>` reads from `text`,
/// or `None` where it returns an error.
pub uninterp spec fn json_string_array(text: Seq<char>) -> Option<Seq<Seq<char>>>;

/// The members of the JSON object that `serde_json::from_slice::<HashMap<String, Value>>`
/// reads from `payload`, each key with what `Value::as_i64` gives of its value,
/// or, where `from_slice` returns an error, the text that the error displays.
pub uninterp spec fn json_object_members(payload: Seq<u8>) -> Result<
    Map<Seq<char>, Option<i64>>,
    Seq<char>,
>;

/// `entries` lists exactly the members of `members`, each with its value.
pub open spec fn lists_members(
    entries: Seq<(String, Option<i64>)>,
    members: Map<Seq<char>, Option<i64>>,
) -> bool {
    &&& forall|i: int|
        0 <= i < entries.len() ==> members.contains_key((#[trigger] entries[i]).0@)
            && members[entries[i].0@] == entries[i].1
    &&& forall|k: Seq<char>|
        #[trigger] members.contains_key(k) ==> exists|i: int|
            0 <= i < entries.len() && (#[trigger] entries[i]).0@ == k
}

/// Calls `base64::Engine::decode` on the URL-safe, unpadded engine. The
/// contract claims that the call gives the named decoding: its bytes, or an
/// error whose `Display` text (by `to_string`) is the named text. The decoding
/// itself and the wording of the errors are not stated.
#[verifier::external_body]
pub(crate) fn decode_base64url(input: &[u8]) -> (decoded: Result<Vec<u8>, base64::DecodeError>)
    ensures
        match base64url_nopad_decoded(input@) {
            Ok(bytes) => decoded matches Ok(v) && v@ == bytes,
            Err(text) => decoded matches Err(e) && forall|shown: String|
                #[trigger] to_string_from_display_ensures::<base64::DecodeError>(&e, shown)
                    ==> shown@ == text,
        },
{
    let engine = base64::engine::GeneralPurpose::new(
        &base64::alphabet::URL_SAFE,
        base64::engine::general_purpose::NO_PAD,
    );
    base64::Engine::decode(&engine, input)
}

/// Calls `serde_json::from_str::<Vec<String>>`. The contract claims that it
/// succeeds exactly where the named reading exists and then yields its strings
/// in order; JSON itself is not stated.
#[verifier::external_body]
pub(crate) fn parse_string_array(text: &str) -> (parsed: Result<Vec<String>, serde_json::Error>)
    ensures
        parsed is Ok <==> json_string_array(text@) is Some,
        parsed matches Ok(strings) ==> json_string_array(text@) == Some(
            strings@.map_values(|s: String| s@),
        ),
{
    serde_json::from_str(text)
}

/// Calls `serde_json::from_slice::<HashMap<String, Value>>` and hands each
/// member out with `Value::as_i64` of its value. The contract claims that it
/// gives the named members, listed, or an error whose `Display` text (by
/// `to_string`) is the named text; the order of the list, which follows the
/// map's hashing, is left unsaid, and so are JSON and the wording of errors.
#[verifier::external_body]
pub(crate) fn parse_object_members(payload: &[u8]) -> (members: Result<
    Vec<(String, Option<i64>)>,
    serde_json::Error,
>)
    ensures
        match json_object_members(payload@) {
            Ok(object) => members matches Ok(entries) && lists_members(entries@, object),
            Err(text) => members matches Err(e) && forall|shown: String|
                #[trigger] to_string_from_display_ensures::<serde_json::Error>(&e, shown)
                    ==> shown@ == text,
        },
{
    match serde_json::from_slice::<std::collections::HashMap<String, serde_json::Value>>(payload) {
        Ok(object) => {
            let mut entries = Vec::new();
            for (key, value) in object {
                entries.push((key, value.as_i64()));
            }
            Ok(entries)
        },
        Err(error) => Err(error),
    }
}

/// Calls `rand::Rng::gen_range(0..len)` on the thread's generator. The
/// contract claims only that the index is in range; which one comes out is
/// chance. `gen_range` panics on an empty range, which `requires` rules out.
#[verifier::external_body]
pub(crate) fn random_index(len: usize) -> (index: usize)
    requires
        len > 0,
    ensures
        index < len,
{
    rand::Rng::gen_range(&mut rand::thread_rng(), 0..len)
}

/// Calls `std::str::from_utf8`. The contract claims, as its documentation
/// says, that it succeeds exactly on valid UTF-8 and then views the same bytes.
#[verifier::external_body]
pub(crate) fn utf8_text(bytes: &[u8]) -> (text: Option<&str>)
    ensures
        text is Some <==> valid_utf8(bytes@),
        text matches Some(t) ==> encode_utf8(t@) == bytes@,
{
    match std::str::from_utf8(bytes) {
        Ok(t) => Some(t),
        Err(_) => None,
    }
}

} // verus!
