//! Everything this library takes on trust from other crates and from `std`:
//! the types it carries through, the calls it makes, and the names it gives to
//! what those calls return. Nothing here is proved; the contracts say what the
//! called code is relied on to do.

use vstd::prelude::*;

verus! {

/// A moment in time with its offset from UTC, carried through unread.
#[verifier::external_type_specification]
#[verifier::external_body]
pub struct ExOffsetDateTime(time::OffsetDateTime);

/// A parsed TOML document.
#[verifier::external_type_specification]
#[verifier::external_body]
pub struct ExTomlValue(toml::Value);

/// Why a text is no TOML document.
#[verifier::external_type_specification]
#[verifier::external_body]
pub struct ExTomlError(toml::de::Error);

/// A JSON document.
#[verifier::external_type_specification]
#[verifier::external_body]
pub struct ExJsonValue(serde_json::Value);

/// Why JSON could not be written or read.
#[verifier::external_type_specification]
#[verifier::external_body]
pub struct ExJsonError(serde_json::Error);

/// The document that `toml::from_str` reads from `text`, or `None` where it
/// rejects the text.
pub uninterp spec fn toml_document(text: Seq<char>) -> Option<toml::Value>;

/// The JSON text that `serde_json::to_string` writes for a TOML document, or
/// `None` where it refuses.
pub uninterp spec fn json_text_of_toml(document: toml::Value) -> Option<Seq<char>>;

/// The document that `serde_json::from_str` reads from `text`, or `None` where
/// it rejects the text.
pub uninterp spec fn json_document(text: Seq<char>) -> Option<serde_json::Value>;

/// What `std::path::Path::strip_prefix` leaves of `path` once the leading
/// components `base` are taken off, or `None` where `base` does not lead `path`.
pub uninterp spec fn path_without_prefix(path: Seq<char>, base: Seq<char>) -> Option<Seq<char>>;

/// A character that may stand in the value of an HTTP header: a tab, or
/// anything from the space upwards but the delete character.
pub open spec fn is_header_value_char(c: char) -> bool {
    c == '\t' || (' ' <= c && c != '\x7f')
}

/// Every character of `text` may stand in the value of an HTTP header.
pub open spec fn is_header_value(text: Seq<char>) -> bool {
    forall|i: int| 0 <= i < text.len() ==> is_header_value_char(#[trigger] text[i])
}

/// Calls `toml::from_str` for a `toml::Value`: parses `text` as a whole TOML
/// document. The contract only names the outcome: the same text always gives
/// the same document or the same refusal.
#[verifier::external_body]
pub(crate) fn parse_toml(text: &str) -> (parsed: Result<toml::Value, toml::de::Error>)
    ensures
        match parsed {
            Ok(document) => toml_document(text@) == Some(document),
            Err(_) => toml_document(text@).is_none(),
        },
{
    toml::from_str::<toml::Value>(text)
}

/// Calls `serde_json::to_string` on a TOML document. The contract only names
/// the outcome: the same document always gives the same JSON text or the same
/// refusal.
#[verifier::external_body]
pub(crate) fn toml_to_json_text(document: &toml::Value) -> (written: Result<
    String,
    serde_json::Error,
>)
    ensures
        match written {
            Ok(text) => json_text_of_toml(*document) == Some(text@),
            Err(_) => json_text_of_toml(*document).is_none(),
        },
{
    serde_json::to_string(document)
}

/// Calls `serde_json::from_str` for a `serde_json::Value`. The contract only
/// names the outcome: the same text always gives the same document or the same
/// refusal.
#[verifier::external_body]
pub(crate) fn parse_json(text: &str) -> (parsed: Result<serde_json::Value, serde_json::Error>)
    ensures
        match parsed {
            Ok(document) => json_document(text@) == Some(document),
            Err(_) => json_document(text@).is_none(),
        },
{
    serde_json::from_str::<serde_json::Value>(text)
}

/// Calls `std::path::Path::strip_prefix` on the two paths and hands the rest
/// back as text. The contract only names the outcome: it depends on the two
/// paths alone.
#[verifier::external_body]
pub(crate) fn strip_path_prefix(path: &str, base: &str) -> (rest: Option<String>)
    ensures
        match rest {
            Some(relative) => path_without_prefix(path@, base@) == Some(relative@),
            None => path_without_prefix(path@, base@).is_none(),
        },
{
    match std::path::Path::new(path).strip_prefix(std::path::Path::new(base)) {
        Ok(relative) => Some(relative.display().to_string()),
        Err(_) => None,
    }
}

/// Calls `reqwest::header::HeaderValue::from_str` and reports whether it
/// accepted the text. It accepts exactly the texts whose bytes are all a tab or
/// at least 32 and not 127; the bytes of a character beyond ASCII are all above
/// 127, so the test can be stated on characters.
#[verifier::external_body]
pub(crate) fn header_value_accepts(text: &str) -> (accepted: bool)
    ensures
        accepted == is_header_value(text@),
{
    reqwest::header::HeaderValue::from_str(text).is_ok()
}

} // verus!
