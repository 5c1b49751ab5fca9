use vstd::prelude::*;
use vstd::string::StringSliceAdditionalSpecFns;

use crate::constants::MAX_JSON_SIZE;
use crate::error::{ModuleInfoError, ModuleInfoResult};
use crate::fields::{field_at, field_count, field_key, ModuleInfoField};
use crate::text::{decimal, push_decimal};
use crate::version::{module_version_error, split_version, validate_module_version, version_core};

verus! {

/// The value of a top-level JSON member, as the metadata checks read it:
/// a string, or any other value in its JSON rendering.
#[derive(Debug, Clone)]
pub enum JsonMember {
    Str(String),
    Other(String),
}

/// A top-level member of a JSON object.
#[derive(Debug, Clone)]
pub struct JsonEntry {
    pub key: String,
    pub value: JsonMember,
}

/// A parsed JSON document, as far as the metadata checks read it: an
/// object with its members, or some other JSON value.
#[derive(Debug, Clone)]
pub enum JsonDocument {
    Object(Vec<JsonEntry>),
    NotObject,
}

pub enum JsonMemberView {
    Str(Seq<char>),
    Other(Seq<char>),
}

pub enum JsonDocumentView {
    Object(Seq<(Seq<char>, JsonMemberView)>),
    NotObject,
}

impl View for JsonMember {
    type V = JsonMemberView;

    open spec fn view(&self) -> JsonMemberView {
        match self {
            JsonMember::Str(s) => JsonMemberView::Str(s@),
            JsonMember::Other(s) => JsonMemberView::Other(s@),
        }
    }
}

impl View for JsonDocument {
    type V = JsonDocumentView;

    open spec fn view(&self) -> JsonDocumentView {
        match self {
            JsonDocument::Object(es) => JsonDocumentView::Object(
                es@.map_values(|e: JsonEntry| (e.key@, e.value@)),
            ),
            JsonDocument::NotObject => JsonDocumentView::NotObject,
        }
    }
}

/// What `serde_json::from_str::<serde_json::Value>` makes of `text`: the
/// document's top-level shape, or the parser's error message.
pub uninterp spec fn json_document(text: Seq<char>) -> Result<JsonDocumentView, Seq<char>>;

/// Parses `text` with `serde_json::from_str::<serde_json::Value>` and keeps
/// the top-level object members (strings as text, other values rendered
/// by `serde_json`), or the parser's error message.
#[verifier::external_body]
fn parse_json_document(text: &str) -> (r: Result<JsonDocument, String>)
    ensures
        match (r, json_document(text@)) {
            (Ok(d), Ok(v)) => d@ == v,
            (Err(e), Err(m)) => e@ == m,
            _ => false,
        },
{
    let value: serde_json::Value = serde_json::from_str(text).map_err(|e| e.to_string())?;
    let map = match value {
        serde_json::Value::Object(m) => m,
        _ => return Ok(JsonDocument::NotObject),
    };
    let mut entries = Vec::new();
    for (key, v) in map {
        let value = match v {
            serde_json::Value::String(s) => JsonMember::Str(s),
            other => JsonMember::Other(other.to_string()),
        };
        entries.push(JsonEntry { key, value });
    }
    Ok(JsonDocument::Object(entries))
}

/// The member named `key` among `es[i..]`, if any (the first one).
pub open spec fn lookup_from(es: Seq<(Seq<char>, JsonMemberView)>, key: Seq<char>, i: int) -> Option<JsonMemberView>
    decreases es.len() - i,
{
    if i >= es.len() || i < 0 {
        None
    } else if es[i].0 == key {
        Some(es[i].1)
    } else {
        lookup_from(es, key, i + 1)
    }
}

/// The non-empty string value of member `key`, if it has one.
pub open spec fn nonempty_str(es: Seq<(Seq<char>, JsonMemberView)>, key: Seq<char>) -> Option<Seq<char>> {
    match lookup_from(es, key, 0) {
        Some(JsonMemberView::Str(s)) => if s.len() > 0 {
            Some(s)
        } else {
            None
        },
        _ => None,
    }
}

/// The seven keys that must be present and non-empty, in check order.
pub open spec fn required_keys() -> Seq<Seq<char>> {
    seq!["binary"@, "version"@, "moduleVersion"@, "name"@, "maintainer"@, "os"@, "osVersion"@]
}

/// Number of required keys.
pub const REQUIRED_KEY_COUNT: usize = 7;

/// The `i`-th required key.
pub fn required_key(i: usize) -> (r: &'static str)
    requires
        i < 7,
    ensures
        r@ == required_keys()[i as int],
{
    if i == 0 {
        "binary"
    } else if i == 1 {
        "version"
    } else if i == 2 {
        "moduleVersion"
    } else if i == 3 {
        "name"
    } else if i == 4 {
        "maintainer"
    } else if i == 5 {
        "os"
    } else {
        "osVersion"
    }
}

pub open spec fn missing_field_message(key: Seq<char>) -> Seq<char> {
    "Required field '"@ + key + "' is missing or empty"@
}

/// The first required key among `required_keys()[i..]` without a non-empty
/// string value.
pub open spec fn first_missing(es: Seq<(Seq<char>, JsonMemberView)>, i: nat) -> Option<Seq<char>>
    decreases 7 - i,
{
    if i >= 7 {
        None
    } else if nonempty_str(es, required_keys()[i as int]) is None {
        Some(required_keys()[i as int])
    } else {
        first_missing(es, i + 1)
    }
}

/// The part of `moduleVersion` that must be four `u16` parts: all of it,
/// or only its numeric core (before any `-` or `+`) when a pre-release /
/// build suffix is allowed.
pub open spec fn checked_module_version(mv: Seq<char>, allow_prerelease_suffix: bool) -> Seq<char> {
    if allow_prerelease_suffix {
        version_core(mv)
    } else {
        mv
    }
}

/// Why a parsed document is not acceptable metadata, if it is not.
pub open spec fn document_error(d: JsonDocumentView, allow_prerelease_suffix: bool) -> Option<Seq<char>> {
    match d {
        JsonDocumentView::NotObject => Some("Metadata must be a JSON object"@),
        JsonDocumentView::Object(es) => match first_missing(es, 0) {
            Some(k) => Some(missing_field_message(k)),
            None => module_version_error(
                checked_module_version(nonempty_str(es, "moduleVersion"@)->0, allow_prerelease_suffix),
            ),
        },
    }
}

fn find_member<'a>(es: &'a Vec<JsonEntry>, key: &str) -> (r: Option<&'a JsonMember>)
    ensures
        match (r, lookup_from(es@.map_values(|e: JsonEntry| (e.key@, e.value@)), key@, 0)) {
            (Some(m), Some(v)) => m@ == v,
            (None, None) => true,
            _ => false,
        },
{
    let ghost view = es@.map_values(|e: JsonEntry| (e.key@, e.value@));
    let mut i: usize = 0;
    while i < es.len()
        invariant
            i <= es@.len(),
            view == es@.map_values(|e: JsonEntry| (e.key@, e.value@)),
            lookup_from(view, key@, 0) == lookup_from(view, key@, i as int),
        decreases es@.len() - i,
    {
        let e = &es[i];
        if crate::text::str_eq(e.key.as_str(), key) {
            return Some(&e.value);
        }
        i = i + 1;
    }
    None
}

} // verus!

verus! {

/// Checks a parsed metadata document: it must be an object, the seven
/// required keys must hold non-empty strings, and `moduleVersion` must be
/// four `u16` parts (only its numeric core, before any `-` or `+`, when
/// `allow_prerelease_suffix` is set).
pub fn check_metadata_document(doc: &JsonDocument, allow_prerelease_suffix: bool) -> (r: ModuleInfoResult<()>)
    ensures
        match document_error(doc@, allow_prerelease_suffix) {
            None => r is Ok,
            Some(msg) => r matches Err(ModuleInfoError::MalformedJson(m)) && m@ == msg,
        },
{
    let es = match doc {
        JsonDocument::NotObject => {
            return Err(ModuleInfoError::MalformedJson(String::from_str("Metadata must be a JSON object")));
        },
        JsonDocument::Object(es) => es,
    };
    let ghost view = es@.map_values(|e: JsonEntry| (e.key@, e.value@));
    let mut i: usize = 0;
    while i < REQUIRED_KEY_COUNT
        invariant
            i <= 7,
            doc@ == JsonDocumentView::Object(view),
            view == es@.map_values(|e: JsonEntry| (e.key@, e.value@)),
            first_missing(view, 0) == first_missing(view, i as nat),
            forall|j: int| 0 <= j < i ==> nonempty_str(view, #[trigger] required_keys()[j]) is Some,
        decreases 7 - i,
    {
        let key = required_key(i);
        let present = match find_member(es, key) {
            Some(JsonMember::Str(s)) => s.as_str().unicode_len() > 0,
            _ => false,
        };
        if !present {
            let mut m = String::from_str("Required field '");
            m.append(key);
            m.append("' is missing or empty");
            return Err(ModuleInfoError::MalformedJson(m));
        }
        i = i + 1;
    }
    let mv = match find_member(es, "moduleVersion") {
        Some(JsonMember::Str(s)) => s,
        _ => {
            proof {
                assert(nonempty_str(view, required_keys()[2]) is Some);
                assert(required_keys()[2] == "moduleVersion"@);
                assert(false);
            }
            return Err(ModuleInfoError::MalformedJson(String::from_str("moduleVersion must be a non-empty string")));
        },
    };
    proof {
        assert(nonempty_str(view, required_keys()[2]) is Some);
        assert(required_keys()[2] == "moduleVersion"@);
        assert(first_missing(view, 7) is None);
    }
    if allow_prerelease_suffix {
        let (core, _suffix) = split_version(mv.as_str());
        validate_module_version(core)
    } else {
        validate_module_version(mv.as_str())
    }
}

pub open spec fn size_message(len: nat) -> Seq<char> {
    "Metadata size "@ + decimal(len) + " exceeds limit of "@ + decimal(MAX_JSON_SIZE as nat) + " bytes"@
}

/// A validation failure: too large, or malformed, with its message.
pub enum JsonRejection {
    TooLarge(Seq<char>),
    Malformed(Seq<char>),
}

/// Why the metadata text `text` of `byte_len` bytes is rejected, if it is.
pub open spec fn json_rejection(text: Seq<char>, byte_len: nat, allow_prerelease_suffix: bool) -> Option<JsonRejection> {
    if byte_len > MAX_JSON_SIZE {
        Some(JsonRejection::TooLarge(size_message(byte_len)))
    } else {
        match json_document(text) {
            Err(e) => Some(JsonRejection::Malformed(e)),
            Ok(d) => match document_error(d, allow_prerelease_suffix) {
                None => None,
                Some(msg) => Some(JsonRejection::Malformed(msg)),
            },
        }
    }
}

/// `r` reports exactly the rejection `rej` (or success when there is none).
pub open spec fn reports<T>(r: ModuleInfoResult<T>, rej: Option<JsonRejection>) -> bool {
    match rej {
        None => r is Ok,
        Some(JsonRejection::TooLarge(msg)) => r matches Err(ModuleInfoError::MetadataTooLarge(m))
            && m@ == msg,
        Some(JsonRejection::Malformed(msg)) => r matches Err(ModuleInfoError::MalformedJson(m))
            && m@ == msg,
    }
}

/// Validates the serialized metadata: at most `MAX_JSON_SIZE` bytes, then
/// the checks of `check_metadata_document` on what `serde_json` parses,
/// with the whole `moduleVersion` checked.
pub fn validate_embedded_json(desc_json: &str) -> (r: ModuleInfoResult<()>)
    requires
        desc_json.spec_bytes().len() <= usize::MAX,
    ensures
        reports(r, json_rejection(desc_json@, desc_json.spec_bytes().len(), false)),
{
    validate_metadata_record(desc_json, false)
}

/// Validates the serialized metadata as `validate_embedded_json` does,
/// checking only the numeric core of `moduleVersion` when
/// `allow_prerelease_suffix` is set.
pub fn validate_metadata_record(desc_json: &str, allow_prerelease_suffix: bool) -> (r: ModuleInfoResult<()>)
    requires
        desc_json.spec_bytes().len() <= usize::MAX,
    ensures
        reports(r, json_rejection(desc_json@, desc_json.spec_bytes().len(), allow_prerelease_suffix)),
{
    let len = desc_json.len();
    if len > MAX_JSON_SIZE {
        let mut m = String::from_str("Metadata size ");
        push_decimal(&mut m, len);
        m.append(" exceeds limit of ");
        push_decimal(&mut m, MAX_JSON_SIZE);
        m.append(" bytes");
        return Err(ModuleInfoError::MetadataTooLarge(m));
    }
    match parse_json_document(desc_json) {
        Err(e) => Err(ModuleInfoError::MalformedJson(e)),
        Ok(doc) => check_metadata_document(&doc, allow_prerelease_suffix),
    }
}

} // verus!

verus! {

/// `key: value` for the `i`-th field, if the document has that member.
pub open spec fn note_line(es: Seq<(Seq<char>, JsonMemberView)>, i: int) -> Option<Seq<char>> {
    let k = field_key(field_at(i));
    match lookup_from(es, k, 0) {
        Some(JsonMemberView::Str(s)) => Some(k + ": "@ + s),
        Some(JsonMemberView::Other(t)) => Some(k + ": "@ + t),
        None => None,
    }
}

/// The lines for the first `n` fields, skipping absent members.
pub open spec fn note_lines_upto(es: Seq<(Seq<char>, JsonMemberView)>, n: nat) -> Seq<Seq<char>>
    decreases n,
{
    if n == 0 {
        Seq::empty()
    } else {
        let prev = note_lines_upto(es, (n - 1) as nat);
        match note_line(es, n - 1) {
            Some(l) => prev.push(l),
            None => prev,
        }
    }
}

/// The `key: value` lines reported for a metadata record, in field order
/// (none when the text is not a JSON object).
pub open spec fn metadata_notes(text: Seq<char>) -> Seq<Seq<char>> {
    match json_document(text) {
        Ok(JsonDocumentView::Object(es)) => note_lines_upto(es, field_count()),
        _ => Seq::empty(),
    }
}

/// The `key: value` lines of a parsed document (none when it is not an
/// object).
pub open spec fn document_notes(d: JsonDocumentView) -> Seq<Seq<char>> {
    match d {
        JsonDocumentView::Object(es) => note_lines_upto(es, field_count()),
        JsonDocumentView::NotObject => Seq::empty(),
    }
}

/// The `key: value` lines for the fields present in a parsed metadata
/// document, in field order; none when it is not an object.
pub fn document_note_lines(doc: &JsonDocument) -> (r: Vec<String>)
    ensures
        r@.len() == document_notes(doc@).len(),
        forall|i: int| 0 <= i < r@.len() ==> #[trigger] r@[i]@ == document_notes(doc@)[i],
{
    let mut lines: Vec<String> = Vec::new();
    let es = match doc {
        JsonDocument::Object(es) => es,
        JsonDocument::NotObject => {
            return lines;
        },
    };
    let ghost view = es@.map_values(|e: JsonEntry| (e.key@, e.value@));
    let n = ModuleInfoField::count();
    let mut i: usize = 0;
    while i < n
        invariant
            n == field_count(),
            i <= n,
            doc@ == JsonDocumentView::Object(view),
            view == es@.map_values(|e: JsonEntry| (e.key@, e.value@)),
            lines@.len() == note_lines_upto(view, i as nat).len(),
            forall|j: int| 0 <= j < lines@.len() ==> #[trigger] lines@[j]@ == note_lines_upto(view, i as nat)[j],
        decreases n - i,
    {
        let key = ModuleInfoField::at(i).to_key();
        match find_member(es, key) {
            Some(JsonMember::Str(s)) => {
                let mut l = String::from_str(key);
                l.append(": ");
                l.append(s.as_str());
                lines.push(l);
            },
            Some(JsonMember::Other(t)) => {
                let mut l = String::from_str(key);
                l.append(": ");
                l.append(t.as_str());
                lines.push(l);
            },
            None => {},
        }
        i = i + 1;
    }
    lines
}

/// The `key: value` lines for the fields present in a metadata record, in
/// field order.
pub fn metadata_note_lines(desc_json: &str) -> (r: Vec<String>)
    ensures
        r@.len() == metadata_notes(desc_json@).len(),
        forall|i: int| 0 <= i < r@.len() ==> #[trigger] r@[i]@ == metadata_notes(desc_json@)[i],
{
    match parse_json_document(desc_json) {
        Ok(doc) => document_note_lines(&doc),
        Err(_) => Vec::new(),
    }
}

} // verus!

verus! {

/// Every required key is the key of a field, so every required value is
/// carried by the record.
pub proof fn lemma_required_keys_are_field_keys(i: int)
    requires
        0 <= i < 7,
    ensures
        exists|f: ModuleInfoField| field_key(f) == #[trigger] required_keys()[i],
{
    let f = if i == 0 {
        ModuleInfoField::Binary
    } else if i == 1 {
        ModuleInfoField::Version
    } else if i == 2 {
        ModuleInfoField::ModuleVersion
    } else if i == 3 {
        ModuleInfoField::Name
    } else if i == 4 {
        ModuleInfoField::Maintainer
    } else if i == 5 {
        ModuleInfoField::Os
    } else {
        ModuleInfoField::OsVersion
    };
    assert(field_key(f) == required_keys()[i]);
}

} // verus!
