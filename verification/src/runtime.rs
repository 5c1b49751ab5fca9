use vstd::prelude::*;
use vstd::string::StringSliceAdditionalSpecFns;
use vstd::utf8::{decode_utf8, valid_utf8};

use crate::constants::{MAX_JSON_SIZE, NOTE_ALIGN};
use crate::error::{ModuleInfoError, ModuleInfoResult};
use crate::fields::{field_at, field_count, field_key, ModuleInfoField};
use crate::json::{required_key, required_keys};
use crate::text::{decimal, find_pair, pair_lookup, pairs_view, push_decimal, str_eq};

verus! {

/// The error every runtime accessor reports when the note cannot be read
/// on this build.
pub open spec fn not_available_message() -> Seq<char> {
    "Module info is only available on Linux platforms with the embed-module-info feature enabled."@
}

/// How far the runtime reader scans for the terminating NUL.
pub open spec fn max_note_value_len() -> nat {
    (MAX_JSON_SIZE + NOTE_ALIGN) as nat
}

/// Position of the first `"` in `s` at or after `from` (the length when
/// there is none).
pub open spec fn find_quote(s: Seq<char>, from: int) -> int
    decreases s.len() - from,
{
    if from >= s.len() || from < 0 {
        s.len() as int
    } else if s[from] == '"' {
        from
    } else {
        find_quote(s, from + 1)
    }
}

/// What the runtime reader makes of the bytes at a field symbol, scanned up
/// to (not including) the terminating NUL: the text between the first two
/// `"`, or the failure.
pub enum NoteValue {
    Value(Seq<char>),
    NoTerminator,
    NotUtf8,
    NoOpeningQuote,
    NoClosingQuote,
}

pub open spec fn note_value(bytes: Seq<u8>) -> NoteValue {
    if bytes.len() >= max_note_value_len() {
        NoteValue::NoTerminator
    } else if !valid_utf8(bytes) {
        NoteValue::NotUtf8
    } else {
        let s = decode_utf8(bytes);
        let open = find_quote(s, 0);
        if open >= s.len() {
            NoteValue::NoOpeningQuote
        } else {
            let close = find_quote(s, open + 1);
            if close >= s.len() {
                NoteValue::NoClosingQuote
            } else {
                NoteValue::Value(s.subrange(open + 1, close))
            }
        }
    }
}

/// `std::str::from_utf8`: succeeds exactly on valid UTF-8, and the string
/// it returns has exactly the given bytes.
#[verifier::external_body]
fn str_from_utf8(v: &[u8]) -> (r: Result<&str, std::str::Utf8Error>)
    ensures
        r is Ok <==> valid_utf8(v@),
        r matches Ok(s) ==> s.spec_bytes() == v@,
{
    std::str::from_utf8(v)
}

/// `find_quote` stays within `from..=s.len()`.
pub proof fn lemma_find_quote_bounds(s: Seq<char>, from: int)
    requires
        0 <= from,
    ensures
        from <= find_quote(s, from) || find_quote(s, from) == s.len(),
        find_quote(s, from) <= s.len(),
        find_quote(s, from) < s.len() ==> s[find_quote(s, from)] == '"',
    decreases s.len() - from,
{
    if from < s.len() && s[from] != '"' {
        lemma_find_quote_bounds(s, from + 1);
    }
}

fn find_quote_exec(s: &str, from: usize) -> (r: usize)
    requires
        from <= s@.len(),
    ensures
        r == find_quote(s@, from as int),
        from <= r <= s@.len(),
{
    proof {
        lemma_find_quote_bounds(s@, from as int);
    }
    let n = s.unicode_len();
    let mut i = from;
    while i < n
        invariant
            n == s@.len(),
            from <= i <= n,
            find_quote(s@, from as int) == find_quote(s@, i as int),
        decreases n - i,
    {
        if s.get_char(i) == '"' {
            return i;
        }
        i = i + 1;
    }
    i
}

/// Extracts a field value from the bytes at its symbol: `bytes` are the
/// bytes before the terminating NUL, as far as the reader scanned (at most
/// `MAX_JSON_SIZE + NOTE_ALIGN`).
pub fn extract_module_value(bytes: &[u8]) -> (r: ModuleInfoResult<String>)
    ensures
        match note_value(bytes@) {
            NoteValue::Value(v) => r matches Ok(s) && s@ == v,
            NoteValue::NoTerminator => r matches Err(ModuleInfoError::MalformedJson(m)) && m@
                == "No NUL terminator found within "@ + decimal(max_note_value_len())
                + " bytes; .note.package section is missing, stripped, or corrupted"@,
            NoteValue::NotUtf8 => r matches Err(ModuleInfoError::Utf8Error(_)),
            NoteValue::NoOpeningQuote => r matches Err(ModuleInfoError::MalformedJson(m)) && m@
                == "Missing opening quote"@,
            NoteValue::NoClosingQuote => r matches Err(ModuleInfoError::MalformedJson(m)) && m@
                == "Missing closing quote"@,
        },
{
    let cap = MAX_JSON_SIZE + NOTE_ALIGN;
    if bytes.len() >= cap {
        let mut m = String::from_str("No NUL terminator found within ");
        push_decimal(&mut m, cap);
        m.append(" bytes; .note.package section is missing, stripped, or corrupted");
        return Err(ModuleInfoError::MalformedJson(m));
    }
    let s = match str_from_utf8(bytes) {
        Ok(s) => s,
        Err(e) => {
            return Err(ModuleInfoError::from(e));
        },
    };
    proof {
        vstd::utf8::encode_utf8_decode_utf8(s@);
    }
    let n = s.unicode_len();
    let open = find_quote_exec(s, 0);
    if open >= n {
        return Err(ModuleInfoError::MalformedJson(String::from_str("Missing opening quote")));
    }
    let close = find_quote_exec(s, open + 1);
    if close >= n {
        return Err(ModuleInfoError::MalformedJson(String::from_str("Missing closing quote")));
    }
    Ok(String::from_str(s.substring_char(open + 1, close)))
}

} // verus!

verus! {

/// Whether required key `k` has no reading, or an empty one.
pub open spec fn is_missing(rs: Seq<(Seq<char>, Seq<char>)>, k: Seq<char>) -> bool {
    match pair_lookup(rs, k, 0) {
        Some(v) => v.len() == 0,
        None => true,
    }
}

/// The required keys among the first `n` that are missing, in order.
pub open spec fn missing_required(rs: Seq<(Seq<char>, Seq<char>)>, n: nat) -> Seq<Seq<char>>
    decreases n,
{
    if n == 0 {
        Seq::empty()
    } else {
        let prev = missing_required(rs, (n - 1) as nat);
        let k = required_keys()[n - 1];
        if is_missing(rs, k) {
            prev.push(k)
        } else {
            prev
        }
    }
}

/// `ks` joined with `", "`.
pub open spec fn join_keys(ks: Seq<Seq<char>>) -> Seq<char>
    decreases ks.len(),
{
    if ks.len() == 0 {
        Seq::empty()
    } else if ks.len() == 1 {
        ks[0]
    } else {
        join_keys(ks.drop_last()) + ", "@ + ks.last()
    }
}

pub open spec fn missing_fields_message(ks: Seq<Seq<char>>) -> Seq<char> {
    "Module info appears to be missing or corrupted: required field(s) missing or empty: "@
        + join_keys(ks)
}

/// The report line for the `i`-th field.
pub open spec fn report_line(rs: Seq<(Seq<char>, Seq<char>)>, i: int) -> Seq<char> {
    let k = field_key(field_at(i));
    match pair_lookup(rs, k, 0) {
        Some(v) => k + ": "@ + v,
        None => k + ": <unavailable>"@,
    }
}

/// The report that prints a running binary's metadata, from its field
/// readings (key and value of each field that could be read; `None` when
/// no `.note.package` symbols are linked, as off Linux or without the
/// embedding). Without readings it fails with `NotAvailable`. Otherwise it
/// lays out one `key: value` line per field in field order,
/// `key: <unavailable>` where a field could not be read, and fails with
/// `NotAvailable`, naming them, when required fields are missing or empty.
pub fn print_module_info(readings: Option<&Vec<(String, String)>>) -> (r: ModuleInfoResult<Vec<String>>)
    ensures
        match readings {
            None => r matches Err(ModuleInfoError::NotAvailable(m)) && m@ == not_available_message(),
            Some(rv) => {
                let rs = pairs_view(rv@);
                let missing = missing_required(rs, 7);
                if missing.len() > 0 {
                    r matches Err(ModuleInfoError::NotAvailable(m)) && m@ == missing_fields_message(missing)
                } else {
                    r matches Ok(lines) && lines@.len() == field_count() && forall|i: int|
                        0 <= i < lines@.len() ==> #[trigger] lines@[i]@ == report_line(rs, i)
                }
            },
        },
{
    let readings = match readings {
        Some(r) => r,
        None => {
            return Err(
                ModuleInfoError::NotAvailable(
                    String::from_str(
                        "Module info is only available on Linux platforms with the embed-module-info feature enabled.",
                    ),
                ),
            );
        },
    };
    let ghost rs = pairs_view(readings@);
    let mut joined = String::new();
    let mut count: usize = 0;
    let mut i: usize = 0;
    while i < 7
        invariant
            i <= 7,
            rs == pairs_view(readings@),
            count == missing_required(rs, i as nat).len(),
            joined@ == join_keys(missing_required(rs, i as nat)),
            count <= i,
        decreases 7 - i,
    {
        let key = required_key(i);
        let missing = match find_pair(readings, key) {
            Some(v) => v.unicode_len() == 0,
            None => true,
        };
        proof {
            reveal_with_fuel(missing_required, 2);
        }
        if missing {
            let ghost prev = missing_required(rs, i as nat);
            if count > 0 {
                joined.append(", ");
            }
            joined.append(key);
            proof {
                let next = prev.push(key@);
                assert(next.drop_last() =~= prev);
                assert(joined@ == join_keys(next));
            }
            count = count + 1;
        }
        i = i + 1;
    }
    if count > 0 {
        let mut m = String::from_str(
            "Module info appears to be missing or corrupted: required field(s) missing or empty: ",
        );
        m.append(joined.as_str());
        return Err(ModuleInfoError::NotAvailable(m));
    }
    let mut lines: Vec<String> = Vec::new();
    let n = ModuleInfoField::count();
    let mut j: usize = 0;
    while j < n
        invariant
            n == field_count(),
            j <= n,
            rs == pairs_view(readings@),
            lines@.len() == j,
            forall|k: int| 0 <= k < j ==> #[trigger] lines@[k]@ == report_line(rs, k),
        decreases n - j,
    {
        let key = ModuleInfoField::at(j).to_key();
        let mut l = String::from_str(key);
        match find_pair(readings, key) {
            Some(v) => {
                l.append(": ");
                l.append(v.as_str());
            },
            None => {
                l.append(": <unavailable>");
            },
        }
        lines.push(l);
        j = j + 1;
    }
    Ok(lines)
}

} // verus!
