use vstd::prelude::*;
use vstd::utf8::{decode_utf8, encode_utf8, encode_utf8_decode_utf8, encode_utf8_valid_utf8, is_ascii_chars};

use crate::constants::MAX_JSON_SIZE;
use crate::fields::{field_at, field_count, field_index, field_key, field_symbol, ModuleInfoField};
use crate::linker::{lemma_render_concat, lemma_render_push, payload, Piece};
use crate::metadata::{
    entries_json, entries_pieces, entry_json, entry_json_with_sep, entry_pieces, entry_value,
    head_pieces, key_json, note_body_pieces, note_json, padding_len, value_json, zeros, PackageMetadata,
};
use crate::runtime::{find_quote, lemma_find_quote_bounds, max_note_value_len, note_value, NoteValue};
use crate::sanitize::{is_kept_char, lemma_sanitized_all_kept, sanitized};
use crate::text::{ascii_bytes, lemma_ascii_bytes_concat, lemma_ascii_encode};

verus! {

/// Position of the first NUL byte at or after `from` (the length when
/// there is none).
pub open spec fn first_nul(b: Seq<u8>, from: int) -> int
    decreases b.len() - from,
{
    if from >= b.len() || from < 0 {
        b.len() as int
    } else if b[from] == 0 {
        from
    } else {
        first_nul(b, from + 1)
    }
}

/// The bytes a reader starting at offset `from` scans before it meets a
/// NUL.
pub open spec fn scanned_at(b: Seq<u8>, from: int) -> Seq<u8> {
    b.subrange(from, first_nul(b, from))
}

/// Offset, within the bytes the linker-script body places in the note, of
/// the symbol that the body assigns before the value of the `i`-th field.
pub open spec fn symbol_offset(md: PackageMetadata, i: int) -> int {
    payload(head_pieces() + entries_pieces(md, i as nat) + entry_pieces(md, i).drop_last()).len() as int
}

/// A character the JSON record is made of: newline or printable ASCII.
pub open spec fn json_char(c: char) -> bool {
    c == '\n' || (' ' <= c <= '~')
}

pub open spec fn all_json_chars(s: Seq<char>) -> bool {
    forall|j: int| 0 <= j < s.len() ==> #[trigger] json_char(s[j])
}

proof fn lemma_json_chars_concat(a: Seq<char>, b: Seq<char>)
    requires
        all_json_chars(a),
        all_json_chars(b),
    ensures
        all_json_chars(a + b),
{
    assert forall|j: int| 0 <= j < (a + b).len() implies #[trigger] json_char((a + b)[j]) by {
        if j < a.len() {
            assert((a + b)[j] == a[j]);
        } else {
            assert((a + b)[j] == b[j - a.len()]);
        }
    }
}

proof fn lemma_entry_json_chars(md: PackageMetadata, i: int)
    ensures
        all_json_chars(entry_json_with_sep(md, i)),
{
    let f = field_at(i);
    crate::fields::lemma_key_letters(f);
    let v = entry_value(md, i);
    lemma_sanitized_all_kept(md.value_of(f));
    assert(all_json_chars(v)) by {
        assert forall|j: int| 0 <= j < v.len() implies #[trigger] json_char(v[j]) by {
            assert(is_kept_char(v[j]));
        }
    }
    assert(all_json_chars(field_key(f)));
    lemma_json_chars_concat(seq!['"'], field_key(f));
    lemma_json_chars_concat(seq!['"'] + field_key(f), seq!['"', ':']);
    lemma_json_chars_concat(seq!['"'], v);
    lemma_json_chars_concat(seq!['"'] + v, seq!['"']);
    lemma_json_chars_concat(key_json(field_key(f)), value_json(v));
    if i != 0 {
        lemma_json_chars_concat(seq![',', '\n'], entry_json(md, i));
    }
}

proof fn lemma_entries_json_chars(md: PackageMetadata, n: nat)
    ensures
        all_json_chars(entries_json(md, n)),
    decreases n,
{
    if n > 0 {
        lemma_entries_json_chars(md, (n - 1) as nat);
        crate::metadata::lemma_entries_json_step(md, (n - 1) as nat);
        lemma_entry_json_chars(md, n - 1);
        lemma_json_chars_concat(entries_json(md, (n - 1) as nat), entry_json_with_sep(md, n - 1));
    }
}

/// The entries after the first `m` of `n`: `entries_json(md, n)` is
/// `entries_json(md, m)` followed by them.
proof fn lemma_entries_prefix(md: PackageMetadata, m: nat, n: nat)
    requires
        m <= n,
    ensures
        entries_json(md, m).len() <= entries_json(md, n).len(),
        entries_json(md, n).take(entries_json(md, m).len() as int) == entries_json(md, m),
    decreases n - m,
{
    if m < n {
        lemma_entries_prefix(md, m, (n - 1) as nat);
        crate::metadata::lemma_entries_json_step(md, (n - 1) as nat);
        let a = entries_json(md, (n - 1) as nat);
        let e = entry_json_with_sep(md, n - 1);
        assert((a + e).take(entries_json(md, m).len() as int) =~= a.take(entries_json(md, m).len() as int));
    } else {
        assert(entries_json(md, n).take(entries_json(md, n).len() as int) =~= entries_json(md, n));
    }
}

proof fn lemma_first_nul(b: Seq<u8>, from: int, k: int)
    requires
        0 <= from <= k < b.len(),
        b[k] == 0,
        forall|j: int| from <= j < k ==> #[trigger] b[j] != 0,
    ensures
        first_nul(b, from) == k,
    decreases k - from,
{
    if from < k {
        lemma_first_nul(b, from + 1, k);
    }
}

proof fn lemma_find_quote_skip(s: Seq<char>, from: int, k: int)
    requires
        0 <= from <= k < s.len(),
        s[k] == '"',
        forall|j: int| from <= j < k ==> #[trigger] s[j] != '"',
    ensures
        find_quote(s, from) == k,
    decreases k - from,
{
    if from < k {
        lemma_find_quote_skip(s, from + 1, k);
    }
}

/// The separator written before the `i`-th entry.
pub open spec fn entry_sep(i: int) -> Seq<char> {
    if i == 0 {
        Seq::empty()
    } else {
        seq![',', '\n']
    }
}

/// The record text before the value of the `i`-th field.
pub open spec fn text_before_value(md: PackageMetadata, i: int) -> Seq<char> {
    seq!['{', '\n'] + entries_json(md, i as nat) + entry_sep(i) + key_json(field_key(field_at(i)))
}

proof fn lemma_symbol_offset(md: PackageMetadata, i: int)
    requires
        0 <= i < field_count(),
    ensures
        symbol_offset(md, i) == text_before_value(md, i).len(),
{
    let v = entry_value(md, i);
    let sep = entry_sep(i);
    let key = key_json(field_key(field_at(i)));
    let ep = entry_pieces(md, i);
    assert(payload(head_pieces()) == ascii_bytes(seq!['{', '\n'])) by {
        crate::metadata::lemma_payload2(head_pieces()[0], head_pieces()[1]);
        assert(head_pieces() =~= seq![head_pieces()[0], head_pieces()[1]]);
    }
    crate::metadata::lemma_entries_payload(md, i as nat);
    assert(payload(ep.drop_last()).len() == (sep + key).len()) by {
        crate::metadata::lemma_entry_payload(md, i);
        lemma_render_push(ep.drop_last(), ep.last());
        assert(ep.drop_last().push(ep.last()) =~= ep);
        assert(entry_json_with_sep(md, i) =~= (sep + key) + value_json(v));
        assert(ep.last() == Piece::Bytes(ascii_bytes(value_json(v))));
        assert(payload(ep) == payload(ep.drop_last()) + ascii_bytes(value_json(v)));
        assert(payload(ep).len() == entry_json_with_sep(md, i).len());
    }
    lemma_render_concat(head_pieces(), entries_pieces(md, i as nat));
    lemma_render_concat(head_pieces() + entries_pieces(md, i as nat), ep.drop_last());
}

proof fn lemma_value_in_record(md: PackageMetadata, i: int)
    requires
        0 <= i < field_count(),
    ensures
        ({
            let off = text_before_value(md, i).len() as int;
            let vj = value_json(entry_value(md, i));
            &&& off + vj.len() <= note_json(md).len()
            &&& note_json(md).subrange(off, off + vj.len()) == vj
        }),
{
    let v = entry_value(md, i);
    let key = key_json(field_key(field_at(i)));
    let json = note_json(md);
    let off = text_before_value(md, i).len() as int;
    let vj = value_json(v);
    lemma_entries_prefix(md, (i + 1) as nat, field_count());
    crate::metadata::lemma_entries_json_step(md, i as nat);
    let upto = entries_json(md, (i + 1) as nat);
    assert(upto =~= entries_json(md, i as nat) + entry_sep(i) + key + vj);
    let all = entries_json(md, field_count());
    assert(json =~= seq!['{', '\n'] + all + seq!['\n', '}']);
    let base = entries_json(md, i as nat).len() + entry_sep(i).len() + key.len();
    assert forall|j: int| 0 <= j < vj.len() implies #[trigger] json.subrange(off, off + vj.len())[j] == vj[j] by {
        assert(json.subrange(off, off + vj.len())[j] == json[off + j]);
        assert(json[off + j] == all[base + j]);
        assert(all[base + j] == upto[base + j]);
    }
    assert(json.subrange(off, off + vj.len()) =~= vj);
}

proof fn lemma_record_chars(md: PackageMetadata)
    ensures
        all_json_chars(note_json(md)),
{
    let all = entries_json(md, field_count());
    lemma_entries_json_chars(md, field_count());
    lemma_json_chars_concat(seq!['{', '\n'], all);
    lemma_json_chars_concat(seq!['{', '\n'] + all, seq!['\n', '}']);
    assert(note_json(md) =~= seq!['{', '\n'] + all + seq!['\n', '}']);
}

/// Scanning the note bytes from an offset inside the record stops at the
/// padding and yields the rest of the record, which decodes as itself.
proof fn lemma_scan_record(md: PackageMetadata, off: int)
    requires
        0 <= off <= note_json(md).len(),
    ensures
        ({
            let tail = note_json(md).subrange(off, note_json(md).len() as int);
            let sc = scanned_at(payload(note_body_pieces(md)), off);
            &&& sc == ascii_bytes(tail)
            &&& vstd::utf8::valid_utf8(sc)
            &&& decode_utf8(sc) == tail
        }),
{
    let json = note_json(md);
    lemma_record_chars(md);
    crate::metadata::lemma_body_payload(md);
    let b = payload(note_body_pieces(md));
    assert(b =~= ascii_bytes(json) + zeros(padding_len(json.len())));
    assert forall|j: int| off <= j < json.len() implies #[trigger] b[j] != 0 by {
        assert(json_char(json[j]));
        assert(b[j] == json[j] as u8);
    }
    assert(b[json.len() as int] == 0);
    lemma_first_nul(b, off, json.len() as int);
    let tail = json.subrange(off, json.len() as int);
    assert(scanned_at(b, off) =~= ascii_bytes(tail));
    assert(is_ascii_chars(tail)) by {
        assert forall|j: int| 0 <= j < tail.len() implies '\0' <= #[trigger] tail[j] <= '\u{7f}' by {
            assert(json_char(json[off + j]));
        }
    }
    lemma_ascii_encode(tail);
    encode_utf8_valid_utf8(tail);
    encode_utf8_decode_utf8(tail);
}

/// Text that starts with a quoted value free of quotes extracts to that
/// value.
proof fn lemma_quoted_prefix(t: Seq<char>, v: Seq<char>)
    requires
        (v.len() + 2) as int <= t.len(),
        t.subrange(0, (v.len() + 2) as int) == value_json(v),
        forall|j: int| 0 <= j < v.len() ==> #[trigger] v[j] != '"',
    ensures
        find_quote(t, 0) == 0,
        find_quote(t, 1) == (v.len() + 1) as int,
        t.subrange(1, (v.len() + 1) as int) == v,
{
    assert(t[0] == t.subrange(0, (v.len() + 2) as int)[0]);
    lemma_find_quote_skip(t, 0, 0);
    assert forall|j: int| 1 <= j < (1 + v.len()) as int implies #[trigger] t[j] != '"' by {
        assert(t[j] == t.subrange(0, (v.len() + 2) as int)[j]);
        assert(value_json(v)[j] == v[j - 1]);
    }
    assert(t[(v.len() + 1) as int] == t.subrange(0, (v.len() + 2) as int)[(v.len() + 1) as int]);
    lemma_find_quote_skip(t, 1, (v.len() + 1) as int);
    assert forall|j: int| 0 <= j < v.len() implies #[trigger] t.subrange(1, (v.len() + 1) as int)[j] == v[j] by {
        assert(t.subrange(1, (v.len() + 1) as int)[j] == t[j + 1]);
        assert(t[j + 1] == t.subrange(0, (v.len() + 2) as int)[j + 1]);
    }
    assert(t.subrange(1, (v.len() + 1) as int) =~= v);
}

/// The record holds every field, in field order: the text before field
/// `f`'s value ends with `"key":`, and the value that follows is the
/// sanitized value of `f` in quotes (empty for a field left empty).
pub proof fn lemma_record_carries_field(md: PackageMetadata, f: ModuleInfoField)
    ensures
        ({
            let i = field_index(f);
            let pre = text_before_value(md, i);
            let vj = value_json(sanitized(md.value_of(f)));
            &&& pre.len() >= key_json(field_key(f)).len()
            &&& pre.subrange(pre.len() - key_json(field_key(f)).len(), pre.len() as int) == key_json(field_key(f))
            &&& pre.len() + vj.len() <= note_json(md).len()
            &&& note_json(md).subrange(0, (pre.len() + vj.len()) as int) == pre + vj
        }),
{
    crate::fields::lemma_field_order_bijective(f, 0);
    let i = field_index(f);
    let pre = text_before_value(md, i);
    let key = key_json(field_key(f));
    let vj = value_json(entry_value(md, i));
    let json = note_json(md);
    lemma_entries_prefix(md, (i + 1) as nat, field_count());
    crate::metadata::lemma_entries_json_step(md, i as nat);
    let upto = entries_json(md, (i + 1) as nat);
    assert(upto =~= entries_json(md, i as nat) + entry_sep(i) + key + vj);
    let all = entries_json(md, field_count());
    assert(json =~= seq!['{', '\n'] + all + seq!['\n', '}']);
    assert(pre + vj =~= seq!['{', '\n'] + upto);
    assert forall|j: int| 0 <= j < pre.len() + vj.len() implies #[trigger] json.subrange(0, (pre.len() + vj.len()) as int)[j] == (pre + vj)[j] by {
        if j >= 2 {
            assert(all[j - 2] == all.take(upto.len() as int)[j - 2]);
        }
    }
    assert(json.subrange(0, (pre.len() + vj.len()) as int) =~= pre + vj);
    assert(pre.subrange(pre.len() - key.len(), pre.len() as int) =~= key);
}

/// What the reader gives back of what the build wrote: in the linker-script
/// body, the assignment of field `f`'s symbol is directly followed by the
/// `BYTE` directives of `f`'s quoted, sanitized value; and in the bytes the
/// note carries, scanning from the symbol of field `f` up to the first NUL
/// yields text whose value, as the runtime reader extracts it, is exactly
/// the sanitized value of `f` (for every record within the embedding's
/// size limit).
pub proof fn lemma_value_reads_back(md: PackageMetadata, f: ModuleInfoField)
    requires
        note_json(md).len() <= MAX_JSON_SIZE,
    ensures
        entry_pieces(md, field_index(f))[entry_pieces(md, field_index(f)).len() - 2] == Piece::Text(
            "\n    "@ + field_symbol(f) + " = .;"@ + seq!['\n'],
        ),
        entry_pieces(md, field_index(f)).last() == Piece::Bytes(
            ascii_bytes(value_json(sanitized(md.value_of(f)))),
        ),
        note_value(scanned_at(payload(note_body_pieces(md)), symbol_offset(md, field_index(f))))
            == NoteValue::Value(sanitized(md.value_of(f))),
{
    crate::fields::lemma_field_order_bijective(f, 0);
    let i = field_index(f);
    let v = entry_value(md, i);
    let json = note_json(md);
    lemma_symbol_offset(md, i);
    lemma_value_in_record(md, i);
    let off = symbol_offset(md, i);
    lemma_scan_record(md, off);
    let tail = json.subrange(off, json.len() as int);
    assert(tail.subrange(0, (v.len() + 2) as int) =~= json.subrange(off, off + v.len() + 2));
    lemma_sanitized_all_kept(md.value_of(f));
    assert forall|j: int| 0 <= j < v.len() implies #[trigger] v[j] != '"' by {
        assert(is_kept_char(v[j]));
    }
    lemma_quoted_prefix(tail, v);
    assert(tail.len() < max_note_value_len());
}

} // verus!
