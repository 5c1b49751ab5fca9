use vstd::prelude::*;
use vstd::utf8::*;

use crate::constants::NOTE_ALIGN;
use crate::error::{ModuleInfoError, ModuleInfoResult};
use crate::fields::{field_at, field_count, field_key, field_symbol, ModuleInfoField};
use crate::linker::{bytes_to_linker_directives, directive_line, directives, lemma_render_push, payload, piece_bytes, render, Piece};
use crate::sanitize::{all_kept, lemma_sanitized_all_kept, sanitize_for_linker_script, sanitized};
use crate::text::{ascii_bytes, push_char};

verus! {

/// Package metadata for embedding in the ELF `.note.package` section.
///
/// Holds the raw (unsanitized) values; sanitization happens when the note
/// payloads are rendered.
#[derive(Debug, Clone)]
#[non_exhaustive]
pub struct PackageMetadata {
    /// Binary name (executable or library)
    pub binary: String,
    /// Full module version (may include build number)
    pub module_version: String,
    /// Crate version from Cargo.toml
    pub version: String,
    /// Maintainer contact information
    pub maintainer: String,
    /// Package name
    pub name: String,
    /// Module type (agent, library, executable, etc.); JSON key `type`
    pub module_type: String,
    /// Git repository name
    pub repo: String,
    /// Git branch name
    pub branch: String,
    /// Git commit hash
    pub hash: String,
    /// Copyright information
    pub copyright: String,
    /// Operating system name
    pub os: String,
    /// Operating system version
    pub os_version: String,
    /// Whether `moduleVersion` may carry a pre-release / build suffix (from
    /// the manifest's `allow_prerelease_suffix`); when set, only its numeric
    /// core is checked. Not part of the embedded record.
    pub allow_prerelease_suffix: bool,
}

impl PackageMetadata {
    /// The value stored for a field.
    pub open spec fn value_of(&self, field: ModuleInfoField) -> Seq<char> {
        match field {
            ModuleInfoField::Binary => self.binary@,
            ModuleInfoField::Version => self.version@,
            ModuleInfoField::ModuleVersion => self.module_version@,
            ModuleInfoField::Maintainer => self.maintainer@,
            ModuleInfoField::Name => self.name@,
            ModuleInfoField::Type => self.module_type@,
            ModuleInfoField::Repo => self.repo@,
            ModuleInfoField::Branch => self.branch@,
            ModuleInfoField::Hash => self.hash@,
            ModuleInfoField::Copyright => self.copyright@,
            ModuleInfoField::Os => self.os@,
            ModuleInfoField::OsVersion => self.os_version@,
        }
    }

    /// Every field is the empty string.
    pub open spec fn is_empty_metadata(&self) -> bool {
        forall|f: ModuleInfoField| #[trigger] self.value_of(f) == Seq::<char>::empty()
    }

    /// Returns the value associated with a field.
    pub fn field_value(&self, field: ModuleInfoField) -> (r: &str)
        ensures
            r@ == self.value_of(field),
    {
        match field {
            ModuleInfoField::Binary => self.binary.as_str(),
            ModuleInfoField::Version => self.version.as_str(),
            ModuleInfoField::ModuleVersion => self.module_version.as_str(),
            ModuleInfoField::Maintainer => self.maintainer.as_str(),
            ModuleInfoField::Name => self.name.as_str(),
            ModuleInfoField::Type => self.module_type.as_str(),
            ModuleInfoField::Repo => self.repo.as_str(),
            ModuleInfoField::Branch => self.branch.as_str(),
            ModuleInfoField::Hash => self.hash.as_str(),
            ModuleInfoField::Copyright => self.copyright.as_str(),
            ModuleInfoField::Os => self.os.as_str(),
            ModuleInfoField::OsVersion => self.os_version.as_str(),
        }
    }
}

impl Default for PackageMetadata {
    fn default() -> (r: Self)
        ensures
            r.is_empty_metadata(),
            !r.allow_prerelease_suffix,
    {
        PackageMetadata {
            binary: String::new(),
            module_version: String::new(),
            version: String::new(),
            maintainer: String::new(),
            name: String::new(),
            module_type: String::new(),
            repo: String::new(),
            branch: String::new(),
            hash: String::new(),
            copyright: String::new(),
            os: String::new(),
            os_version: String::new(),
            allow_prerelease_suffix: false,
        }
    }
}

} // verus!

verus! {

/// `"key":` as it appears in the payload.
pub open spec fn key_json(k: Seq<char>) -> Seq<char> {
    seq!['"'] + k + seq!['"', ':']
}

/// `"value"` as it appears in the payload.
pub open spec fn value_json(v: Seq<char>) -> Seq<char> {
    seq!['"'] + v + seq!['"']
}

/// The sanitized value of the `i`-th field.
pub open spec fn entry_value(md: PackageMetadata, i: int) -> Seq<char> {
    sanitized(md.value_of(field_at(i)))
}

/// `"key":"value"` for the `i`-th field.
pub open spec fn entry_json(md: PackageMetadata, i: int) -> Seq<char> {
    key_json(field_key(field_at(i))) + value_json(entry_value(md, i))
}

/// The first `n` entries, separated by `,\n`.
pub open spec fn entries_json(md: PackageMetadata, n: nat) -> Seq<char>
    decreases n,
{
    if n == 0 {
        Seq::empty()
    } else if n == 1 {
        entry_json(md, 0)
    } else {
        entries_json(md, (n - 1) as nat) + seq![',', '\n'] + entry_json(md, n - 1)
    }
}

/// The JSON record embedded in the note: one `"key":"value"` pair per
/// line, in field order, between `{` and `}`.
pub open spec fn note_json(md: PackageMetadata) -> Seq<char> {
    seq!['{', '\n'] + entries_json(md, field_count()) + seq!['\n', '}']
}

/// Number of NUL bytes that follow a payload of `len` bytes: always 1 to 4,
/// bringing the total to a multiple of 4.
pub open spec fn padding_len(len: nat) -> nat {
    (NOTE_ALIGN - len % (NOTE_ALIGN as nat)) as nat
}

/// Script pieces for the `i`-th entry (with the separator before every
/// entry but the first).
pub open spec fn entry_pieces(md: PackageMetadata, i: int) -> Seq<Piece> {
    let f = field_at(i);
    let sep = if i == 0 {
        Seq::<Piece>::empty()
    } else {
        seq![Piece::Text(seq!['\n']), Piece::Bytes(ascii_bytes(seq![',', '\n']))]
    };
    sep + seq![
        Piece::Text("\n\n    /* Key: "@ + field_key(f) + " */"@ + seq!['\n']),
        Piece::Bytes(ascii_bytes(key_json(field_key(f)))),
        Piece::Text("\n    "@ + field_symbol(f) + " = .;"@ + seq!['\n']),
        Piece::Bytes(ascii_bytes(value_json(entry_value(md, i)))),
    ]
}

pub open spec fn entries_pieces(md: PackageMetadata, n: nat) -> Seq<Piece>
    decreases n,
{
    if n == 0 {
        Seq::empty()
    } else {
        entries_pieces(md, (n - 1) as nat) + entry_pieces(md, n - 1)
    }
}

/// `n` zero bytes.
pub open spec fn zeros(n: nat) -> Seq<u8> {
    Seq::new(n, |i: int| 0u8)
}

/// `t` is a suffix of `s`.
pub open spec fn ends_with(s: Seq<char>, t: Seq<char>) -> bool {
    t.len() <= s.len() && s.subrange(s.len() - t.len(), s.len() as int) == t
}

/// `p` NUL bytes, each on its own line.
pub open spec fn padding_pieces(p: nat) -> Seq<Piece>
    decreases p,
{
    if p == 0 {
        Seq::empty()
    } else {
        padding_pieces((p - 1) as nat) + seq![Piece::Text(seq!['\n']), Piece::Bytes(seq![0u8])]
    }
}

pub open spec fn head_pieces() -> Seq<Piece> {
    seq![Piece::Text(seq!['\n']), Piece::Bytes(ascii_bytes(seq!['{', '\n']))]
}

pub open spec fn tail_pieces() -> Seq<Piece> {
    seq![
        Piece::Text(seq!['\n']),
        Piece::Bytes(ascii_bytes(seq!['\n', '}'])),
        Piece::Text("\n    /* Padding (always >=1 NUL so runtime scan terminates) */"@),
    ]
}

/// The linker-script body: the JSON record as `BYTE` directives, a symbol
/// before each value, and the NUL padding.
pub open spec fn note_body_pieces(md: PackageMetadata) -> Seq<Piece> {
    head_pieces() + entries_pieces(md, field_count()) + tail_pieces() + padding_pieces(
        padding_len(note_json(md).len()),
    )
}

/// `&str` convenience over `bytes_to_linker_directives` for ASCII text.
fn bytes_to_linker_script_format(s: &str) -> (r: String)
    requires
        is_ascii_chars(s@),
    ensures
        r@ == directives(ascii_bytes(s@)),
{
    proof {
        crate::text::lemma_ascii_encode(s@);
    }
    bytes_to_linker_directives(s.as_bytes())
}

fn quoted_key(key: &str) -> (r: String)
    ensures
        r@ == key_json(key@),
{
    let mut s = String::new();
    push_char(&mut s, '"');
    s.append(key);
    push_char(&mut s, '"');
    push_char(&mut s, ':');
    proof {
        assert(s@ =~= key_json(key@));
    }
    s
}

fn quoted_value(v: &str) -> (r: String)
    ensures
        r@ == value_json(v@),
{
    let mut s = String::new();
    push_char(&mut s, '"');
    s.append(v);
    push_char(&mut s, '"');
    proof {
        assert(s@ =~= value_json(v@));
    }
    s
}

} // verus!

verus! {

proof fn lemma_entry_json_ascii(md: PackageMetadata, i: int)
    ensures
        is_ascii_chars(key_json(field_key(field_at(i)))),
        is_ascii_chars(value_json(entry_value(md, i))),
{
    crate::fields::lemma_key_ascii(field_at(i));
    lemma_sanitized_all_kept(md.value_of(field_at(i)));
    crate::sanitize::lemma_kept_is_ascii(entry_value(md, i));
    crate::text::lemma_ascii_concat(seq!['"'], field_key(field_at(i)));
    crate::text::lemma_ascii_concat(seq!['"'] + field_key(field_at(i)), seq!['"', ':']);
    crate::text::lemma_ascii_concat(seq!['"'], entry_value(md, i));
    crate::text::lemma_ascii_concat(seq!['"'] + entry_value(md, i), seq!['"']);
}

/// The JSON text contributed by the `i`-th entry, with its separator.
pub open spec fn entry_json_with_sep(md: PackageMetadata, i: int) -> Seq<char> {
    if i == 0 {
        entry_json(md, i)
    } else {
        seq![',', '\n'] + entry_json(md, i)
    }
}

pub(crate) proof fn lemma_entries_json_step(md: PackageMetadata, n: nat)
    ensures
        entries_json(md, n + 1) == entries_json(md, n) + entry_json_with_sep(md, n as int),
{
    if n == 0 {
        assert(entries_json(md, 1) =~= entries_json(md, 0) + entry_json_with_sep(md, 0));
    } else {
        assert(entries_json(md, n + 1) =~= entries_json(md, n) + entry_json_with_sep(md, n as int));
    }
}

/// Appends the script text and the JSON text of the `i`-th entry.
#[verifier::rlimit(40)]
fn emit_entry(md: &PackageMetadata, i: usize, body: &mut String, json: &mut String)
    requires
        i < field_count(),
    ensures
        final(body)@ == old(body)@ + render(entry_pieces(*md, i as int)),
        final(json)@ == old(json)@ + entry_json_with_sep(*md, i as int),
        payload(entry_pieces(*md, i as int)) == ascii_bytes(entry_json_with_sep(*md, i as int)),
        is_ascii_chars(entry_json_with_sep(*md, i as int)),
{
    let ghost body0 = body@;
    let ghost json0 = json@;
    let ghost mut pieces: Seq<Piece> = Seq::empty();
    let f = ModuleInfoField::at(i);
    let key = f.to_key();
    let symbol = f.to_symbol_name();
    let value = sanitize_for_linker_script(md.field_value(f));
    proof {
        reveal_strlit(",\n");
        assert(",\n"@ =~= seq![',', '\n']);
        lemma_entry_json_ascii(*md, i as int);
        assert(render(pieces) == Seq::<char>::empty());
        assert(payload(pieces) == Seq::<u8>::empty());
    }

    if i > 0 {
        push_char(body, '\n');
        proof {
            assert(body@ =~= body0 + seq!['\n']);
            lemma_render_push(pieces, Piece::Text(seq!['\n']));
            pieces = pieces.push(Piece::Text(seq!['\n']));
            assert(body@ =~= body0 + render(pieces));
        }
        let sep = bytes_to_linker_script_format(",\n");
        let ghost bs = body@;
        body.append(sep.as_str());
        json.append(",\n");
        proof {
            assert(body@ == bs + directives(ascii_bytes(seq![',', '\n'])));
            lemma_render_push(pieces, Piece::Bytes(ascii_bytes(seq![',', '\n'])));
            pieces = pieces.push(Piece::Bytes(ascii_bytes(seq![',', '\n'])));
            assert(body@ =~= body0 + render(pieces));
        }
    } else {
        assert(body@ =~= body0 + render(pieces));
    }
    let ghost sep_json = json@.skip(json0.len() as int);
    proof {
        assert(body@ =~= body0 + render(pieces));
        assert(json@ =~= json0 + sep_json);
        assert(payload(pieces) =~= ascii_bytes(sep_json));
    }

    let ghost t1 = "\n\n    /* Key: "@ + key@ + " */"@ + seq!['\n'];
    let ghost b1 = body@;
    body.append("\n\n    /* Key: ");
    body.append(key);
    body.append(" */");
    push_char(body, '\n');
    proof {
        assert(body@ =~= b1 + t1);
        lemma_render_push(pieces, Piece::Text(t1));
        pieces = pieces.push(Piece::Text(t1));
    }

    let key_text = quoted_key(key);
    let key_directives = bytes_to_linker_script_format(key_text.as_str());
    body.append(key_directives.as_str());
    json.append(key_text.as_str());
    proof {
        lemma_render_push(pieces, Piece::Bytes(ascii_bytes(key_text@)));
        pieces = pieces.push(Piece::Bytes(ascii_bytes(key_text@)));
    }

    let ghost t2 = "\n    "@ + symbol@ + " = .;"@ + seq!['\n'];
    let ghost b2 = body@;
    body.append("\n    ");
    body.append(symbol);
    body.append(" = .;");
    push_char(body, '\n');
    proof {
        assert(body@ =~= b2 + t2);
        lemma_render_push(pieces, Piece::Text(t2));
        pieces = pieces.push(Piece::Text(t2));
    }

    let value_text = quoted_value(value.as_str());
    let value_directives = bytes_to_linker_script_format(value_text.as_str());
    body.append(value_directives.as_str());
    json.append(value_text.as_str());
    proof {
        lemma_render_push(pieces, Piece::Bytes(ascii_bytes(value_text@)));
        pieces = pieces.push(Piece::Bytes(ascii_bytes(value_text@)));
        assert(pieces =~= entry_pieces(*md, i as int));
        assert(body@ =~= body0 + render(pieces));
        let e = entry_json_with_sep(*md, i as int);
        assert(json@ =~= json0 + e);
        assert(e =~= sep_json + key_text@ + value_text@);
        crate::text::lemma_ascii_bytes_concat(sep_json, key_text@);
        crate::text::lemma_ascii_bytes_concat(sep_json + key_text@, value_text@);
        crate::text::lemma_ascii_concat(key_text@, value_text@);
        if i > 0 {
            crate::text::lemma_ascii_concat(sep_json, key_text@ + value_text@);
            assert(sep_json + (key_text@ + value_text@) =~= e);
        } else {
            assert(sep_json =~= Seq::<char>::empty());
            assert(key_text@ + value_text@ =~= e);
        }
    }
}

/// Renders the metadata into the two payloads embedded in the note: the
/// JSON record (`.0`) and the linker-script body (`.1`) whose `BYTE`
/// directives reproduce the same bytes followed by the NUL padding.
pub fn render_note_payloads(md: &PackageMetadata) -> (r: ModuleInfoResult<(String, String)>)
    ensures
        r is Ok,
        r matches Ok((json, body)) ==> {
            &&& json@ == note_json(*md)
            &&& body@ == render(note_body_pieces(*md))
        },
        // The bytes the script emits are exactly the JSON bytes followed by
        // 1 to 4 NUL bytes, and the total is 4-byte aligned.
        payload(note_body_pieces(*md)) == ascii_bytes(note_json(*md)) + zeros(
            padding_len(note_json(*md).len()),
        ),
        1 <= padding_len(note_json(*md).len()) <= 4,
        (note_json(*md).len() + padding_len(note_json(*md).len())) % 4 == 0,
        is_ascii_chars(note_json(*md)),
        // The script always ends with a NUL byte directive.
        ends_with(render(note_body_pieces(*md)), seq!['\n'] + directive_line(0)),
{
    let mut body = String::new();
    let mut json = String::new();
    let ghost mut pieces: Seq<Piece> = Seq::empty();

    proof {
        reveal_strlit("{\n");
        assert("{\n"@ =~= seq!['{', '\n']);
    }
    push_char(&mut body, '\n');
    proof {
        lemma_render_push(pieces, Piece::Text(seq!['\n']));
        pieces = pieces.push(Piece::Text(seq!['\n']));
    }
    let open = bytes_to_linker_script_format("{\n");
    body.append(open.as_str());
    json.append("{\n");
    proof {
        lemma_render_push(pieces, Piece::Bytes(ascii_bytes(seq!['{', '\n'])));
        pieces = pieces.push(Piece::Bytes(ascii_bytes(seq!['{', '\n'])));
        assert(payload(Seq::<Piece>::empty()) == Seq::<u8>::empty());
        assert(payload(pieces) =~= ascii_bytes(json@));
        assert(json@ =~= seq!['{', '\n'] + entries_json(*md, 0));
        assert(pieces =~= head_pieces() + entries_pieces(*md, 0));
    }

    let n = ModuleInfoField::count();
    let mut i: usize = 0;
    while i < n
        invariant
            n == field_count(),
            i <= n,
            json@ == seq!['{', '\n'] + entries_json(*md, i as nat),
            is_ascii_chars(json@),
            pieces == head_pieces() + entries_pieces(*md, i as nat),
            body@ == render(pieces),
            payload(pieces) == ascii_bytes(json@),
        decreases n - i,
    {
        let ghost json_before = json@;
        emit_entry(md, i, &mut body, &mut json);
        proof {
            let ep = entry_pieces(*md, i as int);
            let ej = entry_json_with_sep(*md, i as int);
            crate::linker::lemma_render_concat(pieces, ep);
            crate::text::lemma_ascii_bytes_concat(json_before, ej);
            crate::text::lemma_ascii_concat(json_before, ej);
            lemma_entries_json_step(*md, i as nat);
            assert(entries_pieces(*md, (i + 1) as nat) == entries_pieces(*md, i as nat) + ep);
            pieces = pieces + ep;
            assert(pieces =~= head_pieces() + entries_pieces(*md, (i + 1) as nat));
            assert(json@ =~= seq!['{', '\n'] + entries_json(*md, (i + 1) as nat));
        }
        i = i + 1;
    }

    proof {
        reveal_strlit("\n}");
        assert("\n}"@ =~= seq!['\n', '}']);
    }
    push_char(&mut body, '\n');
    proof {
        lemma_render_push(pieces, Piece::Text(seq!['\n']));
        pieces = pieces.push(Piece::Text(seq!['\n']));
    }
    let close = bytes_to_linker_script_format("\n}");
    body.append(close.as_str());
    let ghost before_close = json@;
    json.append("\n}");
    proof {
        lemma_render_push(pieces, Piece::Bytes(ascii_bytes(seq!['\n', '}'])));
        pieces = pieces.push(Piece::Bytes(ascii_bytes(seq!['\n', '}'])));
        assert(json@ =~= note_json(*md));
    }

    let json_len = json.as_str().unicode_len();
    let padding_needed = NOTE_ALIGN - (json_len % NOTE_ALIGN);

    let ghost bp = body@;
    assert(bp == render(pieces));
    body.append("\n    /* Padding (always >=1 NUL so runtime scan terminates) */");
    proof {
        assert(body@ == bp + "\n    /* Padding (always >=1 NUL so runtime scan terminates) */"@);
        lemma_render_push(
            pieces,
            Piece::Text("\n    /* Padding (always >=1 NUL so runtime scan terminates) */"@),
        );
        pieces = pieces.push(
            Piece::Text("\n    /* Padding (always >=1 NUL so runtime scan terminates) */"@),
        );
        assert(pieces =~= head_pieces() + entries_pieces(*md, field_count()) + tail_pieces()
            + padding_pieces(0));
        assert(payload(pieces) =~= ascii_bytes(json@) + zeros(0));
    }
    let ghost fixed = head_pieces() + entries_pieces(*md, field_count()) + tail_pieces();
    let mut k: usize = 0;
    while k < padding_needed
        invariant
            k <= padding_needed,
            pieces == fixed + padding_pieces(k as nat),
            body@ == render(pieces),
            payload(pieces) == ascii_bytes(json@) + zeros(k as nat),
            padding_needed == padding_len(json@.len()),
            k > 0 ==> ends_with(render(pieces), seq!['\n'] + directive_line(0)),
        decreases padding_needed - k,
    {
        proof {
            reveal_strlit("\0");
        assert("\0"@ =~= seq!['\0']);
        }
        let ghost p0 = pieces;
        push_char(&mut body, '\n');
        proof {
            lemma_render_push(pieces, Piece::Text(seq!['\n']));
            pieces = pieces.push(Piece::Text(seq!['\n']));
        }
        let nul = bytes_to_linker_script_format("\0");
        body.append(nul.as_str());
        proof {
            lemma_render_push(pieces, Piece::Bytes(ascii_bytes(seq!['\0'])));
            pieces = pieces.push(Piece::Bytes(ascii_bytes(seq!['\0'])));
            assert(ascii_bytes(seq!['\0']) =~= seq![0u8]);
        }
        k = k + 1;
        proof {
            assert(pieces =~= fixed + padding_pieces(k as nat));
            assert(payload(pieces) =~= ascii_bytes(json@) + zeros(k as nat));
            let r = render(pieces);
            assert(directives(seq![0u8]) == directive_line(0));
            assert(r =~= render(p0) + seq!['\n'] + directive_line(0));
            assert(r.subrange(r.len() - (1 + directive_line(0).len()), r.len() as int) =~= seq!['\n'] + directive_line(0));
        }
    }
    Ok((json, body))
}

} // verus!

verus! {

proof fn lemma_payload4(a: Piece, b: Piece, c: Piece, d: Piece)
    ensures
        payload(seq![a, b, c, d]) == piece_bytes(a) + piece_bytes(b) + piece_bytes(c) + piece_bytes(d),
{
    let e = Seq::<Piece>::empty();
    assert(seq![a, b, c, d] =~= e.push(a).push(b).push(c).push(d));
    lemma_render_push(e, a);
    lemma_render_push(e.push(a), b);
    lemma_render_push(e.push(a).push(b), c);
    lemma_render_push(e.push(a).push(b).push(c), d);
    assert(payload(e) == Seq::<u8>::empty());
    assert(Seq::<u8>::empty() + piece_bytes(a) =~= piece_bytes(a));
}

pub(crate) proof fn lemma_payload2(a: Piece, b: Piece)
    ensures
        payload(seq![a, b]) == piece_bytes(a) + piece_bytes(b),
{
    let e = Seq::<Piece>::empty();
    assert(seq![a, b] =~= e.push(a).push(b));
    lemma_render_push(e, a);
    lemma_render_push(e.push(a), b);
    assert(Seq::<u8>::empty() + piece_bytes(a) =~= piece_bytes(a));
}

/// The bytes of an entry's pieces are the entry's JSON text.
pub(crate) proof fn lemma_entry_payload(md: PackageMetadata, i: int)
    ensures
        payload(entry_pieces(md, i)) == ascii_bytes(entry_json_with_sep(md, i)),
{
    let f = field_at(i);
    let main = seq![
        Piece::Text("\n\n    /* Key: "@ + field_key(f) + " */"@ + seq!['\n']),
        Piece::Bytes(ascii_bytes(key_json(field_key(f)))),
        Piece::Text("\n    "@ + field_symbol(f) + " = .;"@ + seq!['\n']),
        Piece::Bytes(ascii_bytes(value_json(entry_value(md, i)))),
    ];
    lemma_payload4(main[0], main[1], main[2], main[3]);
    assert(main =~= seq![main[0], main[1], main[2], main[3]]);
    crate::text::lemma_ascii_bytes_concat(key_json(field_key(f)), value_json(entry_value(md, i)));
    assert(payload(main) =~= ascii_bytes(entry_json(md, i)));
    if i == 0 {
        assert(entry_pieces(md, i) =~= main);
    } else {
        let sep = seq![Piece::Text(seq!['\n']), Piece::Bytes(ascii_bytes(seq![',', '\n']))];
        assert(entry_pieces(md, i) =~= sep + main);
        crate::linker::lemma_render_concat(sep, main);
        lemma_payload2(sep[0], sep[1]);
        assert(sep =~= seq![sep[0], sep[1]]);
        crate::text::lemma_ascii_bytes_concat(seq![',', '\n'], entry_json(md, i));
        assert(payload(sep) =~= ascii_bytes(seq![',', '\n']));
    }
}

pub(crate) proof fn lemma_entries_payload(md: PackageMetadata, n: nat)
    ensures
        payload(entries_pieces(md, n)) == ascii_bytes(entries_json(md, n)),
    decreases n,
{
    if n == 0 {
        assert(ascii_bytes(entries_json(md, 0)) =~= Seq::<u8>::empty());
    } else {
        lemma_entries_payload(md, (n - 1) as nat);
        lemma_entry_payload(md, n - 1);
        crate::linker::lemma_render_concat(entries_pieces(md, (n - 1) as nat), entry_pieces(md, n - 1));
        lemma_entries_json_step(md, (n - 1) as nat);
        crate::text::lemma_ascii_bytes_concat(entries_json(md, (n - 1) as nat), entry_json_with_sep(md, n - 1));
    }
}

proof fn lemma_padding_payload(p: nat)
    ensures
        payload(padding_pieces(p)) == zeros(p),
    decreases p,
{
    if p > 0 {
        lemma_padding_payload((p - 1) as nat);
        let two = seq![Piece::Text(seq!['\n']), Piece::Bytes(seq![0u8])];
        crate::linker::lemma_render_concat(padding_pieces((p - 1) as nat), two);
        lemma_payload2(two[0], two[1]);
        assert(two =~= seq![two[0], two[1]]);
        assert(zeros((p - 1) as nat) + seq![0u8] =~= zeros(p));
        assert(Seq::<u8>::empty() + seq![0u8] =~= seq![0u8]);
    } else {
        assert(zeros(0) =~= Seq::<u8>::empty());
    }
}

/// The bytes emitted by the rendered linker-script body are the JSON
/// record followed by its 1 to 4 NUL padding bytes, 4-byte aligned in
/// total.
pub proof fn lemma_body_payload(md: PackageMetadata)
    ensures
        payload(note_body_pieces(md)) == ascii_bytes(note_json(md)) + zeros(
            padding_len(note_json(md).len()),
        ),
        payload(note_body_pieces(md)).len() % 4 == 0,
        1 <= padding_len(note_json(md).len()) <= 4,
{
    let h = head_pieces();
    let e = entries_pieces(md, field_count());
    let t = tail_pieces();
    let p = padding_pieces(padding_len(note_json(md).len()));
    crate::linker::lemma_render_concat(h, e);
    crate::linker::lemma_render_concat(h + e, t);
    crate::linker::lemma_render_concat(h + e + t, p);
    lemma_payload2(h[0], h[1]);
    assert(h =~= seq![h[0], h[1]]);
    lemma_entries_payload(md, field_count());
    let e3 = Seq::<Piece>::empty();
    assert(t =~= e3.push(t[0]).push(t[1]).push(t[2]));
    lemma_render_push(e3, t[0]);
    lemma_render_push(e3.push(t[0]), t[1]);
    lemma_render_push(e3.push(t[0]).push(t[1]), t[2]);
    lemma_padding_payload(padding_len(note_json(md).len()));
    crate::text::lemma_ascii_bytes_concat(seq!['{', '\n'], entries_json(md, field_count()));
    crate::text::lemma_ascii_bytes_concat(seq!['{', '\n'] + entries_json(md, field_count()), seq!['\n', '}']);
    assert(payload(h) =~= ascii_bytes(seq!['{', '\n']));
    assert(payload(t) =~= ascii_bytes(seq!['\n', '}']));
    assert(payload(note_body_pieces(md)) =~= ascii_bytes(note_json(md)) + zeros(
        padding_len(note_json(md).len()),
    ));
}

} // verus!
