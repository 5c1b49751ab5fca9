use vstd::prelude::*;
use vstd::std_specs::convert::FromSpecImpl;

use crate::constants::{N_TYPE, NOTE_ALIGN, OWNER};
use crate::error::ModuleInfoResult;
use crate::json::{json_rejection, metadata_note_lines, metadata_notes, reports, validate_metadata_record};
use crate::linker::{directives, payload, render};
use crate::metadata::{note_body_pieces, note_json, render_note_payloads, zeros, PackageMetadata};
use crate::note_section::{note_bytes, note_header, note_script, owner_block, NoteSection};
use crate::text::{ascii_bytes, push_char};
use vstd::utf8::is_ascii_chars;

verus! {

/// Struct-literal view over `PackageMetadata` with field names shaped like
/// the JSON keys (`moduleVersion`, `osVersion`; the JSON key `type` is the
/// field `type_`).
#[allow(non_snake_case)]
#[derive(Debug, Clone)]
pub struct Info {
    /// Binary name (JSON key `binary`).
    pub binary: String,
    /// Crate version (JSON key `version`).
    pub version: String,
    /// Full 4-part module version (JSON key `moduleVersion`).
    pub moduleVersion: String,
    /// Maintainer contact information (JSON key `maintainer`).
    pub maintainer: String,
    /// Package name (JSON key `name`).
    pub name: String,
    /// Module type (JSON key `type`).
    pub type_: String,
    /// Git repository name (JSON key `repo`).
    pub repo: String,
    /// Git branch name (JSON key `branch`).
    pub branch: String,
    /// Git commit hash (JSON key `hash`).
    pub hash: String,
    /// Copyright information (JSON key `copyright`).
    pub copyright: String,
    /// Operating system name (JSON key `os`).
    pub os: String,
    /// Operating system version (JSON key `osVersion`).
    pub osVersion: String,
}

impl Default for Info {
    fn default() -> (r: Self)
        ensures
            r.binary@ == Seq::<char>::empty(),
            r.version@ == Seq::<char>::empty(),
            r.moduleVersion@ == Seq::<char>::empty(),
            r.maintainer@ == Seq::<char>::empty(),
            r.name@ == Seq::<char>::empty(),
            r.type_@ == Seq::<char>::empty(),
            r.repo@ == Seq::<char>::empty(),
            r.branch@ == Seq::<char>::empty(),
            r.hash@ == Seq::<char>::empty(),
            r.copyright@ == Seq::<char>::empty(),
            r.os@ == Seq::<char>::empty(),
            r.osVersion@ == Seq::<char>::empty(),
    {
        Info {
            binary: String::new(),
            version: String::new(),
            moduleVersion: String::new(),
            maintainer: String::new(),
            name: String::new(),
            type_: String::new(),
            repo: String::new(),
            branch: String::new(),
            hash: String::new(),
            copyright: String::new(),
            os: String::new(),
            osVersion: String::new(),
        }
    }
}

/// Field-by-field conversion from `Info` to `PackageMetadata`.
pub open spec fn info_to_metadata(info: Info) -> PackageMetadata {
    PackageMetadata {
        binary: info.binary,
        version: info.version,
        module_version: info.moduleVersion,
        maintainer: info.maintainer,
        name: info.name,
        module_type: info.type_,
        repo: info.repo,
        branch: info.branch,
        hash: info.hash,
        copyright: info.copyright,
        os: info.os,
        os_version: info.osVersion,
        allow_prerelease_suffix: false,
    }
}

impl From<Info> for PackageMetadata {
    fn from(info: Info) -> (r: Self) {
        PackageMetadata {
            binary: info.binary,
            version: info.version,
            module_version: info.moduleVersion,
            maintainer: info.maintainer,
            name: info.name,
            module_type: info.type_,
            repo: info.repo,
            branch: info.branch,
            hash: info.hash,
            copyright: info.copyright,
            os: info.os,
            os_version: info.osVersion,
            allow_prerelease_suffix: false,
        }
    }
}

impl FromSpecImpl<Info> for PackageMetadata {
    open spec fn obeys_from_spec() -> bool {
        true
    }

    open spec fn from_spec(info: Info) -> PackageMetadata {
        info_to_metadata(info)
    }
}

} // verus!

verus! {

/// `std::path::PathBuf`, carried through as an opaque value.
#[verifier::external_type_specification]
#[verifier::external_body]
pub struct ExPathBuf(std::path::PathBuf);

/// `<PathBuf as Clone>::clone` (used by the derived `Clone` impls); nothing
/// is stated about the copy.
pub assume_specification[ <std::path::PathBuf as Clone>::clone ](p: &std::path::PathBuf) -> (r: std::path::PathBuf);

/// Options controlling where the artifacts go and whether the
/// `cargo:rustc-link-arg` directive is emitted.
#[derive(Debug, Clone)]
#[non_exhaustive]
pub struct EmbedOptions {
    /// Directory for `linker_script.ld`, `note.package.bin` and
    /// `module_info.json`; `None` means `$OUT_DIR`.
    pub out_dir: Option<std::path::PathBuf>,
    /// Emit `cargo:rustc-link-arg=-T<linker_script.ld>`.
    pub emit_cargo_link_arg: bool,
}

impl Default for EmbedOptions {
    fn default() -> (r: Self)
        ensures
            r.out_dir is None,
            r.emit_cargo_link_arg,
    {
        EmbedOptions { out_dir: None, emit_cargo_link_arg: true }
    }
}

/// Artifacts written when the note is embedded.
#[derive(Debug, Clone)]
pub struct EmbedArtifacts {
    /// Path of the generated linker script (`linker_script.ld`).
    pub linker_script_path: std::path::PathBuf,
    /// Path of the raw `.note.package` dump.
    pub note_bin_path: std::path::PathBuf,
    /// Path of the JSON metadata (`module_info.json`).
    pub json_path: std::path::PathBuf,
    /// The JSON embedded as the note descriptor.
    pub json: String,
    /// The linker-script body that reproduces the JSON bytes.
    pub linker_script_body: String,
}

} // verus!

verus! {

/// `s` without its leading newlines.
pub open spec fn trim_leading_newlines(s: Seq<char>) -> Seq<char>
    decreases s.len(),
{
    if s.len() > 0 && s[0] == '\n' {
        trim_leading_newlines(s.drop_first())
    } else {
        s
    }
}

/// Header line of the standalone copy of the linker-script body.
pub open spec fn body_file_header() -> Seq<char> {
    "/* Linker-script fragment. Inlined inside linker_script.ld; not a standalone script. */\n"@
}

/// The bytes of the note owner `FDO`.
pub open spec fn owner_bytes() -> Seq<u8> {
    seq![0x46u8, 0x44u8, 0x4fu8]
}

/// Everything the embedding writes, computed from the metadata.
pub struct EmbedPlan {
    /// The JSON record (`module_info.json`).
    pub json: String,
    /// The linker-script body that emits the JSON bytes and padding.
    pub linker_script_body: String,
    /// The body as written to `linker_script_body.ld.inc`.
    pub linker_script_body_file: String,
    /// The note and the complete linker script.
    pub note: NoteSection,
    /// `key: value` lines reported during the build.
    pub notes: Vec<String>,
}

fn trim_newlines_front(s: &str) -> (r: String)
    ensures
        r@ == trim_leading_newlines(s@),
{
    let n = s.unicode_len();
    let mut k: usize = 0;
    proof {
        assert(s@.skip(0) =~= s@);
    }
    while k < n
        invariant
            n == s@.len(),
            k <= n,
            trim_leading_newlines(s@) == trim_leading_newlines(s@.skip(k as int)),
        ensures
            k == n || s@[k as int] != '\n',
        decreases n - k,
    {
        if s.get_char(k) != '\n' {
            break;
        }
        proof {
            assert(s@.skip(k as int).drop_first() =~= s@.skip(k + 1));
        }
        k = k + 1;
    }
    proof {
        assert(s@.skip(k as int) =~= s@.subrange(k as int, n as int));
        if k < n {
            assert(s@.skip(k as int)[0] == s@[k as int]);
        }
        assert(trim_leading_newlines(s@.skip(k as int)) == s@.skip(k as int));
    }
    String::from_str(s.substring_char(k, n))
}

/// Whether `r` is the outcome of embedding `md`: the JSON record and the
/// linker-script body (rejected exactly as `validate_embedded_json` rejects
/// the record), the note whose descriptor is the record followed by its NUL
/// padding, the linker script that emits it, and the build notes.
pub open spec fn plans(r: ModuleInfoResult<EmbedPlan>, md: PackageMetadata) -> bool {
    &&& reports(r, json_rejection(note_json(md), note_json(md).len(), md.allow_prerelease_suffix))
    &&& r matches Ok(p) ==> {
        &&& p.json@ == note_json(md)
        &&& p.linker_script_body@ == render(note_body_pieces(md))
        &&& p.linker_script_body_file@ == body_file_header() + trim_leading_newlines(
            render(note_body_pieces(md)),
        )
        &&& p.note.note_section@ == note_bytes(
            N_TYPE,
            owner_bytes(),
            payload(note_body_pieces(md)),
            NOTE_ALIGN,
        )
        &&& p.note.linker_script@ == note_script(
            directives(note_header(4, payload(note_body_pieces(md)).len() as u32, N_TYPE)),
            directives(owner_block(owner_bytes(), NOTE_ALIGN)),
            render(note_body_pieces(md)),
            NOTE_ALIGN,
        )
        &&& p.notes@.len() == metadata_notes(note_json(md)).len()
        &&& forall|i: int| 0 <= i < p.notes@.len() ==> #[trigger] p.notes@[i]@ == metadata_notes(note_json(md))[i]
    }
}

/// Computes the artifacts of embedding `md` (see `plans`).
pub fn plan_embedding(md: &PackageMetadata) -> (r: ModuleInfoResult<EmbedPlan>)
    ensures
        plans(r, *md),
{
    let (json, body) = match render_note_payloads(md) {
        Ok(v) => v,
        Err(e) => {
            return Err(e);
        },
    };
    let json_len = json.as_str().unicode_len();
    proof {
        crate::text::lemma_ascii_encode(json@);
    }
    match validate_metadata_record(json.as_str(), md.allow_prerelease_suffix) {
        Ok(()) => {},
        Err(e) => {
            return Err(e);
        },
    }
    let notes = metadata_note_lines(json.as_str());

    let padding = NOTE_ALIGN - (json_len % NOTE_ALIGN);
    let mut descriptor = String::from_str(json.as_str());
    let mut k: usize = 0;
    while k < padding
        invariant
            k <= padding,
            descriptor@ == json@ + Seq::new(k as nat, |i: int| '\0'),
        decreases padding - k,
    {
        push_char(&mut descriptor, '\0');
        k = k + 1;
        proof {
            assert(descriptor@ =~= json@ + Seq::new(k as nat, |i: int| '\0'));
        }
    }
    proof {
        let nuls = Seq::new(padding as nat, |i: int| '\0');
        assert(is_ascii_chars(nuls));
        crate::text::lemma_ascii_concat(json@, nuls);
        crate::text::lemma_ascii_encode(descriptor@);
        crate::text::lemma_ascii_bytes_concat(json@, nuls);
        assert(ascii_bytes(nuls) =~= zeros(padding as nat));
        reveal_strlit("FDO");
        crate::text::lemma_ascii_encode("FDO"@);
        assert(ascii_bytes("FDO"@) =~= owner_bytes());
        assert((4u64 & 3u64) == 0) by (bit_vector);
    }
    let note = match NoteSection::new(N_TYPE, OWNER, descriptor.as_str(), body.as_str(), NOTE_ALIGN) {
        Ok(n) => n,
        Err(e) => {
            return Err(e);
        },
    };
    let mut body_file = String::from_str(
        "/* Linker-script fragment. Inlined inside linker_script.ld; not a standalone script. */\n",
    );
    let trimmed = trim_newlines_front(body.as_str());
    body_file.append(trimmed.as_str());
    Ok(EmbedPlan { json, linker_script_body: body, linker_script_body_file: body_file, note, notes })
}

/// One-call entry point: converts `info` to `PackageMetadata` and computes
/// the artifacts of embedding it. Fails as `validate_embedded_json` does on
/// the record: the whole `moduleVersion` must be four dot-separated `u16`
/// parts (an `Info` allows no pre-release / build suffix).
pub fn new(info: Info) -> (r: ModuleInfoResult<EmbedPlan>)
    ensures
        plans(r, info_to_metadata(info)),
{
    let md = PackageMetadata::from(info);
    plan_embedding(&md)
}

} // verus!

verus! {

/// The embedded note is the 12-byte header, the owner `FDO\0`, and then
/// exactly the bytes the linker-script body emits (the JSON record and its
/// NUL padding, already 4-byte aligned), so the note's descriptor size
/// covers the whole payload the section holds.
pub proof fn lemma_note_descriptor_is_body_payload(md: PackageMetadata)
    requires
        payload(note_body_pieces(md)).len() + 3 <= u32::MAX,
    ensures
        note_bytes(N_TYPE, owner_bytes(), payload(note_body_pieces(md)), NOTE_ALIGN) == note_header(
            4,
            payload(note_body_pieces(md)).len() as u32,
            N_TYPE,
        ) + seq![0x46u8, 0x44u8, 0x4fu8, 0u8] + payload(note_body_pieces(md)),
        note_bytes(N_TYPE, owner_bytes(), payload(note_body_pieces(md)), NOTE_ALIGN).len() % 4 == 0,
{
    crate::metadata::lemma_body_payload(md);
    let b = payload(note_body_pieces(md));
    assert((4u64 & 3u64) == 0) by (bit_vector);
    crate::note_section::lemma_align_len(b.len() as u32, 4);
    crate::note_section::lemma_align_len(4, 4);
    assert(crate::note_section::align_len_spec(b.len() as u32, 4) == b.len());
    assert(crate::note_section::align_len_spec(4, 4) == 4);
    assert(owner_bytes().push(0u8) =~= seq![0x46u8, 0x44u8, 0x4fu8, 0u8]);
}

} // verus!
