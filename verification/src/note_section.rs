use vstd::prelude::*;
use vstd::string::StringSliceAdditionalSpecFns;

use crate::error::{ModuleInfoError, ModuleInfoResult};
use crate::linker::{bytes_to_linker_directives, directives};
use crate::metadata::zeros;
use crate::text::{decimal, push_decimal};

verus! {

/// `a` is a power of two.
pub open spec fn is_pow2(a: int) -> bool {
    a > 0 && (a as u64) & ((a - 1) as u64) == 0 && a <= u64::MAX
}

/// The alignment as a `u32` (saturating).
pub open spec fn align_u32(align: usize) -> u32 {
    if align <= u32::MAX {
        align as u32
    } else {
        u32::MAX
    }
}

/// `len` rounded up to the `align` boundary; `u32::MAX` when that does not
/// fit in a `u32`.
pub open spec fn align_len_spec(len: u32, align: usize) -> u32 {
    let mask = (align_u32(align) - 1) as u32;
    if len + mask <= u32::MAX {
        ((len + mask) as u32) & !mask
    } else {
        u32::MAX
    }
}

/// Rounds `len` up to the given power-of-two `align` boundary, saturating
/// to `u32::MAX` when the rounded value does not fit; the result is never
/// below `len`.
pub fn align_len(len: u32, align: usize) -> (r: u32)
    requires
        is_pow2(align as int),
    ensures
        r == align_len_spec(len, align),
        r >= len,
{
    proof {
        let mask = (align_u32(align) - 1) as u32;
        if len + mask <= u32::MAX {
            assert(((len + mask) as u32) & !mask >= len) by (bit_vector)
                requires
                    len + mask <= u32::MAX,
            ;
        }
    }
    let align_u32: u32 = if align <= 0xffff_ffffusize {
        align as u32
    } else {
        u32::MAX
    };
    let mask = align_u32.saturating_sub(1);
    match len.checked_add(mask) {
        Some(sum) => sum & !mask,
        None => u32::MAX,
    }
}

proof fn lemma_round_up(len: u32, a: u32)
    requires
        a > 0,
        a & ((a - 1) as u32) == 0,
        len + (a - 1) <= u32::MAX,
    ensures
        ((len + (a - 1)) as u32) & !((a - 1) as u32) >= len,
        (((len + (a - 1)) as u32) & !((a - 1) as u32)) - len < a,
        (((len + (a - 1)) as u32) & !((a - 1) as u32)) % a == 0,
{
    assert(((len + (a - 1)) as u32) & !((a - 1) as u32) >= len) by (bit_vector)
        requires
            a > 0,
            a & ((a - 1) as u32) == 0,
            len + (a - 1) <= u32::MAX,
    ;
    assert((((len + (a - 1)) as u32) & !((a - 1) as u32)) - len < a) by (bit_vector)
        requires
            a > 0,
            a & ((a - 1) as u32) == 0,
            len + (a - 1) <= u32::MAX,
    ;
    assert((((len + (a - 1)) as u32) & !((a - 1) as u32)) % a == 0) by (bit_vector)
        requires
            a > 0,
            a & ((a - 1) as u32) == 0,
            len + (a - 1) <= u32::MAX,
    ;
}

/// Rounding up to a power-of-two boundary that fits in `u32`, when the
/// result does not saturate, yields the least multiple of `align` that is
/// at least `len`.
pub proof fn lemma_align_len(len: u32, align: usize)
    requires
        is_pow2(align as int),
        align <= u32::MAX,
        len + align - 1 <= u32::MAX,
    ensures
        align_len_spec(len, align) >= len,
        align_len_spec(len, align) - len < align,
        (align_len_spec(len, align) as int) % (align as int) == 0,
{
    let a = align as u32;
    assert(a & ((a - 1) as u32) == 0) by (bit_vector)
        requires
            (align as u64) & ((align - 1) as u64) == 0,
            a == align,
            align > 0,
            align <= u32::MAX,
    ;
    lemma_round_up(len, a);
}

} // verus!

verus! {

/// The little-endian bytes of a `u32`.
pub open spec fn le32(x: u32) -> Seq<u8> {
    seq![x as u8, (x >> 8u32) as u8, (x >> 16u32) as u8, (x >> 24u32) as u8]
}

/// `b` extended with zero bytes up to length `n` (unchanged when already
/// at least that long).
pub open spec fn pad_to(b: Seq<u8>, n: nat) -> Seq<u8> {
    if b.len() < n {
        b + zeros((n - b.len()) as nat)
    } else {
        b
    }
}

/// The 12-byte note header: `n_namesz`, `n_descsz`, `n_type`.
pub open spec fn note_header(namesz: u32, descsz: u32, n_type: u32) -> Seq<u8> {
    le32(namesz) + le32(descsz) + le32(n_type)
}

/// The owner name with its NUL terminator, padded to the alignment.
pub open spec fn owner_block(owner: Seq<u8>, align: usize) -> Seq<u8> {
    pad_to(owner.push(0u8), align_len_spec((owner.len() + 1) as u32, align) as nat)
}

/// The descriptor padded to the alignment (no terminator).
pub open spec fn desc_block(desc: Seq<u8>, align: usize) -> Seq<u8> {
    pad_to(desc, align_len_spec(desc.len() as u32, align) as nat)
}

/// The complete note: header, owner block, descriptor block.
pub open spec fn note_bytes(n_type: u32, owner: Seq<u8>, desc: Seq<u8>, align: usize) -> Seq<u8> {
    note_header((owner.len() + 1) as u32, desc.len() as u32, n_type) + owner_block(owner, align)
        + desc_block(desc, align)
}

/// The linker script that places the note in `.note.package`.
pub open spec fn note_script(
    header_hex: Seq<char>,
    owner_hex: Seq<char>,
    desc_encoded: Seq<char>,
    align: usize,
) -> Seq<char> {
    "/* This linker script is auto-generated. Do not edit manually. */\n/* Generated by module_info crate */\nSECTIONS\n{\n  .note.package : ALIGN("@
        + decimal(align as nat) + ") {\n    KEEP(*(.note.package))\n    /* Note section header */\n"@
        + header_hex + "\n    /* Owner string */\n"@ + owner_hex
        + "\n\n    /* Description data */"@ + desc_encoded
        + "\n  }\n}\nINSERT AFTER .note.gnu.build-id;\n/* End of linker script */\n"@
}

/// The error `NoteSection::new` reports for the given owner and descriptor
/// lengths, if any.
pub open spec fn note_error(owner_len: nat, desc_len: nat) -> Option<Seq<char>> {
    if desc_len > u32::MAX {
        Some("note description exceeds u32 range: "@ + decimal(desc_len) + " bytes"@)
    } else if owner_len > u32::MAX {
        Some("note owner exceeds u32 range: "@ + decimal(owner_len) + " bytes"@)
    } else if owner_len + 1 > u32::MAX {
        Some("note owner length + null terminator overflows u32"@)
    } else if owner_len + 1 < 4 {
        Some("n_namesz="@ + decimal(owner_len + 1) + " looks wrong \u{2014} the FDO-packaged owner name is 4 bytes (\"FDO\\0\")"@)
    } else {
        None
    }
}

/// An ELF note and the linker script that reproduces it.
pub struct NoteSection {
    /// The note bytes: header, owner block, descriptor block.
    pub note_section: Vec<u8>,
    /// The linker script that places the note in `.note.package`.
    pub linker_script: String,
}

fn push_le32(v: &mut Vec<u8>, x: u32)
    ensures
        final(v)@ == old(v)@ + le32(x),
{
    v.push(x as u8);
    v.push((x >> 8u32) as u8);
    v.push((x >> 16u32) as u8);
    v.push((x >> 24u32) as u8);
    assert(final(v)@ =~= old(v)@ + le32(x));
}

fn push_bytes(v: &mut Vec<u8>, s: &[u8])
    ensures
        final(v)@ == old(v)@ + s@,
{
    let ghost start = v@;
    let mut i: usize = 0;
    while i < s.len()
        invariant
            i <= s@.len(),
            v@ == start + s@.take(i as int),
        decreases s@.len() - i,
    {
        v.push(s[i]);
        i = i + 1;
        assert(v@ =~= start + s@.take(i as int));
    }
    assert(s@.take(s@.len() as int) =~= s@);
}

fn pad_zeros(v: &mut Vec<u8>, n: usize)
    ensures
        final(v)@ == pad_to(old(v)@, n as nat),
{
    let ghost start = v@;
    while v.len() < n
        invariant
            start.len() <= v@.len() <= if start.len() < n { n as int } else { start.len() as int },
            v@ == start + zeros((v@.len() - start.len()) as nat),
        decreases n - v@.len(),
    {
        v.push(0u8);
        assert(v@ =~= start + zeros((v@.len() - start.len()) as nat));
    }
    assert(start + zeros(0) =~= start);
}

impl NoteSection {
    /// Builds an ELF note with the given type, owner and descriptor, and
    /// the linker script that emits it (with `linker_script_desc` as the
    /// description data).
    pub fn new(
        n_type: u32,
        owner: &str,
        desc: &str,
        linker_script_desc: &str,
        align: usize,
    ) -> (r: ModuleInfoResult<Self>)
        requires
            note_error(owner.spec_bytes().len(), desc.spec_bytes().len()) is None ==> is_pow2(
                align as int,
            ),
        ensures
            match note_error(owner.spec_bytes().len(), desc.spec_bytes().len()) {
                Some(msg) => r matches Err(ModuleInfoError::Other(m)) && m@ == msg,
                None => r matches Ok(ns) && ns.note_section@ == note_bytes(
                    n_type,
                    owner.spec_bytes(),
                    desc.spec_bytes(),
                    align,
                ) && ns.linker_script@ == note_script(
                    directives(note_header((owner.spec_bytes().len() + 1) as u32, desc.spec_bytes().len() as u32, n_type)),
                    directives(owner_block(owner.spec_bytes(), align)),
                    linker_script_desc@,
                    align,
                ) && ns.note_section@.subrange(12, 12 + owner.spec_bytes().len() as int + 1) == owner.spec_bytes().push(0u8)
                    && ns.linker_script@ == script_head(align) + directives(ns.note_section@.take(12))
                    + "\n    /* Owner string */\n"@ + directives(
                    ns.note_section@.subrange(12, owner_block_end(owner.spec_bytes().len(), align)),
                ) + "\n\n    /* Description data */"@ + linker_script_desc@ + script_tail(),
            },
    {
        proof {
            if note_error(owner.spec_bytes().len(), desc.spec_bytes().len()) is None {
                lemma_script_emits_note(n_type, owner.spec_bytes(), desc.spec_bytes(), linker_script_desc@, align);
            }
        }
        let owner_bytes = owner.as_bytes();
        let desc_bytes = desc.as_bytes();
        if desc_bytes.len() > 0xffff_ffffusize {
            let mut m = String::from_str("note description exceeds u32 range: ");
            push_decimal(&mut m, desc_bytes.len());
            m.append(" bytes");
            return Err(ModuleInfoError::Other(m));
        }
        let desc_len = desc_bytes.len() as u32;
        if owner_bytes.len() > 0xffff_ffffusize {
            let mut m = String::from_str("note owner exceeds u32 range: ");
            push_decimal(&mut m, owner_bytes.len());
            m.append(" bytes");
            return Err(ModuleInfoError::Other(m));
        }
        let owner_len_u32 = owner_bytes.len() as u32;
        let n_namesz = match owner_len_u32.checked_add(1) {
            Some(v) => v,
            None => {
                return Err(
                    ModuleInfoError::Other(
                        String::from_str("note owner length + null terminator overflows u32"),
                    ),
                );
            },
        };
        if n_namesz < 4 {
            let mut m = String::from_str("n_namesz=");
            push_decimal(&mut m, n_namesz as usize);
            m.append(" looks wrong \u{2014} the FDO-packaged owner name is 4 bytes (\"FDO\\0\")");
            return Err(ModuleInfoError::Other(m));
        }

        let aligned_owner_len = align_len(n_namesz, align);
        let aligned_desc_len = align_len(desc_len, align);

        let mut header: Vec<u8> = Vec::new();
        push_le32(&mut header, n_namesz);
        push_le32(&mut header, desc_len);
        push_le32(&mut header, n_type);

        let mut owner_block: Vec<u8> = Vec::new();
        push_bytes(&mut owner_block, owner_bytes);
        owner_block.push(0u8);
        pad_zeros(&mut owner_block, aligned_owner_len as usize);

        let mut desc_block: Vec<u8> = Vec::new();
        push_bytes(&mut desc_block, desc_bytes);
        pad_zeros(&mut desc_block, aligned_desc_len as usize);

        let mut note_section: Vec<u8> = Vec::new();
        push_bytes(&mut note_section, header.as_slice());
        push_bytes(&mut note_section, owner_block.as_slice());
        push_bytes(&mut note_section, desc_block.as_slice());

        let header_hex = bytes_to_linker_directives(header.as_slice());
        let owner_hex = bytes_to_linker_directives(owner_block.as_slice());
        let linker_script = Self::generate_linker_script(
            header_hex.as_str(),
            owner_hex.as_str(),
            linker_script_desc,
            align,
        );
        proof {
            assert(header@ =~= note_header(n_namesz, desc_len, n_type));
            assert(owner_bytes@.push(0u8) =~= owner_bytes@ + seq![0u8]);
            assert(note_section@ =~= note_bytes(n_type, owner_bytes@, desc_bytes@, align));
        }
        Ok(NoteSection { note_section, linker_script })
    }

    /// The linker script for the note, with `align` in the `ALIGN(..)`
    /// directive.
    fn generate_linker_script(
        header_hex: &str,
        owner_hex: &str,
        desc_encoded: &str,
        align: usize,
    ) -> (r: String)
        ensures
            r@ == note_script(header_hex@, owner_hex@, desc_encoded@, align),
    {
        let mut s = String::from_str(
            "/* This linker script is auto-generated. Do not edit manually. */\n/* Generated by module_info crate */\nSECTIONS\n{\n  .note.package : ALIGN(",
        );
        push_decimal(&mut s, align);
        s.append(") {\n    KEEP(*(.note.package))\n    /* Note section header */\n");
        s.append(header_hex);
        s.append("\n    /* Owner string */\n");
        s.append(owner_hex);
        s.append("\n\n    /* Description data */");
        s.append(desc_encoded);
        s.append("\n  }\n}\nINSERT AFTER .note.gnu.build-id;\n/* End of linker script */\n");
        s
    }
}

} // verus!

verus! {

proof fn lemma_pad_to_len(b: Seq<u8>, n: nat)
    requires
        b.len() <= n,
    ensures
        pad_to(b, n).len() == n,
        pad_to(b, n).subrange(0, b.len() as int) == b,
{
    if b.len() < n {
        assert(pad_to(b, n).subrange(0, b.len() as int) =~= b);
    } else {
        assert(pad_to(b, n).subrange(0, b.len() as int) =~= b);
    }
}

/// Layout of a note built with 4-byte alignment (when the padded sizes fit
/// in `u32`): the total length is a multiple of 4, the header holds the
/// owner size with its terminator, the descriptor size and the type in
/// little-endian order, and the owner bytes follow the 12-byte header.
pub proof fn lemma_note_layout(n_type: u32, owner: Seq<u8>, desc: Seq<u8>)
    requires
        owner.len() + 1 + 3 <= u32::MAX,
        desc.len() + 3 <= u32::MAX,
    ensures
        note_bytes(n_type, owner, desc, 4).len() % 4 == 0,
        note_bytes(n_type, owner, desc, 4).subrange(0, 4) == le32((owner.len() + 1) as u32),
        note_bytes(n_type, owner, desc, 4).subrange(4, 8) == le32(desc.len() as u32),
        note_bytes(n_type, owner, desc, 4).subrange(8, 12) == le32(n_type),
        note_bytes(n_type, owner, desc, 4).subrange(12, 12 + owner.len() as int) == owner,
        note_bytes(n_type, owner, desc, 4)[12 + owner.len() as int] == 0u8,
{
    assert((4u64 & 3u64) == 0) by (bit_vector);
    assert(is_pow2(4));
    let namesz = (owner.len() + 1) as u32;
    let descsz = desc.len() as u32;
    lemma_align_len(namesz, 4);
    lemma_align_len(descsz, 4);
    let ob = owner_block(owner, 4);
    let db = desc_block(desc, 4);
    lemma_pad_to_len(owner.push(0u8), align_len_spec(namesz, 4) as nat);
    lemma_pad_to_len(desc, align_len_spec(descsz, 4) as nat);
    let h = note_header(namesz, descsz, n_type);
    let all = note_bytes(n_type, owner, desc, 4);
    assert(all == h + ob + db);
    assert(h.len() == 12);
    assert(all.subrange(0, 4) =~= le32(namesz));
    assert(all.subrange(4, 8) =~= le32(descsz));
    assert(all.subrange(8, 12) =~= le32(n_type));
    assert(ob.subrange(0, owner.len() as int + 1) == owner.push(0u8));
    assert(all.subrange(12, 12 + owner.len() as int) =~= owner) by {
        assert forall|i: int| 0 <= i < owner.len() implies all.subrange(12, 12 + owner.len() as int)[i] == owner[i] by {
            assert(all[12 + i] == ob[i]);
            assert(ob[i] == ob.subrange(0, owner.len() as int + 1)[i]);
        }
    }
    assert(all[12 + owner.len() as int] == ob[owner.len() as int]);
    assert(ob[owner.len() as int] == ob.subrange(0, owner.len() as int + 1)[owner.len() as int]);
}

} // verus!

verus! {

/// The text the linker script starts with, up to the header's `BYTE`
/// directives.
pub open spec fn script_head(align: usize) -> Seq<char> {
    "/* This linker script is auto-generated. Do not edit manually. */\n/* Generated by module_info crate */\nSECTIONS\n{\n  .note.package : ALIGN("@
        + decimal(align as nat) + ") {\n    KEEP(*(.note.package))\n    /* Note section header */\n"@
}

/// The text the linker script ends with, after the description data.
pub open spec fn script_tail() -> Seq<char> {
    "\n  }\n}\nINSERT AFTER .note.gnu.build-id;\n/* End of linker script */\n"@
}

/// Where the owner block of a note ends: after the 12-byte header and the
/// owner name with its NUL, padded to the alignment.
pub open spec fn owner_block_end(owner_len: nat, align: usize) -> int {
    12 + align_len_spec((owner_len + 1) as u32, align)
}

proof fn lemma_align_len_spec_ge(len: u32, align: usize)
    requires
        is_pow2(align as int),
    ensures
        align_len_spec(len, align) >= len,
{
    let mask = (align_u32(align) - 1) as u32;
    if len + mask <= u32::MAX {
        assert(((len + mask) as u32) & !mask >= len) by (bit_vector)
            requires
                len + mask <= u32::MAX,
        ;
    }
}

/// The linker script emits the note byte for byte: after its fixed head
/// come the `BYTE` directives of the note's 12 header bytes, then, under
/// the owner comment, those of the owner block (the owner name, its NUL and
/// the padding), then the description data.
pub proof fn lemma_script_emits_note(n_type: u32, owner: Seq<u8>, desc: Seq<u8>, body: Seq<char>, align: usize)
    requires
        note_error(owner.len(), desc.len()) is None,
        is_pow2(align as int),
    ensures
        ({
            let nb = note_bytes(n_type, owner, desc, align);
            let k = owner_block_end(owner.len(), align);
            &&& 12 + owner.len() + 1 <= k <= nb.len()
            &&& nb.subrange(12, 12 + owner.len() as int + 1) == owner.push(0u8)
            &&& note_script(
                directives(note_header((owner.len() + 1) as u32, desc.len() as u32, n_type)),
                directives(owner_block(owner, align)),
                body,
                align,
            ) == script_head(align) + directives(nb.take(12)) + "\n    /* Owner string */\n"@
                + directives(nb.subrange(12, k)) + "\n\n    /* Description data */"@ + body + script_tail()
        }),
{
    let namesz = (owner.len() + 1) as u32;
    let nb = note_bytes(n_type, owner, desc, align);
    let h = note_header(namesz, desc.len() as u32, n_type);
    let ob = owner_block(owner, align);
    let db = desc_block(desc, align);
    lemma_align_len_spec_ge(namesz, align);
    lemma_align_len_spec_ge(desc.len() as u32, align);
    lemma_pad_to_len(owner.push(0u8), align_len_spec(namesz, align) as nat);
    lemma_pad_to_len(desc, align_len_spec(desc.len() as u32, align) as nat);
    assert(h.len() == 12);
    assert(nb == h + ob + db);
    assert(nb.take(12) =~= h);
    let k = owner_block_end(owner.len(), align);
    assert(nb.subrange(12, k) =~= ob);
    assert(nb.subrange(12, 12 + owner.len() as int + 1) =~= ob.subrange(0, owner.len() as int + 1));
}

} // verus!
