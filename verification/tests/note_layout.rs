use module_info::cargo_directives::{link_arg_directive, rerun_if_directives};
use module_info::constants::{NOTE_ALIGN, N_TYPE, OWNER};
use module_info::linker::bytes_to_linker_directives;
use module_info::note_section::{align_len, NoteSection};
use module_info::ModuleInfoError;

#[test]
fn test_align_len() {
    assert_eq!(align_len(5, NOTE_ALIGN), 8);
    assert_eq!(align_len(8, NOTE_ALIGN), 8);
    assert_eq!(align_len(9, NOTE_ALIGN), 12);
}

#[test]
fn align_len_edge_cases() {
    assert_eq!(align_len(0, NOTE_ALIGN), 0);
    assert_eq!(align_len(1, 1), 1);
    assert_eq!(align_len(13, 8), 16);
    // No aligned value fits: saturate rather than round down.
    assert_eq!(align_len(u32::MAX - 1, NOTE_ALIGN), u32::MAX);
    assert_eq!(align_len(u32::MAX - 3, NOTE_ALIGN), u32::MAX - 3);
}

#[test]
fn note_section_is_4byte_aligned_for_every_residue() {
    for desc_len in [0usize, 1, 2, 3, 4, 5, 7, 8, 17, 100, 1023] {
        let desc = "x".repeat(desc_len);
        let note = match NoteSection::new(N_TYPE, OWNER, &desc, "", NOTE_ALIGN) {
            Ok(n) => n,
            Err(e) => panic!("NoteSection::new failed for desc_len={desc_len}: {e:?}"),
        };
        assert_eq!(
            note.note_section.len() % NOTE_ALIGN,
            0,
            "note section must be 4-byte aligned (desc_len={desc_len}, got {})",
            note.note_section.len()
        );
    }
}

#[test]
fn test_save_section() {
    let desc_json = r#"{"binary":"test","version":"1.0.0"}"#;
    let linker_script_body = "BYTE(0x01); BYTE(0x02);";
    let note = match NoteSection::new(N_TYPE, OWNER, desc_json, linker_script_body, NOTE_ALIGN) {
        Ok(n) => n,
        Err(e) => panic!("NoteSection::new failed: {e:?}"),
    };
    let buffer = note.note_section.clone();
    assert!(!buffer.is_empty());
    assert!(buffer.len() >= 12);
    let owner_bytes = OWNER.as_bytes();
    assert_eq!(&buffer[12..12 + owner_bytes.len()], owner_bytes);
    assert_eq!(&buffer[8..12], &N_TYPE.to_le_bytes());
}

#[test]
fn note_section_exact_bytes() {
    let note = match NoteSection::new(N_TYPE, OWNER, "abcde", "    BYTE(0x61);", NOTE_ALIGN) {
        Ok(n) => n,
        Err(e) => panic!("NoteSection::new failed: {e:?}"),
    };
    let mut expected = Vec::new();
    expected.extend_from_slice(&4u32.to_le_bytes());
    expected.extend_from_slice(&5u32.to_le_bytes());
    expected.extend_from_slice(&N_TYPE.to_le_bytes());
    expected.extend_from_slice(b"FDO\0");
    expected.extend_from_slice(b"abcde\0\0\0");
    assert_eq!(note.note_section, expected);
    assert!(note.linker_script.contains("    BYTE(0x61);"));
    assert!(note.linker_script.contains("SECTIONS"));
    assert!(note.linker_script.contains("INSERT AFTER .note.gnu.build-id;"));
    assert!(note.linker_script.contains("    BYTE(0x7E);\n    BYTE(0x1A);\n    BYTE(0xFE);\n    BYTE(0xCA);"));
}

#[test]
fn note_section_rejects_short_owner() {
    match NoteSection::new(N_TYPE, "FD", "{}", "", NOTE_ALIGN) {
        Err(ModuleInfoError::Other(m)) => assert_eq!(
            m,
            "n_namesz=3 looks wrong \u{2014} the FDO-packaged owner name is 4 bytes (\"FDO\\0\")"
        ),
        Err(e) => panic!("expected Other, got {e:?}"),
        Ok(_) => panic!("a 2-byte owner must be rejected"),
    }
    // The owner is rejected before the alignment is used.
    assert!(matches!(NoteSection::new(N_TYPE, "", "{}", "", 3), Err(ModuleInfoError::Other(_))));
}

#[test]
fn note_section_linker_script_layout() {
    let note = match NoteSection::new(N_TYPE, OWNER, "{}", "\nBODY", NOTE_ALIGN) {
        Ok(n) => n,
        Err(e) => panic!("NoteSection::new failed: {e:?}"),
    };
    assert!(note.linker_script.starts_with(
        "/* This linker script is auto-generated. Do not edit manually. */\n/* Generated by module_info crate */\nSECTIONS\n{\n  .note.package : ALIGN(4) {\n"
    ));
    assert!(note.linker_script.contains("    /* Description data */\nBODY\n  }\n}\nINSERT AFTER .note.gnu.build-id;\n"));
}

#[test]
fn bytes_to_linker_directives_formats_each_byte() {
    assert_eq!(bytes_to_linker_directives(&[0x7b, 0x0a, 0x00]), "    BYTE(0x7B);\n    BYTE(0x0A);\n    BYTE(0x00);");
    assert_eq!(bytes_to_linker_directives(&[]), "");
}

#[test]
fn link_arg_directive_gates_on_flag() {
    let p = "/tmp/linker_script.ld";
    match link_arg_directive(p, true) {
        Some(d) => assert_eq!(d, "cargo:rustc-link-arg=-T/tmp/linker_script.ld"),
        None => panic!("emit_cargo_link_arg=true must produce a directive"),
    }
    assert!(link_arg_directive(p, false).is_none(), "emit_cargo_link_arg=false must suppress the directive");
}

#[test]
fn rerun_directives_cover_inputs() {
    let d = rerun_if_directives();
    assert_eq!(
        d,
        vec![
            "cargo:rerun-if-changed=Cargo.toml",
            "cargo:rerun-if-changed=build.rs",
            "cargo:rerun-if-changed=.git/HEAD",
            "cargo:rerun-if-changed=.git/refs",
            "cargo:rerun-if-changed=.git/packed-refs",
            "cargo:rerun-if-changed=/etc/os-release",
            "cargo:rerun-if-env-changed=MODULE_INFO_DEBUG",
            "cargo:rerun-if-env-changed=CARGO_PKG_NAME",
            "cargo:rerun-if-env-changed=CARGO_PKG_VERSION",
        ]
    );
}
