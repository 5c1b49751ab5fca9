use module_info::sanitize_for_linker_script;

/// After sanitizing, the bytes `serde_json::to_string` emits for the value
/// equal the bytes the linker script writes (the value wrapped in quotes).
fn assert_sanitize_json_agreement(raw: &str) {
    let sanitized = sanitize_for_linker_script(raw);
    let linker_bytes = format!("\"{sanitized}\"");
    let json_bytes = match serde_json::to_string(&sanitized) {
        Ok(s) => s,
        Err(e) => panic!("serde_json::to_string on a plain String failed: {e}"),
    };
    assert_eq!(
        linker_bytes, json_bytes,
        "sanitized input {raw:?} produced diverging linker vs. JSON bytes"
    );
    assert_eq!(
        linker_bytes.len(),
        json_bytes.len(),
        "sanitized input {raw:?} produced diverging byte lengths"
    );
}

#[test]
fn sanitize_strips_quote_and_backslash() {
    let s = sanitize_for_linker_script("a\"b\\c");
    assert_eq!(s, "abc");
    assert_sanitize_json_agreement("a\"b\\c");
}

#[test]
fn sanitize_strips_control_chars() {
    let s = sanitize_for_linker_script("line1\nline2\r\nx\ty\0z");
    assert_eq!(s, "line1line2xyz");
    assert_sanitize_json_agreement("line1\nline2\r\nx\ty\0z");
}

#[test]
fn sanitize_maps_common_glyphs_to_ascii() {
    let s = sanitize_for_linker_script("Contoso© Fabrikam® / Widgets™");
    assert_eq!(s, "Contoso(c) Fabrikam(r) / Widgets(tm)");
    assert_sanitize_json_agreement("Contoso© Fabrikam® / Widgets™");
}

#[test]
fn sanitize_strips_generic_non_ascii() {
    let s = sanitize_for_linker_script("André naïve 日本");
    assert_eq!(s, "Andr nave ");
    assert_sanitize_json_agreement("André naïve 日本");
}

#[test]
fn sanitize_preserves_star_slash_for_paths_and_versions() {
    let s = sanitize_for_linker_script("path/to/*.rs v1.2.3+build");
    assert_eq!(s, "path/to/*.rs v1.2.3+build");
    assert_sanitize_json_agreement("path/to/*.rs v1.2.3+build");
}

#[test]
fn sanitize_keeps_star_slash_sequence_literally() {
    let raw = "hello*/world";
    let s = sanitize_for_linker_script(raw);
    assert_eq!(s, "hello*/world");
    assert_sanitize_json_agreement(raw);
}

#[test]
fn sanitize_handles_empty_string() {
    let s = sanitize_for_linker_script("");
    assert_eq!(s, "");
    assert_sanitize_json_agreement("");
}

#[test]
fn sanitize_handles_only_stripped_chars() {
    let s = sanitize_for_linker_script("\"\\\n\t日");
    assert_eq!(s, "");
    assert_sanitize_json_agreement("\"\\\n\t日");
}

#[test]
fn sanitize_is_idempotent() {
    let inputs = [
        "Contoso© Fabrikam® Widgets™ / path*/here",
        "Copyright (c) Contoso (2024), (r) (tm)",
        "(c)(r)(tm) only",
        "",
    ];
    for raw in inputs {
        let once = sanitize_for_linker_script(raw);
        let mut current = once.clone();
        for pass in 2..=4 {
            let next = sanitize_for_linker_script(&current);
            assert_eq!(
                next, once,
                "sanitize pass {pass} for input {raw:?} diverged from pass 1 output {once:?}; got {next:?}"
            );
            current = next;
        }
    }
}

#[test]
fn sanitize_output_is_printable_ascii_without_quotes() {
    let s = sanitize_for_linker_script("a\u{7f}b\u{1}c~ \"\\©");
    assert_eq!(s, "abc~ (c)");
    assert!(s.chars().all(|c| (' '..='~').contains(&c) && c != '"' && c != '\\'));
}
