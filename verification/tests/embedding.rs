use module_info::embed::plan_embedding;
use module_info::json::{document_note_lines, metadata_note_lines, validate_embedded_json, validate_metadata_record, JsonDocument, JsonEntry, JsonMember};
use module_info::metadata::render_note_payloads;
use module_info::runtime::extract_module_value;
use module_info::{new, EmbedOptions, Info, ModuleInfoError, ModuleInfoField, PackageMetadata};

fn sample() -> PackageMetadata {
    let mut md = PackageMetadata::default();
    md.binary = "test_binary".into();
    md.name = "test_binary".into();
    md.version = "1.2.3".into();
    md.module_version = "1.2.3.4".into();
    md.maintainer = "team@contoso.com".into();
    md.hash = "deadbeefdeadbeefdeadbeefdeadbeefdeadbeef".into();
    md.module_type = "agent".into();
    md.repo = "test_repo".into();
    md.branch = "main".into();
    md.copyright = "Test".into();
    md.os = "Ubuntu".into();
    md.os_version = "22.04".into();
    md
}

#[test]
fn test_package_metadata_default_construction() {
    let mut md = PackageMetadata::default();
    md.binary = "my_tool".into();
    md.name = "my_tool".into();
    md.version = "1.2.3".into();
    md.module_version = "1.2.3.4".into();
    md.maintainer = "team@contoso.com".into();
    md.hash = "deadbeefdeadbeefdeadbeefdeadbeefdeadbeef".into();
    assert_eq!(md.binary, "my_tool");
    assert_eq!(md.version, "1.2.3");
    assert_eq!(md.module_version, "1.2.3.4");
    assert_eq!(md.module_type, "");
    assert_eq!(md.repo, "");
    assert_eq!(md.os, "");
}

#[test]
fn test_embed_options_default_preserves_bc_behavior() {
    let opts = EmbedOptions::default();
    assert!(opts.out_dir.is_none());
    assert!(opts.emit_cargo_link_arg);
}

#[test]
fn render_note_payloads_always_emits_nul_padding() {
    for suffix_len in 0..=4 {
        let suffix = "x".repeat(suffix_len);
        let mut md = PackageMetadata::default();
        md.binary = format!("b{suffix}");
        md.name = format!("n{suffix}");
        md.version = "1.0.0".into();
        md.module_version = "1.0.0.0".into();
        md.maintainer = "m".into();
        md.os = "linux".into();
        md.os_version = "22.04".into();
        let (_json, linker_script_body) = match render_note_payloads(&md) {
            Ok(p) => p,
            Err(e) => panic!("render failed: {e:?}"),
        };
        assert!(
            linker_script_body.contains("BYTE(0x00);"),
            "linker script must contain a BYTE(0x00) even when the payload is 4-aligned (suffix_len={suffix_len})"
        );
    }
}

#[test]
fn info_struct_literal_and_conversion() {
    let info = Info {
        binary: "b".into(),
        version: "1.2.3".into(),
        moduleVersion: "1.2.3.4".into(),
        maintainer: "m".into(),
        name: "n".into(),
        type_: "agent".into(),
        repo: "r".into(),
        branch: "br".into(),
        hash: "h".into(),
        copyright: "c".into(),
        os: "o".into(),
        osVersion: "ov".into(),
    };
    let md: PackageMetadata = info.into();
    assert_eq!(md.binary, "b");
    assert_eq!(md.version, "1.2.3");
    assert_eq!(md.module_version, "1.2.3.4");
    assert_eq!(md.maintainer, "m");
    assert_eq!(md.name, "n");
    assert_eq!(md.module_type, "agent");
    assert_eq!(md.repo, "r");
    assert_eq!(md.branch, "br");
    assert_eq!(md.hash, "h");
    assert_eq!(md.copyright, "c");
    assert_eq!(md.os, "o");
    assert_eq!(md.os_version, "ov");
}

#[test]
fn info_default_fills_missing_fields_with_empty_strings() {
    let info = Info { binary: "b".into(), moduleVersion: "1.2.3.4".into(), ..Default::default() };
    assert_eq!(info.binary, "b");
    assert_eq!(info.moduleVersion, "1.2.3.4");
    assert_eq!(info.version, "");
    assert_eq!(info.type_, "");
    assert_eq!(info.osVersion, "");
}

#[test]
fn package_metadata_field_value_covers_all_variants() {
    let mut md = PackageMetadata::default();
    md.binary = "bv".into();
    md.version = "vv".into();
    md.module_version = "mv".into();
    md.maintainer = "mn".into();
    md.name = "nv".into();
    md.module_type = "tv".into();
    md.repo = "rv".into();
    md.branch = "bn".into();
    md.hash = "hv".into();
    md.copyright = "cv".into();
    md.os = "ov".into();
    md.os_version = "ov2".into();
    // The serialized shape of the metadata, keyed by the JSON names of its
    // fields (`moduleVersion`, `type` and `osVersion` are renamed).
    let mut record = serde_json::Map::new();
    for (k, v) in [
        ("binary", &md.binary),
        ("moduleVersion", &md.module_version),
        ("version", &md.version),
        ("maintainer", &md.maintainer),
        ("name", &md.name),
        ("type", &md.module_type),
        ("repo", &md.repo),
        ("branch", &md.branch),
        ("hash", &md.hash),
        ("copyright", &md.copyright),
        ("os", &md.os),
        ("osVersion", &md.os_version),
    ] {
        record.insert(k.to_string(), serde_json::Value::String(v.clone()));
    }
    let serialized = match serde_json::to_string(&serde_json::Value::Object(record)) {
        Ok(s) => s,
        Err(e) => panic!("serialization failed: {e}"),
    };
    let json: serde_json::Value = match serde_json::from_str(&serialized) {
        Ok(v) => v,
        Err(e) => panic!("serialized JSON does not parse: {e}"),
    };
    let (rendered_text, _) = match render_note_payloads(&md) {
        Ok(p) => p,
        Err(e) => panic!("render failed: {e:?}"),
    };
    let rendered: serde_json::Value = match serde_json::from_str(&rendered_text) {
        Ok(v) => v,
        Err(e) => panic!("rendered JSON does not parse: {e}"),
    };
    for field in ModuleInfoField::ALL {
        let from_method = md.field_value(field);
        let from_json = json
            .get(field.to_key())
            .and_then(|v| v.as_str())
            .unwrap_or_else(|| panic!("JSON missing key for {field:?}"));
        assert_eq!(from_method, from_json, "field_value and serde output disagree for {field:?}");
        assert_eq!(rendered.get(field.to_key()), json.get(field.to_key()), "record disagrees for {field:?}");
    }
}

#[test]
fn render_note_payloads_exact_json() {
    let md = sample();
    let (json, body) = match render_note_payloads(&md) {
        Ok(p) => p,
        Err(e) => panic!("render failed: {e:?}"),
    };
    assert_eq!(
        json,
        "{\n\"binary\":\"test_binary\",\n\"version\":\"1.2.3\",\n\"moduleVersion\":\"1.2.3.4\",\n\"maintainer\":\"team@contoso.com\",\n\"name\":\"test_binary\",\n\"type\":\"agent\",\n\"repo\":\"test_repo\",\n\"branch\":\"main\",\n\"hash\":\"deadbeefdeadbeefdeadbeefdeadbeefdeadbeef\",\n\"copyright\":\"Test\",\n\"os\":\"Ubuntu\",\n\"osVersion\":\"22.04\"\n}"
    );
    assert!(body.starts_with("\n    BYTE(0x7B);\n    BYTE(0x0A);"));
    assert!(body.contains("\n    module_info_binary = .;\n"));
    let bytes_in_body = body.matches("BYTE(0x").count();
    let padding = 4 - json.len() % 4;
    assert_eq!(bytes_in_body, json.len() + padding);
    assert_eq!((json.len() + padding) % 4, 0);
}

#[test]
fn render_sanitizes_values() {
    let mut md = sample();
    md.copyright = "Contoso© \"quoted\"".into();
    let (json, _) = match render_note_payloads(&md) {
        Ok(p) => p,
        Err(e) => panic!("render failed: {e:?}"),
    };
    assert!(json.contains("\"copyright\":\"Contoso(c) quoted\""));
}

#[test]
fn test_embed_package_metadata_rejects_empty_required_field() {
    let mut md = PackageMetadata::default();
    md.binary = "b".into();
    md.name = "n".into();
    md.version = "1.0.0".into();
    md.module_version = "1.0.0.0".into();
    md.maintainer = "m".into();
    md.os = "linux".into();
    match plan_embedding(&md) {
        Err(ModuleInfoError::MalformedJson(msg)) => {
            assert_eq!(msg, "Required field 'osVersion' is missing or empty")
        }
        Err(other) => panic!("expected MalformedJson, got {other:?}"),
        Ok(_) => panic!("embed must reject PackageMetadata with empty required field"),
    }
}

#[test]
fn plan_embedding_rejects_oversized_metadata() {
    let mut md = sample();
    md.copyright = "c".repeat(1000);
    match plan_embedding(&md) {
        Err(ModuleInfoError::MetadataTooLarge(msg)) => {
            assert!(msg.starts_with("Metadata size "), "{msg}");
            assert!(msg.ends_with(" exceeds limit of 1024 bytes"), "{msg}");
        }
        Err(other) => panic!("expected MetadataTooLarge, got {other:?}"),
        Ok(_) => panic!("oversized metadata must be rejected"),
    }
}

#[test]
fn plan_embedding_rejects_bad_module_version() {
    let mut md = sample();
    md.module_version = "1.2.3.99999".into();
    match plan_embedding(&md) {
        Err(ModuleInfoError::MalformedJson(msg)) => assert!(msg.contains("moduleVersion"), "{msg}"),
        Err(other) => panic!("expected MalformedJson, got {other:?}"),
        Ok(_) => panic!("bad module version must be rejected"),
    }
}

#[test]
fn plan_embedding_builds_consistent_artifacts() {
    let md = sample();
    let plan = match plan_embedding(&md) {
        Ok(p) => p,
        Err(e) => panic!("plan failed: {e:?}"),
    };
    let (json, body) = match render_note_payloads(&md) {
        Ok(p) => p,
        Err(e) => panic!("render failed: {e:?}"),
    };
    assert_eq!(plan.json, json);
    assert_eq!(plan.linker_script_body, body);
    assert!(plan
        .linker_script_body_file
        .starts_with("/* Linker-script fragment. Inlined inside linker_script.ld; not a standalone script. */\n    BYTE(0x7B);"));
    // Note: header, owner, then the JSON and its NUL padding.
    let padding = 4 - json.len() % 4;
    let note = &plan.note.note_section;
    assert_eq!(&note[0..4], &4u32.to_le_bytes());
    assert_eq!(&note[4..8], &((json.len() + padding) as u32).to_le_bytes());
    assert_eq!(&note[12..16], b"FDO\0");
    assert_eq!(&note[16..16 + json.len()], json.as_bytes());
    assert!(note[16 + json.len()..].iter().all(|b| *b == 0));
    assert_eq!(note.len(), 16 + json.len() + padding);
    assert!(plan.note.linker_script.contains(&body));
    assert_eq!(plan.notes.len(), 12);
    assert_eq!(plan.notes[0], "binary: test_binary");
    assert_eq!(plan.notes[11], "osVersion: 22.04");
}

#[test]
fn new_converts_info_and_plans() {
    let info = Info {
        binary: "b".into(),
        name: "n".into(),
        version: "1.2.3".into(),
        moduleVersion: "1.2.3.4".into(),
        maintainer: "m".into(),
        type_: "agent".into(),
        hash: "deadbeef".into(),
        os: "linux".into(),
        osVersion: "22.04".into(),
        ..Default::default()
    };
    let plan = match new(info) {
        Ok(p) => p,
        Err(e) => panic!("new failed: {e:?}"),
    };
    let parsed: serde_json::Value = match serde_json::from_str(&plan.json) {
        Ok(v) => v,
        Err(e) => panic!("JSON does not parse: {e}"),
    };
    assert_eq!(parsed["moduleVersion"], "1.2.3.4");
    assert_eq!(parsed["type"], "agent");
    assert_eq!(parsed["repo"], "");
}

#[test]
fn validate_embedded_json_rejects_missing_required_fields() {
    let bad_json = r#"{"binary":"b","version":"1.0.0","moduleVersion":"1.0.0.0","name":"n"}"#;
    match validate_embedded_json(bad_json) {
        Err(ModuleInfoError::MalformedJson(msg)) => assert!(msg.contains("maintainer"), "{msg}"),
        other => panic!("expected MalformedJson, got {other:?}"),
    }
}

#[test]
fn validate_embedded_json_rejects_empty_required_fields() {
    let bad_json = r#"{"binary":"b","version":"1.0.0","moduleVersion":"1.0.0.0","name":"n","maintainer":""}"#;
    match validate_embedded_json(bad_json) {
        Err(ModuleInfoError::MalformedJson(msg)) => assert!(msg.contains("maintainer"), "{msg}"),
        other => panic!("expected MalformedJson, got {other:?}"),
    }
}

#[test]
fn validate_embedded_json_accepts_empty_optional_fields() {
    let ok_json = r#"{"binary":"b","version":"1.0.0","moduleVersion":"1.0.0.0","name":"n","maintainer":"m","type":"","repo":"","branch":"","hash":"","copyright":"","os":"linux","osVersion":"1"}"#;
    if let Err(e) = validate_embedded_json(ok_json) {
        panic!("optional fields may be empty; only the identity keys are required. got {e:?}");
    }
}

#[test]
fn validate_embedded_json_rejects_bad_module_version() {
    let bad_json = r#"{"binary":"b","version":"1.0.0","moduleVersion":"1.2.3.99999","name":"n","maintainer":"m","os":"linux","osVersion":"22.04"}"#;
    match validate_embedded_json(bad_json) {
        Err(ModuleInfoError::MalformedJson(msg)) => assert!(msg.contains("moduleVersion"), "{msg}"),
        other => panic!("expected MalformedJson, got {other:?}"),
    }
}

#[test]
fn validate_embedded_json_rejects_non_object_and_bad_syntax() {
    match validate_embedded_json("[1,2]") {
        Err(ModuleInfoError::MalformedJson(msg)) => assert_eq!(msg, "Metadata must be a JSON object"),
        other => panic!("expected MalformedJson, got {other:?}"),
    }
    match validate_embedded_json("{") {
        Err(ModuleInfoError::MalformedJson(msg)) => assert!(!msg.is_empty()),
        other => panic!("expected MalformedJson, got {other:?}"),
    }
    let big = format!("{{\"x\":\"{}\"}}", "a".repeat(1100));
    match validate_embedded_json(&big) {
        Err(ModuleInfoError::MetadataTooLarge(msg)) => {
            assert_eq!(msg, format!("Metadata size {} exceeds limit of 1024 bytes", big.len()))
        }
        other => panic!("expected MetadataTooLarge, got {other:?}"),
    }
}

#[test]
fn test_json_key_value_parse() {
    let json_input = r#"{
"binary": "sample_crashing_process",
"moduleVersion": "0.1.0.0",
"version": "0.1.0",
"maintainer": "Maintainer contact/UUID etc",
"name": "sample_crashing_process",
"type": "agent",
"repo": "Module_Info",
"branch": "main",
"hash": "76930c41aa16e31bb1e565b12c4285cde1939af3",
"copyright": "Microsoft",
"os": "Ubuntu",
"osVersion": "20.04"
}
"#;
    let parsed: serde_json::Value = match serde_json::from_str(json_input) {
        Ok(v) => v,
        Err(e) => panic!("sample JSON does not parse: {e}"),
    };
    assert_eq!(parsed["binary"], "sample_crashing_process");
    assert_eq!(parsed["moduleVersion"], "0.1.0.0");
    assert_eq!(parsed["version"], "0.1.0");
    assert_eq!(parsed["maintainer"], "Maintainer contact/UUID etc");
    assert_eq!(parsed["name"], "sample_crashing_process");
    assert_eq!(parsed["type"], "agent");
    assert_eq!(parsed["repo"], "Module_Info");
    assert_eq!(parsed["branch"], "main");
    assert_eq!(parsed["hash"], "76930c41aa16e31bb1e565b12c4285cde1939af3");
    assert_eq!(parsed["copyright"], "Microsoft");
    assert_eq!(parsed["os"], "Ubuntu");
    assert_eq!(parsed["osVersion"], "20.04");

    let lines = metadata_note_lines(json_input);
    assert_eq!(lines[0], "binary: sample_crashing_process");
    assert_eq!(lines[1], "version: 0.1.0");
    assert_eq!(lines[2], "moduleVersion: 0.1.0.0");
    assert_eq!(lines[3], "maintainer: Maintainer contact/UUID etc");
    assert_eq!(lines[4], "name: sample_crashing_process");
    assert_eq!(lines[5], "type: agent");
    assert_eq!(lines[6], "repo: Module_Info");
    assert_eq!(lines[7], "branch: main");
    assert_eq!(lines[8], "hash: 76930c41aa16e31bb1e565b12c4285cde1939af3");
    assert_eq!(lines[9], "copyright: Microsoft");
    assert_eq!(lines[10], "os: Ubuntu");
    assert_eq!(lines[11], "osVersion: 20.04");
    assert!(validate_embedded_json(json_input).is_ok());
}

#[test]
fn metadata_note_lines_skips_absent_and_renders_non_strings() {
    let lines = metadata_note_lines(r#"{"binary":"b","version":3,"hash":null}"#);
    assert_eq!(lines, vec!["binary: b", "version: 3", "hash: null"]);
    assert!(metadata_note_lines("not json").is_empty());
    assert!(metadata_note_lines("[]").is_empty());
}

/// What the runtime reader scans from a field's symbol (up to the first
/// NUL) extracts to the sanitized value of that field.
#[test]
fn every_field_reads_back_from_the_note() {
    let mut md = sample();
    md.maintainer = "Ops © \"team\"".into();
    let plan = match plan_embedding(&md) {
        Ok(p) => p,
        Err(e) => panic!("plan failed: {e:?}"),
    };
    let payload = &plan.note.note_section[16..];
    for field in ModuleInfoField::ALL {
        let marker = format!("\"{}\":", field.to_key());
        let at = match plan.json.find(&marker) {
            Some(i) => i + marker.len(),
            None => panic!("key {marker} not in JSON"),
        };
        let end = at + payload[at..].iter().position(|b| *b == 0).unwrap_or(payload.len() - at);
        let value = match extract_module_value(&payload[at..end]) {
            Ok(v) => v,
            Err(e) => panic!("extract failed for {field:?}: {e:?}"),
        };
        assert_eq!(value, module_info::sanitize_for_linker_script(md.field_value(field)));
    }
}

#[test]
fn module_version_suffix_needs_the_manifest_setting() {
    let suffixed = r#"{"binary":"b","version":"1.0.0","moduleVersion":"1.2.3.4-PullRequest-5","name":"n","maintainer":"m","os":"linux","osVersion":"22.04"}"#;
    match validate_embedded_json(suffixed) {
        Err(ModuleInfoError::MalformedJson(msg)) => assert!(msg.contains("moduleVersion part 3"), "{msg}"),
        other => panic!("expected MalformedJson, got {other:?}"),
    }
    assert!(validate_metadata_record(suffixed, true).is_ok());
    let bad = r#"{"binary":"b","version":"1.0.0","moduleVersion":"1.2.3.70000+build","name":"n","maintainer":"m","os":"linux","osVersion":"22.04"}"#;
    match validate_metadata_record(bad, true) {
        Err(ModuleInfoError::MalformedJson(msg)) => assert_eq!(
            msg,
            "moduleVersion part 3 (\"70000\") must be a non-negative integer that fits in 16 bits (0..=65535) in \"1.2.3.70000\""
        ),
        other => panic!("expected MalformedJson, got {other:?}"),
    }
}

#[test]
fn new_rejects_a_suffixed_module_version() {
    let info = Info {
        binary: "b".into(),
        name: "n".into(),
        version: "1.2.3".into(),
        moduleVersion: "1.2.3.4-beta".into(),
        maintainer: "m".into(),
        os: "linux".into(),
        osVersion: "22.04".into(),
        ..Default::default()
    };
    match new(info) {
        Err(ModuleInfoError::MalformedJson(msg)) => assert!(msg.contains("moduleVersion"), "{msg}"),
        Err(other) => panic!("expected MalformedJson, got {other:?}"),
        Ok(_) => panic!("a suffixed moduleVersion must be rejected on this path"),
    }
}

#[test]
fn document_note_lines_follow_field_order() {
    let doc = JsonDocument::Object(vec![
        JsonEntry { key: "hash".into(), value: JsonMember::Str("h".into()) },
        JsonEntry { key: "binary".into(), value: JsonMember::Other("7".into()) },
    ]);
    assert_eq!(document_note_lines(&doc), vec!["binary: 7", "hash: h"]);
    assert!(document_note_lines(&JsonDocument::NotObject).is_empty());
}
