use module_info::version::{format_version_parts, validate_module_version};
use module_info::ModuleInfoError;

#[test]
fn validate_module_version_accepts_valid_values() {
    for v in ["0.0.0.0", "1.2.3.4", "65535.65535.65535.65535", "10.0.0.1"] {
        assert!(validate_module_version(v).is_ok(), "{v} must be accepted");
    }
}

#[test]
fn validate_module_version_rejects_wrong_part_count() {
    for v in ["", "1", "1.2", "1.2.3", "1.2.3.4.5"] {
        let err = match validate_module_version(v) {
            Ok(()) => panic!("wrong part count must be rejected"),
            Err(e) => e,
        };
        match err {
            ModuleInfoError::MalformedJson(msg) => {
                assert!(msg.contains("exactly 4"), "error must explain the 4-part rule: {msg}");
            }
            other => panic!("expected MalformedJson, got {other:?}"),
        }
    }
}

#[test]
fn validate_module_version_rejects_overflow() {
    for v in ["65536.0.0.0", "0.65536.0.0", "0.0.65536.0", "0.0.0.65536", "99999.1.2.3"] {
        let err = match validate_module_version(v) {
            Ok(()) => panic!("u16 overflow must be rejected"),
            Err(e) => e,
        };
        match err {
            ModuleInfoError::MalformedJson(msg) => {
                assert!(msg.contains("16 bits"), "error must mention the u16 constraint: {msg}");
            }
            other => panic!("expected MalformedJson, got {other:?}"),
        }
    }
}

#[test]
fn validate_module_version_rejects_non_numeric() {
    for v in ["-1.0.0.0", "a.b.c.d", "1.2.x.4", "1.2.3.4a", "v1.2.3.4"] {
        assert!(validate_module_version(v).is_err(), "non-numeric parts must be rejected");
    }
}

#[test]
fn validate_module_version_rejects_empty_part() {
    for v in ["1.2.3.", "1..3.4", "..1.2", "1.2..4"] {
        let err = match validate_module_version(v) {
            Ok(()) => panic!("empty part must be rejected"),
            Err(e) => e,
        };
        if let ModuleInfoError::MalformedJson(msg) = err {
            assert!(
                msg.contains("empty") || msg.contains("exactly 4"),
                "unexpected error message: {msg}"
            );
        } else {
            panic!("expected MalformedJson");
        }
    }
}

#[test]
fn validate_module_version_messages_are_exact() {
    match validate_module_version("1.2") {
        Err(ModuleInfoError::MalformedJson(m)) => assert_eq!(
            m,
            "moduleVersion must have exactly 4 dot-separated parts, got 2 in \"1.2\""
        ),
        other => panic!("unexpected {other:?}"),
    }
    match validate_module_version("1..3.4") {
        Err(ModuleInfoError::MalformedJson(m)) => {
            assert_eq!(m, "moduleVersion part 1 is empty in \"1..3.4\"")
        }
        other => panic!("unexpected {other:?}"),
    }
    match validate_module_version("1.2.3.x") {
        Err(ModuleInfoError::MalformedJson(m)) => assert_eq!(
            m,
            "moduleVersion part 3 (\"x\") must be a non-negative integer that fits in 16 bits (0..=65535) in \"1.2.3.x\""
        ),
        other => panic!("unexpected {other:?}"),
    }
    // `u16::from_str` accepts a leading `+`.
    assert!(validate_module_version("+1.2.3.4").is_ok());
}

#[test]
fn format_version_parts_strips_semver_suffix() {
    assert_eq!(format_version_parts("5.2.100.0-PullRequest-123456", 4), "5.2.100.0");
    assert_eq!(format_version_parts("5.2.100.0-PullRequest-123456", 3), "5.2.100");
    assert_eq!(format_version_parts("2.10.0-beta.3", 4), "2.10.0.0");
    assert_eq!(format_version_parts("3.1.4+ci.42", 3), "3.1.4");
    assert_eq!(format_version_parts("1.2.3.4", 4), "1.2.3.4");
    assert_eq!(format_version_parts("1.2", 4), "1.2.0.0");
    assert_eq!(format_version_parts("", 3), "0.0.0");
    assert_eq!(format_version_parts("", 4), "0.0.0.0");
}

#[test]
fn format_version_parts_always_has_requested_parts() {
    for (input, parts) in [("1.2.3.4.5", 4usize), ("7", 3), ("-beta", 4), ("1..2", 4), ("9.9.9", 1)] {
        let out = format_version_parts(input, parts);
        assert_eq!(out.split('.').count(), parts, "for {input:?}: {out:?}");
    }
    assert_eq!(format_version_parts("1.2.3.4.5", 4), "1.2.3.4");
    assert_eq!(format_version_parts("1..2", 4), "1..2.0");
    assert_eq!(format_version_parts("abc", 2), "abc.0");
}
