use module_info::runtime::extract_module_value;
use module_info::{print_module_info, ModuleInfoError};

#[test]
fn test_extract_module_info() {
    let test_str = "\"test_value\"";
    let value = match extract_module_value(test_str.as_bytes()) {
        Ok(v) => v,
        Err(e) => panic!("extract failed: {e:?}"),
    };
    assert_eq!(value, "test_value");
}

#[test]
fn extract_reads_between_first_two_quotes() {
    let bytes = b"\"1.2.3\",\n\"moduleVersion\":\"1.2.3.4\"\n}";
    match extract_module_value(bytes) {
        Ok(v) => assert_eq!(v, "1.2.3"),
        Err(e) => panic!("extract failed: {e:?}"),
    }
    match extract_module_value(b"xx\"\"yy") {
        Ok(v) => assert_eq!(v, ""),
        Err(e) => panic!("extract failed: {e:?}"),
    }
}

#[test]
fn extract_reports_each_failure() {
    match extract_module_value(b"no quotes here") {
        Err(ModuleInfoError::MalformedJson(m)) => assert_eq!(m, "Missing opening quote"),
        other => panic!("unexpected {other:?}"),
    }
    match extract_module_value(b"\"unterminated") {
        Err(ModuleInfoError::MalformedJson(m)) => assert_eq!(m, "Missing closing quote"),
        other => panic!("unexpected {other:?}"),
    }
    match extract_module_value(&[b'"', 0xff, b'"']) {
        Err(ModuleInfoError::Utf8Error(_)) => {}
        other => panic!("unexpected {other:?}"),
    }
    let long = vec![b'a'; 1028];
    match extract_module_value(&long) {
        Err(ModuleInfoError::MalformedJson(m)) => assert_eq!(
            m,
            "No NUL terminator found within 1028 bytes; .note.package section is missing, stripped, or corrupted"
        ),
        other => panic!("unexpected {other:?}"),
    }
    let just_under = [b"\"".as_slice(), &vec![b'a'; 1025], b"\""].concat();
    assert_eq!(just_under.len(), 1027);
    assert!(extract_module_value(&just_under).is_ok());
}

#[test]
fn print_module_info_reports_not_available() {
    match print_module_info(None) {
        Err(ModuleInfoError::NotAvailable(m)) => assert_eq!(
            m,
            "Module info is only available on Linux platforms with the embed-module-info feature enabled."
        ),
        other => panic!("unexpected {other:?}"),
    }
}

fn reading(k: &str, v: &str) -> (String, String) {
    (k.to_string(), v.to_string())
}

#[test]
fn report_lists_every_field_in_order() {
    let readings = vec![
        reading("binary", "b"),
        reading("version", "1.0.0"),
        reading("moduleVersion", "1.0.0.0"),
        reading("name", "n"),
        reading("maintainer", "m"),
        reading("os", "linux"),
        reading("osVersion", "22.04"),
        reading("hash", ""),
    ];
    let lines = match print_module_info(Some(&readings)) {
        Ok(l) => l,
        Err(e) => panic!("report failed: {e:?}"),
    };
    assert_eq!(
        lines,
        vec![
            "binary: b",
            "version: 1.0.0",
            "moduleVersion: 1.0.0.0",
            "maintainer: m",
            "name: n",
            "type: <unavailable>",
            "repo: <unavailable>",
            "branch: <unavailable>",
            "hash: ",
            "copyright: <unavailable>",
            "os: linux",
            "osVersion: 22.04",
        ]
    );
}

#[test]
fn report_names_missing_required_fields() {
    let readings = vec![reading("binary", "b"), reading("version", ""), reading("os", "linux")];
    match print_module_info(Some(&readings)) {
        Err(ModuleInfoError::NotAvailable(m)) => assert_eq!(
            m,
            "Module info appears to be missing or corrupted: required field(s) missing or empty: version, moduleVersion, name, maintainer, osVersion"
        ),
        other => panic!("unexpected {other:?}"),
    }
}

#[test]
fn error_messages_have_display_prefixes() {
    assert_eq!(ModuleInfoError::NullPointer.message(), "Pointer is null");
    assert_eq!(
        ModuleInfoError::NotAvailable("x".into()).message(),
        "Module info not available: x"
    );
    assert_eq!(ModuleInfoError::MalformedJson("y".into()).message(), "Malformed JSON string: y");
    assert_eq!(
        ModuleInfoError::MetadataTooLarge("z".into()).message(),
        "Metadata size exceeds limit: z"
    );
    assert_eq!(ModuleInfoError::Other("w".into()).message(), "Other error: w");
    let utf8 = match std::str::from_utf8(&[0xff]) {
        Err(e) => e,
        Ok(_) => panic!("0xff is not UTF-8"),
    };
    assert_eq!(
        ModuleInfoError::Utf8Error(utf8).message(),
        format!("UTF-8 conversion error: {utf8}")
    );
    let io = std::io::Error::new(std::io::ErrorKind::Other, "disk on fire");
    assert_eq!(ModuleInfoError::IoError(io).message(), "IO error: disk on fire");
}
