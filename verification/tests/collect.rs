use module_info::distro::{accept_os_release, distro_from_os_release};
use module_info::manifest::{env_or_default, env_rerun_directives, project_metadata, read_manifest_settings};
use module_info::repo::{parse_repo_name_from_url, resolve_git_info, GitReadings};
use module_info::{ModuleInfoError, PackageMetadata};

const OWN_MANIFEST: &str = r#"[package]
name = "module-info"
version = "0.5.0"
edition = "2021"

[package.metadata.module_info]
maintainer = "module-info maintainers"
type = "library"
copyright = "Copyright (c) Microsoft Corporation."

[dependencies]
serde = { version = "1", features = ["derive"] }
"#;

fn env(pairs: &[(&str, &str)]) -> Vec<(String, String)> {
    pairs.iter().map(|(k, v)| (k.to_string(), v.to_string())).collect()
}

fn git_unavailable() -> GitReadings {
    GitReadings { branch: None, hash: None, remote_url: None, dir_name: None }
}

fn collect(manifest: &str, e: &[(&str, &str)], os: Option<&str>) -> PackageMetadata {
    match PackageMetadata::from_cargo_toml(manifest, &env(e), &git_unavailable(), Ok(os.map(String::from))) {
        Ok(md) => md,
        Err(err) => panic!("from_cargo_toml failed: {err:?}"),
    }
}

#[test]
fn test_package_metadata_from_cargo_toml() {
    let md = collect(
        OWN_MANIFEST,
        &[("CARGO_PKG_NAME", "module-info"), ("CARGO_PKG_VERSION", "0.5.0")],
        Some("ID=ubuntu\nVERSION_ID=\"22.04\"\n"),
    );
    assert_eq!(md.name, "module-info");
    assert_eq!(md.binary, "module-info");
    let parts: Vec<&str> = md.version.split('.').collect();
    assert_eq!(parts.len(), 3, "version should have three dot-separated parts, got {:?}", md.version);
    for part in &parts {
        assert!(part.chars().all(|c| c.is_ascii_digit()), "version part {part:?} must be numeric");
    }
    assert!(
        !md.copyright.is_empty() && md.copyright != "Unknown",
        "copyright must come from Cargo.toml, not the Unknown fallback; got {:?}",
        md.copyright
    );
}

#[test]
fn from_cargo_toml_collects_every_field() {
    let md = collect(
        OWN_MANIFEST,
        &[("CARGO_PKG_NAME", "module-info"), ("CARGO_PKG_VERSION", "0.5.0-rc.1")],
        Some("NAME=\"Ubuntu\"\nID=ubuntu\nVERSION_ID=\"22.04\"\n"),
    );
    assert_eq!(md.version, "0.5.0");
    assert_eq!(md.module_version, "0.5.0.0");
    assert_eq!(md.maintainer, "module-info maintainers");
    assert_eq!(md.module_type, "library");
    assert_eq!(md.copyright, "Copyright (c) Microsoft Corporation.");
    assert_eq!(md.branch, "unknown");
    assert_eq!(md.hash, "unknown");
    assert_eq!(md.repo, "unknown");
    assert_eq!(md.os, "ubuntu");
    assert_eq!(md.os_version, "22.04");
}

#[test]
fn from_cargo_toml_uses_named_env_overrides() {
    let manifest = "[package]\nname = \"x\"\n[package.metadata.module_info]\nversion_env_var_name = \"BUILD_VERSION\"\nmodule_version_env_var_name = \"BUILD_BUILDNUMBER\"\n";
    let md = collect(
        manifest,
        &[
            ("CARGO_PKG_NAME", "x"),
            ("CARGO_PKG_VERSION", "0.1.0"),
            ("BUILD_VERSION", "  2.3.4.5  "),
            ("BUILD_BUILDNUMBER", "5.2.100.0-PullRequest-123456"),
        ],
        None,
    );
    assert_eq!(md.version, "2.3.4");
    assert_eq!(md.module_version, "5.2.100.0");
    assert_eq!(md.maintainer, "Unknown");
    assert_eq!(md.module_type, "Unknown");
    assert_eq!(md.copyright, "Unknown");
    assert_eq!(md.os, "Linux");
    assert_eq!(md.os_version, "Unknown");

    // A blank override falls back: the version to CARGO_PKG_VERSION, the
    // module version to the (raw) version.
    let md = collect(
        manifest,
        &[("CARGO_PKG_NAME", "x"), ("CARGO_PKG_VERSION", "0.1.0"), ("BUILD_VERSION", "   ")],
        None,
    );
    assert_eq!(md.version, "0.1.0");
    assert_eq!(md.module_version, "0.1.0.0");
}

#[test]
fn from_cargo_toml_reports_errors_in_order() {
    let e = env(&[]);
    let g = git_unavailable();
    match PackageMetadata::from_cargo_toml("[package", &e, &g, Ok(None)) {
        Err(ModuleInfoError::Other(m)) => assert!(!m.is_empty()),
        other => panic!("expected Other, got {:?}", other.map(|m| m.name)),
    }
    let io = || Err(ModuleInfoError::IoError(std::io::Error::new(std::io::ErrorKind::Other, "boom")));
    match PackageMetadata::from_cargo_toml("[lib]\nname = \"x\"\n", &e, &g, io()) {
        Err(ModuleInfoError::MalformedJson(m)) => assert_eq!(m, "No package section found"),
        other => panic!("expected MalformedJson, got {:?}", other.map(|m| m.name)),
    }
    match PackageMetadata::from_cargo_toml("[package]\n", &e, &g, io()) {
        Err(ModuleInfoError::IoError(err)) => assert_eq!(err.to_string(), "boom"),
        other => panic!("expected IoError, got {:?}", other.map(|m| m.name)),
    }
}

#[test]
fn manifest_settings_and_rerun_directives() {
    let settings = match read_manifest_settings(
        "[package]\nname = \"x\"\n[package.metadata.module_info]\nversion_env_var_name = \"V\"\ntype = 3\n",
    ) {
        Ok(s) => s,
        Err(e) => panic!("settings failed: {e:?}"),
    };
    assert_eq!(settings.version_env_var_name.as_deref(), Some("V"));
    assert_eq!(settings.module_version_env_var_name, None);
    assert_eq!(settings.module_type, "Unknown");
    assert_eq!(env_rerun_directives(&settings), vec!["cargo:rerun-if-env-changed=V"]);
}

#[test]
fn test_project_metadata() {
    let (json, body) = match project_metadata(
        OWN_MANIFEST,
        &env(&[("CARGO_PKG_NAME", "module-info"), ("CARGO_PKG_VERSION", "0.5.0")]),
        &git_unavailable(),
        Ok(None),
    ) {
        Ok(p) => p,
        Err(e) => panic!("project_metadata failed: {e:?}"),
    };
    for key in ["binary", "moduleVersion", "version", "maintainer", "name", "type", "repo", "branch", "hash", "copyright", "os", "osVersion"] {
        assert!(json.contains(&format!("\"{key}\":")), "JSON should contain {key} field");
    }
    assert!(json.contains("\"repo\":\"unknown\""));
    assert!(json.contains("\"branch\":\"unknown\""));
    assert!(body.contains("BYTE(0x00);"));
}

#[test]
fn git_readings_resolve_with_fallbacks() {
    let g = GitReadings {
        branch: Some(" main\n".into()),
        hash: Some("76930c41aa16e31bb1e565b12c4285cde1939af3\n".into()),
        remote_url: Some("git@github.com:user/Module_Info.git\n".into()),
        dir_name: Some("checkout".into()),
    };
    assert_eq!(
        resolve_git_info(&g),
        ("main".to_string(), "76930c41aa16e31bb1e565b12c4285cde1939af3".to_string(), "Module_Info".to_string())
    );
    let g = GitReadings { remote_url: Some("/".into()), ..g };
    assert_eq!(resolve_git_info(&g).2, "checkout");
    let g = GitReadings { branch: None, hash: Some("".into()), remote_url: None, dir_name: None };
    assert_eq!(resolve_git_info(&g), ("unknown".to_string(), "".to_string(), "unknown".to_string()));
}

#[test]
fn parses_common_remote_shapes() {
    let cases = [
        ("https://github.com/user/repo.git", Some("repo".to_string())),
        ("https://github.com/user/repo", Some("repo".to_string())),
        ("git@github.com:user/repo.git", Some("repo".to_string())),
        ("https://dev.azure.com/org/project/_git/repo", Some("repo".to_string())),
        ("https://github.com/user/repo/", Some("repo".to_string())),
        ("", None),
        ("   ", None),
        ("/", None),
    ];
    for (input, expected) in cases {
        assert_eq!(parse_repo_name_from_url(input), expected, "unexpected result for input {input:?}");
    }
    assert_eq!(parse_repo_name_from_url("https://h/u/repo.git?x=1#f"), Some("repo".to_string()));
}

#[test]
fn os_release_values_are_never_empty() {
    for text in ["", "ID=arch\nNAME=\"Arch Linux\"\n", "VERSION_ID=1", "ID=\"\"\n", "ID=a\nVERSION_ID="] {
        let (name, version) = distro_from_os_release(Some(text));
        assert!(!name.is_empty() && !version.is_empty(), "{text:?} gave ({name:?}, {version:?})");
    }
}

#[test]
fn os_release_parsing() {
    assert_eq!(
        distro_from_os_release(Some("NAME=\"Ubuntu\"\nID=ubuntu\nVERSION_ID=\"20.04\"\n")),
        ("ubuntu".to_string(), "20.04".to_string())
    );
    // The last assignment wins; quotes are trimmed on both sides; CRLF ends lines.
    assert_eq!(
        distro_from_os_release(Some("ID=a\r\nID=\"\"b\"\r\nVERSION_ID=1\r\n")),
        ("b".to_string(), "1".to_string())
    );
    // No ID: the fallback, even with a VERSION_ID.
    assert_eq!(
        distro_from_os_release(Some("VERSION_ID=9\n")),
        ("Linux".to_string(), "Unknown".to_string())
    );
    assert_eq!(distro_from_os_release(None), ("Linux".to_string(), "Unknown".to_string()));
    // An ID without a (non-empty) VERSION_ID gets the "Unknown" version.
    assert_eq!(distro_from_os_release(Some("ID=alpine")), ("alpine".to_string(), "Unknown".to_string()));
    assert_eq!(
        distro_from_os_release(Some("ID=arch\nNAME=\"Arch Linux\"\n")),
        ("arch".to_string(), "Unknown".to_string())
    );
    assert_eq!(
        distro_from_os_release(Some("ID=x\nVERSION_ID=\"\"\n")),
        ("x".to_string(), "Unknown".to_string())
    );
    // `ID=` is stripped repeatedly, as `trim_start_matches` does.
    assert_eq!(distro_from_os_release(Some("ID=ID=x\nVERSION_ID=1")), ("x".to_string(), "1".to_string()));
}

#[test]
fn allow_prerelease_suffix_keeps_the_suffix() {
    let manifest = "[package]\nname = \"x\"\n[package.metadata.module_info]\nversion_env_var_name = \"BUILD_BUILDNUMBER\"\nmodule_version_env_var_name = \"BUILD_BUILDNUMBER\"\nallow_prerelease_suffix = true\n";
    let e = [("CARGO_PKG_NAME", "x"), ("BUILD_BUILDNUMBER", "7.5.3.0-PullRequest-12345")];
    let md = collect(manifest, &e, Some("ID=ubuntu\nVERSION_ID=22.04\n"));
    assert_eq!(md.version, "7.5.3-PullRequest-12345");
    assert_eq!(md.module_version, "7.5.3.0-PullRequest-12345");
    let mut md = md;
    md.maintainer = "m".into();
    match module_info::embed::plan_embedding(&md) {
        Ok(plan) => assert!(plan.json.contains("\"moduleVersion\":\"7.5.3.0-PullRequest-12345\"")),
        Err(err) => panic!("a suffixed module version with a valid core must embed: {err:?}"),
    }

    // Only the boolean `true` opts in.
    let quoted = manifest.replace("allow_prerelease_suffix = true", "allow_prerelease_suffix = \"true\"");
    let md = collect(&quoted, &e, None);
    assert_eq!(md.version, "7.5.3");
    assert_eq!(md.module_version, "7.5.3.0");
}

#[test]
fn os_release_size_limit() {
    match accept_os_release(10241, "x".into()) {
        Err(ModuleInfoError::Other(m)) => assert_eq!(m, "os-release file too large: exceeds 10240 bytes"),
        other => panic!("expected Other, got {other:?}"),
    }
    match accept_os_release(10240, "ID=a".into()) {
        Ok(t) => assert_eq!(t, "ID=a"),
        Err(e) => panic!("a file at the limit must be accepted: {e:?}"),
    }
}

#[test]
fn env_or_default_trims_and_falls_back() {
    let e = env(&[("A", "  v1 \n"), ("B", "   ")]);
    assert_eq!(env_or_default(&e, &None, "fb"), "fb");
    assert_eq!(env_or_default(&e, &Some("A".into()), "fb"), "v1");
    assert_eq!(env_or_default(&e, &Some("B".into()), "fb"), "fb");
    assert_eq!(env_or_default(&e, &Some("C".into()), "fb"), "fb");
}
