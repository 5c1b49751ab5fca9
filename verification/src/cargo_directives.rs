use vstd::prelude::*;

verus! {

/// `cargo:rustc-link-arg=-T<path>`, or nothing when the caller opted out.
pub fn link_arg_directive(linker_script_path: &str, emit: bool) -> (r: Option<String>)
    ensures
        emit ==> (r matches Some(d) && d@ == "cargo:rustc-link-arg=-T"@ + linker_script_path@),
        !emit ==> r is None,
{
    if emit {
        let mut d = String::from_str("cargo:rustc-link-arg=-T");
        d.append(linker_script_path);
        Some(d)
    } else {
        None
    }
}

/// The inputs the build reads: paths for `rerun-if-changed`.
pub open spec fn rerun_paths() -> Seq<Seq<char>> {
    seq![
        "Cargo.toml"@,
        "build.rs"@,
        ".git/HEAD"@,
        ".git/refs"@,
        ".git/packed-refs"@,
        "/etc/os-release"@,
    ]
}

/// The environment variables the build reads: for `rerun-if-env-changed`.
pub open spec fn rerun_env_vars() -> Seq<Seq<char>> {
    seq!["MODULE_INFO_DEBUG"@, "CARGO_PKG_NAME"@, "CARGO_PKG_VERSION"@]
}

/// The `cargo:rerun-if-...` directives covering every input the build
/// reads: one `rerun-if-changed` per path, then one `rerun-if-env-changed`
/// per variable.
pub open spec fn rerun_directives() -> Seq<Seq<char>> {
    rerun_paths().map_values(|p: Seq<char>| "cargo:rerun-if-changed="@ + p) + rerun_env_vars().map_values(
        |v: Seq<char>| "cargo:rerun-if-env-changed="@ + v,
    )
}

fn prefixed(prefix: &str, s: &str) -> (r: String)
    ensures
        r@ == prefix@ + s@,
{
    let mut d = String::from_str(prefix);
    d.append(s);
    d
}

/// The `cargo:rerun-if-changed` / `cargo:rerun-if-env-changed` lines the
/// build prints.
pub fn rerun_if_directives() -> (r: Vec<String>)
    ensures
        r@.len() == rerun_directives().len(),
        forall|i: int| 0 <= i < r@.len() ==> #[trigger] r@[i]@ == rerun_directives()[i],
{
    let mut v: Vec<String> = Vec::new();
    v.push(prefixed("cargo:rerun-if-changed=", "Cargo.toml"));
    v.push(prefixed("cargo:rerun-if-changed=", "build.rs"));
    v.push(prefixed("cargo:rerun-if-changed=", ".git/HEAD"));
    v.push(prefixed("cargo:rerun-if-changed=", ".git/refs"));
    v.push(prefixed("cargo:rerun-if-changed=", ".git/packed-refs"));
    v.push(prefixed("cargo:rerun-if-changed=", "/etc/os-release"));
    v.push(prefixed("cargo:rerun-if-env-changed=", "MODULE_INFO_DEBUG"));
    v.push(prefixed("cargo:rerun-if-env-changed=", "CARGO_PKG_NAME"));
    v.push(prefixed("cargo:rerun-if-env-changed=", "CARGO_PKG_VERSION"));
    proof {
        assert forall|i: int| 0 <= i < v@.len() implies #[trigger] v@[i]@ == rerun_directives()[i] by {
            if i < 6 {
                assert(rerun_directives()[i] == "cargo:rerun-if-changed="@ + rerun_paths()[i]);
            } else {
                assert(rerun_directives()[i] == "cargo:rerun-if-env-changed="@ + rerun_env_vars()[i - 6]);
            }
        }
    }
    v
}

} // verus!
