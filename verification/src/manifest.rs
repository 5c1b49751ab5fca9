use vstd::prelude::*;

use crate::distro::{distro_from_os_release, distro_of};
use crate::error::{ModuleInfoError, ModuleInfoResult};
use crate::linker::render;
use crate::metadata::{note_body_pieces, note_json, render_note_payloads, PackageMetadata};
use crate::repo::{output_or, resolve_git_info, resolved_repo, GitReadings};
use crate::text::{find_pair, pair_lookup, pairs_view, str_eq, trim_str, trimmed};
use crate::version::{
    format_version_parts, joined_parts, lemma_version_parts_count, split_on, split_version, version_part,
    version_suffix,
};

verus! {

/// What a node of a TOML document holds, as the manifest reader sees it: a
/// table, a string, a boolean, or some other value.
#[derive(Debug, Clone)]
pub enum TomlLeaf {
    Table,
    Str(String),
    Bool(bool),
    Other,
}

/// A node of a TOML document with the key path that leads to it from the
/// root (the root itself has the empty path).
#[derive(Debug, Clone)]
pub struct TomlNode {
    pub path: Vec<String>,
    pub value: TomlLeaf,
}

pub enum TomlLeafView {
    Table,
    Str(Seq<char>),
    Bool(bool),
    Other,
}

impl View for TomlLeaf {
    type V = TomlLeafView;

    open spec fn view(&self) -> TomlLeafView {
        match self {
            TomlLeaf::Table => TomlLeafView::Table,
            TomlLeaf::Str(s) => TomlLeafView::Str(s@),
            TomlLeaf::Bool(b) => TomlLeafView::Bool(*b),
            TomlLeaf::Other => TomlLeafView::Other,
        }
    }
}

pub open spec fn path_view(p: Seq<String>) -> Seq<Seq<char>> {
    p.map_values(|s: String| s@)
}

pub open spec fn node_view(n: TomlNode) -> (Seq<Seq<char>>, TomlLeafView) {
    (path_view(n.path@), n.value@)
}

/// The nodes of a parsed document by their views.
pub open spec fn doc_view(d: Seq<TomlNode>) -> Seq<(Seq<Seq<char>>, TomlLeafView)> {
    d.map_values(|n: TomlNode| node_view(n))
}

/// What `toml::from_str::<toml::Value>` makes of `text`: every node of the
/// document with its key path, or the parser's error message.
pub uninterp spec fn toml_document(text: Seq<char>) -> Result<Seq<(Seq<Seq<char>>, TomlLeafView)>, Seq<char>>;

/// Parses `text` with `toml::from_str::<toml::Value>` and lists the nodes
/// of the document (tables, strings, booleans, other values) with their key
/// paths,
/// or returns the parser's error message.
#[verifier::external_body]
fn parse_toml_document(text: &str) -> (r: Result<Vec<TomlNode>, String>)
    ensures
        match (r, toml_document(text@)) {
            (Ok(d), Ok(v)) => doc_view(d@) == v,
            (Err(e), Err(m)) => e@ == m,
            _ => false,
        },
{
    let root: toml::Value = toml::from_str(text).map_err(|e| e.to_string())?;
    let (mut nodes, mut pending) = (Vec::new(), vec![(Vec::<String>::new(), root)]);
    while let Some((path, value)) = pending.pop() {
        let value = match value {
            toml::Value::Table(t) => {
                pending.extend(t.into_iter().map(|(k, v)| ([path.clone(), vec![k]].concat(), v)));
                TomlLeaf::Table
            },
            toml::Value::String(s) => TomlLeaf::Str(s),
            toml::Value::Boolean(b) => TomlLeaf::Bool(b),
            _ => TomlLeaf::Other,
        };
        nodes.push(TomlNode { path, value });
    }
    Ok(nodes)
}

/// The node at key path `p` among `d[i..]` (the first one), if any.
pub open spec fn node_from(d: Seq<(Seq<Seq<char>>, TomlLeafView)>, p: Seq<Seq<char>>, i: int) -> Option<TomlLeafView>
    decreases d.len() - i,
{
    if i >= d.len() || i < 0 {
        None
    } else if d[i].0 == p {
        Some(d[i].1)
    } else {
        node_from(d, p, i + 1)
    }
}

/// The key path of a `[package.metadata.module_info]` setting.
pub open spec fn setting_path(key: Seq<char>) -> Seq<Seq<char>> {
    seq!["package"@, "metadata"@, "module_info"@, key]
}

/// The string value of `package.metadata.module_info.<key>`, if it is a
/// string.
pub open spec fn setting_str(d: Seq<(Seq<Seq<char>>, TomlLeafView)>, key: Seq<char>) -> Option<Seq<char>> {
    match node_from(d, setting_path(key), 0) {
        Some(TomlLeafView::Str(s)) => Some(s),
        _ => None,
    }
}

fn path_eq(p: &Vec<String>, q: &[&str]) -> (r: bool)
    ensures
        r == (path_view(p@) == q@.map_values(|s: &str| s@)),
{
    let ghost qv = q@.map_values(|s: &str| s@);
    if p.len() != q.len() {
        assert(path_view(p@).len() != qv.len());
        return false;
    }
    let mut i: usize = 0;
    while i < p.len()
        invariant
            p@.len() == q@.len(),
            qv == q@.map_values(|s: &str| s@),
            i <= p@.len(),
            forall|j: int| 0 <= j < i ==> #[trigger] path_view(p@)[j] == qv[j],
        decreases p@.len() - i,
    {
        if !str_eq(p[i].as_str(), q[i]) {
            assert(path_view(p@)[i as int] != qv[i as int]);
            return false;
        }
        i = i + 1;
    }
    assert(path_view(p@) =~= qv);
    true
}

fn find_node<'a>(d: &'a Vec<TomlNode>, q: &[&str]) -> (r: Option<&'a TomlLeaf>)
    ensures
        match (r, node_from(doc_view(d@), q@.map_values(|s: &str| s@), 0)) {
            (Some(l), Some(v)) => l@ == v,
            (None, None) => true,
            _ => false,
        },
{
    let ghost dv = doc_view(d@);
    let ghost qv = q@.map_values(|s: &str| s@);
    let mut i: usize = 0;
    while i < d.len()
        invariant
            i <= d@.len(),
            dv == doc_view(d@),
            qv == q@.map_values(|s: &str| s@),
            node_from(dv, qv, 0) == node_from(dv, qv, i as int),
        decreases d@.len() - i,
    {
        if path_eq(&d[i].path, q) {
            return Some(&d[i].value);
        }
        i = i + 1;
    }
    None
}

fn setting(d: &Vec<TomlNode>, key: &str) -> (r: Option<String>)
    ensures
        match (r, setting_str(doc_view(d@), key@)) {
            (Some(s), Some(v)) => s@ == v,
            (None, None) => true,
            _ => false,
        },
{
    let q = ["package", "metadata", "module_info", key];
    proof {
        reveal_strlit("package");
        reveal_strlit("metadata");
        reveal_strlit("module_info");
        assert(q@.map_values(|s: &str| s@) =~= setting_path(key@));
    }
    match find_node(d, q.as_slice()) {
        Some(TomlLeaf::Str(s)) => Some(s.clone()),
        _ => None,
    }
}

} // verus!

verus! {

/// The settings the build reads from a crate manifest: the names of the
/// environment variables that override the versions, whether a version's
/// pre-release / build suffix is kept, and the
/// `[package.metadata.module_info]` values (`"Unknown"` when not given as
/// strings).
#[derive(Debug, Clone)]
pub struct ManifestSettings {
    pub version_env_var_name: Option<String>,
    pub module_version_env_var_name: Option<String>,
    pub allow_prerelease_suffix: bool,
    pub maintainer: String,
    pub module_type: String,
    pub copyright: String,
}

pub open spec fn opt_view(o: Option<String>) -> Option<Seq<char>> {
    match o {
        Some(s) => Some(s@),
        None => None,
    }
}

/// A setting's value, or `"Unknown"`.
pub open spec fn setting_or_unknown(d: Seq<(Seq<Seq<char>>, TomlLeafView)>, key: Seq<char>) -> Seq<char> {
    match setting_str(d, key) {
        Some(s) => s,
        None => "Unknown"@,
    }
}

/// Whether the document has a `package` entry.
pub open spec fn has_package(d: Seq<(Seq<Seq<char>>, TomlLeafView)>) -> bool {
    node_from(d, seq!["package"@], 0) is Some
}

fn setting_flag(d: &Vec<TomlNode>, key: &str) -> (r: bool)
    ensures
        r == (node_from(doc_view(d@), setting_path(key@), 0) == Some(TomlLeafView::Bool(true))),
{
    let q = ["package", "metadata", "module_info", key];
    proof {
        reveal_strlit("package");
        reveal_strlit("metadata");
        reveal_strlit("module_info");
        assert(q@.map_values(|s: &str| s@) =~= setting_path(key@));
    }
    match find_node(d, q.as_slice()) {
        Some(TomlLeaf::Bool(b)) => *b,
        _ => false,
    }
}

/// The settings by their views.
pub struct ManifestSettingsView {
    pub version_env_var_name: Option<Seq<char>>,
    pub module_version_env_var_name: Option<Seq<char>>,
    pub allow_prerelease_suffix: bool,
    pub maintainer: Seq<char>,
    pub module_type: Seq<char>,
    pub copyright: Seq<char>,
}

impl View for ManifestSettings {
    type V = ManifestSettingsView;

    open spec fn view(&self) -> ManifestSettingsView {
        ManifestSettingsView {
            version_env_var_name: opt_view(self.version_env_var_name),
            module_version_env_var_name: opt_view(self.module_version_env_var_name),
            allow_prerelease_suffix: self.allow_prerelease_suffix,
            maintainer: self.maintainer@,
            module_type: self.module_type@,
            copyright: self.copyright@,
        }
    }
}

/// The settings of a parsed manifest, as the build reads them.
pub open spec fn settings_of(d: Seq<(Seq<Seq<char>>, TomlLeafView)>) -> ManifestSettingsView {
    ManifestSettingsView {
        version_env_var_name: setting_str(d, "version_env_var_name"@),
        module_version_env_var_name: setting_str(d, "module_version_env_var_name"@),
        allow_prerelease_suffix: node_from(d, setting_path("allow_prerelease_suffix"@), 0) == Some(
            TomlLeafView::Bool(true),
        ),
        maintainer: setting_or_unknown(d, "maintainer"@),
        module_type: setting_or_unknown(d, "type"@),
        copyright: setting_or_unknown(d, "copyright"@),
    }
}

fn setting_or_unknown_exec(d: &Vec<TomlNode>, key: &str) -> (r: String)
    ensures
        r@ == setting_or_unknown(doc_view(d@), key@),
{
    match setting(d, key) {
        Some(s) => s,
        None => String::from_str("Unknown"),
    }
}

/// Reads the build settings from a parsed manifest. Fails with
/// `MalformedJson("No package section found")` exactly when the document
/// has no `package` entry.
pub fn manifest_settings(doc: &Vec<TomlNode>) -> (r: ModuleInfoResult<ManifestSettings>)
    ensures
        has_package(doc_view(doc@)) ==> (r matches Ok(s) && s@ == settings_of(doc_view(doc@))),
        !has_package(doc_view(doc@)) ==> (r matches Err(ModuleInfoError::MalformedJson(m)) && m@
            == "No package section found"@),
{
    let q = ["package"];
    proof {
        reveal_strlit("package");
        assert(q@.map_values(|s: &str| s@) =~= seq!["package"@]);
    }
    if find_node(doc, q.as_slice()).is_none() {
        return Err(ModuleInfoError::MalformedJson(String::from_str("No package section found")));
    }
    Ok(ManifestSettings {
        version_env_var_name: setting(doc, "version_env_var_name"),
        module_version_env_var_name: setting(doc, "module_version_env_var_name"),
        allow_prerelease_suffix: setting_flag(doc, "allow_prerelease_suffix"),
        maintainer: setting_or_unknown_exec(doc, "maintainer"),
        module_type: setting_or_unknown_exec(doc, "type"),
        copyright: setting_or_unknown_exec(doc, "copyright"),
    })
}

/// What `read_manifest_settings` gives for a manifest text: the parser's
/// error as `Other`, the missing package section, or the settings.
pub open spec fn manifest_outcome(r: ModuleInfoResult<ManifestSettings>, text: Seq<char>) -> bool {
    match toml_document(text) {
        Err(msg) => r matches Err(ModuleInfoError::Other(m)) && m@ == msg,
        Ok(d) => if has_package(d) {
            r matches Ok(s) && s@ == settings_of(d)
        } else {
            r matches Err(ModuleInfoError::MalformedJson(m)) && m@ == "No package section found"@
        },
    }
}

/// Parses a crate manifest (the text of `Cargo.toml`) and reads its build
/// settings.
pub fn read_manifest_settings(manifest: &str) -> (r: ModuleInfoResult<ManifestSettings>)
    ensures
        manifest_outcome(r, manifest@),
{
    match parse_toml_document(manifest) {
        Err(msg) => Err(ModuleInfoError::Other(msg)),
        Ok(doc) => manifest_settings(&doc),
    }
}

/// The `cargo:rerun-if-env-changed` directives for the environment
/// variables that a manifest names for version overrides.
pub fn env_rerun_directives(settings: &ManifestSettings) -> (r: Vec<String>)
    ensures
        r@.map_values(|s: String| s@) == (match opt_view(settings.version_env_var_name) {
            Some(n) => seq!["cargo:rerun-if-env-changed="@ + n],
            None => Seq::empty(),
        }) + (match opt_view(settings.module_version_env_var_name) {
            Some(n) => seq!["cargo:rerun-if-env-changed="@ + n],
            None => Seq::empty(),
        }),
{
    let mut out: Vec<String> = Vec::new();
    if let Some(n) = &settings.version_env_var_name {
        let mut d = String::from_str("cargo:rerun-if-env-changed=");
        d.append(n.as_str());
        out.push(d);
    }
    if let Some(n) = &settings.module_version_env_var_name {
        let mut d = String::from_str("cargo:rerun-if-env-changed=");
        d.append(n.as_str());
        out.push(d);
    }
    proof {
        let a = match opt_view(settings.version_env_var_name) {
            Some(n) => seq!["cargo:rerun-if-env-changed="@ + n],
            None => Seq::<Seq<char>>::empty(),
        };
        let b = match opt_view(settings.module_version_env_var_name) {
            Some(n) => seq!["cargo:rerun-if-env-changed="@ + n],
            None => Seq::<Seq<char>>::empty(),
        };
        assert(out@.map_values(|s: String| s@) =~= a + b);
    }
    out
}

} // verus!

verus! {

/// The value of variable `name` in the environment `env` (the first
/// binding), or the empty text when it is unset.
pub open spec fn env_value(env: Seq<(Seq<char>, Seq<char>)>, name: Seq<char>) -> Seq<char> {
    match pair_lookup(env, name, 0) {
        Some(v) => v,
        None => Seq::empty(),
    }
}

/// The trimmed value of the variable called `name` when there is such a
/// name and the value is not blank, else `fallback`.
pub open spec fn env_value_or(env: Seq<(Seq<char>, Seq<char>)>, name: Option<Seq<char>>, fallback: Seq<char>) -> Seq<char> {
    match name {
        None => fallback,
        Some(n) => if trimmed(env_value(env, n)).len() == 0 {
            fallback
        } else {
            trimmed(env_value(env, n))
        },
    }
}

fn env_value_exec(env: &Vec<(String, String)>, name: &str) -> (r: String)
    ensures
        r@ == env_value(pairs_view(env@), name@),
{
    match find_pair(env, name) {
        Some(v) => v.clone(),
        None => String::new(),
    }
}

/// Reads the variable named `name` (if any) from `env`, trimmed, falling
/// back to `fallback` when it is unset or blank.
pub fn env_or_default(env: &Vec<(String, String)>, name: &Option<String>, fallback: &str) -> (r: String)
    ensures
        r@ == env_value_or(pairs_view(env@), opt_view(*name), fallback@),
{
    match name {
        None => String::from_str(fallback),
        Some(n) => {
            let v = env_value_exec(env, n.as_str());
            let t = trim_str(v.as_str());
            if t.unicode_len() == 0 {
                String::from_str(fallback)
            } else {
                t
            }
        },
    }
}

/// The suffix re-attached to a normalized version: the raw version's
/// pre-release / build suffix when the manifest allows it, else nothing.
pub open spec fn kept_suffix(s: ManifestSettingsView, raw: Seq<char>) -> Seq<char> {
    if s.allow_prerelease_suffix {
        version_suffix(raw)
    } else {
        Seq::empty()
    }
}

/// The metadata a build collects from its manifest settings, environment,
/// git readings and `/etc/os-release` text.
pub open spec fn collected(
    s: ManifestSettingsView,
    env: Seq<(Seq<char>, Seq<char>)>,
    git: GitReadings,
    os_release: Option<Seq<char>>,
    md: PackageMetadata,
) -> bool {
    let binary = env_value(env, "CARGO_PKG_NAME"@);
    let raw_version = env_value_or(env, s.version_env_var_name, env_value(env, "CARGO_PKG_VERSION"@));
    let raw_module_version = env_value_or(env, s.module_version_env_var_name, raw_version);
    &&& md.binary@ == binary
    &&& md.name@ == binary
    &&& md.version@ == joined_parts(raw_version, 3) + kept_suffix(s, raw_version)
    &&& md.module_version@ == joined_parts(raw_module_version, 4) + kept_suffix(s, raw_module_version)
    &&& md.maintainer@ == s.maintainer
    &&& md.module_type@ == s.module_type
    &&& md.copyright@ == s.copyright
    &&& md.branch@ == output_or(git.branch, "unknown"@)
    &&& md.hash@ == output_or(git.hash, "unknown"@)
    &&& md.repo@ == resolved_repo(git)
    &&& md.os@ == distro_of(os_release).0
    &&& md.os_version@ == distro_of(os_release).1
    &&& md.allow_prerelease_suffix == s.allow_prerelease_suffix
}

/// Without its own (non-blank) variable, the module version is normalized
/// from the same raw version as the version: it has four components and
/// its first three are the version's.
pub proof fn lemma_module_version_follows_version(
    s: ManifestSettingsView,
    env: Seq<(Seq<char>, Seq<char>)>,
    git: GitReadings,
    os_release: Option<Seq<char>>,
    md: PackageMetadata,
)
    requires
        collected(s, env, git, os_release, md),
        !s.allow_prerelease_suffix,
        s.module_version_env_var_name is None || trimmed(env_value(env, s.module_version_env_var_name->0)).len()
            == 0,
    ensures
        split_on(md.module_version@, '.').len() == 4,
        split_on(md.module_version@, '.').take(3) == split_on(md.version@, '.'),
{
    let raw = env_value_or(env, s.version_env_var_name, env_value(env, "CARGO_PKG_VERSION"@));
    assert(md.version@ =~= joined_parts(raw, 3));
    assert(md.module_version@ =~= joined_parts(raw, 4));
    lemma_version_parts_count(raw, 3);
    lemma_version_parts_count(raw, 4);
    assert(Seq::new(4, |i: int| version_part(raw, i)).take(3) =~= Seq::new(3, |i: int| version_part(raw, i)));
}

/// Assembles the raw (unsanitized) metadata of a build from its manifest
/// settings, its environment (variable names and values), what git
/// reported, and the text of `/etc/os-release` (`None` when it could not
/// be opened).
pub fn collect_package_metadata(
    settings: &ManifestSettings,
    env: &Vec<(String, String)>,
    git: &GitReadings,
    os_release: Option<&str>,
) -> (r: PackageMetadata)
    ensures
        collected(settings@, pairs_view(env@), *git, match os_release {
            Some(c) => Some(c@),
            None => None,
        }, r),
        !settings.allow_prerelease_suffix && (settings.module_version_env_var_name is None || trimmed(
            env_value(pairs_view(env@), settings.module_version_env_var_name->0@),
        ).len() == 0) ==> split_on(r.module_version@, '.').len() == 4 && split_on(r.module_version@, '.').take(3)
            == split_on(r.version@, '.'),
{
    proof {
        if !settings.allow_prerelease_suffix && (settings.module_version_env_var_name is None || trimmed(
            env_value(pairs_view(env@), settings.module_version_env_var_name->0@),
        ).len() == 0) {
            assert forall|md: PackageMetadata|
                collected(settings@, pairs_view(env@), *git, match os_release {
                    Some(c) => Some(c@),
                    None => None,
                }, md) implies split_on(md.module_version@, '.').len() == 4 && split_on(md.module_version@, '.').take(3)
                == split_on(md.version@, '.') by {
                lemma_module_version_follows_version(settings@, pairs_view(env@), *git, match os_release {
                    Some(c) => Some(c@),
                    None => None,
                }, md);
            }
        }
    }
    let binary = env_value_exec(env, "CARGO_PKG_NAME");
    let default_version = env_value_exec(env, "CARGO_PKG_VERSION");
    let raw_version = env_or_default(env, &settings.version_env_var_name, default_version.as_str());
    let mut version = format_version_parts(raw_version.as_str(), 3);
    if settings.allow_prerelease_suffix {
        let (_core, suffix) = split_version(raw_version.as_str());
        version.append(suffix);
    }
    let raw_module_version = env_or_default(
        env,
        &settings.module_version_env_var_name,
        raw_version.as_str(),
    );
    let mut module_version = format_version_parts(raw_module_version.as_str(), 4);
    if settings.allow_prerelease_suffix {
        let (_core, suffix) = split_version(raw_module_version.as_str());
        module_version.append(suffix);
    }
    let (branch, hash, repo) = resolve_git_info(git);
    let (os, os_version) = distro_from_os_release(os_release);
    PackageMetadata {
        binary: binary.clone(),
        module_version,
        version,
        maintainer: settings.maintainer.clone(),
        name: binary,
        module_type: settings.module_type.clone(),
        repo,
        branch,
        hash,
        copyright: settings.copyright.clone(),
        os,
        os_version,
        allow_prerelease_suffix: settings.allow_prerelease_suffix,
    }
}

impl PackageMetadata {
    /// Builds the metadata of a crate from the text of its `Cargo.toml`,
    /// its build environment, what git reported, and the outcome of reading
    /// `/etc/os-release` (its text, `None` when the file could not be
    /// opened, or the error reading it).
    ///
    /// Fails with the manifest's parse error (`Other`), with
    /// `MalformedJson("No package section found")`, or with the
    /// `/etc/os-release` read error, in that order; otherwise returns the
    /// collected (unsanitized) values.
    pub fn from_cargo_toml(
        manifest: &str,
        env: &Vec<(String, String)>,
        git: &GitReadings,
        os_release: ModuleInfoResult<Option<String>>,
    ) -> (r: ModuleInfoResult<PackageMetadata>)
        ensures
            match toml_document(manifest@) {
                Err(msg) => r matches Err(ModuleInfoError::Other(m)) && m@ == msg,
                Ok(d) => if !has_package(d) {
                    r matches Err(ModuleInfoError::MalformedJson(m)) && m@ == "No package section found"@
                } else {
                    match os_release {
                        Err(e) => r == Err::<PackageMetadata, ModuleInfoError>(e),
                        Ok(text) => r matches Ok(md) && collected(
                            settings_of(d),
                            pairs_view(env@),
                            *git,
                            opt_view(text),
                            md,
                        ),
                    }
                },
            },
    {
        let settings = match read_manifest_settings(manifest) {
            Ok(s) => s,
            Err(e) => {
                return Err(e);
            },
        };
        let text = match os_release {
            Ok(t) => t,
            Err(e) => {
                return Err(e);
            },
        };
        let md = match &text {
            Some(t) => collect_package_metadata(&settings, env, git, Some(t.as_str())),
            None => collect_package_metadata(&settings, env, git, None),
        };
        Ok(md)
    }
}

} // verus!

verus! {

/// Collects a crate's metadata (see `PackageMetadata::from_cargo_toml`)
/// and renders its two note payloads, the JSON record and the
/// linker-script body.
pub fn project_metadata(
    manifest: &str,
    env: &Vec<(String, String)>,
    git: &GitReadings,
    os_release: ModuleInfoResult<Option<String>>,
) -> (r: ModuleInfoResult<(String, String)>)
    ensures
        match toml_document(manifest@) {
            Err(msg) => r matches Err(ModuleInfoError::Other(m)) && m@ == msg,
            Ok(d) => if !has_package(d) {
                r matches Err(ModuleInfoError::MalformedJson(m)) && m@ == "No package section found"@
            } else {
                match os_release {
                    Err(e) => r == Err::<(String, String), ModuleInfoError>(e),
                    Ok(text) => r matches Ok((json, body)) && exists|md: PackageMetadata|
                        collected(settings_of(d), pairs_view(env@), *git, opt_view(text), md)
                            && json@ == note_json(md) && body@ == render(note_body_pieces(md)),
                }
            },
        },
{
    match PackageMetadata::from_cargo_toml(manifest, env, git, os_release) {
        Err(e) => Err(e),
        Ok(md) => render_note_payloads(&md),
    }
}

} // verus!
