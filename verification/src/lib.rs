//! Build-time metadata for ELF `.note.package` sections: the JSON record,
//! the linker script that embeds it byte for byte, the note layout, the
//! validation of the record, the collection of the metadata from a crate's
//! manifest and build environment, and the runtime reading of the embedded
//! values, each specified and proved.

pub mod cargo_directives;
pub mod constants;
pub mod distro;
pub mod embed;
pub mod error;
pub mod fields;
pub mod json;
pub mod linker;
pub mod manifest;
pub mod metadata;
pub mod note_section;
pub mod readback;
pub mod repo;
pub mod runtime;
pub mod sanitize;
pub mod text;
pub mod version;

pub use embed::{new, EmbedArtifacts, EmbedOptions, EmbedPlan, Info};
pub use error::{ModuleInfoError, ModuleInfoResult};
pub use fields::ModuleInfoField;
pub use metadata::PackageMetadata;
pub use runtime::print_module_info;
pub use sanitize::sanitize_for_linker_script;
