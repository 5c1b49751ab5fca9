use vstd::prelude::*;

verus! {

/// ELF note section alignment (System V gABI, 4 bytes on Linux).
pub const NOTE_ALIGN: usize = 4;

/// Type identifier of the package note.
pub const N_TYPE: u32 = 0xcafe1a7e;

/// Owner name of the package note.
pub const OWNER: &'static str = "FDO";

/// Name of the ELF note section that holds the metadata.
pub const NOTE_SECTION_NAME: &'static str = ".note.package";

/// Maximum size in bytes of the embedded JSON record.
pub const MAX_JSON_SIZE: usize = 1024;

/// JSON keys that must be present and non-empty in the embedded metadata.
pub const REQUIRED_JSON_KEYS: [&'static str; 7] = [
    "binary",
    "version",
    "moduleVersion",
    "name",
    "maintainer",
    "os",
    "osVersion",
];

} // verus!
