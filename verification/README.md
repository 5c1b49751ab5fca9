# module_info

Build-time metadata for ELF `.note.package` sections, verified with Verus.

A build script collects a crate's identity (name, versions, maintainer,
type, copyright), its git state and the build host's OS, renders it as a
one-pair-per-line JSON record, and emits a linker script whose `BYTE`
directives reproduce the record byte for byte inside an ELF note (owner
`FDO`, type `0xcafe1a7e`), with a symbol before each value. A running
binary reads a value back from its symbol.

- `src/` is the library. Every function carries a contract and is proved:
  the JSON record and the linker-script payload agree byte for byte, the
  note is 4-byte aligned with 1 to 4 NUL bytes of padding, what the runtime
  reader extracts at a field's symbol is that field's sanitized value,
  versions are normalized to exactly 3 or 4 components, and the manifest,
  environment, git and `/etc/os-release` readings are combined as
  documented. `serde_json` and `toml` parse text behind small trusted
  functions whose results the contracts name.
- `app/` is the edge: reading files, the environment and git, writing the
  artifacts, printing cargo directives, and reading the linker symbols of a
  running binary.
- `tests/` exercises the library on concrete values.
