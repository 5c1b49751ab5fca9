use vstd::prelude::*;

verus! {

/// The metadata fields carried in the `.note.package` payload.
#[derive(Debug, Clone, Copy, PartialEq, Eq, Structural)]
#[non_exhaustive]
pub enum ModuleInfoField {
    /// The binary name
    Binary,
    /// The version of the binary
    Version,
    /// The version of the module
    ModuleVersion,
    /// The maintainer of the binary
    Maintainer,
    /// The name of the module
    Name,
    /// The type of module
    Type,
    /// The repository URL
    Repo,
    /// The branch name
    Branch,
    /// The commit hash
    Hash,
    /// The copyright information
    Copyright,
    /// The operating system information
    Os,
    /// The operating system version
    OsVersion,
}

/// JSON / map key of a field.
pub open spec fn field_key(f: ModuleInfoField) -> Seq<char> {
    match f {
        ModuleInfoField::Binary => "binary"@,
        ModuleInfoField::Version => "version"@,
        ModuleInfoField::ModuleVersion => "moduleVersion"@,
        ModuleInfoField::Maintainer => "maintainer"@,
        ModuleInfoField::Name => "name"@,
        ModuleInfoField::Type => "type"@,
        ModuleInfoField::Repo => "repo"@,
        ModuleInfoField::Branch => "branch"@,
        ModuleInfoField::Hash => "hash"@,
        ModuleInfoField::Copyright => "copyright"@,
        ModuleInfoField::Os => "os"@,
        ModuleInfoField::OsVersion => "osVersion"@,
    }
}

/// Linker-script symbol that marks the start of a field's value.
pub open spec fn field_symbol(f: ModuleInfoField) -> Seq<char> {
    match f {
        ModuleInfoField::Binary => "module_info_binary"@,
        ModuleInfoField::Version => "module_info_version"@,
        ModuleInfoField::ModuleVersion => "module_info_moduleVersion"@,
        ModuleInfoField::Maintainer => "module_info_maintainer"@,
        ModuleInfoField::Name => "module_info_name"@,
        ModuleInfoField::Type => "module_info_type"@,
        ModuleInfoField::Repo => "module_info_repo"@,
        ModuleInfoField::Branch => "module_info_branch"@,
        ModuleInfoField::Hash => "module_info_hash"@,
        ModuleInfoField::Copyright => "module_info_copyright"@,
        ModuleInfoField::Os => "module_info_os"@,
        ModuleInfoField::OsVersion => "module_info_osVersion"@,
    }
}

/// The number of fields.
pub open spec fn field_count() -> nat {
    12
}

/// The field at position `i` of the declaration order (`ALL`).
pub open spec fn field_at(i: int) -> ModuleInfoField {
    if i == 0 {
        ModuleInfoField::Binary
    } else if i == 1 {
        ModuleInfoField::Version
    } else if i == 2 {
        ModuleInfoField::ModuleVersion
    } else if i == 3 {
        ModuleInfoField::Maintainer
    } else if i == 4 {
        ModuleInfoField::Name
    } else if i == 5 {
        ModuleInfoField::Type
    } else if i == 6 {
        ModuleInfoField::Repo
    } else if i == 7 {
        ModuleInfoField::Branch
    } else if i == 8 {
        ModuleInfoField::Hash
    } else if i == 9 {
        ModuleInfoField::Copyright
    } else if i == 10 {
        ModuleInfoField::Os
    } else {
        ModuleInfoField::OsVersion
    }
}

/// Position of a field in the declaration order.
pub open spec fn field_index(f: ModuleInfoField) -> int {
    match f {
        ModuleInfoField::Binary => 0,
        ModuleInfoField::Version => 1,
        ModuleInfoField::ModuleVersion => 2,
        ModuleInfoField::Maintainer => 3,
        ModuleInfoField::Name => 4,
        ModuleInfoField::Type => 5,
        ModuleInfoField::Repo => 6,
        ModuleInfoField::Branch => 7,
        ModuleInfoField::Hash => 8,
        ModuleInfoField::Copyright => 9,
        ModuleInfoField::Os => 10,
        ModuleInfoField::OsVersion => 11,
    }
}

impl ModuleInfoField {
    /// Converts the variant to the linker symbol that marks its value
    /// (for example `Binary` -> `"module_info_binary"`).
    pub fn to_symbol_name(&self) -> (r: &'static str)
        ensures
            r@ == field_symbol(*self),
    {
        match self {
            ModuleInfoField::Binary => "module_info_binary",
            ModuleInfoField::Version => "module_info_version",
            ModuleInfoField::ModuleVersion => "module_info_moduleVersion",
            ModuleInfoField::Maintainer => "module_info_maintainer",
            ModuleInfoField::Name => "module_info_name",
            ModuleInfoField::Type => "module_info_type",
            ModuleInfoField::Repo => "module_info_repo",
            ModuleInfoField::Branch => "module_info_branch",
            ModuleInfoField::Hash => "module_info_hash",
            ModuleInfoField::Copyright => "module_info_copyright",
            ModuleInfoField::Os => "module_info_os",
            ModuleInfoField::OsVersion => "module_info_osVersion",
        }
    }

    /// The number of variants (the length of `ALL`).
    pub fn count() -> (r: usize)
        ensures
            r == field_count(),
    {
        12
    }

    /// The field at position `i` of `ALL`.
    pub fn at(i: usize) -> (r: ModuleInfoField)
        requires
            i < field_count(),
        ensures
            r == field_at(i as int),
    {
        if i == 0 {
            ModuleInfoField::Binary
        } else if i == 1 {
            ModuleInfoField::Version
        } else if i == 2 {
            ModuleInfoField::ModuleVersion
        } else if i == 3 {
            ModuleInfoField::Maintainer
        } else if i == 4 {
            ModuleInfoField::Name
        } else if i == 5 {
            ModuleInfoField::Type
        } else if i == 6 {
            ModuleInfoField::Repo
        } else if i == 7 {
            ModuleInfoField::Branch
        } else if i == 8 {
            ModuleInfoField::Hash
        } else if i == 9 {
            ModuleInfoField::Copyright
        } else if i == 10 {
            ModuleInfoField::Os
        } else {
            ModuleInfoField::OsVersion
        }
    }

    /// Converts the variant to the key used in the JSON payload.
    pub fn to_key(&self) -> (r: &'static str)
        ensures
            r@ == field_key(*self),
    {
        match self {
            ModuleInfoField::Binary => "binary",
            ModuleInfoField::Version => "version",
            ModuleInfoField::ModuleVersion => "moduleVersion",
            ModuleInfoField::Maintainer => "maintainer",
            ModuleInfoField::Name => "name",
            ModuleInfoField::Type => "type",
            ModuleInfoField::Repo => "repo",
            ModuleInfoField::Branch => "branch",
            ModuleInfoField::Hash => "hash",
            ModuleInfoField::Copyright => "copyright",
            ModuleInfoField::Os => "os",
            ModuleInfoField::OsVersion => "osVersion",
        }
    }

    /// All variants, in declaration order.
    pub const ALL: [ModuleInfoField; 12] = [
        ModuleInfoField::Binary,
        ModuleInfoField::Version,
        ModuleInfoField::ModuleVersion,
        ModuleInfoField::Maintainer,
        ModuleInfoField::Name,
        ModuleInfoField::Type,
        ModuleInfoField::Repo,
        ModuleInfoField::Branch,
        ModuleInfoField::Hash,
        ModuleInfoField::Copyright,
        ModuleInfoField::Os,
        ModuleInfoField::OsVersion,
    ];
}

proof fn reveal_keys()
    ensures
        "binary"@ =~= seq!['b', 'i', 'n', 'a', 'r', 'y'],
        "version"@ =~= seq!['v', 'e', 'r', 's', 'i', 'o', 'n'],
        "moduleVersion"@ =~= seq!['m', 'o', 'd', 'u', 'l', 'e', 'V', 'e', 'r', 's', 'i', 'o', 'n'],
        "maintainer"@ =~= seq!['m', 'a', 'i', 'n', 't', 'a', 'i', 'n', 'e', 'r'],
        "name"@ =~= seq!['n', 'a', 'm', 'e'],
        "type"@ =~= seq!['t', 'y', 'p', 'e'],
        "repo"@ =~= seq!['r', 'e', 'p', 'o'],
        "branch"@ =~= seq!['b', 'r', 'a', 'n', 'c', 'h'],
        "hash"@ =~= seq!['h', 'a', 's', 'h'],
        "copyright"@ =~= seq!['c', 'o', 'p', 'y', 'r', 'i', 'g', 'h', 't'],
        "os"@ =~= seq!['o', 's'],
        "osVersion"@ =~= seq!['o', 's', 'V', 'e', 'r', 's', 'i', 'o', 'n'],
{
    reveal_strlit("binary");
    reveal_strlit("version");
    reveal_strlit("moduleVersion");
    reveal_strlit("maintainer");
    reveal_strlit("name");
    reveal_strlit("type");
    reveal_strlit("repo");
    reveal_strlit("branch");
    reveal_strlit("hash");
    reveal_strlit("copyright");
    reveal_strlit("os");
    reveal_strlit("osVersion");
}

/// Keys are ASCII.
pub proof fn lemma_key_ascii(f: ModuleInfoField)
    ensures
        vstd::utf8::is_ascii_chars(field_key(f)),
{
    reveal_keys();
}

/// Keys are made of ASCII letters.
pub proof fn lemma_key_letters(f: ModuleInfoField)
    ensures
        forall|j: int| 0 <= j < field_key(f).len() ==> {
            let c = #[trigger] field_key(f)[j];
            ('a' <= c <= 'z') || ('A' <= c <= 'Z')
        },
{
    reveal_keys();
}

/// Symbols are ASCII.
pub proof fn lemma_symbol_ascii(f: ModuleInfoField)
    ensures
        vstd::utf8::is_ascii_chars(field_symbol(f)),
{
    lemma_symbol_is_prefixed_key(f);
    lemma_key_ascii(f);
    reveal_strlit("module_info_");
    crate::text::lemma_ascii_concat("module_info_"@, field_key(f));
}

/// Every variant occurs in the declaration order exactly once: `field_at`
/// and `field_index` are inverse bijections between the variants and `0..12`.
pub proof fn lemma_field_order_bijective(f: ModuleInfoField, i: int)
    ensures
        0 <= field_index(f) < field_count(),
        field_at(field_index(f)) == f,
        0 <= i < field_count() ==> field_index(field_at(i)) == i,
{
}

/// Distinct fields have distinct JSON keys.
pub proof fn lemma_keys_distinct(f: ModuleInfoField, g: ModuleInfoField)
    requires
        f != g,
    ensures
        field_key(f) != field_key(g),
{
    reveal_keys();
    if field_key(f) == field_key(g) {
        assert(field_key(f).len() == field_key(g).len());
        assert(field_key(f)[0] == field_key(g)[0]);
        assert(field_key(f)[1] == field_key(g)[1]);
    }
}

/// The symbol of a field is `module_info_` followed by its key.
pub proof fn lemma_symbol_is_prefixed_key(f: ModuleInfoField)
    ensures
        field_symbol(f) == "module_info_"@ + field_key(f),
{
    reveal_keys();
    reveal_strlit("module_info_");
    reveal_strlit("module_info_binary");
    reveal_strlit("module_info_version");
    reveal_strlit("module_info_moduleVersion");
    reveal_strlit("module_info_maintainer");
    reveal_strlit("module_info_name");
    reveal_strlit("module_info_type");
    reveal_strlit("module_info_repo");
    reveal_strlit("module_info_branch");
    reveal_strlit("module_info_hash");
    reveal_strlit("module_info_copyright");
    reveal_strlit("module_info_os");
    reveal_strlit("module_info_osVersion");
    assert(field_symbol(f) =~= "module_info_"@ + field_key(f));
}

/// Distinct fields have distinct linker symbols.
pub proof fn lemma_symbols_distinct(f: ModuleInfoField, g: ModuleInfoField)
    requires
        f != g,
    ensures
        field_symbol(f) != field_symbol(g),
{
    lemma_symbol_is_prefixed_key(f);
    lemma_symbol_is_prefixed_key(g);
    lemma_keys_distinct(f, g);
    let p = "module_info_"@;
    if field_symbol(f) == field_symbol(g) {
        assert(field_key(f) =~= field_symbol(f).skip(p.len() as int));
        assert(field_key(g) =~= field_symbol(g).skip(p.len() as int));
    }
}

/// `ALL` lists the fields in declaration order.
pub proof fn lemma_all_in_order(i: int)
    requires
        0 <= i < field_count(),
    ensures
        ModuleInfoField::ALL@.len() == field_count(),
        ModuleInfoField::ALL@[i] == field_at(i),
{
}

} // verus!
