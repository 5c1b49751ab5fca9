use std::collections::HashSet;

use module_info::constants::REQUIRED_JSON_KEYS;
use module_info::ModuleInfoField;

#[test]
fn count_matches_all_length() {
    assert_eq!(ModuleInfoField::count(), ModuleInfoField::ALL.len());
}

#[test]
fn all_has_unique_symbol_names_and_keys() {
    let symbols: HashSet<&str> = ModuleInfoField::ALL.iter().map(|f| f.to_symbol_name()).collect();
    assert_eq!(
        symbols.len(),
        ModuleInfoField::ALL.len(),
        "ModuleInfoField::ALL has duplicate entries (by symbol name)"
    );

    let keys: HashSet<&str> = ModuleInfoField::ALL.iter().map(|f| f.to_key()).collect();
    assert_eq!(
        keys.len(),
        ModuleInfoField::ALL.len(),
        "ModuleInfoField::ALL has duplicate entries (by HashMap key)"
    );
}

#[test]
fn every_variant_is_listed_in_all() {
    const EXPECTED_VARIANT_COUNT: usize = 12;

    fn canonical_key(f: ModuleInfoField) -> &'static str {
        match f {
            ModuleInfoField::Binary => "binary",
            ModuleInfoField::Version => "version",
            ModuleInfoField::ModuleVersion => "moduleVersion",
            ModuleInfoField::Maintainer => "maintainer",
            ModuleInfoField::Name => "name",
            ModuleInfoField::Type => "type",
            ModuleInfoField::Repo => "repo",
            ModuleInfoField::Branch => "branch",
            ModuleInfoField::Hash => "hash",
            ModuleInfoField::Copyright => "copyright",
            ModuleInfoField::Os => "os",
            ModuleInfoField::OsVersion => "osVersion",
            _ => "",
        }
    }

    assert_eq!(
        ModuleInfoField::ALL.len(),
        EXPECTED_VARIANT_COUNT,
        "ModuleInfoField::ALL length changed"
    );
    for f in ModuleInfoField::ALL {
        assert_eq!(f.to_key(), canonical_key(f));
    }
}

#[test]
fn required_keys_are_subset_of_module_info_fields() {
    let known: HashSet<&str> = ModuleInfoField::ALL.iter().map(|f| f.to_key()).collect();
    for key in REQUIRED_JSON_KEYS {
        assert!(
            known.contains(key),
            "REQUIRED_JSON_KEYS contains {key:?} which is not in ModuleInfoField::ALL"
        );
    }
}

#[test]
fn symbols_are_prefixed_keys() {
    for f in ModuleInfoField::ALL {
        assert_eq!(f.to_symbol_name(), format!("module_info_{}", f.to_key()));
    }
    assert_eq!(ModuleInfoField::OsVersion.to_symbol_name(), "module_info_osVersion");
}

#[test]
fn at_walks_all_in_order() {
    for i in 0..ModuleInfoField::count() {
        assert_eq!(ModuleInfoField::at(i), ModuleInfoField::ALL[i]);
    }
    assert_eq!(ModuleInfoField::at(5).to_key(), "type");
}
