use license_expression::{
    category_from_label, choose_stronger_new_copyleft, new_copyleft_strength_order, License, LicenseDatabase,
    LicenseDatabaseError, NewCopyleftStrength, NewLicense, ParseError, RiskLevel,
};

use license_expression::NewCopyleftStrength::{
    Commercial, Copyleft, CopyleftLimited, FreeRestricted, PatentLicense, Permissive, ProprietaryFree, PublicDomain,
    SourceAvailable, UnstatedLicense, CLA,
};

fn entry(key: &str, spdx: Option<&str>, category: &str) -> License {
    License {
        license_key: key.to_string(),
        category: category.to_string(),
        spdx_license_key: spdx.map(|s| s.to_string()),
        other_spdx_license_keys: Vec::new(),
        is_exception: false,
        is_deprecated: false,
        json: String::new(),
        yaml: String::new(),
        html: String::new(),
        license: String::new(),
    }
}

#[test]
fn strength_order_ranks_every_category() {
    let expected = [
        (PublicDomain, 0u8),
        (Permissive, 1),
        (CLA, 2),
        (PatentLicense, 3),
        (ProprietaryFree, 4),
        (FreeRestricted, 5),
        (CopyleftLimited, 6),
        (SourceAvailable, 7),
        (Copyleft, 8),
        (Commercial, 9),
        (UnstatedLicense, 10),
    ];
    for (c, r) in expected {
        assert_eq!(new_copyleft_strength_order(&c), r);
    }
}

#[test]
fn stronger_category_prefers_the_first_on_ties() {
    assert_eq!(choose_stronger_new_copyleft(&Permissive, &Copyleft), Copyleft);
    assert_eq!(choose_stronger_new_copyleft(&Commercial, &CLA), Commercial);
    assert_eq!(choose_stronger_new_copyleft(&Copyleft, &Copyleft), Copyleft);
}

#[test]
fn labels_map_exactly() {
    assert_eq!(category_from_label("Copyleft Limited"), NewCopyleftStrength::CopyleftLimited);
    assert_eq!(category_from_label("Source-available"), NewCopyleftStrength::SourceAvailable);
    assert_eq!(category_from_label("Public Domain"), NewCopyleftStrength::PublicDomain);
    assert_eq!(category_from_label("permissive"), NewCopyleftStrength::UnstatedLicense);
    assert_eq!(category_from_label("Something Else"), NewCopyleftStrength::UnstatedLicense);
}

#[test]
fn entries_are_keyed_by_lower_case_identifier() {
    let entries = vec![
        entry("MIT", None, "Permissive"),
        entry("gpl-2.0", Some("GPL-2.0-only"), "Copyleft"),
        entry("Mit", Some("MIT-again"), "Commercial"),
    ];
    let db = LicenseDatabase::from_entries(&entries);
    let mit = db.lookup("mIt").unwrap();
    assert_eq!(mit.id, "Mit");
    assert_eq!(mit.name, "MIT-again");
    assert_eq!(mit.copyleft_strength, NewCopyleftStrength::Commercial);
    let gpl = db.get("gpl-2.0").unwrap();
    assert_eq!(gpl.name, "GPL-2.0-only");
    assert_eq!(gpl.copyleft_strength, NewCopyleftStrength::Copyleft);
    assert!(db.get("MIT").is_none());
    assert!(db.lookup("Apache-2.0").is_none());
}

#[test]
fn records_are_equal_by_identifier() {
    let a = NewLicense { id: "MIT".to_string(), name: "MIT License".to_string(), copyleft_strength: NewCopyleftStrength::Permissive };
    let b = NewLicense { id: "MIT".to_string(), name: "Expat".to_string(), copyleft_strength: NewCopyleftStrength::Copyleft };
    let c = NewLicense { id: "ISC".to_string(), name: "MIT License".to_string(), copyleft_strength: NewCopyleftStrength::Permissive };
    assert!(a == b);
    assert!(a != c);
}

#[test]
fn names_for_readers() {
    assert_eq!(RiskLevel::Unknown.name(), "Unknown");
    assert_eq!(NewCopyleftStrength::CLA.display_name(), "Contributor License Agreement");
    assert_eq!(ParseError::NestingTooDeep.message(), "Expression nested too deeply");
    assert_eq!(
        LicenseDatabaseError::FileReadError("gone".to_string()).message(),
        "Failed to read license file: gone"
    );
    assert_eq!(LicenseDatabaseError::JsonParseError("bad".to_string()).message(), "Failed to parse JSON: bad");
}
