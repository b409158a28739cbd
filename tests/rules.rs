use license_expression::{LicenseDatabase, LicenseExpressionParser, NewCopyleftStrength, NewLicense, SpdxExpr};

fn parser_with(entries: &[(&str, NewCopyleftStrength)]) -> LicenseExpressionParser {
    let mut db = LicenseDatabase::new();
    for (id, strength) in entries {
        db.insert(
            id.to_lowercase(),
            NewLicense { id: id.to_string(), name: id.to_string(), copyleft_strength: *strength },
        );
    }
    LicenseExpressionParser::new(db)
}

fn candidates(p: &LicenseExpressionParser, text: &str) -> Vec<String> {
    p.analyze(text).possible_licenses.iter().map(|l| l.id.clone()).collect()
}

#[test]
fn incompatible_pairs_are_dropped_when_another_pair_fits() {
    let p = parser_with(&[
        ("GPL-2.0-only", NewCopyleftStrength::Copyleft),
        ("GPL-3.0-only", NewCopyleftStrength::Copyleft),
        ("MIT", NewCopyleftStrength::Permissive),
    ]);
    assert_eq!(candidates(&p, "(GPL-2.0-only OR MIT) AND GPL-3.0-only"), vec!["GPL-3.0-only"]);
}

#[test]
fn fallback_keeps_the_stronger_of_every_pair() {
    let p = parser_with(&[
        ("GPL-2.0-only", NewCopyleftStrength::Copyleft),
        ("GPL-3.0-only", NewCopyleftStrength::Copyleft),
        ("Acme-Source", NewCopyleftStrength::SourceAvailable),
    ]);
    assert_eq!(
        candidates(&p, "(GPL-2.0-only OR Acme-Source) AND GPL-3.0-only"),
        vec!["GPL-2.0-only", "GPL-3.0-only"]
    );
}

#[test]
fn proprietary_free_pairs_are_compatible() {
    let p = parser_with(&[
        ("PF-A", NewCopyleftStrength::ProprietaryFree),
        ("PF-B", NewCopyleftStrength::ProprietaryFree),
        ("GPL-2.0-only", NewCopyleftStrength::Copyleft),
    ]);
    assert_eq!(candidates(&p, "(PF-A OR GPL-2.0-only) AND PF-B"), vec!["PF-A"]);
}

#[test]
fn low_ranks_are_compatible_by_default() {
    let p = parser_with(&[
        ("FR-X", NewCopyleftStrength::FreeRestricted),
        ("PF-Y", NewCopyleftStrength::ProprietaryFree),
        ("GPL-2.0-only", NewCopyleftStrength::Copyleft),
    ]);
    assert_eq!(candidates(&p, "(FR-X OR GPL-2.0-only) AND PF-Y"), vec!["FR-X"]);
}

#[test]
fn one_family_is_compatible() {
    let p = parser_with(&[
        ("LGPL-2.1-foo", NewCopyleftStrength::CopyleftLimited),
        ("LGPL-2.1-bar", NewCopyleftStrength::CopyleftLimited),
        ("Acme-Source", NewCopyleftStrength::SourceAvailable),
    ]);
    assert_eq!(candidates(&p, "(LGPL-2.1-foo OR Acme-Source) AND LGPL-2.1-bar"), vec!["LGPL-2.1-foo"]);
}

#[test]
fn public_domain_identifiers_are_compatible() {
    let p = parser_with(&[
        ("CC0-1.0", NewCopyleftStrength::SourceAvailable),
        ("SA-X", NewCopyleftStrength::SourceAvailable),
        ("GPL-2.0-only", NewCopyleftStrength::Copyleft),
    ]);
    assert_eq!(candidates(&p, "(CC0-1.0 OR GPL-2.0-only) AND SA-X"), vec!["CC0-1.0"]);
}

#[test]
fn lgpl3_and_gpl3_are_compatible() {
    let p = parser_with(&[
        ("LGPL-3.0-only", NewCopyleftStrength::CopyleftLimited),
        ("GPL-3.0-only", NewCopyleftStrength::Copyleft),
    ]);
    assert_eq!(candidates(&p, "LGPL-3.0-only AND GPL-3.0-only"), vec!["GPL-3.0-only"]);
}

#[test]
fn the_same_unknown_identifier_is_compatible_with_itself() {
    let p = parser_with(&[]);
    assert_eq!(candidates(&p, "Foo AND Foo"), vec!["Foo"]);
    assert_eq!(candidates(&p, "Foo AND Bar"), vec!["Foo"]);
}

#[test]
fn pairs_are_kept_once_per_identifier() {
    let p = parser_with(&[("MIT", NewCopyleftStrength::Permissive), ("Apache-2.0", NewCopyleftStrength::Permissive)]);
    assert_eq!(candidates(&p, "(MIT OR MIT) AND Apache-2.0"), vec!["MIT"]);
    assert_eq!(candidates(&p, "Apache-2.0 AND (MIT OR Apache-2.0)"), vec!["Apache-2.0"]);
}

#[test]
fn commercial_is_incompatible_with_copyleft() {
    let p = parser_with(&[
        ("Acme", NewCopyleftStrength::Commercial),
        ("GPL-2.0-only", NewCopyleftStrength::Copyleft),
        ("MIT", NewCopyleftStrength::Permissive),
    ]);
    assert_eq!(candidates(&p, "(GPL-2.0-only OR MIT) AND Acme"), vec!["Acme"]);
    assert_eq!(candidates(&p, "Acme AND (MIT OR GPL-2.0-only)"), vec!["Acme"]);
}

#[test]
fn exception_taking_a_parenthesis_does_not_print_back() {
    let p = parser_with(&[]);
    let tree = p.parse("A WITH ( )").unwrap();
    assert_eq!(tree, SpdxExpr::With(Box::new(SpdxExpr::License("A".to_string())), "(".to_string()));
    assert!(p.parse("(A WITH ()").is_err());
}
