use license_expression::report::decimal;
use license_expression::{LicenseDatabase, LicenseExpressionParser, NewCopyleftStrength, NewLicense};

fn parser_with(entries: &[(&str, NewCopyleftStrength)]) -> LicenseExpressionParser {
    let mut db = LicenseDatabase::new();
    for (id, strength) in entries {
        db.insert(
            id.to_lowercase(),
            NewLicense { id: id.to_string(), name: id.to_string(), copyleft_strength: *strength },
        );
    }
    LicenseExpressionParser::new(db)
}

#[test]
fn decimal_has_no_leading_zeros() {
    assert_eq!(decimal(0), "0");
    assert_eq!(decimal(7), "7");
    assert_eq!(decimal(10), "10");
    assert_eq!(decimal(1234), "1234");
    assert_eq!(decimal(usize::MAX), usize::MAX.to_string());
}

#[test]
fn report_lists_every_section_in_order() {
    let p = parser_with(&[("MIT", NewCopyleftStrength::Permissive), ("Apache-2.0", NewCopyleftStrength::Permissive)]);
    let text = p.analyze("MIT OR Apache-2.0").report();
    let expected = "Original Expression: MIT OR Apache-2.0\n\
Risk Level: Low\n\
Strongest Copyleft: Permissive\n\
Parsed Expression: Or(License(\"MIT\"), License(\"Apache-2.0\"))\n\
Possible Licenses (2):\n\
\x20 - MIT (Permissive)\n\
\x20 - Apache-2.0 (Permissive)\n\
Recommended Choice: MIT\n\
Compliance Notes:\n\
\x20 Recommended license choice: MIT\n\
\x20 Permissive/PublicDomain: Minimal compliance requirements\n\
\x20 Required: Include license notice and attribution\n\
\x20 Alternative licenses available: Apache-2.0\n";
    assert_eq!(text, expected);
}

#[test]
fn report_of_unparsable_text_shows_the_conflict() {
    let p = parser_with(&[]);
    let lines = p.analyze("(A AND B").report_lines();
    assert_eq!(
        lines,
        vec![
            "Original Expression: (A AND B",
            "Risk Level: Critical",
            "Strongest Copyleft: Public Domain",
            "Possible Licenses: None (CONFLICT)",
            "Compliance Notes:",
            "  No compatible licenses found - this is a licensing conflict!",
            "CONFLICTS DETECTED:",
            "  Complete licensing conflict - no compatible licenses found",
        ]
    );
}
