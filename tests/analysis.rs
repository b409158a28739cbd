use license_expression::{
    LicenseDatabase, LicenseExpressionParser, NewCopyleftStrength, NewLicense, ParseError, RiskLevel, SpdxExpr,
};

fn record(id: &str, strength: NewCopyleftStrength) -> NewLicense {
    NewLicense { id: id.to_string(), name: id.to_string(), copyleft_strength: strength }
}

fn parser_with(entries: &[(&str, NewCopyleftStrength)]) -> LicenseExpressionParser {
    let mut db = LicenseDatabase::new();
    for (id, strength) in entries {
        db.insert(id.to_lowercase(), record(id, *strength));
    }
    LicenseExpressionParser::new(db)
}

fn empty_parser() -> LicenseExpressionParser {
    LicenseExpressionParser::new(LicenseDatabase::new())
}

fn leaf(id: &str) -> SpdxExpr {
    SpdxExpr::License(id.to_string())
}

fn ids(licenses: &[NewLicense]) -> Vec<String> {
    licenses.iter().map(|l| l.id.clone()).collect()
}

#[test]
fn parse_groups_or_inside_and() {
    let p = empty_parser();
    let tree = p.parse("(A OR B) AND C").unwrap();
    let expected = SpdxExpr::And(
        Box::new(SpdxExpr::Or(Box::new(leaf("A")), Box::new(leaf("B")))),
        Box::new(leaf("C")),
    );
    assert_eq!(tree, expected);
}

#[test]
fn and_binds_tighter_than_or() {
    let p = empty_parser();
    let tree = p.parse("A OR B AND C").unwrap();
    let expected = SpdxExpr::Or(
        Box::new(leaf("A")),
        Box::new(SpdxExpr::And(Box::new(leaf("B")), Box::new(leaf("C")))),
    );
    assert_eq!(tree, expected);
}

#[test]
fn operators_fold_to_the_left() {
    let p = empty_parser();
    let tree = p.parse("A OR B OR C").unwrap();
    let expected = SpdxExpr::Or(
        Box::new(SpdxExpr::Or(Box::new(leaf("A")), Box::new(leaf("B")))),
        Box::new(leaf("C")),
    );
    assert_eq!(tree, expected);
}

#[test]
fn keywords_match_in_any_case() {
    let p = empty_parser();
    let tree = p.parse("a or b with Classpath-exception-2.0").unwrap();
    let expected = SpdxExpr::Or(
        Box::new(leaf("a")),
        Box::new(SpdxExpr::With(Box::new(leaf("b")), "Classpath-exception-2.0".to_string())),
    );
    assert_eq!(tree, expected);
}

#[test]
fn parentheses_split_tokens_without_spaces() {
    let p = empty_parser();
    let tree = p.parse("MIT\tAND(Apache-2.0\nOR ISC)").unwrap();
    let expected = SpdxExpr::And(
        Box::new(leaf("MIT")),
        Box::new(SpdxExpr::Or(Box::new(leaf("Apache-2.0")), Box::new(leaf("ISC")))),
    );
    assert_eq!(tree, expected);
}

#[test]
fn tokens_after_a_complete_expression_are_ignored() {
    let p = empty_parser();
    assert_eq!(p.parse("A B").unwrap(), leaf("A"));
}

#[test]
fn reserialized_tree_parses_back() {
    let p = empty_parser();
    let tree = p.parse("(MIT OR Apache-2.0) AND GPL-2.0-or-later WITH Classpath-exception-2.0").unwrap();
    let text = "((MIT OR Apache-2.0) AND (GPL-2.0-or-later WITH Classpath-exception-2.0))";
    assert_eq!(p.parse(text).unwrap(), tree);
}

#[test]
fn parse_errors_name_their_cause() {
    let p = empty_parser();
    assert_eq!(p.parse_expression("(A AND B").unwrap_err(), ParseError::MismatchedParentheses);
    assert_eq!(p.parse_expression("").unwrap_err(), ParseError::UnexpectedEndOfExpression);
    assert_eq!(p.parse_expression("A AND").unwrap_err(), ParseError::UnexpectedEndOfExpression);
    assert_eq!(p.parse_expression("(A B)").unwrap_err(), ParseError::ExpectedClosingParenthesis);
    assert_eq!(p.parse_expression("A WITH").unwrap_err(), ParseError::ExpectedExceptionAfterWith);
    assert_eq!(p.parse("(A AND B").unwrap_err(), "Mismatched parentheses");
    assert_eq!(p.parse("A WITH").unwrap_err(), "Expected exception after WITH");
}

#[test]
fn nesting_beyond_the_limit_is_refused() {
    let p = empty_parser();
    let deep = format!("{}A{}", "(".repeat(101), ")".repeat(101));
    assert_eq!(p.parse_expression(&deep).unwrap_err(), ParseError::NestingTooDeep);
    let allowed = format!("{}A{}", "(".repeat(100), ")".repeat(100));
    assert_eq!(p.parse(&allowed).unwrap(), leaf("A"));
}

#[test]
fn permissive_choice_keeps_order_and_recommends_first() {
    let p = parser_with(&[("MIT", NewCopyleftStrength::Permissive), ("Apache-2.0", NewCopyleftStrength::Permissive)]);
    let a = p.analyze("MIT OR Apache-2.0");
    assert_eq!(ids(&a.possible_licenses), vec!["MIT", "Apache-2.0"]);
    assert_eq!(a.strongest_copyleft, NewCopyleftStrength::Permissive);
    assert_eq!(a.recommended_choice.as_ref().unwrap().id, "MIT");
    assert_eq!(a.risk_level, RiskLevel::Low);
    assert!(a.conflicts.is_empty());
    assert_eq!(
        a.compliance_notes,
        vec![
            "Recommended license choice: MIT".to_string(),
            "Permissive/PublicDomain: Minimal compliance requirements".to_string(),
            "Required: Include license notice and attribution".to_string(),
            "Alternative licenses available: Apache-2.0".to_string(),
        ]
    );
}

#[test]
fn incompatible_copyleft_falls_back_to_the_left_license() {
    let p = parser_with(&[("GPL-2.0-only", NewCopyleftStrength::Copyleft), ("GPL-3.0-only", NewCopyleftStrength::Copyleft)]);
    let a = p.analyze("GPL-2.0-only AND GPL-3.0-only");
    assert_eq!(ids(&a.possible_licenses), vec!["GPL-2.0-only"]);
    assert_eq!(a.recommended_choice.as_ref().unwrap().id, "GPL-2.0-only");
    assert_eq!(a.risk_level, RiskLevel::High);
    // The conflict check looks at the candidates after the fallback, where
    // only the left license is left.
    assert!(a.conflicts.is_empty());
}

#[test]
fn unparsable_text_is_a_critical_conflict() {
    let p = empty_parser();
    let a = p.analyze("(A AND B");
    assert!(a.parsed_expression.is_none());
    assert!(a.possible_licenses.is_empty());
    assert!(a.recommended_choice.is_none());
    assert_eq!(a.risk_level, RiskLevel::Critical);
    assert_eq!(a.strongest_copyleft, NewCopyleftStrength::PublicDomain);
    assert_eq!(a.conflicts, vec!["Complete licensing conflict - no compatible licenses found".to_string()]);
    assert_eq!(a.compliance_notes, vec!["No compatible licenses found - this is a licensing conflict!".to_string()]);
}

#[test]
fn unknown_identifier_gets_a_synthetic_record() {
    let p = empty_parser();
    let a = p.analyze("Foo-Bar-1.0");
    assert_eq!(a.possible_licenses.len(), 1);
    let l = &a.possible_licenses[0];
    assert_eq!(l.id, "Foo-Bar-1.0");
    assert_eq!(l.name, "Unknown License: Foo-Bar-1.0");
    assert_eq!(l.copyleft_strength, NewCopyleftStrength::UnstatedLicense);
    assert_eq!(a.risk_level, RiskLevel::Unknown);
    assert!(a.compliance_notes.contains(&"Unknown license: Manual legal review required".to_string()));
}

#[test]
fn analyzing_twice_gives_the_same_report() {
    let p = parser_with(&[("MIT", NewCopyleftStrength::Permissive), ("LGPL-2.1-only", NewCopyleftStrength::CopyleftLimited)]);
    let text = "MIT AND (LGPL-2.1-only OR Foo)";
    let a = p.analyze(text);
    let b = p.analyze(text);
    assert_eq!(format!("{:?}", a), format!("{:?}", b));
    assert_eq!(a.original_expression, text);
}

#[test]
fn lookup_ignores_case() {
    let p = parser_with(&[("MIT", NewCopyleftStrength::Permissive)]);
    let a = p.analyze("mIT");
    assert_eq!(a.possible_licenses[0].id, "MIT");
    assert_eq!(a.possible_licenses[0].copyleft_strength, NewCopyleftStrength::Permissive);
}

#[test]
fn compatible_pairs_keep_the_stronger_license() {
    let p = parser_with(&[
        ("MIT", NewCopyleftStrength::Permissive),
        ("Apache-2.0", NewCopyleftStrength::Permissive),
        ("LGPL-2.1-only", NewCopyleftStrength::CopyleftLimited),
    ]);
    let a = p.analyze("(MIT OR Apache-2.0) AND LGPL-2.1-only");
    assert_eq!(ids(&a.possible_licenses), vec!["LGPL-2.1-only"]);
    assert_eq!(a.strongest_copyleft, NewCopyleftStrength::CopyleftLimited);
    assert_eq!(a.risk_level, RiskLevel::Medium);
}

#[test]
fn with_exception_evaluates_to_its_base() {
    let p = parser_with(&[("GPL-2.0-or-later", NewCopyleftStrength::Copyleft)]);
    let a = p.analyze("GPL-2.0-or-later WITH Classpath-exception-2.0");
    assert_eq!(ids(&a.possible_licenses), vec!["GPL-2.0-or-later"]);
    assert_eq!(a.risk_level, RiskLevel::High);
    assert_eq!(a.compliance_notes.len(), 4);
}

#[test]
fn gpl2_or_later_is_compatible_with_gpl3() {
    let p = parser_with(&[
        ("GPL-2.0-or-later", NewCopyleftStrength::Copyleft),
        ("LGPL-3.0-only", NewCopyleftStrength::CopyleftLimited),
    ]);
    let a = p.analyze("LGPL-3.0-only AND GPL-2.0-or-later");
    assert_eq!(ids(&a.possible_licenses), vec!["GPL-2.0-or-later"]);
    assert!(a.conflicts.is_empty());
}

#[test]
fn commercial_is_critical_even_with_candidates() {
    let p = parser_with(&[("Acme-Commercial", NewCopyleftStrength::Commercial)]);
    let a = p.analyze("Acme-Commercial");
    assert_eq!(a.risk_level, RiskLevel::Critical);
    assert_eq!(a.compliance_notes.len(), 4);
    assert!(a.conflicts.is_empty());
}

#[test]
fn recommended_is_the_safest_and_duplicates_are_listed() {
    let p = parser_with(&[
        ("GPL-3.0-only", NewCopyleftStrength::Copyleft),
        ("MIT", NewCopyleftStrength::Permissive),
    ]);
    let a = p.analyze("GPL-3.0-only OR MIT OR GPL-3.0-only");
    assert_eq!(ids(&a.possible_licenses), vec!["GPL-3.0-only", "MIT", "GPL-3.0-only"]);
    assert_eq!(a.recommended_choice.as_ref().unwrap().id, "MIT");
    assert_eq!(a.strongest_copyleft, NewCopyleftStrength::Copyleft);
    assert_eq!(
        a.compliance_notes.last().unwrap(),
        "Alternative licenses available: GPL-3.0-only, GPL-3.0-only"
    );
}

#[test]
fn same_identifier_twice_lists_no_alternatives() {
    let p = parser_with(&[("MIT", NewCopyleftStrength::Permissive)]);
    let a = p.analyze("MIT OR MIT");
    assert_eq!(a.possible_licenses.len(), 2);
    assert_eq!(a.compliance_notes.len(), 3);
}

#[test]
fn gpl2_only_with_gpl3_or_later_is_a_conflict() {
    let p = parser_with(&[
        ("GPL-2.0-only", NewCopyleftStrength::Copyleft),
        ("GPL-3.0-or-later", NewCopyleftStrength::Copyleft),
    ]);
    let a = p.analyze("GPL-2.0-only OR GPL-3.0-or-later");
    assert_eq!(a.conflicts, vec!["GPL-2.0-only is incompatible with GPL-3.0+ licenses".to_string()]);
}
