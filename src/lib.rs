//! Analysis of SPDX-style license expressions: a tokenizer and a
//! recursive-descent parser for the expression grammar, an evaluator that
//! resolves an expression to the licenses it may stand for, and a risk and
//! recommendation engine built on a license-compatibility relation.
pub mod grammar;
pub mod license;
pub mod license_database;
pub mod license_expression_parser;
pub mod models;
pub mod policy;
pub mod report;
pub mod round_trip;
pub mod text;

pub use grammar::{ParseError, MAX_NESTING_DEPTH};
pub use license::License;
pub use license_database::{category_from_label, LicenseDatabase, LicenseDatabaseError, NewLicense};
pub use license_expression_parser::LicenseExpressionParser;
pub use models::{
    choose_stronger_new_copyleft, new_copyleft_strength_order, LicenseAnalysis, NewCopyleftStrength, RiskLevel,
    SpdxExpr,
};
