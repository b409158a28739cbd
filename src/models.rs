use vstd::prelude::*;
use crate::license_database::{LicenseView, NewLicense};

verus! {

/// Obligation profile of a license, from public domain (safest) to no stated
/// license at all (riskiest).
#[derive(Debug, Clone, Copy, PartialEq, Eq, Structural, Hash)]
pub enum NewCopyleftStrength {
    /// Contributor License Agreement: rules for accepting contributions.
    CLA,
    /// Third-party proprietary software under a direct commercial license.
    Commercial,
    /// Redistributions must carry the same license terms.
    Copyleft,
    /// Source of the licensed component must be shared, with limited obligations.
    CopyleftLimited,
    /// Permissive-style license with restrictions on use or redistribution.
    FreeRestricted,
    /// A license on patents rather than on software.
    PatentLicense,
    /// Non-copyleft open source license requiring attribution.
    Permissive,
    /// Proprietary software that is free to use under specific terms.
    ProprietaryFree,
    /// Available without explicit obligations.
    PublicDomain,
    /// Source is distributed without meeting open-source criteria.
    SourceAvailable,
    /// Copyright notice but no stated license.
    UnstatedLicense,
}

/// Strength rank of a category: 0 for the safest, 10 for the riskiest.
pub open spec fn rank(c: NewCopyleftStrength) -> nat {
    match c {
        NewCopyleftStrength::PublicDomain => 0,
        NewCopyleftStrength::Permissive => 1,
        NewCopyleftStrength::CLA => 2,
        NewCopyleftStrength::PatentLicense => 3,
        NewCopyleftStrength::ProprietaryFree => 4,
        NewCopyleftStrength::FreeRestricted => 5,
        NewCopyleftStrength::CopyleftLimited => 6,
        NewCopyleftStrength::SourceAvailable => 7,
        NewCopyleftStrength::Copyleft => 8,
        NewCopyleftStrength::Commercial => 9,
        NewCopyleftStrength::UnstatedLicense => 10,
    }
}

/// Returns the strength rank of a category.
pub fn new_copyleft_strength_order(strength: &NewCopyleftStrength) -> (r: u8)
    ensures
        r as nat == rank(*strength),
{
    match strength {
        NewCopyleftStrength::UnstatedLicense => 10,
        NewCopyleftStrength::Commercial => 9,
        NewCopyleftStrength::Copyleft => 8,
        NewCopyleftStrength::SourceAvailable => 7,
        NewCopyleftStrength::CopyleftLimited => 6,
        NewCopyleftStrength::FreeRestricted => 5,
        NewCopyleftStrength::ProprietaryFree => 4,
        NewCopyleftStrength::PatentLicense => 3,
        NewCopyleftStrength::CLA => 2,
        NewCopyleftStrength::Permissive => 1,
        NewCopyleftStrength::PublicDomain => 0,
    }
}

/// The stronger of two categories; the first one on equal rank.
pub open spec fn stronger_category(a: NewCopyleftStrength, b: NewCopyleftStrength) -> NewCopyleftStrength {
    if rank(a) >= rank(b) {
        a
    } else {
        b
    }
}

/// Returns the stronger of two categories, the first one on equal rank.
pub fn choose_stronger_new_copyleft(a: &NewCopyleftStrength, b: &NewCopyleftStrength) -> (r: NewCopyleftStrength)
    ensures
        r == stronger_category(*a, *b),
{
    let a_strength = new_copyleft_strength_order(a);
    let b_strength = new_copyleft_strength_order(b);
    if a_strength >= b_strength {
        *a
    } else {
        *b
    }
}

/// A license expression tree; each composite node owns its children.
#[derive(Debug, PartialEq)]
pub enum SpdxExpr {
    /// A license identifier.
    License(String),
    And(Box<SpdxExpr>, Box<SpdxExpr>),
    Or(Box<SpdxExpr>, Box<SpdxExpr>),
    /// A license with an exception identifier.
    With(Box<SpdxExpr>, String),
}

/// What an expression tree holds.
pub enum ExprView {
    Leaf(Seq<char>),
    And(Box<ExprView>, Box<ExprView>),
    Or(Box<ExprView>, Box<ExprView>),
    With(Box<ExprView>, Seq<char>),
}

impl View for SpdxExpr {
    type V = ExprView;

    open spec fn view(&self) -> ExprView
        decreases self,
    {
        match self {
            SpdxExpr::License(id) => ExprView::Leaf(id@),
            SpdxExpr::And(l, r) => ExprView::And(Box::new((**l).view()), Box::new((**r).view())),
            SpdxExpr::Or(l, r) => ExprView::Or(Box::new((**l).view()), Box::new((**r).view())),
            SpdxExpr::With(b, e) => ExprView::With(Box::new((**b).view()), e@),
        }
    }
}

/// How much care a license choice calls for.
#[derive(Debug, Clone, Copy, PartialEq, Eq, Structural)]
pub enum RiskLevel {
    Low,
    Medium,
    High,
    Critical,
    Unknown,
}

impl RiskLevel {
    /// Name of the level for a reader.
    pub fn name(&self) -> (r: &'static str)
        ensures
            r@ == risk_name(*self),
    {
        match self {
            RiskLevel::Low => "Low",
            RiskLevel::Medium => "Medium",
            RiskLevel::High => "High",
            RiskLevel::Critical => "Critical",
            RiskLevel::Unknown => "Unknown",
        }
    }
}

pub open spec fn risk_name(r: RiskLevel) -> Seq<char> {
    match r {
        RiskLevel::Low => "Low"@,
        RiskLevel::Medium => "Medium"@,
        RiskLevel::High => "High"@,
        RiskLevel::Critical => "Critical"@,
        RiskLevel::Unknown => "Unknown"@,
    }
}

/// Display name of a category.
pub open spec fn category_name(c: NewCopyleftStrength) -> Seq<char> {
    match c {
        NewCopyleftStrength::CLA => "Contributor License Agreement"@,
        NewCopyleftStrength::Commercial => "Commercial"@,
        NewCopyleftStrength::Copyleft => "Copyleft"@,
        NewCopyleftStrength::CopyleftLimited => "Copyleft Limited"@,
        NewCopyleftStrength::FreeRestricted => "Free Restricted"@,
        NewCopyleftStrength::PatentLicense => "Patent License"@,
        NewCopyleftStrength::Permissive => "Permissive"@,
        NewCopyleftStrength::ProprietaryFree => "Proprietary Free"@,
        NewCopyleftStrength::PublicDomain => "Public Domain"@,
        NewCopyleftStrength::SourceAvailable => "Source-available"@,
        NewCopyleftStrength::UnstatedLicense => "Unstated License"@,
    }
}

impl NewCopyleftStrength {
    /// Display name of the category.
    pub fn display_name(&self) -> (r: &'static str)
        ensures
            r@ == category_name(*self),
    {
        match self {
            NewCopyleftStrength::CLA => "Contributor License Agreement",
            NewCopyleftStrength::Commercial => "Commercial",
            NewCopyleftStrength::Copyleft => "Copyleft",
            NewCopyleftStrength::CopyleftLimited => "Copyleft Limited",
            NewCopyleftStrength::FreeRestricted => "Free Restricted",
            NewCopyleftStrength::PatentLicense => "Patent License",
            NewCopyleftStrength::Permissive => "Permissive",
            NewCopyleftStrength::ProprietaryFree => "Proprietary Free",
            NewCopyleftStrength::PublicDomain => "Public Domain",
            NewCopyleftStrength::SourceAvailable => "Source-available",
            NewCopyleftStrength::UnstatedLicense => "Unstated License",
        }
    }
}

/// The report on one license expression.
#[derive(Debug)]
pub struct LicenseAnalysis {
    pub original_expression: String,
    pub parsed_expression: Option<SpdxExpr>,
    pub possible_licenses: Vec<NewLicense>,
    pub strongest_copyleft: NewCopyleftStrength,
    pub recommended_choice: Option<NewLicense>,
    pub risk_level: RiskLevel,
    pub compliance_notes: Vec<String>,
    pub conflicts: Vec<String>,
}

/// What a report holds.
pub struct AnalysisView {
    pub original: Seq<char>,
    pub parsed: Option<ExprView>,
    pub candidates: Seq<LicenseView>,
    pub strongest: NewCopyleftStrength,
    pub recommended: Option<LicenseView>,
    pub risk: RiskLevel,
    pub notes: Seq<Seq<char>>,
    pub conflicts: Seq<Seq<char>>,
}

impl View for LicenseAnalysis {
    type V = AnalysisView;

    open spec fn view(&self) -> AnalysisView {
        AnalysisView {
            original: self.original_expression@,
            parsed: match self.parsed_expression {
                Some(e) => Some(e@),
                None => None,
            },
            candidates: self.possible_licenses@.map_values(|l: NewLicense| l@),
            strongest: self.strongest_copyleft,
            recommended: match self.recommended_choice {
                Some(l) => Some(l@),
                None => None,
            },
            risk: self.risk_level,
            notes: self.compliance_notes@.map_values(|s: String| s@),
            conflicts: self.conflicts@.map_values(|s: String| s@),
        }
    }
}

} // verus!
