use vstd::prelude::*;
use crate::grammar::parse_text;
use crate::license_database::LicenseView;
use crate::models::{rank, stronger_category, AnalysisView, ExprView, NewCopyleftStrength, RiskLevel};
use crate::text::{has_substring, lower_of};

verus! {

/// Identifiers `x` and `y` are `p` and `q`, in either order.
pub open spec fn is_pair(x: Seq<char>, y: Seq<char>, p: Seq<char>, q: Seq<char>) -> bool {
    (x == p && y == q) || (x == q && y == p)
}

/// Members of the license families, by identifier fragment.
pub open spec fn license_family(f: int) -> Seq<Seq<char>> {
    if f == 0 {
        seq!["MIT"@, "Expat"@, "X11"@]
    } else if f == 1 {
        seq!["BSD-2-Clause"@, "BSD-3-Clause"@, "BSD-4-Clause"@]
    } else if f == 2 {
        seq!["Apache-1.1"@, "Apache-2.0"@]
    } else if f == 3 {
        seq!["GPL-2.0"@, "GPL-3.0"@, "GPL-2.0-only"@, "GPL-3.0-only"@]
    } else if f == 4 {
        seq!["LGPL-2.0"@, "LGPL-2.1"@, "LGPL-3.0"@, "LGPL-2.1-only"@, "LGPL-3.0-only"@]
    } else {
        Seq::empty()
    }
}

pub const N_FAMILIES: usize = 5;

/// `id` contains a member of the family.
pub open spec fn in_family(id: Seq<char>, members: Seq<Seq<char>>) -> bool {
    exists|m: int| 0 <= m < members.len() && has_substring(id, #[trigger] members[m])
}

/// Both identifiers belong to one family.
pub open spec fn same_family(x: Seq<char>, y: Seq<char>) -> bool {
    exists|f: int|
        0 <= f < N_FAMILIES && in_family(x, #[trigger] license_family(f)) && in_family(y, license_family(f))
}

/// Compatibility decided from the identifiers themselves.
pub open spec fn specific_compatible(a: LicenseView, b: LicenseView) -> bool {
    let x = a.id;
    let y = b.id;
    if x == "GPL-2.0-only"@ && has_substring(y, "GPL-3.0"@) {
        false
    } else if y == "GPL-2.0-only"@ && has_substring(x, "GPL-3.0"@) {
        false
    } else if x == "GPL-2.0-or-later"@ && has_substring(y, "GPL-3.0"@) {
        true
    } else if y == "GPL-2.0-or-later"@ && has_substring(x, "GPL-3.0"@) {
        true
    } else if has_substring(x, "LGPL-3.0"@) && has_substring(y, "GPL-3.0"@) {
        true
    } else if has_substring(x, "GPL-3.0"@) && has_substring(y, "LGPL-3.0"@) {
        true
    } else if is_pair(x, y, "LGPL-2.1-only"@, "LGPL-2.1-or-later"@)
        || is_pair(x, y, "LGPL-3.0-only"@, "LGPL-3.0-or-later"@)
        || is_pair(x, y, "MIT"@, "LGPL-2.1"@)
        || is_pair(x, y, "MIT"@, "LGPL-3.0"@)
        || is_pair(x, y, "Apache-2.0"@, "LGPL-3.0"@) {
        true
    } else if x == "CC0-1.0"@ || y == "CC0-1.0"@ || x == "Unlicense"@ || y == "Unlicense"@ {
        true
    } else if same_family(x, y) {
        true
    } else {
        rank(a.strength) <= 5 && rank(b.strength) <= 5
    }
}

/// Either of the two categories is `c`.
pub open spec fn either_is(a: NewCopyleftStrength, b: NewCopyleftStrength, c: NewCopyleftStrength) -> bool {
    a == c || b == c
}

/// Whether two licenses can be combined: the first rule that applies decides.
pub open spec fn compatible(a: LicenseView, b: LicenseView) -> bool {
    let (s, t) = (a.strength, b.strength);
    if a.id == b.id {
        true
    } else if either_is(s, t, NewCopyleftStrength::PublicDomain) || either_is(s, t, NewCopyleftStrength::Permissive)
        || either_is(s, t, NewCopyleftStrength::CLA) || either_is(s, t, NewCopyleftStrength::PatentLicense) {
        true
    } else if (s == NewCopyleftStrength::ProprietaryFree && t == NewCopyleftStrength::ProprietaryFree)
        || (s == NewCopyleftStrength::FreeRestricted && t == NewCopyleftStrength::FreeRestricted) {
        true
    } else if (s == NewCopyleftStrength::CopyleftLimited && t == NewCopyleftStrength::Copyleft)
        || (s == NewCopyleftStrength::Copyleft && t == NewCopyleftStrength::CopyleftLimited) {
        specific_compatible(a, b)
    } else if s == NewCopyleftStrength::Copyleft && t == NewCopyleftStrength::Copyleft {
        false
    } else if (s == NewCopyleftStrength::Copyleft && t == NewCopyleftStrength::SourceAvailable)
        || (s == NewCopyleftStrength::SourceAvailable && t == NewCopyleftStrength::Copyleft) {
        false
    } else if either_is(s, t, NewCopyleftStrength::Commercial) || either_is(s, t, NewCopyleftStrength::UnstatedLicense) {
        false
    } else {
        specific_compatible(a, b)
    }
}

/// The stronger of two licenses; the first one on equal rank.
pub open spec fn stronger(a: LicenseView, b: LicenseView) -> LicenseView {
    if rank(a.strength) >= rank(b.strength) {
        a
    } else {
        b
    }
}

/// `s` holds a license with identifier `id`.
pub open spec fn has_id(s: Seq<LicenseView>, id: Seq<char>) -> bool {
    exists|i: int| 0 <= i < s.len() && (#[trigger] s[i]).id == id
}

/// `x` appended to `d` unless `d` already has its identifier.
pub open spec fn add_unique(d: Seq<LicenseView>, x: LicenseView) -> Seq<LicenseView> {
    if has_id(d, x.id) {
        d
    } else {
        d.push(x)
    }
}

/// The first license of each identifier, in order.
pub open spec fn dedup_ids(s: Seq<LicenseView>) -> Seq<LicenseView>
    decreases s.len(),
{
    if s.len() == 0 {
        Seq::empty()
    } else {
        add_unique(dedup_ids(s.drop_last()), s.last())
    }
}

/// The stronger of `a` and each of `rs`, in order; with `only_compatible`,
/// for the compatible pairs only.
pub open spec fn row(a: LicenseView, rs: Seq<LicenseView>, only_compatible: bool) -> Seq<LicenseView>
    decreases rs.len(),
{
    if rs.len() == 0 {
        Seq::empty()
    } else {
        let earlier = row(a, rs.drop_last(), only_compatible);
        let b = rs.last();
        if !only_compatible || compatible(a, b) {
            earlier.push(stronger(a, b))
        } else {
            earlier
        }
    }
}

/// `row` for each of `ls` in turn, concatenated.
pub open spec fn rows(ls: Seq<LicenseView>, rs: Seq<LicenseView>, only_compatible: bool) -> Seq<LicenseView>
    decreases ls.len(),
{
    if ls.len() == 0 {
        Seq::empty()
    } else {
        rows(ls.drop_last(), rs, only_compatible) + row(ls.last(), rs, only_compatible)
    }
}

/// Licenses that satisfy both sides of an `AND`: the stronger of each
/// compatible pair, or of every pair where no pair is compatible, first
/// occurrence of each identifier kept.
pub open spec fn combine(ls: Seq<LicenseView>, rs: Seq<LicenseView>) -> Seq<LicenseView> {
    let found = dedup_ids(rows(ls, rs, true));
    if found.len() > 0 {
        found
    } else {
        dedup_ids(rows(ls, rs, false))
    }
}

/// The record made for an identifier that the table does not hold.
pub open spec fn unknown_license(id: Seq<char>) -> LicenseView {
    LicenseView { id: id, name: "Unknown License: "@ + id, strength: NewCopyleftStrength::UnstatedLicense }
}

/// The licenses that an expression may resolve to.
pub open spec fn evaluate(db: Map<Seq<char>, LicenseView>, e: ExprView) -> Seq<LicenseView>
    decreases e,
{
    match e {
        ExprView::Leaf(id) => if db.contains_key(lower_of(id)) {
            seq![db[lower_of(id)]]
        } else {
            seq![unknown_license(id)]
        },
        ExprView::Or(l, r) => evaluate(db, *l) + evaluate(db, *r),
        ExprView::And(l, r) => combine(evaluate(db, *l), evaluate(db, *r)),
        ExprView::With(b, _) => evaluate(db, *b),
    }
}

/// Category of highest rank among the candidates; public domain where there
/// are none.
pub open spec fn strongest_of(c: Seq<LicenseView>) -> NewCopyleftStrength
    decreases c.len(),
{
    if c.len() == 0 {
        NewCopyleftStrength::PublicDomain
    } else {
        stronger_category(c.last().strength, strongest_of(c.drop_last()))
    }
}

/// The first candidate of lowest rank.
pub open spec fn recommended_of(c: Seq<LicenseView>) -> Option<LicenseView>
    decreases c.len(),
{
    if c.len() == 0 {
        None
    } else {
        match recommended_of(c.drop_last()) {
            None => Some(c.last()),
            Some(x) => if rank(c.last().strength) < rank(x.strength) {
                Some(c.last())
            } else {
                Some(x)
            },
        }
    }
}

/// Risk of a candidate set whose strongest category is `strongest`.
pub open spec fn risk_of(strongest: NewCopyleftStrength, c: Seq<LicenseView>) -> RiskLevel {
    if c.len() == 0 {
        RiskLevel::Critical
    } else {
        match strongest {
            NewCopyleftStrength::PublicDomain | NewCopyleftStrength::Permissive | NewCopyleftStrength::CLA => RiskLevel::Low,
            NewCopyleftStrength::CopyleftLimited | NewCopyleftStrength::FreeRestricted
            | NewCopyleftStrength::PatentLicense | NewCopyleftStrength::ProprietaryFree => RiskLevel::Medium,
            NewCopyleftStrength::Copyleft | NewCopyleftStrength::SourceAvailable => RiskLevel::High,
            NewCopyleftStrength::Commercial => RiskLevel::Critical,
            NewCopyleftStrength::UnstatedLicense => RiskLevel::Unknown,
        }
    }
}

/// Guidance lines for a recommended license of category `c`.
pub open spec fn guidance(c: NewCopyleftStrength) -> Seq<Seq<char>> {
    match c {
        NewCopyleftStrength::Copyleft => seq![
            "Copyleft: All derivative works must use compatible licenses"@,
            "Required: Provide complete source code upon distribution"@,
            "Caution: Static linking may affect entire codebase"@,
        ],
        NewCopyleftStrength::CopyleftLimited => seq![
            "CopyleftLimited: Only modifications to this component must be open-sourced"@,
            "Dynamic linking generally acceptable"@,
        ],
        NewCopyleftStrength::Permissive | NewCopyleftStrength::PublicDomain => seq![
            "Permissive/PublicDomain: Minimal compliance requirements"@,
            "Required: Include license notice and attribution"@,
        ],
        NewCopyleftStrength::CLA => seq![
            "CLA: Contributor License Agreement required for contributions"@,
            "Review: Ensure all contributors have signed appropriate CLA"@,
        ],
        NewCopyleftStrength::Commercial => seq![
            "Commercial: Proprietary license with commercial terms"@,
            "Review: Check license terms for usage restrictions and fees"@,
            "Caution: May have redistribution limitations"@,
        ],
        NewCopyleftStrength::FreeRestricted => seq![
            "Free Restricted: Permissive-style license with usage restrictions"@,
            "Review: Check specific restrictions on usage or redistribution"@,
        ],
        NewCopyleftStrength::PatentLicense => seq![
            "Patent License: Covers patent rights rather than software copyright"@,
            "Review: Ensure patent license terms are compatible with software usage"@,
        ],
        NewCopyleftStrength::ProprietaryFree => seq![
            "Proprietary Free: Free to use but with proprietary terms"@,
            "Review: Check specific terms and conditions for usage"@,
        ],
        NewCopyleftStrength::SourceAvailable => seq![
            "Source Available: Source code provided without full open-source compliance"@,
            "Review: Check redistribution and modification rights"@,
        ],
        NewCopyleftStrength::UnstatedLicense => seq!["Unknown license: Manual legal review required"@],
    }
}

/// Identifiers of the candidates other than the recommended license, in order.
pub open spec fn alternative_ids(c: Seq<LicenseView>, rec: Option<LicenseView>) -> Seq<Seq<char>>
    decreases c.len(),
{
    if c.len() == 0 {
        Seq::empty()
    } else {
        let earlier = alternative_ids(c.drop_last(), rec);
        match rec {
            Some(r) => if c.last().id == r.id {
                earlier
            } else {
                earlier.push(c.last().id)
            },
            None => earlier.push(c.last().id),
        }
    }
}

/// The strings joined with `", "` between them.
pub open spec fn join(s: Seq<Seq<char>>) -> Seq<char>
    decreases s.len(),
{
    if s.len() == 0 {
        Seq::empty()
    } else if s.len() == 1 {
        s[0]
    } else {
        join(s.drop_last()) + ", "@ + s.last()
    }
}

pub open spec fn no_licenses_note() -> Seq<char> {
    "No compatible licenses found - this is a licensing conflict!"@
}

/// Compliance notes for the candidates and the recommended license.
pub open spec fn notes_of(c: Seq<LicenseView>, rec: Option<LicenseView>) -> Seq<Seq<char>> {
    if c.len() == 0 {
        seq![no_licenses_note()]
    } else {
        let head = match rec {
            Some(r) => seq!["Recommended license choice: "@ + r.id] + guidance(r.strength),
            None => Seq::empty(),
        };
        let alternatives = alternative_ids(c, rec);
        if c.len() > 1 && alternatives.len() > 0 {
            head.push("Alternative licenses available: "@ + join(alternatives))
        } else {
            head
        }
    }
}

pub open spec fn no_licenses_conflict() -> Seq<char> {
    "Complete licensing conflict - no compatible licenses found"@
}

pub open spec fn gpl_conflict() -> Seq<char> {
    "GPL-2.0-only is incompatible with GPL-3.0+ licenses"@
}

/// Some candidate's identifier contains `p`.
pub open spec fn has_id_containing(c: Seq<LicenseView>, p: Seq<char>) -> bool {
    exists|i: int| 0 <= i < c.len() && has_substring((#[trigger] c[i]).id, p)
}

/// Conflicts found among the candidates.
pub open spec fn conflicts_of(c: Seq<LicenseView>) -> Seq<Seq<char>> {
    let first = if c.len() == 0 {
        seq![no_licenses_conflict()]
    } else {
        Seq::empty()
    };
    if has_id(c, "GPL-2.0-only"@) && has_id_containing(c, "GPL-3.0"@) {
        first.push(gpl_conflict())
    } else {
        first
    }
}

/// The report on a text, against a license table.
pub open spec fn analysis_of(db: Map<Seq<char>, LicenseView>, text: Seq<char>) -> AnalysisView {
    let parsed = parse_text(text);
    let c = match parsed {
        Ok(t) => evaluate(db, t),
        Err(_) => Seq::empty(),
    };
    let strongest = strongest_of(c);
    let rec = recommended_of(c);
    AnalysisView {
        original: text,
        parsed: match parsed {
            Ok(t) => Some(t),
            Err(_) => None,
        },
        candidates: c,
        strongest: strongest,
        recommended: rec,
        risk: risk_of(strongest, c),
        notes: notes_of(c, rec),
        conflicts: conflicts_of(c),
    }
}


/// The strongest category is that of a candidate, and no candidate ranks
/// higher.
pub proof fn lemma_strongest_is_maximal(c: Seq<LicenseView>)
    requires
        c.len() > 0,
    ensures
        exists|i: int| 0 <= i < c.len() && (#[trigger] c[i]).strength == strongest_of(c),
        forall|i: int| 0 <= i < c.len() ==> rank((#[trigger] c[i]).strength) <= rank(strongest_of(c)),
    decreases c.len(),
{
    let prev = c.drop_last();
    if prev.len() == 0 {
        assert(c[0] == c.last());
    } else {
        lemma_strongest_is_maximal(prev);
        let i = choose|i: int| 0 <= i < prev.len() && (#[trigger] prev[i]).strength == strongest_of(prev);
        if strongest_of(c) != c.last().strength {
            assert(c[i] == prev[i]);
        }
        assert forall|j: int| 0 <= j < c.len() implies rank((#[trigger] c[j]).strength) <= rank(strongest_of(c)) by {
            if j < prev.len() {
                assert(c[j] == prev[j]);
            }
        }
    }
}

/// The recommended license is the first candidate of lowest rank, and
/// there is one exactly when there are candidates.
pub proof fn lemma_recommended_is_first_lowest(c: Seq<LicenseView>)
    ensures
        recommended_of(c) is None <==> c.len() == 0,
        recommended_of(c) matches Some(x) ==> exists|i: int|
            0 <= i < c.len() && c[i] == x
            && (forall|j: int| 0 <= j < c.len() ==> rank(x.strength) <= rank((#[trigger] c[j]).strength))
            && (forall|j: int| 0 <= j < i ==> rank(x.strength) < rank((#[trigger] c[j]).strength)),
    decreases c.len(),
{
    if c.len() > 0 {
        let prev = c.drop_last();
        let n = prev.len() as int;
        lemma_recommended_is_first_lowest(prev);
        match recommended_of(prev) {
            None => {
                assert(c[0] == c.last());
            },
            Some(x) => {
                let i = choose|i: int|
                    0 <= i < prev.len() && prev[i] == x
                    && (forall|j: int| 0 <= j < prev.len() ==> rank(x.strength) <= rank((#[trigger] prev[j]).strength))
                    && (forall|j: int| 0 <= j < i ==> rank(x.strength) < rank((#[trigger] prev[j]).strength));
                if rank(c.last().strength) < rank(x.strength) {
                    assert forall|j: int| 0 <= j < c.len() implies rank(c.last().strength) <= rank((#[trigger] c[j]).strength) by {
                        if j < n {
                            assert(c[j] == prev[j]);
                        }
                    }
                    assert forall|j: int| 0 <= j < n implies rank(c.last().strength) < rank((#[trigger] c[j]).strength) by {
                        assert(c[j] == prev[j]);
                    }
                } else {
                    assert(c[i] == prev[i]);
                    assert forall|j: int| 0 <= j < c.len() implies rank(x.strength) <= rank((#[trigger] c[j]).strength) by {
                        if j < n {
                            assert(c[j] == prev[j]);
                        }
                    }
                    assert forall|j: int| 0 <= j < i implies rank(x.strength) < rank((#[trigger] c[j]).strength) by {
                        assert(c[j] == prev[j]);
                    }
                }
            },
        }
    }
}

proof fn lemma_dedup_nonempty(s: Seq<LicenseView>)
    requires
        s.len() > 0,
    ensures
        dedup_ids(s).len() > 0,
{
    let d = dedup_ids(s.drop_last());
    if has_id(d, s.last().id) {
        assert(d.len() > 0);
    }
}

proof fn lemma_row_len(a: LicenseView, rs: Seq<LicenseView>)
    ensures
        row(a, rs, false).len() == rs.len(),
    decreases rs.len(),
{
    if rs.len() > 0 {
        lemma_row_len(a, rs.drop_last());
    }
}

/// An `AND` of two non-empty candidate sets is never empty: where no pair
/// is compatible, the fallback still keeps the stronger of each pair.
pub proof fn lemma_combine_nonempty(ls: Seq<LicenseView>, rs: Seq<LicenseView>)
    requires
        ls.len() > 0,
        rs.len() > 0,
    ensures
        combine(ls, rs).len() > 0,
{
    lemma_row_len(ls.last(), rs);
    let all = rows(ls, rs, false);
    assert(all.len() >= row(ls.last(), rs, false).len());
    lemma_dedup_nonempty(all);
}

/// Every expression resolves to at least one license.
pub proof fn lemma_evaluate_nonempty(db: Map<Seq<char>, LicenseView>, e: ExprView)
    ensures
        evaluate(db, e).len() > 0,
    decreases e,
{
    match e {
        ExprView::Leaf(_) => {},
        ExprView::Or(l, r) => {
            lemma_evaluate_nonempty(db, *l);
        },
        ExprView::And(l, r) => {
            lemma_evaluate_nonempty(db, *l);
            lemma_evaluate_nonempty(db, *r);
            lemma_combine_nonempty(evaluate(db, *l), evaluate(db, *r));
        },
        ExprView::With(b, _) => {
            lemma_evaluate_nonempty(db, *b);
        },
    }
}

/// A report has candidates exactly when its text parsed; a recommendation
/// exactly when it has candidates; and a report without candidates is
/// critical, with the conflict that says so.
pub proof fn lemma_analysis_consistent(db: Map<Seq<char>, LicenseView>, text: Seq<char>)
    ensures
        ({
            let a = analysis_of(db, text);
            &&& (a.candidates.len() == 0 <==> a.parsed is None)
            &&& (a.recommended is None <==> a.candidates.len() == 0)
            &&& (a.candidates.len() == 0 ==> a.risk == RiskLevel::Critical && a.conflicts[0] == no_licenses_conflict())
        }),
{
    let a = analysis_of(db, text);
    if let Ok(t) = parse_text(text) {
        lemma_evaluate_nonempty(db, t);
    }
    lemma_recommended_is_first_lowest(a.candidates);
}

/// Analysing one text twice against one table gives the same report, field
/// for field.
pub proof fn lemma_analysis_idempotent(
    db: Map<Seq<char>, LicenseView>,
    text: Seq<char>,
    first: AnalysisView,
    second: AnalysisView,
)
    requires
        first == analysis_of(db, text),
        second == analysis_of(db, text),
    ensures
        first.original == second.original,
        first.parsed == second.parsed,
        first.candidates == second.candidates,
        first.strongest == second.strongest,
        first.recommended == second.recommended,
        first.risk == second.risk,
        first.notes == second.notes,
        first.conflicts == second.conflicts,
{
}

} // verus!
