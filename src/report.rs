use vstd::prelude::*;
use crate::license_database::{LicenseView, NewLicense};
use crate::license_expression_parser::{records, texts};
use crate::models::{category_name, risk_name, AnalysisView, ExprView, LicenseAnalysis, SpdxExpr};
use crate::text::push_char;

verus! {

/// What the derived `Debug` formatting prints for an expression tree.
pub uninterp spec fn debug_text_of(e: ExprView) -> Seq<char>;

/// Relies on the `Debug` formatting that `derive` gives `SpdxExpr`: the text
/// depends on the tree alone.
#[verifier::external_body]
fn debug_text(e: &SpdxExpr) -> (r: String)
    ensures
        r@ == debug_text_of(e@),
{
    format!("{:?}", e)
}

/// The decimal digit for `d`.
pub open spec fn digit_char(d: nat) -> char {
    if d == 0 { '0' } else if d == 1 { '1' } else if d == 2 { '2' } else if d == 3 { '3' } else if d == 4 {
        '4'
    } else if d == 5 { '5' } else if d == 6 { '6' } else if d == 7 { '7' } else if d == 8 { '8' } else { '9' }
}

/// Decimal notation of `n`, without leading zeros.
pub open spec fn decimal_text(n: nat) -> Seq<char>
    decreases n,
{
    if n < 10 {
        seq![digit_char(n)]
    } else {
        decimal_text(n / 10).push(digit_char(n % 10))
    }
}

/// Writes `n` in decimal.
pub fn decimal(n: usize) -> (r: String)
    ensures
        r@ == decimal_text(n as nat),
    decreases n,
{
    let mut r = if n < 10 {
        String::new()
    } else {
        decimal(n / 10)
    };
    let d = n % 10;
    let c = if d == 0 { '0' } else if d == 1 { '1' } else if d == 2 { '2' } else if d == 3 { '3' } else if d == 4 {
        '4'
    } else if d == 5 { '5' } else if d == 6 { '6' } else if d == 7 { '7' } else if d == 8 { '8' } else { '9' };
    push_char(&mut r, c);
    if n < 10 {
        assert(r@ =~= seq![digit_char(n as nat)]);
    }
    r
}

/// Each string indented by two spaces.
pub open spec fn indented(s: Seq<Seq<char>>) -> Seq<Seq<char>> {
    s.map_values(|x: Seq<char>| "  "@ + x)
}

/// One line for each candidate: its identifier and category.
pub open spec fn candidate_lines(c: Seq<LicenseView>) -> Seq<Seq<char>> {
    c.map_values(|l: LicenseView| "  - "@ + l.id + " ("@ + category_name(l.strength) + ")"@)
}

pub open spec fn heading_section(a: AnalysisView) -> Seq<Seq<char>> {
    seq![
        "Original Expression: "@ + a.original,
        "Risk Level: "@ + risk_name(a.risk),
        "Strongest Copyleft: "@ + category_name(a.strongest),
    ]
}

pub open spec fn tree_section(a: AnalysisView) -> Seq<Seq<char>> {
    match a.parsed {
        Some(t) => seq!["Parsed Expression: "@ + debug_text_of(t)],
        None => Seq::empty(),
    }
}

pub open spec fn candidates_section(a: AnalysisView) -> Seq<Seq<char>> {
    if a.candidates.len() > 0 {
        seq!["Possible Licenses ("@ + decimal_text(a.candidates.len()) + "):"@] + candidate_lines(a.candidates)
    } else {
        seq!["Possible Licenses: None (CONFLICT)"@]
    }
}

pub open spec fn recommended_section(a: AnalysisView) -> Seq<Seq<char>> {
    match a.recommended {
        Some(r) => seq!["Recommended Choice: "@ + r.id],
        None => Seq::empty(),
    }
}

/// A heading followed by the items indented, or nothing where there are no
/// items.
pub open spec fn list_section(heading: Seq<char>, items: Seq<Seq<char>>) -> Seq<Seq<char>> {
    if items.len() > 0 {
        seq![heading] + indented(items)
    } else {
        Seq::empty()
    }
}

/// The lines of the report, in order.
pub open spec fn report_lines(a: AnalysisView) -> Seq<Seq<char>> {
    heading_section(a) + tree_section(a) + candidates_section(a) + recommended_section(a) + list_section(
        "Compliance Notes:"@,
        a.notes,
    ) + list_section("CONFLICTS DETECTED:"@, a.conflicts)
}

/// The lines, each ended by a newline.
pub open spec fn lines_text(lines: Seq<Seq<char>>) -> Seq<char>
    decreases lines.len(),
{
    if lines.len() == 0 {
        Seq::empty()
    } else {
        lines_text(lines.drop_last()) + lines.last() + seq!['\n']
    }
}

/// Appends `prefix` followed by `s`.
fn push_line(lines: &mut Vec<String>, prefix: &str, s: &str)
    ensures
        texts(final(lines)@) == texts(old(lines)@).push(prefix@ + s@),
{
    let mut line = String::from_str(prefix);
    line.append(s);
    let ghost before = lines@;
    lines.push(line);
    assert(texts(lines@) =~= texts(before).push(prefix@ + s@));
}

/// Appends each string indented by two spaces.
fn push_indented(lines: &mut Vec<String>, items: &Vec<String>)
    ensures
        texts(final(lines)@) == texts(old(lines)@) + indented(texts(items@)),
{
    let ghost t = texts(items@);
    let mut i: usize = 0;
    while i < items.len()
        invariant
            i <= items.len(),
            t == texts(items@),
            texts(lines@) == texts(old(lines)@) + indented(t.take(i as int)),
        decreases items.len() - i,
    {
        push_line(lines, "  ", items[i].as_str());
        assert(indented(t.take(i + 1)) =~= indented(t.take(i as int)).push("  "@ + t[i as int]));
        i = i + 1;
    }
    assert(t.take(items.len() as int) =~= t);
}

/// Appends one line for each candidate.
fn push_candidates(lines: &mut Vec<String>, c: &Vec<NewLicense>)
    ensures
        texts(final(lines)@) == texts(old(lines)@) + candidate_lines(records(c@)),
{
    let ghost v = records(c@);
    let mut i: usize = 0;
    while i < c.len()
        invariant
            i <= c.len(),
            v == records(c@),
            texts(lines@) == texts(old(lines)@) + candidate_lines(v.take(i as int)),
        decreases c.len() - i,
    {
        let mut line = String::from_str("  - ");
        line.append(c[i].id.as_str());
        line.append(" (");
        line.append(c[i].copyleft_strength.display_name());
        line.append(")");
        let ghost before = lines@;
        lines.push(line);
        assert(texts(lines@) =~= texts(before).push(
            "  - "@ + v[i as int].id + " ("@ + category_name(v[i as int].strength) + ")"@,
        ));
        assert(candidate_lines(v.take(i + 1)) =~= candidate_lines(v.take(i as int)).push(
            "  - "@ + v[i as int].id + " ("@ + category_name(v[i as int].strength) + ")"@,
        ));
        i = i + 1;
    }
    assert(v.take(c.len() as int) =~= v);
}

impl LicenseAnalysis {
    /// The lines of the report, in order.
    pub fn report_lines(&self) -> (r: Vec<String>)
        ensures
            texts(r@) == report_lines(self@),
    {
        let a = self;
        let ghost v = self@;
        let mut lines: Vec<String> = Vec::new();
        push_line(&mut lines, "Original Expression: ", a.original_expression.as_str());
        push_line(&mut lines, "Risk Level: ", a.risk_level.name());
        push_line(&mut lines, "Strongest Copyleft: ", a.strongest_copyleft.display_name());
        assert(texts(lines@) =~= heading_section(v));
        let ghost l1 = texts(lines@);
        if let Some(expr) = &a.parsed_expression {
            let dump = debug_text(expr);
            push_line(&mut lines, "Parsed Expression: ", dump.as_str());
        }
        assert(texts(lines@) =~= l1 + tree_section(v));
        let ghost l2 = texts(lines@);
        if a.possible_licenses.len() > 0 {
            let n = decimal(a.possible_licenses.len());
            let mut head = String::from_str("Possible Licenses (");
            head.append(n.as_str());
            push_line(&mut lines, head.as_str(), "):");
            push_candidates(&mut lines, &a.possible_licenses);
        } else {
            push_line(&mut lines, "Possible Licenses: None (CONFLICT)", "");
            assert("Possible Licenses: None (CONFLICT)"@ + ""@ =~= "Possible Licenses: None (CONFLICT)"@) by {
                reveal_strlit("");
            }
        }
        assert(texts(lines@) =~= l2 + candidates_section(v));
        let ghost l3 = texts(lines@);
        if let Some(rec) = &a.recommended_choice {
            push_line(&mut lines, "Recommended Choice: ", rec.id.as_str());
        }
        assert(texts(lines@) =~= l3 + recommended_section(v));
        let ghost l4 = texts(lines@);
        Self::push_list(&mut lines, "Compliance Notes:", &a.compliance_notes);
        let ghost l5 = texts(lines@);
        Self::push_list(&mut lines, "CONFLICTS DETECTED:", &a.conflicts);
        assert(texts(lines@) =~= report_lines(v));
        lines
    }

    /// Appends a heading and the items indented, unless there are no items.
    fn push_list(lines: &mut Vec<String>, heading: &str, items: &Vec<String>)
        ensures
            texts(final(lines)@) == texts(old(lines)@) + list_section(heading@, texts(items@)),
    {
        if items.len() > 0 {
            push_line(lines, heading, "");
            assert(heading@ + ""@ =~= heading@) by {
                reveal_strlit("");
            }
            push_indented(lines, items);
            assert(texts(lines@) =~= texts(old(lines)@) + list_section(heading@, texts(items@)));
        } else {
            assert(texts(lines@) =~= texts(old(lines)@) + list_section(heading@, texts(items@)));
        }
    }

    /// The report as text, one line after another.
    pub fn report(&self) -> (r: String)
        ensures
            r@ == lines_text(report_lines(self@)),
    {
        let lines = self.report_lines();
        let ghost t = texts(lines@);
        let mut r = String::new();
        let mut i: usize = 0;
        while i < lines.len()
            invariant
                i <= lines.len(),
                t == texts(lines@),
                r@ == lines_text(t.take(i as int)),
            decreases lines.len() - i,
        {
            assert(t.take(i + 1).drop_last() =~= t.take(i as int));
            r.append(lines[i].as_str());
            push_char(&mut r, '\n');
            i = i + 1;
        }
        assert(t.take(lines.len() as int) =~= t);
        r
    }
}

} // verus!
