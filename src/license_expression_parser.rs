use vstd::prelude::*;
use crate::grammar::{
    and_tail, error_text, flush, is_keyword, or_tail, paren_depth, parse_and, parse_or, parse_primary, parse_text,
    parse_with, scan, tokens_of, with_tail, ParseError, MAX_NESTING_DEPTH,
};
use crate::license_database::{LicenseDatabase, LicenseView, NewLicense};
use crate::models::{new_copyleft_strength_order, LicenseAnalysis, NewCopyleftStrength, RiskLevel, SpdxExpr};
use crate::policy::{
    add_unique, alternative_ids, analysis_of, combine, compatible, conflicts_of, dedup_ids, evaluate, gpl_conflict,
    guidance, has_id, in_family, is_pair, join, license_family, no_licenses_conflict, no_licenses_note, notes_of,
    recommended_of, risk_of, row, rows, same_family, specific_compatible, stronger, strongest_of, unknown_license,
    N_FAMILIES,
};
use crate::text::{contains_text, has_substring, push_char, same_text, to_upper};

verus! {

/// The characters of each string.
pub open spec fn texts(v: Seq<String>) -> Seq<Seq<char>> {
    v.map_values(|s: String| s@)
}

/// Parses license expressions and reports on them against a license table.
#[derive(Debug)]
pub struct LicenseExpressionParser {
    license_db: LicenseDatabase,
}

impl View for LicenseExpressionParser {
    type V = Map<Seq<char>, LicenseView>;

    /// The license table that identifiers are looked up in.
    closed spec fn view(&self) -> Map<Seq<char>, LicenseView> {
        self.license_db@
    }
}

impl LicenseExpressionParser {
    /// The license table is well formed.
    pub closed spec fn wf(&self) -> bool {
        self.license_db.wf()
    }

    /// A parser that looks identifiers up in `license_db`.
    pub fn new(license_db: LicenseDatabase) -> (r: LicenseExpressionParser)
        requires
            license_db.wf(),
        ensures
            r.wf(),
            r@ == license_db@,
    {
        LicenseExpressionParser { license_db }
    }
}

impl LicenseExpressionParser {
    /// Moves the pending token, if any, to the completed ones.
    fn flush_token(tokens: &mut Vec<String>, current: &mut String)
        ensures
            texts(final(tokens)@) == flush(texts(old(tokens)@), old(current)@),
            final(current)@ == Seq::<char>::empty(),
    {
        if !current.as_str().is_empty() {
            tokens.push(current.clone());
            *current = String::new();
            assert(texts(tokens@) =~= texts(old(tokens)@).push(old(current)@));
        } else {
            assert(old(current)@.len() == 0);
        }
    }

    /// Splits a text into tokens; fails where the parentheses do not balance.
    fn tokenize(&self, expression: &str) -> (r: Result<Vec<String>, ParseError>)
        ensures
            match tokens_of(expression@) {
                Ok(toks) => r is Ok && texts(r->Ok_0@) == toks,
                Err(e) => r == Err::<Vec<String>, ParseError>(e),
            },
    {
        let mut tokens: Vec<String> = Vec::new();
        let mut current = String::new();
        let mut opens: usize = 0;
        let mut closes: usize = 0;
        let n = expression.unicode_len();
        for ch in it: expression.chars()
            invariant
                n == expression@.len(),
                it.seq() == expression@,
                0 <= it.index() <= n,
                opens + closes <= it.index(),
                opens - closes == paren_depth(expression@.take(it.index())),
                (texts(tokens@), current@) == scan(expression@.take(it.index())),
        {
            proof {
                assert(expression@.take(it.index() + 1).drop_last() =~= expression@.take(it.index()));
            }
            if ch == '(' || ch == ')' {
                Self::flush_token(&mut tokens, &mut current);
                let mut t = String::new();
                push_char(&mut t, ch);
                assert(t@ =~= seq![ch]);
                let ghost before = tokens@;
                tokens.push(t);
                assert(texts(tokens@) =~= texts(before).push(seq![ch]));
                if ch == '(' {
                    opens = opens + 1;
                } else {
                    closes = closes + 1;
                }
            } else if ch == ' ' || ch == '\t' || ch == '\n' {
                Self::flush_token(&mut tokens, &mut current);
            } else {
                push_char(&mut current, ch);
            }
        }
        assert(expression@.take(n as int) =~= expression@);
        Self::flush_token(&mut tokens, &mut current);
        if opens != closes {
            return Err(ParseError::MismatchedParentheses);
        }
        Ok(tokens)
    }

    /// Whether a token spells the keyword `kw`, in any case.
    fn is_keyword_token(token: &String, kw: &str) -> (r: bool)
        ensures
            r == is_keyword(token@, kw@),
    {
        let upper = to_upper(token.as_str());
        same_text(upper.as_str(), kw)
    }

    fn parse_or_expression(&self, tokens: &[String], pos: &mut usize, depth: usize) -> (r: Result<SpdxExpr, ParseError>)
        requires
            *old(pos) <= tokens.len(),
            depth <= MAX_NESTING_DEPTH,
        ensures
            match parse_or(texts(tokens@), *old(pos) as int, depth as int) {
                Ok((t, p)) => r is Ok && r->Ok_0@ == t && *final(pos) == p && *old(pos) < p <= tokens.len(),
                Err(e) => r == Err::<SpdxExpr, ParseError>(e),
            },
        decreases tokens.len() - *old(pos), 6int,
    {
        let ghost toks = texts(tokens@);
        let ghost start = *pos as int;
        let mut left = match self.parse_and_expression(tokens, pos, depth) {
            Ok(e) => e,
            Err(e) => return Err(e),
        };
        while *pos < tokens.len() && Self::is_keyword_token(&tokens[*pos], "OR")
            invariant
                start == *old(pos),
                start < *pos <= tokens.len(),
                toks == texts(tokens@),
                depth <= MAX_NESTING_DEPTH,
                parse_or(toks, start, depth as int) == or_tail(toks, left@, *pos as int, depth as int),
            decreases tokens.len() - *pos,
        {
            *pos = *pos + 1;
            let right = match self.parse_and_expression(tokens, pos, depth) {
                Ok(e) => e,
                Err(e) => return Err(e),
            };
            left = SpdxExpr::Or(Box::new(left), Box::new(right));
        }
        Ok(left)
    }

    fn parse_and_expression(&self, tokens: &[String], pos: &mut usize, depth: usize) -> (r: Result<SpdxExpr, ParseError>)
        requires
            *old(pos) <= tokens.len(),
            depth <= MAX_NESTING_DEPTH,
        ensures
            match parse_and(texts(tokens@), *old(pos) as int, depth as int) {
                Ok((t, p)) => r is Ok && r->Ok_0@ == t && *final(pos) == p && *old(pos) < p <= tokens.len(),
                Err(e) => r == Err::<SpdxExpr, ParseError>(e),
            },
        decreases tokens.len() - *old(pos), 4int,
    {
        let ghost toks = texts(tokens@);
        let ghost start = *pos as int;
        let mut left = match self.parse_with_expression(tokens, pos, depth) {
            Ok(e) => e,
            Err(e) => return Err(e),
        };
        while *pos < tokens.len() && Self::is_keyword_token(&tokens[*pos], "AND")
            invariant
                start == *old(pos),
                start < *pos <= tokens.len(),
                toks == texts(tokens@),
                depth <= MAX_NESTING_DEPTH,
                parse_and(toks, start, depth as int) == and_tail(toks, left@, *pos as int, depth as int),
            decreases tokens.len() - *pos,
        {
            *pos = *pos + 1;
            let right = match self.parse_with_expression(tokens, pos, depth) {
                Ok(e) => e,
                Err(e) => return Err(e),
            };
            left = SpdxExpr::And(Box::new(left), Box::new(right));
        }
        Ok(left)
    }

    fn parse_with_expression(&self, tokens: &[String], pos: &mut usize, depth: usize) -> (r: Result<SpdxExpr, ParseError>)
        requires
            *old(pos) <= tokens.len(),
            depth <= MAX_NESTING_DEPTH,
        ensures
            match parse_with(texts(tokens@), *old(pos) as int, depth as int) {
                Ok((t, p)) => r is Ok && r->Ok_0@ == t && *final(pos) == p && *old(pos) < p <= tokens.len(),
                Err(e) => r == Err::<SpdxExpr, ParseError>(e),
            },
        decreases tokens.len() - *old(pos), 2int,
    {
        let ghost toks = texts(tokens@);
        let ghost start = *pos as int;
        let mut left = match self.parse_primary(tokens, pos, depth) {
            Ok(e) => e,
            Err(e) => return Err(e),
        };
        while *pos < tokens.len() && Self::is_keyword_token(&tokens[*pos], "WITH")
            invariant
                start == *old(pos),
                start < *pos <= tokens.len(),
                toks == texts(tokens@),
                parse_with(toks, start, depth as int) == with_tail(toks, left@, *pos as int),
            decreases tokens.len() - *pos,
        {
            *pos = *pos + 1;
            if *pos >= tokens.len() {
                return Err(ParseError::ExpectedExceptionAfterWith);
            }
            let exception = tokens[*pos].clone();
            *pos = *pos + 1;
            left = SpdxExpr::With(Box::new(left), exception);
        }
        Ok(left)
    }

    fn parse_primary(&self, tokens: &[String], pos: &mut usize, depth: usize) -> (r: Result<SpdxExpr, ParseError>)
        requires
            *old(pos) <= tokens.len(),
            depth <= MAX_NESTING_DEPTH,
        ensures
            match parse_primary(texts(tokens@), *old(pos) as int, depth as int) {
                Ok((t, p)) => r is Ok && r->Ok_0@ == t && *final(pos) == p && *old(pos) < p <= tokens.len(),
                Err(e) => r == Err::<SpdxExpr, ParseError>(e),
            },
        decreases tokens.len() - *old(pos), 0int,
    {
        if *pos >= tokens.len() {
            return Err(ParseError::UnexpectedEndOfExpression);
        }
        if same_text(tokens[*pos].as_str(), "(") {
            if depth >= MAX_NESTING_DEPTH {
                return Err(ParseError::NestingTooDeep);
            }
            *pos = *pos + 1;
            let expr = match self.parse_or_expression(tokens, pos, depth + 1) {
                Ok(e) => e,
                Err(e) => return Err(e),
            };
            if *pos >= tokens.len() || !same_text(tokens[*pos].as_str(), ")") {
                return Err(ParseError::ExpectedClosingParenthesis);
            }
            *pos = *pos + 1;
            Ok(expr)
        } else {
            let license_id = tokens[*pos].clone();
            *pos = *pos + 1;
            Ok(SpdxExpr::License(license_id))
        }
    }

    /// Parses a license expression. Tokens after a complete expression are
    /// ignored.
    pub fn parse(&self, expression: &str) -> (r: Result<SpdxExpr, String>)
        ensures
            match parse_text(expression@) {
                Ok(t) => r is Ok && r->Ok_0@ == t,
                Err(e) => r is Err && r->Err_0@ == error_text(e),
            },
    {
        match self.parse_expression(expression) {
            Ok(t) => Ok(t),
            Err(e) => Err(e.message()),
        }
    }

    /// Parses a license expression, with the reason for a failure.
    pub fn parse_expression(&self, expression: &str) -> (r: Result<SpdxExpr, ParseError>)
        ensures
            match parse_text(expression@) {
                Ok(t) => r is Ok && r->Ok_0@ == t,
                Err(e) => r == Err::<SpdxExpr, ParseError>(e),
            },
    {
        let tokens = match self.tokenize(expression) {
            Ok(t) => t,
            Err(e) => return Err(e),
        };
        let mut pos: usize = 0;
        self.parse_or_expression(tokens.as_slice(), &mut pos, 0)
    }
}


/// The characters of each string slice.
pub open spec fn str_texts(v: Seq<&str>) -> Seq<Seq<char>> {
    v.map_values(|s: &str| s@)
}

/// Members of family `f`.
fn family_members(f: usize) -> (r: Vec<&'static str>)
    requires
        f < N_FAMILIES,
    ensures
        str_texts(r@) == license_family(f as int),
{
    let r = if f == 0 {
        vec!["MIT", "Expat", "X11"]
    } else if f == 1 {
        vec!["BSD-2-Clause", "BSD-3-Clause", "BSD-4-Clause"]
    } else if f == 2 {
        vec!["Apache-1.1", "Apache-2.0"]
    } else if f == 3 {
        vec!["GPL-2.0", "GPL-3.0", "GPL-2.0-only", "GPL-3.0-only"]
    } else {
        vec!["LGPL-2.0", "LGPL-2.1", "LGPL-3.0", "LGPL-2.1-only", "LGPL-3.0-only"]
    };
    assert(str_texts(r@) =~= license_family(f as int));
    r
}

/// Whether `id` contains a member of the family.
fn contains_member(id: &str, members: &Vec<&'static str>) -> (r: bool)
    ensures
        r == in_family(id@, str_texts(members@)),
{
    let mut i: usize = 0;
    while i < members.len()
        invariant
            i <= members.len(),
            forall|m: int| 0 <= m < i ==> !has_substring(id@, #[trigger] str_texts(members@)[m]),
        decreases members.len() - i,
    {
        if contains_text(id, members[i]) {
            assert(has_substring(id@, str_texts(members@)[i as int]));
            return true;
        }
        i = i + 1;
    }
    false
}

/// Whether identifiers `x` and `y` are `p` and `q`, in either order.
fn is_id_pair(x: &str, y: &str, p: &str, q: &str) -> (r: bool)
    ensures
        r == is_pair(x@, y@, p@, q@),
{
    (same_text(x, p) && same_text(y, q)) || (same_text(x, q) && same_text(y, p))
}

impl LicenseExpressionParser {
    fn same_license_family(&self, id1: &str, id2: &str) -> (r: bool)
        ensures
            r == same_family(id1@, id2@),
    {
        let mut f: usize = 0;
        while f < N_FAMILIES
            invariant
                f <= N_FAMILIES,
                forall|g: int|
                    0 <= g < f ==> !(in_family(id1@, #[trigger] license_family(g)) && in_family(id2@, license_family(g))),
            decreases N_FAMILIES - f,
        {
            let members = family_members(f);
            if contains_member(id1, &members) && contains_member(id2, &members) {
                return true;
            }
            f = f + 1;
        }
        false
    }

    fn check_specific_compatibility(&self, a: &NewLicense, b: &NewLicense) -> (r: bool)
        ensures
            r == specific_compatible(a@, b@),
    {
        let x = a.id.as_str();
        let y = b.id.as_str();
        if same_text(x, "GPL-2.0-only") && contains_text(y, "GPL-3.0") {
            false
        } else if same_text(y, "GPL-2.0-only") && contains_text(x, "GPL-3.0") {
            false
        } else if same_text(x, "GPL-2.0-or-later") && contains_text(y, "GPL-3.0") {
            true
        } else if same_text(y, "GPL-2.0-or-later") && contains_text(x, "GPL-3.0") {
            true
        } else if contains_text(x, "LGPL-3.0") && contains_text(y, "GPL-3.0") {
            true
        } else if contains_text(x, "GPL-3.0") && contains_text(y, "LGPL-3.0") {
            true
        } else if is_id_pair(x, y, "LGPL-2.1-only", "LGPL-2.1-or-later")
            || is_id_pair(x, y, "LGPL-3.0-only", "LGPL-3.0-or-later")
            || is_id_pair(x, y, "MIT", "LGPL-2.1")
            || is_id_pair(x, y, "MIT", "LGPL-3.0")
            || is_id_pair(x, y, "Apache-2.0", "LGPL-3.0") {
            true
        } else if same_text(x, "CC0-1.0") || same_text(y, "CC0-1.0") || same_text(x, "Unlicense")
            || same_text(y, "Unlicense") {
            true
        } else if self.same_license_family(x, y) {
            true
        } else {
            let a_order = new_copyleft_strength_order(&a.copyleft_strength);
            let b_order = new_copyleft_strength_order(&b.copyleft_strength);
            a_order <= 5 && b_order <= 5
        }
    }

    fn are_licenses_compatible(&self, a: &NewLicense, b: &NewLicense) -> (r: bool)
        ensures
            r == compatible(a@, b@),
    {
        let s = a.copyleft_strength;
        let t = b.copyleft_strength;
        if same_text(a.id.as_str(), b.id.as_str()) {
            true
        } else if s == NewCopyleftStrength::PublicDomain || t == NewCopyleftStrength::PublicDomain
            || s == NewCopyleftStrength::Permissive || t == NewCopyleftStrength::Permissive
            || s == NewCopyleftStrength::CLA || t == NewCopyleftStrength::CLA
            || s == NewCopyleftStrength::PatentLicense || t == NewCopyleftStrength::PatentLicense {
            true
        } else if (s == NewCopyleftStrength::ProprietaryFree && t == NewCopyleftStrength::ProprietaryFree)
            || (s == NewCopyleftStrength::FreeRestricted && t == NewCopyleftStrength::FreeRestricted) {
            true
        } else if (s == NewCopyleftStrength::CopyleftLimited && t == NewCopyleftStrength::Copyleft)
            || (s == NewCopyleftStrength::Copyleft && t == NewCopyleftStrength::CopyleftLimited) {
            self.check_specific_compatibility(a, b)
        } else if s == NewCopyleftStrength::Copyleft && t == NewCopyleftStrength::Copyleft {
            false
        } else if (s == NewCopyleftStrength::Copyleft && t == NewCopyleftStrength::SourceAvailable)
            || (s == NewCopyleftStrength::SourceAvailable && t == NewCopyleftStrength::Copyleft) {
            false
        } else if s == NewCopyleftStrength::Commercial || t == NewCopyleftStrength::Commercial
            || s == NewCopyleftStrength::UnstatedLicense || t == NewCopyleftStrength::UnstatedLicense {
            false
        } else {
            self.check_specific_compatibility(a, b)
        }
    }

    fn choose_stronger_license(&self, a: &NewLicense, b: &NewLicense) -> (r: NewLicense)
        ensures
            r@ == stronger(a@, b@),
    {
        let a_strength = new_copyleft_strength_order(&a.copyleft_strength);
        let b_strength = new_copyleft_strength_order(&b.copyleft_strength);
        if a_strength >= b_strength {
            a.duplicate()
        } else {
            b.duplicate()
        }
    }
}


/// What each license record holds.
pub open spec fn records(v: Seq<NewLicense>) -> Seq<LicenseView> {
    v.map_values(|l: NewLicense| l@)
}

/// Appends `lic` unless a license with its identifier is already there.
fn push_unique(list: &mut Vec<NewLicense>, lic: NewLicense)
    ensures
        records(final(list)@) == add_unique(records(old(list)@), lic@),
{
    let mut i: usize = 0;
    while i < list.len()
        invariant
            i <= list.len(),
            list@ == old(list)@,
            forall|j: int| 0 <= j < i ==> list@[j].id@ != lic.id@,
        decreases list.len() - i,
    {
        if same_text(list[i].id.as_str(), lic.id.as_str()) {
            assert(records(list@)[i as int].id == lic@.id);
            return;
        }
        i = i + 1;
    }
    assert(!has_id(records(list@), lic@.id));
    list.push(lic);
    assert(records(list@) =~= records(old(list)@).push(lic@));
}

impl LicenseExpressionParser {
    /// The first license of each identifier among the stronger of each pair
    /// of `left` and `right`; with `only_compatible`, of the compatible
    /// pairs only.
    fn strongest_of_pairs(&self, left: &[NewLicense], right: &[NewLicense], only_compatible: bool) -> (r: Vec<NewLicense>)
        ensures
            records(r@) == dedup_ids(rows(records(left@), records(right@), only_compatible)),
    {
        let ghost ls = records(left@);
        let ghost rs = records(right@);
        let mut found: Vec<NewLicense> = Vec::new();
        let mut i: usize = 0;
        while i < left.len()
            invariant
                i <= left.len(),
                ls == records(left@),
                rs == records(right@),
                records(found@) == dedup_ids(rows(ls.take(i as int), rs, only_compatible)),
            decreases left.len() - i,
        {
            let ghost done = rows(ls.take(i as int), rs, only_compatible);
            let mut j: usize = 0;
            while j < right.len()
                invariant
                    i < left.len(),
                    j <= right.len(),
                    ls == records(left@),
                    rs == records(right@),
                    done == rows(ls.take(i as int), rs, only_compatible),
                    records(found@) == dedup_ids(done + row(ls[i as int], rs.take(j as int), only_compatible)),
                decreases right.len() - j,
            {
                let ghost before = done + row(ls[i as int], rs.take(j as int), only_compatible);
                assert(rs.take(j + 1).drop_last() =~= rs.take(j as int));
                if !only_compatible || self.are_licenses_compatible(&left[i], &right[j]) {
                    let stronger = self.choose_stronger_license(&left[i], &right[j]);
                    push_unique(&mut found, stronger);
                    assert((done + row(ls[i as int], rs.take(j + 1), only_compatible)).drop_last() =~= before);
                } else {
                    assert(done + row(ls[i as int], rs.take(j + 1), only_compatible) =~= before);
                }
                j = j + 1;
            }
            assert(rs.take(right.len() as int) =~= rs);
            assert(ls.take(i + 1).drop_last() =~= ls.take(i as int));
            i = i + 1;
        }
        assert(ls.take(left.len() as int) =~= ls);
        found
    }

    fn find_compatible_licenses(&self, left: &[NewLicense], right: &[NewLicense]) -> (r: Vec<NewLicense>)
        ensures
            records(r@) == combine(records(left@), records(right@)),
    {
        let compatible = self.strongest_of_pairs(left, right, true);
        if compatible.len() == 0 {
            self.strongest_of_pairs(left, right, false)
        } else {
            compatible
        }
    }

    fn evaluate_expression(&self, expr: &SpdxExpr) -> (r: Vec<NewLicense>)
        requires
            self.license_db.wf(),
        ensures
            records(r@) == evaluate(self.license_db@, expr@),
        decreases expr,
    {
        match expr {
            SpdxExpr::License(id) => {
                match self.license_db.lookup(id.as_str()) {
                    Some(license) => {
                        let r = vec![license];
                        assert(records(r@) =~= seq![license@]);
                        r
                    },
                    None => {
                        let mut name = String::from_str("Unknown License: ");
                        name.append(id.as_str());
                        let r = vec![NewLicense { id: id.clone(), name, copyleft_strength: NewCopyleftStrength::UnstatedLicense }];
                        assert(records(r@) =~= seq![unknown_license(id@)]);
                        r
                    },
                }
            },
            SpdxExpr::Or(left, right) => {
                let mut result = self.evaluate_expression(left);
                let mut more = self.evaluate_expression(right);
                let ghost a = result@;
                result.append(&mut more);
                assert(records(result@) =~= records(a) + evaluate(self.license_db@, right@));
                result
            },
            SpdxExpr::And(left, right) => {
                let left_licenses = self.evaluate_expression(left);
                let right_licenses = self.evaluate_expression(right);
                self.find_compatible_licenses(left_licenses.as_slice(), right_licenses.as_slice())
            },
            SpdxExpr::With(license_expr, _exception) => self.evaluate_expression(license_expr),
        }
    }
}


/// What an optional license record holds.
pub open spec fn opt_record(l: Option<NewLicense>) -> Option<LicenseView> {
    match l {
        Some(x) => Some(x@),
        None => None,
    }
}

/// Appends the guidance lines for category `c`.
fn push_guidance(notes: &mut Vec<String>, c: NewCopyleftStrength)
    ensures
        texts(final(notes)@) == texts(old(notes)@) + guidance(c),
{
    let lines: Vec<&str> = match c {
        NewCopyleftStrength::Copyleft => vec![
            "Copyleft: All derivative works must use compatible licenses",
            "Required: Provide complete source code upon distribution",
            "Caution: Static linking may affect entire codebase",
        ],
        NewCopyleftStrength::CopyleftLimited => vec![
            "CopyleftLimited: Only modifications to this component must be open-sourced",
            "Dynamic linking generally acceptable",
        ],
        NewCopyleftStrength::Permissive | NewCopyleftStrength::PublicDomain => vec![
            "Permissive/PublicDomain: Minimal compliance requirements",
            "Required: Include license notice and attribution",
        ],
        NewCopyleftStrength::CLA => vec![
            "CLA: Contributor License Agreement required for contributions",
            "Review: Ensure all contributors have signed appropriate CLA",
        ],
        NewCopyleftStrength::Commercial => vec![
            "Commercial: Proprietary license with commercial terms",
            "Review: Check license terms for usage restrictions and fees",
            "Caution: May have redistribution limitations",
        ],
        NewCopyleftStrength::FreeRestricted => vec![
            "Free Restricted: Permissive-style license with usage restrictions",
            "Review: Check specific restrictions on usage or redistribution",
        ],
        NewCopyleftStrength::PatentLicense => vec![
            "Patent License: Covers patent rights rather than software copyright",
            "Review: Ensure patent license terms are compatible with software usage",
        ],
        NewCopyleftStrength::ProprietaryFree => vec![
            "Proprietary Free: Free to use but with proprietary terms",
            "Review: Check specific terms and conditions for usage",
        ],
        NewCopyleftStrength::SourceAvailable => vec![
            "Source Available: Source code provided without full open-source compliance",
            "Review: Check redistribution and modification rights",
        ],
        NewCopyleftStrength::UnstatedLicense => vec!["Unknown license: Manual legal review required"],
    };
    assert(str_texts(lines@) =~= guidance(c));
    let mut i: usize = 0;
    while i < lines.len()
        invariant
            i <= lines.len(),
            str_texts(lines@) == guidance(c),
            texts(notes@) == texts(old(notes)@) + guidance(c).take(i as int),
        decreases lines.len() - i,
    {
        let ghost before = notes@;
        notes.push(String::from_str(lines[i]));
        assert(texts(notes@) =~= texts(before).push(guidance(c)[i as int]));
        assert(guidance(c).take(i + 1) =~= guidance(c).take(i as int).push(guidance(c)[i as int]));
        i = i + 1;
    }
    assert(guidance(c).take(lines.len() as int) =~= guidance(c));
}

/// The strings joined with `", "` between them.
fn join_ids(ids: &Vec<String>) -> (r: String)
    ensures
        r@ == join(texts(ids@)),
{
    let ghost t = texts(ids@);
    let mut r = String::new();
    let mut i: usize = 0;
    while i < ids.len()
        invariant
            i <= ids.len(),
            t == texts(ids@),
            r@ == join(t.take(i as int)),
        decreases ids.len() - i,
    {
        assert(t.take(i + 1).drop_last() =~= t.take(i as int));
        if i > 0 {
            r.append(", ");
        }
        r.append(ids[i].as_str());
        i = i + 1;
    }
    assert(t.take(ids.len() as int) =~= t);
    r
}

impl LicenseExpressionParser {
    fn find_strongest_copyleft(&self, licenses: &[NewLicense]) -> (r: NewCopyleftStrength)
        ensures
            r == strongest_of(records(licenses@)),
    {
        let ghost c = records(licenses@);
        let mut strongest = NewCopyleftStrength::PublicDomain;
        let mut i: usize = 0;
        while i < licenses.len()
            invariant
                i <= licenses.len(),
                c == records(licenses@),
                strongest == strongest_of(c.take(i as int)),
            decreases licenses.len() - i,
        {
            assert(c.take(i + 1).drop_last() =~= c.take(i as int));
            strongest = crate::models::choose_stronger_new_copyleft(&licenses[i].copyleft_strength, &strongest);
            i = i + 1;
        }
        assert(c.take(licenses.len() as int) =~= c);
        strongest
    }

    fn choose_recommended_license(&self, licenses: &[NewLicense]) -> (r: Option<NewLicense>)
        ensures
            opt_record(r) == recommended_of(records(licenses@)),
    {
        let ghost c = records(licenses@);
        if licenses.len() == 0 {
            return None;
        }
        let mut best: usize = 0;
        let mut i: usize = 1;
        assert(c.take(1).drop_last() =~= Seq::<LicenseView>::empty());
        assert(c.take(1).last() == c[0]);
        assert(recommended_of(Seq::<LicenseView>::empty()) == None::<LicenseView>);
        assert(recommended_of(c.take(1)) == Some(c[0]));
        while i < licenses.len()
            invariant
                1 <= i <= licenses.len(),
                best < i,
                c == records(licenses@),
                recommended_of(c.take(i as int)) == Some(c[best as int]),
            decreases licenses.len() - i,
        {
            assert(c.take(i + 1).drop_last() =~= c.take(i as int));
            if new_copyleft_strength_order(&licenses[i].copyleft_strength) < new_copyleft_strength_order(
                &licenses[best].copyleft_strength,
            ) {
                best = i;
            }
            i = i + 1;
        }
        assert(c.take(licenses.len() as int) =~= c);
        Some(licenses[best].duplicate())
    }

    fn assess_risk_level(&self, strongest: &NewCopyleftStrength, licenses: &[NewLicense]) -> (r: RiskLevel)
        ensures
            r == risk_of(*strongest, records(licenses@)),
    {
        if licenses.len() == 0 {
            return RiskLevel::Critical;
        }
        match strongest {
            NewCopyleftStrength::PublicDomain | NewCopyleftStrength::Permissive => RiskLevel::Low,
            NewCopyleftStrength::CopyleftLimited => RiskLevel::Medium,
            NewCopyleftStrength::Copyleft => RiskLevel::High,
            NewCopyleftStrength::UnstatedLicense => RiskLevel::Unknown,
            NewCopyleftStrength::CLA => RiskLevel::Low,
            NewCopyleftStrength::Commercial => RiskLevel::Critical,
            NewCopyleftStrength::FreeRestricted => RiskLevel::Medium,
            NewCopyleftStrength::PatentLicense => RiskLevel::Medium,
            NewCopyleftStrength::ProprietaryFree => RiskLevel::Medium,
            NewCopyleftStrength::SourceAvailable => RiskLevel::High,
        }
    }

    fn generate_compliance_notes(&self, licenses: &[NewLicense], recommended: &Option<NewLicense>) -> (r: Vec<String>)
        ensures
            texts(r@) == notes_of(records(licenses@), opt_record(*recommended)),
    {
        let ghost c = records(licenses@);
        let ghost rec = opt_record(*recommended);
        let mut notes: Vec<String> = Vec::new();
        if licenses.len() == 0 {
            notes.push(String::from_str("No compatible licenses found - this is a licensing conflict!"));
            assert(texts(notes@) =~= seq![no_licenses_note()]);
            return notes;
        }
        if let Some(rec) = recommended {
            let mut line = String::from_str("Recommended license choice: ");
            line.append(rec.id.as_str());
            notes.push(line);
            assert(texts(notes@) =~= seq!["Recommended license choice: "@ + rec.id@]);
            push_guidance(&mut notes, rec.copyleft_strength);
        } else {
            assert(texts(notes@) =~= Seq::<Seq<char>>::empty());
        }
        if licenses.len() > 1 {
            let mut alternatives: Vec<String> = Vec::new();
            let mut i: usize = 0;
            while i < licenses.len()
                invariant
                    i <= licenses.len(),
                    c == records(licenses@),
                    rec == opt_record(*recommended),
                    texts(alternatives@) == alternative_ids(c.take(i as int), rec),
                decreases licenses.len() - i,
            {
                assert(c.take(i + 1).drop_last() =~= c.take(i as int));
                let keep = match recommended {
                    Some(r) => !same_text(licenses[i].id.as_str(), r.id.as_str()),
                    None => true,
                };
                if keep {
                    let ghost before = alternatives@;
                    alternatives.push(licenses[i].id.clone());
                    assert(texts(alternatives@) =~= texts(before).push(c[i as int].id));
                }
                i = i + 1;
            }
            assert(c.take(licenses.len() as int) =~= c);
            if alternatives.len() > 0 {
                let mut line = String::from_str("Alternative licenses available: ");
                let joined = join_ids(&alternatives);
                line.append(joined.as_str());
                let ghost before = notes@;
                notes.push(line);
                assert(texts(notes@) =~= texts(before).push("Alternative licenses available: "@ + join(alternative_ids(c, rec))));
            }
        }
        notes
    }

    fn find_conflicts(&self, licenses: &[NewLicense]) -> (r: Vec<String>)
        ensures
            texts(r@) == conflicts_of(records(licenses@)),
    {
        let ghost c = records(licenses@);
        let mut conflicts: Vec<String> = Vec::new();
        if licenses.len() == 0 {
            conflicts.push(String::from_str("Complete licensing conflict - no compatible licenses found"));
        }
        assert(texts(conflicts@) =~= (if c.len() == 0 { seq![no_licenses_conflict()] } else { Seq::empty() }));
        let mut has_gpl2_only = false;
        let mut has_gpl3 = false;
        let mut i: usize = 0;
        while i < licenses.len()
            invariant
                i <= licenses.len(),
                c == records(licenses@),
                has_gpl2_only == exists|j: int| 0 <= j < i && (#[trigger] c[j]).id == "GPL-2.0-only"@,
                has_gpl3 == exists|j: int| 0 <= j < i && has_substring((#[trigger] c[j]).id, "GPL-3.0"@),
            decreases licenses.len() - i,
        {
            assert(c[i as int] == licenses@[i as int]@);
            if same_text(licenses[i].id.as_str(), "GPL-2.0-only") {
                has_gpl2_only = true;
            }
            if contains_text(licenses[i].id.as_str(), "GPL-3.0") {
                has_gpl3 = true;
            }
            i = i + 1;
        }
        if has_gpl2_only && has_gpl3 {
            let ghost before = conflicts@;
            conflicts.push(String::from_str("GPL-2.0-only is incompatible with GPL-3.0+ licenses"));
            assert(texts(conflicts@) =~= texts(before).push(gpl_conflict()));
        }
        conflicts
    }
}


impl LicenseExpressionParser {
    /// Parses, evaluates and assesses a license expression. A text that does
    /// not parse is reported as a conflict with no candidate licenses.
    pub fn analyze(&self, expression: &str) -> (r: LicenseAnalysis)
        requires
            self.wf(),
        ensures
            r@ == analysis_of(self@, expression@),
    {
        let parsed = match self.parse_expression(expression) {
            Ok(expr) => Some(expr),
            Err(_) => None,
        };
        let possible_licenses = match &parsed {
            Some(expr) => self.evaluate_expression(expr),
            None => {
                let v: Vec<NewLicense> = Vec::new();
                assert(records(v@) =~= Seq::<LicenseView>::empty());
                v
            },
        };
        let strongest_copyleft = self.find_strongest_copyleft(possible_licenses.as_slice());
        let recommended_choice = self.choose_recommended_license(possible_licenses.as_slice());
        let risk_level = self.assess_risk_level(&strongest_copyleft, possible_licenses.as_slice());
        let compliance_notes = self.generate_compliance_notes(possible_licenses.as_slice(), &recommended_choice);
        let conflicts = self.find_conflicts(possible_licenses.as_slice());
        let r = LicenseAnalysis {
            original_expression: String::from_str(expression),
            parsed_expression: parsed,
            possible_licenses,
            strongest_copyleft,
            recommended_choice,
            risk_level,
            compliance_notes,
            conflicts,
        };
        assert(r@.candidates == records(r.possible_licenses@));
        assert(r@.notes == texts(r.compliance_notes@));
        assert(r@.conflicts == texts(r.conflicts@));
        r
    }
}


} // verus!
