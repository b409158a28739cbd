use vstd::prelude::*;
use crate::grammar::{
    flush, paren_depth, parse_text, scan, tokens_of, and_tail, is_keyword, is_paren, is_separator, or_tail, parse_and, parse_or, parse_primary, parse_tokens, parse_with,
    upper_text, with_tail, ParseError, MAX_NESTING_DEPTH,
};
use crate::models::ExprView;
use crate::text::all_ascii;

verus! {

/// Tokens that print a tree with each composite node in parentheses.
pub open spec fn tree_tokens(t: ExprView) -> Seq<Seq<char>>
    decreases t,
{
    match t {
        ExprView::Leaf(id) => seq![id],
        ExprView::And(l, r) => seq!["("@] + tree_tokens(*l) + seq!["AND"@] + tree_tokens(*r) + seq![")"@],
        ExprView::Or(l, r) => seq!["("@] + tree_tokens(*l) + seq!["OR"@] + tree_tokens(*r) + seq![")"@],
        ExprView::With(b, e) => seq!["("@] + tree_tokens(*b) + seq!["WITH"@, e, ")"@],
    }
}

/// Parentheses around the deepest leaf when the tree is printed.
pub open spec fn nesting(t: ExprView) -> nat
    decreases t,
{
    match t {
        ExprView::Leaf(_) => 0,
        ExprView::And(l, r) | ExprView::Or(l, r) => 1 + if nesting(*l) >= nesting(*r) {
            nesting(*l)
        } else {
            nesting(*r)
        },
        ExprView::With(b, _) => 1 + nesting(*b),
    }
}

/// A token that the tokenizer could produce other than a parenthesis.
pub open spec fn is_word(s: Seq<char>) -> bool {
    s.len() > 0 && forall|i: int| 0 <= i < s.len() ==> !is_paren(#[trigger] s[i]) && !is_separator(s[i])
}

/// Every license and exception identifier in the tree is a word.
pub open spec fn words_only(t: ExprView) -> bool
    decreases t,
{
    match t {
        ExprView::Leaf(id) => is_word(id),
        ExprView::And(l, r) | ExprView::Or(l, r) => words_only(*l) && words_only(*r),
        ExprView::With(b, e) => words_only(*b) && is_word(e),
    }
}

proof fn lemma_keyword_facts()
    ensures
        is_keyword("AND"@, "AND"@),
        is_keyword("OR"@, "OR"@),
        is_keyword("WITH"@, "WITH"@),
        !is_keyword("AND"@, "OR"@),
        !is_keyword("AND"@, "WITH"@),
        !is_keyword("OR"@, "WITH"@),
        !is_keyword(")"@, "OR"@),
        !is_keyword(")"@, "AND"@),
        !is_keyword(")"@, "WITH"@),
        "("@ != ")"@,
{
    reveal_strlit("AND");
    reveal_strlit("OR");
    reveal_strlit("WITH");
    reveal_strlit(")");
    reveal_strlit("(");
    assert(all_ascii("AND"@));
    assert(all_ascii("OR"@));
    assert(all_ascii("WITH"@));
    assert(all_ascii(")"@));
    assert(upper_text("AND"@) =~= "AND"@);
    assert(upper_text("OR"@) =~= "OR"@);
    assert(upper_text("WITH"@) =~= "WITH"@);
    assert(upper_text(")"@) =~= ")"@);
    assert("("@[0] != ")"@[0]);
}

/// A word is never a parenthesis token.
proof fn lemma_word_not_paren(s: Seq<char>)
    requires
        is_word(s),
    ensures
        s != "("@,
        s != ")"@,
{
    reveal_strlit("(");
    reveal_strlit(")");
    assert(!is_paren(s[0]));
}

/// The printed tokens of a tree, wherever they stand, parse as one primary
/// back to the tree.
proof fn lemma_primary_round_trip(pre: Seq<Seq<char>>, t: ExprView, rest: Seq<Seq<char>>, depth: int)
    requires
        words_only(t),
        0 <= depth,
        depth + nesting(t) <= MAX_NESTING_DEPTH,
    ensures
        parse_primary(pre + tree_tokens(t) + rest, pre.len() as int, depth) == Ok::<(ExprView, int), ParseError>(
            (t, (pre.len() + tree_tokens(t).len()) as int),
        ),
    decreases t, 1int,
{
    let toks = pre + tree_tokens(t) + rest;
    let pos = pre.len() as int;
    lemma_keyword_facts();
    match t {
        ExprView::Leaf(id) => {
            assert(toks[pos] == id);
            lemma_word_not_paren(id);
        },
        ExprView::And(_, _) => lemma_and_round_trip(pre, t, rest, depth),
        ExprView::Or(_, _) => lemma_or_round_trip(pre, t, rest, depth),
        ExprView::With(_, _) => lemma_with_round_trip(pre, t, rest, depth),
    }
}

#[verifier::rlimit(40)]
proof fn lemma_and_round_trip(pre: Seq<Seq<char>>, t: ExprView, rest: Seq<Seq<char>>, depth: int)
    requires
        t is And,
        words_only(t),
        0 <= depth,
        depth + nesting(t) <= MAX_NESTING_DEPTH,
    ensures
        ({
            let toks = pre + tree_tokens(t) + rest;
            let pos = pre.len() as int;
            let end = (pre.len() + tree_tokens(t).len()) as int;
            &&& toks[pos] == "("@
            &&& parse_or(toks, pos + 1, depth + 1) == Ok::<(ExprView, int), ParseError>((t, end - 1))
            &&& toks[end - 1] == ")"@
        }),
    decreases t, 0int,
{
    let toks = pre + tree_tokens(t) + rest;
    let pos = pre.len() as int;
    lemma_keyword_facts();
    match t {
        ExprView::And(l, r) => {
            let ls = tree_tokens(*l);
            let rs = tree_tokens(*r);
            let pre1 = pre.push("("@);
            let rest1 = seq!["AND"@] + rs + seq![")"@] + rest;
            let pre2 = pre1 + ls + seq!["AND"@];
            let rest2 = seq![")"@] + rest;
            let p1 = pos + 1 + ls.len();
            let p2 = p1 + 1 + rs.len();
            assert(toks[pos] == "("@ && toks[p1] == "AND"@ && toks[p2] == ")"@
                && toks == pre1 + ls + rest1 && toks == pre2 + rs + rest2) by {
                assert(tree_tokens(t) =~= seq!["("@] + ls + seq!["AND"@] + rs + seq![")"@]);
                assert(toks =~= pre1 + ls + rest1);
                assert(toks =~= pre2 + rs + rest2);
            }
            lemma_primary_round_trip(pre1, *l, rest1, depth + 1);
            lemma_primary_round_trip(pre2, *r, rest2, depth + 1);
            assert(with_tail(toks, *l, p1) == Ok::<(ExprView, int), ParseError>((*l, p1)));
            assert(parse_with(toks, pos + 1, depth + 1) == Ok::<(ExprView, int), ParseError>((*l, p1)));
            assert(with_tail(toks, *r, p2) == Ok::<(ExprView, int), ParseError>((*r, p2)));
            assert(parse_with(toks, p1 + 1, depth + 1) == Ok::<(ExprView, int), ParseError>((*r, p2)));
            assert(and_tail(toks, t, p2, depth + 1) == Ok::<(ExprView, int), ParseError>((t, p2)));
            assert(and_tail(toks, *l, p1, depth + 1) == Ok::<(ExprView, int), ParseError>((t, p2)));
            assert(parse_and(toks, pos + 1, depth + 1) == Ok::<(ExprView, int), ParseError>((t, p2)));
            assert(or_tail(toks, t, p2, depth + 1) == Ok::<(ExprView, int), ParseError>((t, p2)));
            assert(parse_or(toks, pos + 1, depth + 1) == Ok::<(ExprView, int), ParseError>((t, p2)));
        },
        _ => {},
    }
}

#[verifier::rlimit(40)]
proof fn lemma_or_round_trip(pre: Seq<Seq<char>>, t: ExprView, rest: Seq<Seq<char>>, depth: int)
    requires
        t is Or,
        words_only(t),
        0 <= depth,
        depth + nesting(t) <= MAX_NESTING_DEPTH,
    ensures
        ({
            let toks = pre + tree_tokens(t) + rest;
            let pos = pre.len() as int;
            let end = (pre.len() + tree_tokens(t).len()) as int;
            &&& toks[pos] == "("@
            &&& parse_or(toks, pos + 1, depth + 1) == Ok::<(ExprView, int), ParseError>((t, end - 1))
            &&& toks[end - 1] == ")"@
        }),
    decreases t, 0int,
{
    let toks = pre + tree_tokens(t) + rest;
    let pos = pre.len() as int;
    lemma_keyword_facts();
    match t {
        ExprView::Or(l, r) => {
            let ls = tree_tokens(*l);
            let rs = tree_tokens(*r);
            let pre1 = pre.push("("@);
            let rest1 = seq!["OR"@] + rs + seq![")"@] + rest;
            let pre2 = pre1 + ls + seq!["OR"@];
            let rest2 = seq![")"@] + rest;
            let p1 = pos + 1 + ls.len();
            let p2 = p1 + 1 + rs.len();
            assert(toks[pos] == "("@ && toks[p1] == "OR"@ && toks[p2] == ")"@
                && toks == pre1 + ls + rest1 && toks == pre2 + rs + rest2) by {
                assert(tree_tokens(t) =~= seq!["("@] + ls + seq!["OR"@] + rs + seq![")"@]);
                assert(toks =~= pre1 + ls + rest1);
                assert(toks =~= pre2 + rs + rest2);
            }
            lemma_primary_round_trip(pre1, *l, rest1, depth + 1);
            lemma_primary_round_trip(pre2, *r, rest2, depth + 1);
            assert(with_tail(toks, *l, p1) == Ok::<(ExprView, int), ParseError>((*l, p1)));
            assert(parse_with(toks, pos + 1, depth + 1) == Ok::<(ExprView, int), ParseError>((*l, p1)));
            assert(with_tail(toks, *r, p2) == Ok::<(ExprView, int), ParseError>((*r, p2)));
            assert(parse_with(toks, p1 + 1, depth + 1) == Ok::<(ExprView, int), ParseError>((*r, p2)));
            assert(and_tail(toks, t, p2, depth + 1) == Ok::<(ExprView, int), ParseError>((t, p2)));
            assert(and_tail(toks, *l, p1, depth + 1) == Ok::<(ExprView, int), ParseError>((*l, p1)));
            assert(parse_and(toks, pos + 1, depth + 1) == Ok::<(ExprView, int), ParseError>((*l, p1)));
            assert(and_tail(toks, *r, p2, depth + 1) == Ok::<(ExprView, int), ParseError>((*r, p2)));
            assert(parse_and(toks, p1 + 1, depth + 1) == Ok::<(ExprView, int), ParseError>((*r, p2)));
            assert(or_tail(toks, t, p2, depth + 1) == Ok::<(ExprView, int), ParseError>((t, p2)));
            assert(or_tail(toks, *l, p1, depth + 1) == Ok::<(ExprView, int), ParseError>((t, p2)));
            assert(parse_or(toks, pos + 1, depth + 1) == Ok::<(ExprView, int), ParseError>((t, p2)));
        },
        _ => {},
    }
}

proof fn lemma_with_round_trip(pre: Seq<Seq<char>>, t: ExprView, rest: Seq<Seq<char>>, depth: int)
    requires
        t is With,
        words_only(t),
        0 <= depth,
        depth + nesting(t) <= MAX_NESTING_DEPTH,
    ensures
        ({
            let toks = pre + tree_tokens(t) + rest;
            let pos = pre.len() as int;
            let end = (pre.len() + tree_tokens(t).len()) as int;
            &&& toks[pos] == "("@
            &&& parse_or(toks, pos + 1, depth + 1) == Ok::<(ExprView, int), ParseError>((t, end - 1))
            &&& toks[end - 1] == ")"@
        }),
    decreases t, 0int,
{
    let toks = pre + tree_tokens(t) + rest;
    let pos = pre.len() as int;
    lemma_keyword_facts();
    match t {
        ExprView::With(b, e) => {
            let bs = tree_tokens(*b);
            let pre1 = pre.push("("@);
            let rest1 = seq!["WITH"@, e, ")"@] + rest;
            assert(tree_tokens(t) =~= seq!["("@] + bs + seq!["WITH"@, e, ")"@]);
            assert(toks =~= pre1 + bs + rest1);
            let p1 = pos + 1 + bs.len();
            let p2 = p1 + 2;
            assert(toks[pos] == "("@);
            assert(toks[p1] == "WITH"@);
            assert(toks[p1 + 1] == e);
            assert(toks[p2] == ")"@);
            lemma_primary_round_trip(pre1, *b, rest1, depth + 1);
            assert(with_tail(toks, t, p2) == Ok::<(ExprView, int), ParseError>((t, p2)));
            assert(with_tail(toks, *b, p1) == Ok::<(ExprView, int), ParseError>((t, p2)));
            assert(parse_with(toks, pos + 1, depth + 1) == Ok::<(ExprView, int), ParseError>((t, p2)));
            assert(and_tail(toks, t, p2, depth + 1) == Ok::<(ExprView, int), ParseError>((t, p2)));
            assert(parse_and(toks, pos + 1, depth + 1) == Ok::<(ExprView, int), ParseError>((t, p2)));
            assert(or_tail(toks, t, p2, depth + 1) == Ok::<(ExprView, int), ParseError>((t, p2)));
            assert(parse_or(toks, pos + 1, depth + 1) == Ok::<(ExprView, int), ParseError>((t, p2)));
        },
        _ => {},
    }
}

/// Printing a tree with full parentheses and parsing the tokens gives the
/// tree back, for every tree whose identifiers are words and whose nesting
/// the parser accepts.
pub proof fn lemma_tokens_round_trip(t: ExprView)
    requires
        words_only(t),
        nesting(t) <= MAX_NESTING_DEPTH,
    ensures
        parse_tokens(tree_tokens(t)) == Ok::<ExprView, ParseError>(t),
{
    let toks = tree_tokens(t);
    let n = toks.len() as int;
    let none = Seq::<Seq<char>>::empty();
    assert(none + toks + none =~= toks);
    lemma_primary_round_trip(none, t, none, 0);
    lemma_keyword_facts();
    assert(with_tail(toks, t, n) == Ok::<(ExprView, int), ParseError>((t, n)));
    assert(parse_with(toks, 0, 0) == Ok::<(ExprView, int), ParseError>((t, n)));
    assert(and_tail(toks, t, n, 0) == Ok::<(ExprView, int), ParseError>((t, n)));
    assert(parse_and(toks, 0, 0) == Ok::<(ExprView, int), ParseError>((t, n)));
    assert(or_tail(toks, t, n, 0) == Ok::<(ExprView, int), ParseError>((t, n)));
    assert(parse_or(toks, 0, 0) == Ok::<(ExprView, int), ParseError>((t, n)));
}


/// The tokens with one space between each two.
pub open spec fn spaced_text(toks: Seq<Seq<char>>) -> Seq<char>
    decreases toks.len(),
{
    if toks.len() == 0 {
        Seq::empty()
    } else if toks.len() == 1 {
        toks[0]
    } else {
        spaced_text(toks.drop_last()) + seq![' '] + toks.last()
    }
}

/// A tree printed as text, with each composite node in parentheses.
pub open spec fn tree_text(t: ExprView) -> Seq<char> {
    spaced_text(tree_tokens(t))
}

/// A word or a single parenthesis.
pub open spec fn is_token(s: Seq<char>) -> bool {
    is_word(s) || s == "("@ || s == ")"@
}

/// Opening minus closing parenthesis tokens.
pub open spec fn token_depth(toks: Seq<Seq<char>>) -> int
    decreases toks.len(),
{
    if toks.len() == 0 {
        0
    } else {
        token_depth(toks.drop_last()) + if toks.last() == "("@ {
            1int
        } else if toks.last() == ")"@ {
            -1int
        } else {
            0int
        }
    }
}

/// What the scanner holds after reading the spaced text of `toks`.
pub open spec fn scan_state(toks: Seq<Seq<char>>) -> (Seq<Seq<char>>, Seq<char>) {
    if toks.len() == 0 || toks.last() == "("@ || toks.last() == ")"@ {
        (toks, Seq::empty())
    } else {
        (toks.drop_last(), toks.last())
    }
}

proof fn lemma_paren_literals()
    ensures
        "("@ == seq!['('],
        ")"@ == seq![')'],
{
    reveal_strlit("(");
    reveal_strlit(")");
    assert("("@ =~= seq!['(']);
    assert(")"@ =~= seq![')']);
}

/// Reading a word extends the pending token and leaves the depth alone.
proof fn lemma_scan_word(y: Seq<char>, w: Seq<char>)
    requires
        forall|i: int| 0 <= i < w.len() ==> !is_paren(#[trigger] w[i]) && !is_separator(w[i]),
    ensures
        scan(y + w) == (scan(y).0, scan(y).1 + w),
        paren_depth(y + w) == paren_depth(y),
    decreases w.len(),
{
    if w.len() == 0 {
        assert(y + w =~= y);
        assert(scan(y).1 + w =~= scan(y).1);
    } else {
        let v = w.drop_last();
        lemma_scan_word(y, v);
        assert((y + w).drop_last() =~= y + v);
        assert((y + w).last() == w.last());
        assert(scan(y).1 + v.push(w.last()) =~= scan(y).1 + w);
        assert(v.push(w.last()) =~= w);
    }
}

/// The tokenizer reads back the tokens from their spaced text.
proof fn lemma_scan_spaced(toks: Seq<Seq<char>>)
    requires
        forall|i: int| 0 <= i < toks.len() ==> is_token(#[trigger] toks[i]),
    ensures
        scan(spaced_text(toks)) == scan_state(toks),
        paren_depth(spaced_text(toks)) == token_depth(toks),
    decreases toks.len(),
{
    lemma_paren_literals();
    if toks.len() == 0 {
        return;
    }
    let prev = toks.drop_last();
    let last = toks.last();
    assert(is_token(last));
    let base = if toks.len() == 1 {
        Seq::<char>::empty()
    } else {
        spaced_text(prev) + seq![' ']
    };
    assert(spaced_text(toks) =~= base + last);
    if toks.len() == 1 {
        assert(prev =~= Seq::<Seq<char>>::empty());
        assert(scan(base) == (Seq::<Seq<char>>::empty(), Seq::<char>::empty()));
        assert(paren_depth(base) == 0);
        assert(token_depth(prev) == 0);
    } else {
        lemma_scan_spaced(prev);
        assert(base.drop_last() =~= spaced_text(prev));
        assert(base.last() == ' ');
        assert(flush(scan_state(prev).0, scan_state(prev).1) =~= prev);
        assert(scan(base) == (prev, Seq::<char>::empty()));
        assert(paren_depth(base) == token_depth(prev));
    }
    if last == "("@ || last == ")"@ {
        assert((base + last).drop_last() =~= base);
        assert((base + last).last() == last[0]);
        assert(flush(prev, Seq::<char>::empty()).push(last) =~= toks);
    } else {
        lemma_scan_word(base, last);
        assert(Seq::<char>::empty() + last =~= last);
    }
}

/// Token depth adds up over concatenation.
proof fn lemma_token_depth_concat(a: Seq<Seq<char>>, b: Seq<Seq<char>>)
    ensures
        token_depth(a + b) == token_depth(a) + token_depth(b),
    decreases b.len(),
{
    if b.len() == 0 {
        assert(a + b =~= a);
    } else {
        lemma_token_depth_concat(a, b.drop_last());
        assert((a + b).drop_last() =~= a + b.drop_last());
    }
}

/// The printed tokens of a tree are balanced, and each is a word or a
/// parenthesis.
proof fn lemma_tree_tokens_balanced(t: ExprView)
    requires
        words_only(t),
    ensures
        token_depth(tree_tokens(t)) == 0,
        forall|i: int| 0 <= i < tree_tokens(t).len() ==> is_token(#[trigger] tree_tokens(t)[i]),
    decreases t,
{
    lemma_paren_literals();
    reveal_strlit("AND");
    reveal_strlit("OR");
    reveal_strlit("WITH");
    let open = seq!["("@];
    let close = seq![")"@];
    assert(token_depth(Seq::<Seq<char>>::empty()) == 0);
    assert(token_depth(open) == 1) by {
        assert(open.drop_last() =~= Seq::<Seq<char>>::empty());
    }
    assert(token_depth(close) == -1) by {
        assert(close.drop_last() =~= Seq::<Seq<char>>::empty());
        assert(")"@ != "("@) by {
            assert(")"@[0] != "("@[0]);
        }
    }
    assert(is_word("AND"@));
    assert(is_word("OR"@));
    assert(is_word("WITH"@));
    match t {
        ExprView::Leaf(id) => {
            lemma_word_not_paren(id);
            assert(seq![id].drop_last() =~= Seq::<Seq<char>>::empty());
        },
        ExprView::And(l, r) | ExprView::Or(l, r) => {
            let kw = if t is And { "AND"@ } else { "OR"@ };
            lemma_word_not_paren(kw);
            lemma_tree_tokens_balanced(*l);
            lemma_tree_tokens_balanced(*r);
            let mid = seq![kw];
            assert(token_depth(mid) == 0) by {
                assert(mid.drop_last() =~= Seq::<Seq<char>>::empty());
            }
            let ls = tree_tokens(*l);
            let rs = tree_tokens(*r);
            assert(tree_tokens(t) == open + ls + mid + rs + close);
            lemma_token_depth_concat(open, ls);
            lemma_token_depth_concat(open + ls, mid);
            lemma_token_depth_concat(open + ls + mid, rs);
            lemma_token_depth_concat(open + ls + mid + rs, close);
        },
        ExprView::With(b, e) => {
            lemma_word_not_paren(e);
            lemma_word_not_paren("WITH"@);
            lemma_tree_tokens_balanced(*b);
            let mid = seq!["WITH"@, e];
            assert(token_depth(mid) == 0) by {
                assert(mid.drop_last() =~= seq!["WITH"@]);
                assert(seq!["WITH"@].drop_last() =~= Seq::<Seq<char>>::empty());
                assert(token_depth(seq!["WITH"@]) == 0);
            }
            let bs = tree_tokens(*b);
            assert(tree_tokens(t) =~= open + bs + mid + close);
            lemma_token_depth_concat(open, bs);
            lemma_token_depth_concat(open + bs, mid);
            lemma_token_depth_concat(open + bs + mid, close);
        },
    }
}

/// Printing a tree as text with full parentheses and parsing the text gives
/// the tree back, for every tree whose identifiers are words and whose
/// nesting the parser accepts.
pub proof fn lemma_text_round_trip(t: ExprView)
    requires
        words_only(t),
        nesting(t) <= MAX_NESTING_DEPTH,
    ensures
        tokens_of(tree_text(t)) == Ok::<Seq<Seq<char>>, ParseError>(tree_tokens(t)),
        parse_text(tree_text(t)) == Ok::<ExprView, ParseError>(t),
{
    let toks = tree_tokens(t);
    lemma_tree_tokens_balanced(t);
    lemma_scan_spaced(toks);
    lemma_paren_literals();
    assert(flush(scan_state(toks).0, scan_state(toks).1) =~= toks);
    lemma_tokens_round_trip(t);
}


/// Every license and exception identifier in the tree is one of `toks`.
pub open spec fn ids_among(t: ExprView, toks: Seq<Seq<char>>) -> bool
    decreases t,
{
    match t {
        ExprView::Leaf(id) => toks.contains(id),
        ExprView::And(l, r) | ExprView::Or(l, r) => ids_among(*l, toks) && ids_among(*r, toks),
        ExprView::With(b, e) => ids_among(*b, toks) && toks.contains(e),
    }
}

/// No license or exception identifier in the tree is a parenthesis.
pub open spec fn no_paren_ids(t: ExprView) -> bool
    decreases t,
{
    match t {
        ExprView::Leaf(id) => id != "("@ && id != ")"@,
        ExprView::And(l, r) | ExprView::Or(l, r) => no_paren_ids(*l) && no_paren_ids(*r),
        ExprView::With(b, e) => no_paren_ids(*b) && e != "("@ && e != ")"@,
    }
}

/// Ok results of a parse step hold identifiers among the tokens only.
pub open spec fn ids_ok(r: Result<(ExprView, int), ParseError>, toks: Seq<Seq<char>>) -> bool {
    r matches Ok((t, _)) ==> ids_among(t, toks)
}

proof fn lemma_or_ids(toks: Seq<Seq<char>>, pos: int, depth: int)
    ensures
        ids_ok(parse_or(toks, pos, depth), toks),
    decreases toks.len() - pos, 6int,
{
    lemma_and_ids(toks, pos, depth);
    if let Ok((left, p)) = parse_and(toks, pos, depth) {
        if pos < p <= toks.len() {
            lemma_or_tail_ids(toks, left, p, depth);
        }
    }
}

proof fn lemma_or_tail_ids(toks: Seq<Seq<char>>, left: ExprView, pos: int, depth: int)
    requires
        ids_among(left, toks),
    ensures
        ids_ok(or_tail(toks, left, pos, depth), toks),
    decreases toks.len() - pos, 5int,
{
    if 0 <= pos < toks.len() && is_keyword(toks[pos], "OR"@) {
        lemma_and_ids(toks, pos + 1, depth);
        if let Ok((right, p)) = parse_and(toks, pos + 1, depth) {
            let node = ExprView::Or(Box::new(left), Box::new(right));
            if pos < p <= toks.len() {
                lemma_or_tail_ids(toks, node, p, depth);
            }
        }
    }
}

proof fn lemma_and_ids(toks: Seq<Seq<char>>, pos: int, depth: int)
    ensures
        ids_ok(parse_and(toks, pos, depth), toks),
    decreases toks.len() - pos, 4int,
{
    lemma_with_ids(toks, pos, depth);
    if let Ok((left, p)) = parse_with(toks, pos, depth) {
        if pos < p <= toks.len() {
            lemma_and_tail_ids(toks, left, p, depth);
        }
    }
}

proof fn lemma_and_tail_ids(toks: Seq<Seq<char>>, left: ExprView, pos: int, depth: int)
    requires
        ids_among(left, toks),
    ensures
        ids_ok(and_tail(toks, left, pos, depth), toks),
    decreases toks.len() - pos, 3int,
{
    if 0 <= pos < toks.len() && is_keyword(toks[pos], "AND"@) {
        lemma_with_ids(toks, pos + 1, depth);
        if let Ok((right, p)) = parse_with(toks, pos + 1, depth) {
            let node = ExprView::And(Box::new(left), Box::new(right));
            if pos < p <= toks.len() {
                lemma_and_tail_ids(toks, node, p, depth);
            }
        }
    }
}

proof fn lemma_with_ids(toks: Seq<Seq<char>>, pos: int, depth: int)
    ensures
        ids_ok(parse_with(toks, pos, depth), toks),
    decreases toks.len() - pos, 2int,
{
    lemma_primary_ids(toks, pos, depth);
    if let Ok((base, p)) = parse_primary(toks, pos, depth) {
        if pos < p <= toks.len() {
            lemma_with_tail_ids(toks, base, p);
        }
    }
}

proof fn lemma_with_tail_ids(toks: Seq<Seq<char>>, base: ExprView, pos: int)
    requires
        ids_among(base, toks),
    ensures
        ids_ok(with_tail(toks, base, pos), toks),
    decreases toks.len() - pos, 1int,
{
    if 0 <= pos < toks.len() && is_keyword(toks[pos], "WITH"@) && pos + 1 < toks.len() {
        let node = ExprView::With(Box::new(base), toks[pos + 1]);
        assert(toks.contains(toks[pos + 1]));
        lemma_with_tail_ids(toks, node, pos + 2);
    }
}

proof fn lemma_primary_ids(toks: Seq<Seq<char>>, pos: int, depth: int)
    ensures
        ids_ok(parse_primary(toks, pos, depth), toks),
    decreases toks.len() - pos, 0int,
{
    if 0 <= pos < toks.len() {
        if toks[pos] == "("@ {
            if depth < MAX_NESTING_DEPTH {
                lemma_or_ids(toks, pos + 1, depth + 1);
            }
        } else {
            assert(toks.contains(toks[pos]));
        }
    }
}

/// The text has no parenthesis or separator.
pub open spec fn plain_chars(s: Seq<char>) -> bool {
    forall|i: int| 0 <= i < s.len() ==> !is_paren(#[trigger] s[i]) && !is_separator(s[i])
}

proof fn lemma_scan_tokens(s: Seq<char>)
    ensures
        forall|k: int| 0 <= k < scan(s).0.len() ==> is_token(#[trigger] scan(s).0[k]),
        plain_chars(scan(s).1),
    decreases s.len(),
{
    lemma_paren_literals();
    if s.len() > 0 {
        let prev = s.drop_last();
        lemma_scan_tokens(prev);
        let (done, pending) = scan(prev);
        let c = s.last();
        let flushed = flush(done, pending);
        assert(forall|k: int| 0 <= k < flushed.len() ==> is_token(#[trigger] flushed[k])) by {
            if pending.len() > 0 {
                assert(is_word(pending));
                assert forall|k: int| 0 <= k < flushed.len() implies is_token(#[trigger] flushed[k]) by {
                    if k < done.len() {
                        assert(flushed[k] == done[k]);
                    }
                }
            }
        }
        if is_paren(c) {
            let next = flushed.push(seq![c]);
            assert(seq![c] == "("@ || seq![c] == ")"@);
            assert forall|k: int| 0 <= k < next.len() implies is_token(#[trigger] next[k]) by {
                if k < flushed.len() {
                    assert(next[k] == flushed[k]);
                }
            }
        } else if !is_separator(c) {
            assert forall|i: int| 0 <= i < pending.push(c).len() implies !is_paren(#[trigger] pending.push(c)[i])
                && !is_separator(pending.push(c)[i]) by {
                if i < pending.len() {
                    assert(pending.push(c)[i] == pending[i]);
                }
            }
        }
    }
}

proof fn lemma_words_only(t: ExprView, toks: Seq<Seq<char>>)
    requires
        ids_among(t, toks),
        no_paren_ids(t),
        forall|k: int| 0 <= k < toks.len() ==> is_token(#[trigger] toks[k]),
    ensures
        words_only(t),
    decreases t,
{
    match t {
        ExprView::Leaf(id) => {
            let k = choose|k: int| 0 <= k < toks.len() && toks[k] == id;
            assert(is_token(toks[k]));
        },
        ExprView::And(l, r) | ExprView::Or(l, r) => {
            lemma_words_only(*l, toks);
            lemma_words_only(*r, toks);
        },
        ExprView::With(b, e) => {
            lemma_words_only(*b, toks);
            let k = choose|k: int| 0 <= k < toks.len() && toks[k] == e;
            assert(is_token(toks[k]));
        },
    }
}

/// A tree parsed from any text prints, with full parentheses, to a text that
/// parses back to the same tree, unless one of its identifiers is a
/// parenthesis or its printed nesting exceeds what the parser accepts.
pub proof fn lemma_parsed_text_round_trip(s: Seq<char>, t: ExprView)
    requires
        parse_text(s) == Ok::<ExprView, ParseError>(t),
        no_paren_ids(t),
        nesting(t) <= MAX_NESTING_DEPTH,
    ensures
        parse_text(tree_text(t)) == Ok::<ExprView, ParseError>(t),
{
    let toks = flush(scan(s).0, scan(s).1);
    assert(tokens_of(s) == Ok::<Seq<Seq<char>>, ParseError>(toks));
    lemma_scan_tokens(s);
    assert forall|k: int| 0 <= k < toks.len() implies is_token(#[trigger] toks[k]) by {
        if k < scan(s).0.len() {
            assert(toks[k] == scan(s).0[k]);
        } else {
            assert(is_word(scan(s).1));
        }
    }
    lemma_or_ids(toks, 0, 0);
    lemma_words_only(t, toks);
    lemma_text_round_trip(t);
}

} // verus!
