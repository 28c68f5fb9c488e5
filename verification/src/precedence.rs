//! The precedence resolver: turns a flat left-to-right sequence of
//! operands and operator tokens into one nested expression tree.
//!
//! All binary operators are left-associative; prefix negation binds
//! tighter than the additive tier and looser than the multiplicative
//! tier. The resolved tree for a well-formed sequence is the one rooted
//! at the rightmost operator of loosest precedence, with prefix negation
//! taking the root when every operator to its right binds tighter.

use vstd::prelude::*;

use crate::ast::Expression;
use crate::ast::SpecExpression;
use crate::ast::deep_view_exprs;
use crate::parse_tree::Rule;

verus! {

/// The precedence tier of prefix negation. Binary tiers run from 1
/// (function application, loosest) to 10 (composition and indexing,
/// tightest); negation sits between the additive and multiplicative
/// tiers.
pub const NEG_PREC: u32 = 7;

/// One token of a flat expression sequence: a resolved operand, the
/// prefix negation operator, or a binary operator, each operator
/// carrying its surface text.
#[derive(Debug, PartialEq)]
pub enum ExprToken {
    Operand(Expression),
    Prefix(String),
    Infix(Rule, String),
}

/// The mathematical model of an `ExprToken`.
pub enum SpecExprToken {
    Operand(SpecExpression),
    Prefix(Seq<char>),
    Infix(Rule, Seq<char>),
}

impl DeepView for ExprToken {
    type V = SpecExprToken;

    open spec fn deep_view(&self) -> SpecExprToken {
        match self {
            ExprToken::Operand(e) => SpecExprToken::Operand(e.deep_view()),
            ExprToken::Prefix(t) => SpecExprToken::Prefix(t.deep_view()),
            ExprToken::Infix(r, t) => SpecExprToken::Infix(*r, t.deep_view()),
        }
    }
}

/// The precedence tier of a binary operator rule, or `None` for a rule
/// that is no binary operator. Larger tiers bind tighter.
pub open spec fn spec_infix_prec(r: Rule) -> Option<u32> {
    match r {
        Rule::Application => Some(1u32),
        Rule::Or => Some(2u32),
        Rule::And => Some(3u32),
        Rule::LessOrEqual => Some(4u32),
        Rule::GreatOrEqual => Some(4u32),
        Rule::Lesser => Some(4u32),
        Rule::Greater => Some(4u32),
        Rule::Equal => Some(4u32),
        Rule::NotEqual => Some(4u32),
        Rule::Cons => Some(5u32),
        Rule::Concat => Some(5u32),
        Rule::Add => Some(6u32),
        Rule::Sub => Some(6u32),
        Rule::Mul => Some(8u32),
        Rule::Div => Some(8u32),
        Rule::ExpInt => Some(9u32),
        Rule::ExpFloat => Some(9u32),
        Rule::ExpFrac => Some(9u32),
        Rule::Composition => Some(10u32),
        Rule::Indexing => Some(10u32),
        _ => None,
    }
}

/// The precedence tier of a binary operator rule.
pub fn infix_precedence(r: Rule) -> (p: Option<u32>)
    ensures
        p == spec_infix_prec(r),
{
    match r {
        Rule::Application => Some(1),
        Rule::Or => Some(2),
        Rule::And => Some(3),
        Rule::LessOrEqual => Some(4),
        Rule::GreatOrEqual => Some(4),
        Rule::Lesser => Some(4),
        Rule::Greater => Some(4),
        Rule::Equal => Some(4),
        Rule::NotEqual => Some(4),
        Rule::Cons => Some(5),
        Rule::Concat => Some(5),
        Rule::Add => Some(6),
        Rule::Sub => Some(6),
        Rule::Mul => Some(8),
        Rule::Div => Some(8),
        Rule::ExpInt => Some(9),
        Rule::ExpFloat => Some(9),
        Rule::ExpFrac => Some(9),
        Rule::Composition => Some(10),
        Rule::Indexing => Some(10),
        _ => None,
    }
}

/// Whether a token is a binary operator token.
pub open spec fn is_infix_tok(t: SpecExprToken) -> bool {
    t is Infix && spec_infix_prec(t->Infix_0) is Some
}

/// The precedence tier of a binary operator token.
pub open spec fn tok_prec(t: SpecExprToken) -> u32 {
    spec_infix_prec(t->Infix_0)->Some_0
}

/// Whether the sequence splits at position `j`: the token there is the
/// rightmost binary operator of loosest precedence.
pub open spec fn is_split_pos(toks: Seq<SpecExprToken>, j: int) -> bool {
    &&& 0 <= j < toks.len()
    &&& is_infix_tok(toks[j])
    &&& forall|k: int|
        0 <= k < toks.len() && #[trigger] is_infix_tok(toks[k]) ==> tok_prec(toks[k]) >= tok_prec(
            toks[j],
        )
    &&& forall|k: int|
        j < k < toks.len() && #[trigger] is_infix_tok(toks[k]) ==> tok_prec(toks[k]) > tok_prec(
            toks[j],
        )
}

/// The position the sequence splits at, when one exists.
pub open spec fn split_pos(toks: Seq<SpecExprToken>) -> int {
    choose|j: int| is_split_pos(toks, j)
}

/// The resolved expression tree of a flat token sequence, or `None` for
/// a malformed sequence.
pub open spec fn sp_resolve(toks: Seq<SpecExprToken>) -> Option<SpecExpression>
    decreases toks.len(),
{
    let has_split = exists|j: int| is_split_pos(toks, j);
    if toks.len() > 0 && toks[0] is Prefix && (!has_split || tok_prec(toks[split_pos(toks)])
        > NEG_PREC) {
        // prefix negation is the loosest operator: it takes the root
        match sp_resolve(toks.drop_first()) {
            Some(inner) => Some(
                SpecExpression::FuncCall { function: toks[0]->Prefix_0, args: seq![inner] },
            ),
            None => None,
        }
    } else if has_split {
        let j = split_pos(toks);
        match (sp_resolve(toks.subrange(0, j)), sp_resolve(
            toks.subrange(j + 1, toks.len() as int),
        )) {
            (Some(l), Some(r)) => Some(
                SpecExpression::FuncCall { function: toks[j]->Infix_1, args: seq![l, r] },
            ),
            _ => None,
        }
    } else if toks.len() == 1 && toks[0] is Operand {
        Some(toks[0]->Operand_0)
    } else {
        None
    }
}

/// Two split positions of one sequence are the same position.
proof fn lemma_split_pos_unique(toks: Seq<SpecExprToken>, j1: int, j2: int)
    requires
        is_split_pos(toks, j1),
        is_split_pos(toks, j2),
    ensures
        j1 == j2,
{
    if j1 < j2 {
        assert(tok_prec(toks[j2]) > tok_prec(toks[j1]));
        assert(tok_prec(toks[j1]) >= tok_prec(toks[j2]));
    }
    if j2 < j1 {
        assert(tok_prec(toks[j1]) > tok_prec(toks[j2]));
        assert(tok_prec(toks[j2]) >= tok_prec(toks[j1]));
    }
}

/// Whether a scan of the first `i` tokens has found `best` as the
/// rightmost loosest binary operator so far.
spec fn is_best_upto(toks: Seq<SpecExprToken>, i: int, best: Option<(u32, int)>) -> bool {
    match best {
        None => forall|k: int| 0 <= k < i ==> !(#[trigger] is_infix_tok(toks[k])),
        Some((p, j)) => {
            &&& 0 <= j < i
            &&& is_infix_tok(toks[j])
            &&& tok_prec(toks[j]) == p
            &&& forall|k: int|
                0 <= k < i && #[trigger] is_infix_tok(toks[k]) ==> tok_prec(toks[k]) >= p
            &&& forall|k: int|
                j < k < i && #[trigger] is_infix_tok(toks[k]) ==> tok_prec(toks[k]) > p
        },
    }
}

/// One item of the in-order flattening of an expression tree: an atomic
/// operand, or the surface text of an operator the resolver introduced.
pub enum FlatItem {
    Atom(SpecExpression),
    Op(Seq<char>),
}

/// The surface texts of the binary operators.
pub open spec fn is_infix_surface(s: Seq<char>) -> bool {
    ||| s == "$"@
    ||| s == "||"@
    ||| s == "&&"@
    ||| s == "<="@
    ||| s == ">="@
    ||| s == "<"@
    ||| s == ">"@
    ||| s == "=="@
    ||| s == "/="@
    ||| s == ":"@
    ||| s == "++"@
    ||| s == "+"@
    ||| s == "-"@
    ||| s == "*"@
    ||| s == "/"@
    ||| s == "^"@
    ||| s == "**"@
    ||| s == "^^"@
    ||| s == "."@
    ||| s == "!!"@
}

/// The surface text of the prefix negation operator.
pub open spec fn is_prefix_surface(s: Seq<char>) -> bool {
    s == "-"@
}

/// The in-order flattening of an expression tree: operator application
/// nodes flatten to left part, operator, right part; everything else is
/// one atom. Prefix and infix uses of one surface text are told apart by
/// arity.
pub open spec fn flat(e: SpecExpression) -> Seq<FlatItem>
    decreases e,
{
    match e {
        SpecExpression::FuncCall { function, args } => {
            if args.len() == 2 && is_infix_surface(function) {
                flat(args[0]) + seq![FlatItem::Op(function)] + flat(args[1])
            } else if args.len() == 1 && is_prefix_surface(function) {
                seq![FlatItem::Op(function)] + flat(args[0])
            } else {
                seq![FlatItem::Atom(e)]
            }
        },
        _ => seq![FlatItem::Atom(e)],
    }
}

/// The flattening of one token.
pub open spec fn flat_tok(t: SpecExprToken) -> Seq<FlatItem> {
    match t {
        SpecExprToken::Operand(e) => flat(e),
        SpecExprToken::Prefix(s) => seq![FlatItem::Op(s)],
        SpecExprToken::Infix(_, s) => seq![FlatItem::Op(s)],
    }
}

/// The flattening of a token sequence, token by token.
pub open spec fn flat_seq(toks: Seq<SpecExprToken>) -> Seq<FlatItem>
    decreases toks.len(),
{
    if toks.len() == 0 {
        Seq::empty()
    } else {
        flat_tok(toks[0]) + flat_seq(toks.drop_first())
    }
}

/// A well-formed token sequence: prefix operators, one operand, then
/// zero or more rounds of a binary operator followed by prefix operators
/// and an operand.
pub open spec fn wf_tokens(toks: Seq<SpecExprToken>) -> bool
    decreases toks.len(),
{
    &&& toks.len() > 0
    &&& if toks[0] is Prefix {
        wf_tokens(toks.drop_first())
    } else if toks[0] is Operand {
        wf_tail(toks.drop_first())
    } else {
        false
    }
}

/// What may follow an operand: nothing, or a binary operator and a
/// well-formed rest.
pub open spec fn wf_tail(toks: Seq<SpecExprToken>) -> bool
    decreases toks.len(),
{
    toks.len() == 0 || (is_infix_tok(toks[0]) && wf_tokens(toks.drop_first()))
}

/// Whether one token carries the surface text of its operator kind.
pub open spec fn wf_tok_text(t: SpecExprToken) -> bool {
    match t {
        SpecExprToken::Operand(_) => true,
        SpecExprToken::Prefix(s) => is_prefix_surface(s),
        SpecExprToken::Infix(_, s) => is_infix_surface(s),
    }
}

/// Whether every operator token carries the surface text of an operator.
pub open spec fn wf_token_texts(toks: Seq<SpecExprToken>) -> bool {
    forall|k: int| 0 <= k < toks.len() ==> wf_tok_text(#[trigger] toks[k])
}

/// A scan of the whole sequence finds a best position whenever some
/// binary operator occurs in it.
proof fn lemma_best_exists(toks: Seq<SpecExprToken>, i: int)
    requires
        0 <= i <= toks.len(),
    ensures
        exists|b: Option<(u32, int)>| #[trigger] is_best_upto(toks, i, b),
    decreases i,
{
    if i == 0 {
        assert(is_best_upto(toks, 0, None));
    } else {
        lemma_best_exists(toks, i - 1);
        let b0 = choose|b: Option<(u32, int)>| #[trigger] is_best_upto(toks, i - 1, b);
        if is_infix_tok(toks[i - 1]) {
            let p = tok_prec(toks[i - 1]);
            match b0 {
                None => {
                    assert(is_best_upto(toks, i, Some((p, i - 1))));
                },
                Some((bp, bj)) => {
                    if p <= bp {
                        assert(is_best_upto(toks, i, Some((p, i - 1))));
                    } else {
                        assert(is_best_upto(toks, i, Some((bp, bj))));
                    }
                },
            }
        } else {
            assert(is_best_upto(toks, i, b0));
        }
    }
}

/// A sequence holding some binary operator has a split position.
proof fn lemma_split_exists(toks: Seq<SpecExprToken>)
    requires
        exists|k: int| 0 <= k < toks.len() && is_infix_tok(#[trigger] toks[k]),
    ensures
        exists|j: int| is_split_pos(toks, j),
{
    lemma_best_exists(toks, toks.len() as int);
    let b = choose|b: Option<(u32, int)>| #[trigger] is_best_upto(toks, toks.len() as int, b);
    match b {
        None => {
            assert(false);
        },
        Some((p, j)) => {
            assert(is_split_pos(toks, j));
        },
    }
}

/// Splitting a well-formed sequence at any binary operator leaves two
/// well-formed sequences.
proof fn lemma_wf_split(toks: Seq<SpecExprToken>, j: int)
    requires
        wf_tokens(toks),
        0 <= j < toks.len(),
        toks[j] is Infix,
    ensures
        wf_tokens(toks.subrange(0, j)),
        wf_tokens(toks.subrange(j + 1, toks.len() as int)),
    decreases j,
{
    let rest = toks.drop_first();
    if toks[0] is Prefix {
        assert(wf_tokens(rest));
        assert(rest[j - 1] == toks[j]);
        lemma_wf_split(rest, j - 1);
        let left = toks.subrange(0, j);
        assert(left.len() == j);
        assert(left[0] == toks[0]);
        assert(left.drop_first() =~= rest.subrange(0, j - 1));
        assert(wf_tokens(left));
        assert(toks.subrange(j + 1, toks.len() as int) =~= rest.subrange(j, rest.len() as int));
    } else {
        // the first token is an operand, so the operator is at j >= 1
        assert(toks[0] is Operand);
        assert(wf_tail(rest));
        assert(j >= 1);
        assert(rest.len() > 0);
        assert(is_infix_tok(rest[0]));
        assert(wf_tokens(rest.drop_first()));
        if j == 1 {
            let left = toks.subrange(0, 1);
            assert(left[0] == toks[0]);
            assert(left.drop_first() =~= Seq::<SpecExprToken>::empty());
            assert(wf_tail(left.drop_first()));
            assert(wf_tokens(left));
            assert(toks.subrange(2, toks.len() as int) =~= rest.drop_first());
        } else {
            let inner = rest.drop_first();
            assert(inner[j - 2] == toks[j]);
            lemma_wf_split(inner, j - 2);
            let left = toks.subrange(0, j);
            assert(left[0] == toks[0]);
            assert(left.drop_first()[0] == toks[1]);
            assert(left.drop_first().drop_first() =~= inner.subrange(0, j - 2));
            assert(wf_tokens(left.drop_first().drop_first()));
            assert(wf_tail(left.drop_first()));
            assert(wf_tokens(left));
            assert(toks.subrange(j + 1, toks.len() as int) =~= inner.subrange(
                j - 1,
                inner.len() as int,
            ));
        }
    }
}

/// Flattening distributes over concatenation.
proof fn lemma_flat_seq_concat(a: Seq<SpecExprToken>, b: Seq<SpecExprToken>)
    ensures
        flat_seq(a + b) == flat_seq(a) + flat_seq(b),
    decreases a.len(),
{
    if a.len() == 0 {
        assert(a + b =~= b);
        assert(flat_seq(a) + flat_seq(b) =~= flat_seq(b));
    } else {
        assert((a + b).drop_first() =~= a.drop_first() + b);
        lemma_flat_seq_concat(a.drop_first(), b);
        assert((a + b)[0] == a[0]);
        assert(flat_tok(a[0]) + (flat_seq(a.drop_first()) + flat_seq(b)) =~= (flat_tok(a[0])
            + flat_seq(a.drop_first())) + flat_seq(b));
    }
}

/// Flattening decomposes at any position.
proof fn lemma_flat_seq_at(toks: Seq<SpecExprToken>, j: int)
    requires
        0 <= j < toks.len(),
    ensures
        flat_seq(toks) == flat_seq(toks.subrange(0, j)) + flat_tok(toks[j]) + flat_seq(
            toks.subrange(j + 1, toks.len() as int),
        ),
{
    let left = toks.subrange(0, j);
    let mid = toks.subrange(j, j + 1);
    let right = toks.subrange(j + 1, toks.len() as int);
    assert(toks =~= left + mid + right);
    lemma_flat_seq_concat(left + mid, right);
    lemma_flat_seq_concat(left, mid);
    assert(mid[0] == toks[j]);
    assert(mid.drop_first() =~= Seq::<SpecExprToken>::empty());
    assert(flat_seq(mid.drop_first()) == Seq::<FlatItem>::empty());
    assert(flat_seq(mid) =~= flat_tok(toks[j]));
    assert(flat_seq(left) + flat_seq(mid) + flat_seq(right) =~= flat_seq(left) + flat_tok(toks[j])
        + flat_seq(right));
}

/// For every well-formed token sequence whose operator tokens carry
/// their operators' surface texts, resolution succeeds and the in-order
/// flattening of the resolved tree reproduces the flattening of the
/// original operand/operator sequence: structure changes nesting, never
/// content or order.
pub proof fn lemma_resolve_flattening(toks: Seq<SpecExprToken>)
    requires
        wf_tokens(toks),
        wf_token_texts(toks),
    ensures
        sp_resolve(toks) is Some,
        flat(sp_resolve(toks)->Some_0) == flat_seq(toks),
    decreases toks.len(),
{
    let has_split = exists|j: int| is_split_pos(toks, j);
    if toks.len() > 0 && toks[0] is Prefix && (!has_split || tok_prec(toks[split_pos(toks)])
        > NEG_PREC) {
        let rest = toks.drop_first();
        assert(wf_token_texts(rest)) by {
            assert(forall|k: int| 0 <= k < rest.len() ==> #[trigger] rest[k] == toks[k + 1]);
        }
        lemma_resolve_flattening(rest);
        let inner = sp_resolve(rest)->Some_0;
        let e = SpecExpression::FuncCall { function: toks[0]->Prefix_0, args: seq![inner] };
        assert(sp_resolve(toks) == Some(e));
        assert(wf_tok_text(toks[0]));
        assert(e->FuncCall_args[0] == inner);
        assert(flat(e) == seq![FlatItem::Op(toks[0]->Prefix_0)] + flat(inner));
        assert(flat_seq(toks) == flat_tok(toks[0]) + flat_seq(rest));
        assert(flat(e) == flat_seq(toks));
    } else if has_split {
        let j = split_pos(toks);
        assert(is_split_pos(toks, j));
        let left = toks.subrange(0, j);
        let right = toks.subrange(j + 1, toks.len() as int);
        lemma_wf_split(toks, j);
        assert(wf_token_texts(left)) by {
            assert(forall|k: int| 0 <= k < left.len() ==> #[trigger] left[k] == toks[k]);
        }
        assert(wf_token_texts(right)) by {
            assert(forall|k: int|
                0 <= k < right.len() ==> #[trigger] right[k] == toks[k + j + 1]);
        }
        lemma_resolve_flattening(left);
        lemma_resolve_flattening(right);
        let l = sp_resolve(left)->Some_0;
        let r = sp_resolve(right)->Some_0;
        let e = SpecExpression::FuncCall { function: toks[j]->Infix_1, args: seq![l, r] };
        assert(sp_resolve(toks) == Some(e));
        assert(wf_tok_text(toks[j]));
        assert(e->FuncCall_args[0] == l && e->FuncCall_args[1] == r);
        assert(flat(e) == flat(l) + seq![FlatItem::Op(toks[j]->Infix_1)] + flat(r));
        lemma_flat_seq_at(toks, j);
        assert(flat_tok(toks[j]) == seq![FlatItem::Op(toks[j]->Infix_1)]);
        assert(flat(e) == flat_seq(toks));
    } else {
        // no binary operator and no leading prefix: one lone operand
        assert(toks[0] is Operand);
        let rest = toks.drop_first();
        assert(wf_tail(rest));
        if rest.len() > 0 {
            assert(is_infix_tok(toks[1]));
            lemma_split_exists(toks);
            assert(false);
        }
        assert(toks.len() == 1);
        let e = toks[0]->Operand_0;
        assert(sp_resolve(toks) == Some(e));
        assert(flat_seq(rest) == Seq::<FlatItem>::empty());
        assert(flat_seq(toks) == flat(e) + Seq::<FlatItem>::empty());
        assert(flat(e) + Seq::<FlatItem>::empty() =~= flat(e));
    }
}

/// Resolves a flat token sequence into one expression tree; `None` for
/// a malformed sequence.
pub fn resolve_tokens(toks: Vec<ExprToken>) -> (r: Option<Expression>)
    ensures
        match (r, sp_resolve(toks.deep_view())) {
            (Some(e), Some(se)) => e.deep_view() == se,
            (None, None) => true,
            _ => false,
        },
    decreases toks.len(),
{
    let ghost s = toks.deep_view();
    // scan for the rightmost binary operator of loosest precedence
    let mut best: Option<(u32, usize)> = None;
    let mut i: usize = 0;
    while i < toks.len()
        invariant
            i <= toks.len(),
            s == toks.deep_view(),
            is_best_upto(
                s,
                i as int,
                match best {
                    None => None,
                    Some((p, j)) => Some((p, j as int)),
                },
            ),
            match best {
                None => true,
                Some((p, j)) => j < i,
            },
        decreases toks.len() - i,
    {
        let tok_prec_here: Option<u32> = match &toks[i] {
            ExprToken::Infix(rule, _) => infix_precedence(*rule),
            _ => None,
        };
        proof {
            assert(s[i as int] == toks[i as int].deep_view());
        }
        match tok_prec_here {
            Some(p) => {
                let replace: bool = match best {
                    None => true,
                    Some((bp, _)) => p <= bp,
                };
                if replace {
                    best = Some((p, i));
                }
            },
            None => {},
        }
        i = i + 1;
    }
    proof {
        match best {
            None => {
                assert(forall|j: int| !is_split_pos(s, j));
            },
            Some((p, j)) => {
                assert(is_split_pos(s, j as int));
            },
        }
    }
    // prefix negation at the front takes the root when it is loosest
    let prefix_root: bool = toks.len() > 0 && match (&toks[0], best) {
        (ExprToken::Prefix(_), None) => true,
        (ExprToken::Prefix(_), Some((p, _))) => p > NEG_PREC,
        _ => false,
    };
    if prefix_root {
        let mut rest = toks;
        let first = rest.remove(0);
        let text = match first {
            ExprToken::Prefix(t) => t,
            _ => { return None; },
        };
        proof {
            assert(rest.deep_view() =~= s.drop_first());
            if best is Some {
                lemma_split_pos_unique(s, split_pos(s), best->Some_0.1 as int);
            }
        }
        match resolve_tokens(rest) {
            Some(inner) => {
                let e = Expression::FuncCall { function: text, args: vec![inner] };
                proof {
                    assert(deep_view_exprs(e->FuncCall_args) =~= seq![
                        sp_resolve(s.drop_first())->Some_0,
                    ]);
                }
                Some(e)
            },
            None => None,
        }
    } else if let Some((p, j)) = best {
        proof {
            lemma_split_pos_unique(s, split_pos(s), j as int);
        }
        let mut left = toks;
        let right = left.split_off(j + 1);
        let op = match left.pop() {
            Some(t) => t,
            None => { return None; },
        };
        let op_text = match op {
            ExprToken::Infix(_, t) => t,
            _ => { return None; },
        };
        proof {
            assert(left.deep_view() =~= s.subrange(0, j as int));
            assert(right.deep_view() =~= s.subrange(j + 1, s.len() as int));
        }
        let l = match resolve_tokens(left) {
            Some(l) => l,
            None => { return None; },
        };
        let r = match resolve_tokens(right) {
            Some(r) => r,
            None => { return None; },
        };
        let e = Expression::FuncCall { function: op_text, args: vec![l, r] };
        proof {
            assert(deep_view_exprs(e->FuncCall_args) =~= seq![
                sp_resolve(s.subrange(0, j as int))->Some_0,
                sp_resolve(s.subrange(j + 1, s.len() as int))->Some_0,
            ]);
        }
        Some(e)
    } else if toks.len() == 1 {
        let mut toks = toks;
        match toks.pop() {
            Some(ExprToken::Operand(e)) => Some(e),
            _ => None,
        }
    } else {
        None
    }
}

} // verus!
