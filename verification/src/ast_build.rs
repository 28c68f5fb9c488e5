//! The AST builder: one deterministic mapping from each parse-tree node
//! kind to one AST node kind, delegating operator sequences to the
//! precedence resolver.
//!
//! Every builder fails loudly on a node kind it has no mapping for, or
//! on a shape the grammar can never produce: the error names the
//! offending node's rule kind and source text, and each contract pins
//! that diagnostic exactly. It signals a grammar/builder mismatch, never
//! a fault in well-formed input.

use vstd::prelude::*;
use vstd::string::StrSliceExecFns;
use vstd::string::StringExecFns;

use crate::ast::ConstructDecl;
use crate::ast::Expression;
use crate::ast::Literal;
use crate::ast::Pattern;
use crate::ast::Program;
use crate::ast::SpecConstructDecl;
use crate::ast::SpecExpression;
use crate::ast::SpecLiteral;
use crate::ast::SpecPattern;
use crate::ast::SpecStatement;
use crate::ast::SpecTypeExpr;
use crate::ast::Statement;
use crate::ast::TypeExpr;
use crate::ast::deep_view_exprs;
use crate::ast::deep_view_patterns;
use crate::ast::deep_view_types;
use crate::parse_tree::ParseNode;
use crate::parse_tree::Rule;
use crate::parse_tree::SpecParseNode;
use crate::parse_tree::deep_view_nodes;

verus! {

/// A structural error: the builder met a parse-tree node of a kind it
/// has no mapping for, or one whose shape the grammar can never produce.
/// It carries the offending node's rule kind and source text.
#[derive(Debug, PartialEq)]
pub struct BuildError {
    pub rule: Rule,
    pub text: String,
}

/// The mathematical model of a `BuildError`.
pub struct SpecBuildError {
    pub rule: Rule,
    pub text: Seq<char>,
}

impl DeepView for BuildError {
    type V = SpecBuildError;

    open spec fn deep_view(&self) -> SpecBuildError {
        SpecBuildError { rule: self.rule, text: self.text@ }
    }
}

/// The diagnostic naming a node: its rule kind and its source text.
pub open spec fn node_error(n: SpecParseNode) -> SpecBuildError {
    SpecBuildError { rule: n.rule, text: n.text }
}

/// The sequence views agree with the element-wise model of a vector of
/// type expressions.
pub broadcast proof fn lemma_deep_view_types(v: Vec<TypeExpr>)
    ensures
        #[trigger] deep_view_types(v) == v.deep_view(),
{
    assert(deep_view_types(v) =~= v.deep_view());
}

/// The sequence views agree with the element-wise model of a vector of
/// patterns.
pub broadcast proof fn lemma_deep_view_patterns(v: Vec<Pattern>)
    ensures
        #[trigger] deep_view_patterns(v) == v.deep_view(),
{
    assert(deep_view_patterns(v) =~= v.deep_view());
}

/// The sequence views agree with the element-wise model of a vector of
/// expressions.
pub broadcast proof fn lemma_deep_view_exprs(v: Vec<Expression>)
    ensures
        #[trigger] deep_view_exprs(v) == v.deep_view(),
{
    reveal_with_fuel(deep_view_exprs, 2);
    assert forall|i: int| 0 <= i < v.len() implies deep_view_exprs(v)[i] == v.deep_view()[i] by {
        assert(deep_view_exprs(v)[i] == v[i].deep_view());
        assert(v.deep_view()[i] == v[i].deep_view());
    }
    assert(deep_view_exprs(v) =~= v.deep_view());
}

/// The sequence views agree with the element-wise model of a vector of
/// parse-tree nodes.
pub broadcast proof fn lemma_deep_view_nodes(v: Vec<ParseNode>)
    ensures
        #[trigger] deep_view_nodes(v) == v.deep_view(),
{
    assert(deep_view_nodes(v) =~= v.deep_view());
}

/// The model of a parse-tree node, field by field.
pub broadcast proof fn lemma_node_view(n: ParseNode)
    ensures
        (#[trigger] n.deep_view()).rule == n.rule,
        n.deep_view().text == n.text@,
        n.deep_view().children == deep_view_nodes(n.children),
{
}

/// Whether a character is a decimal digit.
pub open spec fn is_digit(c: char) -> bool {
    48 <= c as u32 <= 57
}

/// The value of a decimal digit.
pub open spec fn digit_val(c: char) -> int {
    c as u32 - 48
}

/// Whether a text is one or more decimal digits.
pub open spec fn all_digits(s: Seq<char>) -> bool {
    s.len() > 0 && forall|k: int| 0 <= k < s.len() ==> is_digit(#[trigger] s[k])
}

/// The numeric value of a digit text.
pub open spec fn digits_val(s: Seq<char>) -> int
    decreases s.len(),
{
    if s.len() == 0 {
        0
    } else {
        digits_val(s.drop_last()) * 10 + digit_val(s.last())
    }
}

/// The integer an integer literal's text denotes: its digits' value,
/// when the text is all digits and the value fits a 64-bit integer.
pub open spec fn sp_parse_i64(s: Seq<char>) -> Option<i64> {
    if all_digits(s) && digits_val(s) <= i64::MAX {
        Some(digits_val(s) as i64)
    } else {
        None
    }
}

/// A digit text never denotes a negative value.
proof fn lemma_digits_val_nonneg(s: Seq<char>)
    requires
        forall|k: int| 0 <= k < s.len() ==> is_digit(#[trigger] s[k]),
    ensures
        digits_val(s) >= 0,
    decreases s.len(),
{
    if s.len() > 0 {
        lemma_digits_val_nonneg(s.drop_last());
    }
}

/// Parses an integer literal's text: its digits' value when the text is
/// all digits and the value fits a 64-bit integer, `None` otherwise.
pub fn parse_i64(text: &String) -> (r: Option<i64>)
    ensures
        r == sp_parse_i64(text@),
{
    let s = text.as_str();
    let n = s.unicode_len();
    if n == 0 {
        return None;
    }
    let mut acc: u64 = 0;
    let mut too_big: bool = false;
    let mut i: usize = 0;
    while i < n
        invariant
            s@ == text@,
            0 < n == s@.len(),
            i <= n,
            forall|k: int| 0 <= k < i ==> is_digit(#[trigger] s@[k]),
            !too_big ==> acc == digits_val(s@.subrange(0, i as int)) && acc <= i64::MAX,
            too_big ==> digits_val(s@.subrange(0, i as int)) > i64::MAX,
        decreases n - i,
    {
        let c = s.get_char(i);
        let cu = c as u32;
        if cu < 48 || cu > 57 {
            proof {
                assert(!is_digit(s@[i as int]));
                assert(!all_digits(s@));
            }
            return None;
        }
        let d: u64 = (cu - 48) as u64;
        proof {
            let pre = s@.subrange(0, i as int);
            let nxt = s@.subrange(0, i + 1);
            assert(nxt.drop_last() =~= pre);
            assert(nxt.last() == s@[i as int]);
            lemma_digits_val_nonneg(pre);
        }
        if too_big {
            // a digit text already beyond the range only grows
            proof {
                let pre = s@.subrange(0, i as int);
                assert(digits_val(pre) * 10 + digit_val(s@[i as int]) > i64::MAX) by {
                    assert(digits_val(pre) * 10 >= digits_val(pre)) by (nonlinear_arith)
                        requires
                            digits_val(pre) > 0,
                    ;
                }
            }
        } else if acc > (9223372036854775807u64 - d) / 10 {
            proof {
                assert(acc * 10 + d > i64::MAX) by (nonlinear_arith)
                    requires
                        acc > (9223372036854775807u64 - d) / 10,
                        d <= 9,
                ;
            }
            too_big = true;
        } else {
            proof {
                assert(acc * 10 + d <= i64::MAX) by (nonlinear_arith)
                    requires
                        acc <= (9223372036854775807u64 - d) / 10,
                        d <= 9,
                ;
            }
            acc = acc * 10 + d;
        }
        i = i + 1;
    }
    proof {
        assert(s@.subrange(0, n as int) =~= s@);
    }
    if too_big {
        None
    } else {
        Some(acc as i64)
    }
}

/// The type expression a type sub-tree denotes, or, for an unrecognized
/// node kind or an impossible shape, the diagnostic naming the offending
/// node.
pub open spec fn sp_build_type(n: SpecParseNode) -> Result<SpecTypeExpr, SpecBuildError>
    decreases n, 0int, 0int,
{
    match n.rule {
        Rule::IntType => Ok(SpecTypeExpr::Int),
        Rule::FloatType => Ok(SpecTypeExpr::Float),
        Rule::CharType => Ok(SpecTypeExpr::Char),
        Rule::BoolType => Ok(SpecTypeExpr::Bool),
        Rule::ListType => {
            if n.children.len() >= 1 {
                match sp_build_type(n.children[0]) {
                    Ok(t) => Ok(SpecTypeExpr::List(Box::new(t))),
                    Err(e) => Err(e),
                }
            } else {
                Err(node_error(n))
            }
        },
        Rule::FuncType => {
            match sp_build_types(n.children, 0) {
                Ok(ts) => {
                    if ts.len() == 1 {
                        Ok(ts[0])
                    } else {
                        Ok(SpecTypeExpr::Func(ts))
                    }
                },
                Err(e) => Err(e),
            }
        },
        Rule::CustomType => Ok(SpecTypeExpr::CustomType(n.text)),
        Rule::Generic => Ok(SpecTypeExpr::Generic(n.text)),
        _ => Err(node_error(n)),
    }
}

/// The types the sub-trees from position `i` on denote, or the first
/// failing node's diagnostic. A start position outside the node list
/// never arises; it answers an empty-list diagnostic.
pub open spec fn sp_build_types(cs: Seq<SpecParseNode>, i: int) -> Result<
    Seq<SpecTypeExpr>,
    SpecBuildError,
>
    decreases cs, cs.len() - i, 1int,
{
    if i < 0 || i > cs.len() {
        Err(SpecBuildError { rule: Rule::Eoi, text: Seq::empty() })
    } else if i == cs.len() {
        Ok(Seq::empty())
    } else {
        match sp_build_type(cs[i]) {
            Err(e) => Err(e),
            Ok(t) => match sp_build_types(cs, i + 1) {
                Err(e) => Err(e),
                Ok(rest) => Ok(seq![t] + rest),
            },
        }
    }
}

/// Builds the type expression a type sub-tree denotes: primitive types
/// map directly, list types recurse on their element, function types
/// flatten the parameter/return chain into one sequence, collapsing a
/// length-1 chain to the bare element; remaining kinds are nominal or
/// variable types. Any other node kind fails, the error naming its rule
/// kind and source text.
pub fn build_type(n: &ParseNode) -> (r: Result<TypeExpr, BuildError>)
    ensures
        match (r, sp_build_type(n.deep_view())) {
            (Ok(t), Ok(st)) => t.deep_view() == st,
            (Err(e), Err(se)) => e.deep_view() == se,
            _ => false,
        },
    decreases n, 0int, 0int,
{
    broadcast use lemma_deep_view_types, lemma_deep_view_nodes, lemma_node_view;

    match n.rule {
        Rule::IntType => Ok(TypeExpr::Int),
        Rule::FloatType => Ok(TypeExpr::Float),
        Rule::CharType => Ok(TypeExpr::Char),
        Rule::BoolType => Ok(TypeExpr::Bool),
        Rule::ListType => {
            if n.children.len() >= 1 {
                let t = build_type(&n.children[0])?;
                Ok(TypeExpr::List(Box::new(t)))
            } else {
                Err(BuildError { rule: n.rule, text: n.text.clone() })
            }
        },
        Rule::FuncType => {
            let mut ts = build_types(&n.children, 0)?;
            if ts.len() == 1 {
                match ts.pop() {
                    Some(t) => Ok(t),
                    None => Err(BuildError { rule: n.rule, text: n.text.clone() }),
                }
            } else {
                Ok(TypeExpr::Func(ts))
            }
        },
        Rule::CustomType => Ok(TypeExpr::CustomType(n.text.clone())),
        Rule::Generic => Ok(TypeExpr::Generic(n.text.clone())),
        _ => Err(BuildError { rule: n.rule, text: n.text.clone() }),
    }
}

/// Builds the types the sub-trees from position `i` on denote.
fn build_types(cs: &Vec<ParseNode>, i: usize) -> (r: Result<Vec<TypeExpr>, BuildError>)
    requires
        i <= cs.len(),
    ensures
        match (r, sp_build_types(deep_view_nodes(*cs), i as int)) {
            (Ok(ts), Ok(sts)) => deep_view_types(ts) == sts,
            (Err(e), Err(se)) => e.deep_view() == se,
            _ => false,
        },
    decreases cs, cs.len() - i, 1int,
{
    broadcast use lemma_deep_view_types, lemma_deep_view_nodes, lemma_node_view;

    if i == cs.len() {
        let empty: Vec<TypeExpr> = Vec::new();
        proof {
            assert(deep_view_types(empty) =~= Seq::<SpecTypeExpr>::empty());
        }
        Ok(empty)
    } else {
        let t = build_type(&cs[i])?;
        let mut rest = build_types(cs, i + 1)?;
        rest.insert(0, t);
        proof {
            let s = deep_view_nodes(*cs);
            assert(deep_view_types(rest) =~= seq![sp_build_type(s[i as int])->Ok_0]
                + sp_build_types(s, i + 1)->Ok_0);
        }
        Ok(rest)
    }
}

} // verus!

verus! {

/// The literal a literal sub-tree denotes, or, for an unrecognized node
/// kind, an impossible shape or an integer text out of range, the
/// diagnostic naming the offending node.
pub open spec fn sp_build_literal(n: SpecParseNode) -> Result<SpecLiteral, SpecBuildError>
    decreases n, 0int, 0int,
{
    match n.rule {
        Rule::Integer => match sp_parse_i64(n.text) {
            Some(v) => Ok(SpecLiteral::Integer(v)),
            None => Err(node_error(n)),
        },
        Rule::Decimal => Ok(SpecLiteral::Decimal(n.text)),
        Rule::Bool => {
            if n.children.len() >= 1 && n.children[0].rule == Rule::TrueLiteral {
                Ok(SpecLiteral::Bool(true))
            } else if n.children.len() >= 1 && n.children[0].rule == Rule::FalseLiteral {
                Ok(SpecLiteral::Bool(false))
            } else {
                Err(node_error(n))
            }
        },
        Rule::List => match sp_build_exprs(n.children, 0) {
            Ok(es) => Ok(SpecLiteral::List(es)),
            Err(e) => Err(e),
        },
        _ => Err(node_error(n)),
    }
}

/// The expressions the sub-trees from position `i` on denote, or the
/// first failing node's diagnostic. A start position outside the node
/// list never arises; it answers an empty-list diagnostic.
pub open spec fn sp_build_exprs(cs: Seq<SpecParseNode>, i: int) -> Result<
    Seq<SpecExpression>,
    SpecBuildError,
>
    decreases cs, cs.len() - i, 1int,
{
    if i < 0 || i > cs.len() {
        Err(SpecBuildError { rule: Rule::Eoi, text: Seq::empty() })
    } else if i == cs.len() {
        Ok(Seq::empty())
    } else {
        match sp_build_expression(cs[i]) {
            Err(e) => Err(e),
            Ok(e) => match sp_build_exprs(cs, i + 1) {
                Err(e2) => Err(e2),
                Ok(rest) => Ok(seq![e] + rest),
            },
        }
    }
}

/// The expression an expression node denotes: its children are read as
/// a flat token sequence and resolved by precedence. A failing child
/// names itself; a malformed token sequence names the expression node.
pub open spec fn sp_build_expression(n: SpecParseNode) -> Result<SpecExpression, SpecBuildError>
    decreases n, 0int, 1int,
{
    match sp_build_tokens(n.children, 0) {
        Err(e) => Err(e),
        Ok(toks) => match crate::precedence::sp_resolve(toks) {
            Some(e) => Ok(e),
            None => Err(node_error(n)),
        },
    }
}

/// The expression tokens the sub-trees from position `i` on denote: the
/// negation rule gives a prefix operator token, operator rules give
/// binary operator tokens, everything else is a primary. A start
/// position outside the node list never arises; it answers an
/// empty-list diagnostic.
pub open spec fn sp_build_tokens(cs: Seq<SpecParseNode>, i: int) -> Result<
    Seq<crate::precedence::SpecExprToken>,
    SpecBuildError,
>
    decreases cs, cs.len() - i, 1int,
{
    if i < 0 || i > cs.len() {
        Err(SpecBuildError { rule: Rule::Eoi, text: Seq::empty() })
    } else if i == cs.len() {
        Ok(Seq::empty())
    } else {
        let n = cs[i];
        let head = if n.rule == Rule::Negative {
            Ok(crate::precedence::SpecExprToken::Prefix(n.text))
        } else if crate::precedence::spec_infix_prec(n.rule) is Some {
            Ok(crate::precedence::SpecExprToken::Infix(n.rule, n.text))
        } else {
            match sp_build_primary(n) {
                Ok(e) => Ok(crate::precedence::SpecExprToken::Operand(e)),
                Err(e) => Err(e),
            }
        };
        match head {
            Err(e) => Err(e),
            Ok(h) => match sp_build_tokens(cs, i + 1) {
                Err(e) => Err(e),
                Ok(rest) => Ok(seq![h] + rest),
            },
        }
    }
}

/// The model of a primary: a prefix function call applies its leading
/// name to the juxtaposed atoms; anything else is an atom.
pub open spec fn sp_build_primary(n: SpecParseNode) -> Result<SpecExpression, SpecBuildError>
    decreases n, 0int, 3int,
{
    if n.rule == Rule::FuncPrefix {
        if n.children.len() >= 1 {
            match sp_build_atoms(n.children, 1) {
                Ok(args) => Ok(SpecExpression::FuncCall { function: n.children[0].text, args }),
                Err(e) => Err(e),
            }
        } else {
            Err(node_error(n))
        }
    } else {
        sp_build_atom(n)
    }
}

/// The atoms the sub-trees from position `i` on denote, or the first
/// failing node's diagnostic. A start position outside the node list
/// never arises; it answers an empty-list diagnostic.
pub open spec fn sp_build_atoms(cs: Seq<SpecParseNode>, i: int) -> Result<
    Seq<SpecExpression>,
    SpecBuildError,
>
    decreases cs, cs.len() - i, 1int,
{
    if i < 0 || i > cs.len() {
        Err(SpecBuildError { rule: Rule::Eoi, text: Seq::empty() })
    } else if i == cs.len() {
        Ok(Seq::empty())
    } else {
        match sp_build_atom(cs[i]) {
            Err(e) => Err(e),
            Ok(e) => match sp_build_atoms(cs, i + 1) {
                Err(e2) => Err(e2),
                Ok(rest) => Ok(seq![e] + rest),
            },
        }
    }
}

/// The model of an atom: a parenthesized expression, a literal, or an
/// identifier; any other node kind is the diagnostic naming it.
pub open spec fn sp_build_atom(n: SpecParseNode) -> Result<SpecExpression, SpecBuildError>
    decreases n, 0int, 2int,
{
    match n.rule {
        Rule::Expression => sp_build_expression(n),
        Rule::Literal => {
            if n.children.len() >= 1 {
                match sp_build_literal(n.children[0]) {
                    Ok(l) => Ok(SpecExpression::Literal(l)),
                    Err(e) => Err(e),
                }
            } else {
                Err(node_error(n))
            }
        },
        Rule::IdentLower => Ok(SpecExpression::Ident(n.text)),
        Rule::IdentUpper => Ok(SpecExpression::Ident(n.text)),
        _ => Err(node_error(n)),
    }
}

} // verus!

verus! {

/// Builds the literal a literal sub-tree denotes: integers are parsed
/// from their text, decimals keep their text, booleans resolve through
/// their true/false sub-rule, and list elements are full expressions.
/// Any other node kind, and an integer text out of range, fails with the
/// offending node's rule kind and source text.
pub fn build_literal(n: &ParseNode) -> (r: Result<Literal, BuildError>)
    ensures
        match (r, sp_build_literal(n.deep_view())) {
            (Ok(l), Ok(sl)) => l.deep_view() == sl,
            (Err(e), Err(se)) => e.deep_view() == se,
            _ => false,
        },
    decreases n, 0int, 0int,
{
    broadcast use lemma_deep_view_exprs, lemma_deep_view_nodes, lemma_node_view;

    match n.rule {
        Rule::Integer => {
            match parse_i64(&n.text) {
                Some(v) => Ok(Literal::Integer(v)),
                None => Err(BuildError { rule: n.rule, text: n.text.clone() }),
            }
        },
        Rule::Decimal => Ok(Literal::Decimal(n.text.clone())),
        Rule::Bool => {
            if n.children.len() >= 1 {
                match n.children[0].rule {
                    Rule::TrueLiteral => Ok(Literal::Bool(true)),
                    Rule::FalseLiteral => Ok(Literal::Bool(false)),
                    _ => Err(BuildError { rule: n.rule, text: n.text.clone() }),
                }
            } else {
                Err(BuildError { rule: n.rule, text: n.text.clone() })
            }
        },
        Rule::List => {
            let es = build_exprs(&n.children, 0)?;
            let l = Literal::List(es);
            proof {
                lemma_deep_view_exprs(l->List_0);
            }
            Ok(l)
        },
        _ => Err(BuildError { rule: n.rule, text: n.text.clone() }),
    }
}

/// Builds the expressions the sub-trees from position `i` on denote.
fn build_exprs(cs: &Vec<ParseNode>, i: usize) -> (r: Result<Vec<Expression>, BuildError>)
    requires
        i <= cs.len(),
    ensures
        match (r, sp_build_exprs(deep_view_nodes(*cs), i as int)) {
            (Ok(es), Ok(ses)) => es.deep_view() == ses,
            (Err(e), Err(se)) => e.deep_view() == se,
            _ => false,
        },
    decreases cs, cs.len() - i, 1int,
{
    broadcast use lemma_deep_view_nodes, lemma_node_view;

    if i == cs.len() {
        let empty: Vec<Expression> = Vec::new();
        proof {
            assert(empty.deep_view() =~= Seq::<SpecExpression>::empty());
        }
        Ok(empty)
    } else {
        let e = build_expression(&cs[i])?;
        let mut rest = build_exprs(cs, i + 1)?;
        rest.insert(0, e);
        proof {
            let s = deep_view_nodes(*cs);
            assert(rest.deep_view() =~= seq![sp_build_expression(s[i as int])->Ok_0]
                + sp_build_exprs(s, i + 1)->Ok_0);
        }
        Ok(rest)
    }
}

/// Builds the expression an expression node denotes: its children are
/// read as a flat token sequence and resolved by precedence. A failing
/// child fails with its own diagnostic; a malformed token sequence fails
/// naming the expression node and its source text.
pub fn build_expression(n: &ParseNode) -> (r: Result<Expression, BuildError>)
    ensures
        match (r, sp_build_expression(n.deep_view())) {
            (Ok(e), Ok(se)) => e.deep_view() == se,
            (Err(e), Err(se)) => e.deep_view() == se,
            _ => false,
        },
    decreases n, 0int, 1int,
{
    broadcast use lemma_deep_view_nodes, lemma_node_view;

    let toks = build_tokens(&n.children, 0)?;
    match crate::precedence::resolve_tokens(toks) {
        Some(e) => Ok(e),
        None => Err(BuildError { rule: n.rule, text: n.text.clone() }),
    }
}

/// Builds the expression tokens the sub-trees from position `i` on
/// denote: the negation rule gives the prefix operator, operator rules
/// give binary operator tokens, everything else is a primary.
fn build_tokens(cs: &Vec<ParseNode>, i: usize) -> (r: Result<
    Vec<crate::precedence::ExprToken>,
    BuildError,
>)
    requires
        i <= cs.len(),
    ensures
        match (r, sp_build_tokens(deep_view_nodes(*cs), i as int)) {
            (Ok(ts), Ok(sts)) => ts.deep_view() == sts,
            (Err(e), Err(se)) => e.deep_view() == se,
            _ => false,
        },
    decreases cs, cs.len() - i, 1int,
{
    broadcast use lemma_deep_view_nodes, lemma_node_view;

    if i == cs.len() {
        let empty: Vec<crate::precedence::ExprToken> = Vec::new();
        proof {
            assert(empty.deep_view() =~= Seq::<crate::precedence::SpecExprToken>::empty());
        }
        Ok(empty)
    } else {
        let node = &cs[i];
        let head: crate::precedence::ExprToken = if node.rule == Rule::Negative {
            crate::precedence::ExprToken::Prefix(node.text.clone())
        } else {
            match crate::precedence::infix_precedence(node.rule) {
                Some(_) => crate::precedence::ExprToken::Infix(node.rule, node.text.clone()),
                None => crate::precedence::ExprToken::Operand(build_primary(node)?),
            }
        };
        let ghost head_view = head.deep_view();
        let mut rest = build_tokens(cs, i + 1)?;
        rest.insert(0, head);
        proof {
            let s = deep_view_nodes(*cs);
            assert(rest.deep_view() =~= seq![head_view] + sp_build_tokens(s, i + 1)->Ok_0);
        }
        Ok(rest)
    }
}

/// Builds a primary: a prefix function call applies its leading name to
/// the juxtaposed atoms; anything else is an atom.
fn build_primary(n: &ParseNode) -> (r: Result<Expression, BuildError>)
    ensures
        match (r, sp_build_primary(n.deep_view())) {
            (Ok(e), Ok(se)) => e.deep_view() == se,
            (Err(e), Err(se)) => e.deep_view() == se,
            _ => false,
        },
    decreases n, 0int, 3int,
{
    broadcast use lemma_deep_view_exprs, lemma_deep_view_nodes, lemma_node_view;

    if let Rule::FuncPrefix = n.rule {
        if n.children.len() >= 1 {
            let args = build_atoms(&n.children, 1)?;
            let e = Expression::FuncCall { function: n.children[0].text.clone(), args };
            proof {
                lemma_deep_view_exprs(e->FuncCall_args);
            }
            Ok(e)
        } else {
            Err(BuildError { rule: n.rule, text: n.text.clone() })
        }
    } else {
        build_atom(n)
    }
}

/// Builds the atoms the sub-trees from position `i` on denote.
fn build_atoms(cs: &Vec<ParseNode>, i: usize) -> (r: Result<Vec<Expression>, BuildError>)
    requires
        i <= cs.len(),
    ensures
        match (r, sp_build_atoms(deep_view_nodes(*cs), i as int)) {
            (Ok(es), Ok(ses)) => es.deep_view() == ses,
            (Err(e), Err(se)) => e.deep_view() == se,
            _ => false,
        },
    decreases cs, cs.len() - i, 1int,
{
    broadcast use lemma_deep_view_nodes, lemma_node_view;

    if i == cs.len() {
        let empty: Vec<Expression> = Vec::new();
        proof {
            assert(empty.deep_view() =~= Seq::<SpecExpression>::empty());
        }
        Ok(empty)
    } else {
        let e = build_atom(&cs[i])?;
        let mut rest = build_atoms(cs, i + 1)?;
        rest.insert(0, e);
        proof {
            let s = deep_view_nodes(*cs);
            assert(rest.deep_view() =~= seq![sp_build_atom(s[i as int])->Ok_0]
                + sp_build_atoms(s, i + 1)->Ok_0);
        }
        Ok(rest)
    }
}

/// Builds an atom: a parenthesized expression, a literal, or an
/// identifier. Any other node kind fails, the error naming its rule kind
/// and source text.
fn build_atom(n: &ParseNode) -> (r: Result<Expression, BuildError>)
    ensures
        match (r, sp_build_atom(n.deep_view())) {
            (Ok(e), Ok(se)) => e.deep_view() == se,
            (Err(e), Err(se)) => e.deep_view() == se,
            _ => false,
        },
    decreases n, 0int, 2int,
{
    broadcast use lemma_deep_view_nodes, lemma_node_view;

    match n.rule {
        Rule::Expression => build_expression(n),
        Rule::Literal => {
            if n.children.len() >= 1 {
                let l = build_literal(&n.children[0])?;
                Ok(Expression::Literal(l))
            } else {
                Err(BuildError { rule: n.rule, text: n.text.clone() })
            }
        },
        Rule::IdentLower => Ok(Expression::Ident(n.text.clone())),
        Rule::IdentUpper => Ok(Expression::Ident(n.text.clone())),
        _ => Err(BuildError { rule: n.rule, text: n.text.clone() }),
    }
}

} // verus!

verus! {

/// The pattern a pattern sub-tree denotes, or, for an unrecognized node
/// kind or an impossible shape, the diagnostic naming the offending
/// node.
pub open spec fn sp_build_pattern(n: SpecParseNode) -> Result<SpecPattern, SpecBuildError>
    decreases n, 0int, 0int,
{
    match n.rule {
        Rule::IdentLower => Ok(SpecPattern::Ident(n.text)),
        Rule::IdentUpper => Ok(SpecPattern::Ident(n.text)),
        Rule::Literal => {
            if n.children.len() >= 1 {
                match sp_build_literal(n.children[0]) {
                    Ok(l) => Ok(SpecPattern::Literal(l)),
                    Err(e) => Err(e),
                }
            } else {
                Err(node_error(n))
            }
        },
        Rule::Constructor => {
            if n.children.len() >= 1 {
                sp_build_constructor(n.children[0])
            } else {
                Err(node_error(n))
            }
        },
        Rule::Wildcard => Ok(SpecPattern::Wildcard),
        _ => Err(node_error(n)),
    }
}

/// The model of a constructor pattern, prefix (`Name a b`) or binary
/// (`a :Name: b`); any other node kind is the diagnostic naming it.
pub open spec fn sp_build_constructor(n: SpecParseNode) -> Result<SpecPattern, SpecBuildError>
    decreases n, 0int, 1int,
{
    match n.rule {
        Rule::PrefixConstructor => {
            if n.children.len() >= 1 {
                match sp_build_patterns(n.children, 1) {
                    Ok(args) => Ok(SpecPattern::Constructor { name: n.children[0].text, args }),
                    Err(e) => Err(e),
                }
            } else {
                Err(node_error(n))
            }
        },
        Rule::BinConstructor => {
            if n.children.len() >= 3 {
                match sp_build_pattern(n.children[0]) {
                    Err(e) => Err(e),
                    Ok(first) => match sp_build_pattern(n.children[2]) {
                        Err(e) => Err(e),
                        Ok(last) => Ok(
                            SpecPattern::Constructor {
                                name: n.children[1].text,
                                args: seq![first, last],
                            },
                        ),
                    },
                }
            } else {
                Err(node_error(n))
            }
        },
        _ => Err(node_error(n)),
    }
}

/// The patterns the sub-trees from position `i` on denote, or the first
/// failing node's diagnostic. A start position outside the node list
/// never arises; it answers an empty-list diagnostic.
pub open spec fn sp_build_patterns(cs: Seq<SpecParseNode>, i: int) -> Result<
    Seq<SpecPattern>,
    SpecBuildError,
>
    decreases cs, cs.len() - i, 1int,
{
    if i < 0 || i > cs.len() {
        Err(SpecBuildError { rule: Rule::Eoi, text: Seq::empty() })
    } else if i == cs.len() {
        Ok(Seq::empty())
    } else {
        match sp_build_pattern(cs[i]) {
            Err(e) => Err(e),
            Ok(p) => match sp_build_patterns(cs, i + 1) {
                Err(e) => Err(e),
                Ok(rest) => Ok(seq![p] + rest),
            },
        }
    }
}

/// Builds the pattern a pattern sub-tree denotes. Any other node kind
/// fails, the error naming its rule kind and source text.
pub fn build_pattern(n: &ParseNode) -> (r: Result<Pattern, BuildError>)
    ensures
        match (r, sp_build_pattern(n.deep_view())) {
            (Ok(p), Ok(sp)) => p.deep_view() == sp,
            (Err(e), Err(se)) => e.deep_view() == se,
            _ => false,
        },
    decreases n, 0int, 0int,
{
    broadcast use lemma_deep_view_nodes, lemma_node_view;

    match n.rule {
        Rule::IdentLower => Ok(Pattern::Ident(n.text.clone())),
        Rule::IdentUpper => Ok(Pattern::Ident(n.text.clone())),
        Rule::Literal => {
            if n.children.len() >= 1 {
                let l = build_literal(&n.children[0])?;
                Ok(Pattern::Literal(l))
            } else {
                Err(BuildError { rule: n.rule, text: n.text.clone() })
            }
        },
        Rule::Constructor => {
            if n.children.len() >= 1 {
                build_constructor(&n.children[0])
            } else {
                Err(BuildError { rule: n.rule, text: n.text.clone() })
            }
        },
        Rule::Wildcard => Ok(Pattern::Wildcard),
        _ => Err(BuildError { rule: n.rule, text: n.text.clone() }),
    }
}

/// Builds a constructor pattern, prefix (`Name a b`) or binary
/// (`a :Name: b`). Any other node kind fails, the error naming its rule
/// kind and source text.
fn build_constructor(n: &ParseNode) -> (r: Result<Pattern, BuildError>)
    ensures
        match (r, sp_build_constructor(n.deep_view())) {
            (Ok(p), Ok(sp)) => p.deep_view() == sp,
            (Err(e), Err(se)) => e.deep_view() == se,
            _ => false,
        },
    decreases n, 0int, 1int,
{
    broadcast use lemma_deep_view_patterns, lemma_deep_view_nodes, lemma_node_view;

    match n.rule {
        Rule::PrefixConstructor => {
            if n.children.len() >= 1 {
                let args = build_patterns(&n.children, 1)?;
                let p = Pattern::Constructor { name: n.children[0].text.clone(), args };
                proof {
                    lemma_deep_view_patterns(p->Constructor_args);
                }
                Ok(p)
            } else {
                Err(BuildError { rule: n.rule, text: n.text.clone() })
            }
        },
        Rule::BinConstructor => {
            if n.children.len() >= 3 {
                let first = build_pattern(&n.children[0])?;
                let name = n.children[1].text.clone();
                let last = build_pattern(&n.children[2])?;
                let p = Pattern::Constructor { name, args: vec![first, last] };
                proof {
                    lemma_deep_view_patterns(p->Constructor_args);
                    let s = n.deep_view();
                    assert(p->Constructor_args.deep_view() =~= seq![
                        sp_build_pattern(s.children[0])->Ok_0,
                        sp_build_pattern(s.children[2])->Ok_0,
                    ]);
                }
                Ok(p)
            } else {
                Err(BuildError { rule: n.rule, text: n.text.clone() })
            }
        },
        _ => Err(BuildError { rule: n.rule, text: n.text.clone() }),
    }
}

/// Builds the patterns the sub-trees from position `i` on denote.
fn build_patterns(cs: &Vec<ParseNode>, i: usize) -> (r: Result<Vec<Pattern>, BuildError>)
    requires
        i <= cs.len(),
    ensures
        match (r, sp_build_patterns(deep_view_nodes(*cs), i as int)) {
            (Ok(ps), Ok(sps)) => ps.deep_view() == sps,
            (Err(e), Err(se)) => e.deep_view() == se,
            _ => false,
        },
    decreases cs, cs.len() - i, 1int,
{
    broadcast use lemma_deep_view_nodes, lemma_node_view;

    if i == cs.len() {
        let empty: Vec<Pattern> = Vec::new();
        proof {
            assert(empty.deep_view() =~= Seq::<SpecPattern>::empty());
        }
        Ok(empty)
    } else {
        let p = build_pattern(&cs[i])?;
        let mut rest = build_patterns(cs, i + 1)?;
        rest.insert(0, p);
        proof {
            let s = deep_view_nodes(*cs);
            assert(rest.deep_view() =~= seq![sp_build_pattern(s[i as int])->Ok_0]
                + sp_build_patterns(s, i + 1)->Ok_0);
        }
        Ok(rest)
    }
}

} // verus!

verus! {

/// The model of one guard: an `otherwise` condition is normalized to a
/// boolean-true literal; a condition of any other kind is the diagnostic
/// naming the guard node.
pub open spec fn sp_build_guard(n: SpecParseNode) -> Result<crate::ast::SpecGuard, SpecBuildError> {
    if n.children.len() >= 2 {
        let cond = if n.children[0].rule == Rule::Otherwise {
            Ok(SpecExpression::Literal(SpecLiteral::Bool(true)))
        } else if n.children[0].rule == Rule::Expression {
            sp_build_expression(n.children[0])
        } else {
            Err(node_error(n))
        };
        match cond {
            Err(e) => Err(e),
            Ok(c) => match sp_build_expression(n.children[1]) {
                Err(e) => Err(e),
                Ok(res) => Ok(crate::ast::SpecGuard { condition: c, result: res }),
            },
        }
    } else {
        Err(node_error(n))
    }
}

/// The guards the sub-trees from position `i` on denote, or the first
/// failing node's diagnostic. A start position outside the node list
/// never arises; it answers an empty-list diagnostic.
pub open spec fn sp_build_guards(cs: Seq<SpecParseNode>, i: int) -> Result<
    Seq<crate::ast::SpecGuard>,
    SpecBuildError,
>
    decreases cs.len() - i,
{
    if i < 0 || i > cs.len() {
        Err(SpecBuildError { rule: Rule::Eoi, text: Seq::empty() })
    } else if i == cs.len() {
        Ok(Seq::empty())
    } else {
        match sp_build_guard(cs[i]) {
            Err(e) => Err(e),
            Ok(g) => match sp_build_guards(cs, i + 1) {
                Err(e) => Err(e),
                Ok(rest) => Ok(seq![g] + rest),
            },
        }
    }
}

/// The model of a body: one unconditional expression or a guard list;
/// any other node kind is the diagnostic naming it.
pub open spec fn sp_build_body(n: SpecParseNode) -> Result<crate::ast::SpecBody, SpecBuildError> {
    match n.rule {
        Rule::Expression => match sp_build_expression(n) {
            Ok(e) => Ok(crate::ast::SpecBody::Expression(e)),
            Err(e) => Err(e),
        },
        Rule::Guards => match sp_build_guards(n.children, 0) {
            Ok(gs) => Ok(crate::ast::SpecBody::Guards(gs)),
            Err(e) => Err(e),
        },
        _ => Err(node_error(n)),
    }
}

/// The model of one constructor declaration of an algebraic data type:
/// its type is a function from its field types to the declared type
/// `dt`, or `dt` itself if it has no fields. A nameless node is the
/// diagnostic naming it.
pub open spec fn sp_build_constructor_decl(n: SpecParseNode, dt: SpecTypeExpr) -> Result<
    SpecConstructDecl,
    SpecBuildError,
> {
    if n.children.len() >= 1 {
        match sp_build_types(n.children, 1) {
            Ok(ts) => {
                let full = ts.push(dt);
                Ok(
                    SpecConstructDecl {
                        name: n.children[0].text,
                        ty: if full.len() == 1 {
                            full[0]
                        } else {
                            SpecTypeExpr::Func(full)
                        },
                    },
                )
            },
            Err(e) => Err(e),
        }
    } else {
        Err(node_error(n))
    }
}

/// The constructor declarations from position `i` on, or the first
/// failing node's diagnostic. A start position outside the node list
/// never arises; it answers an empty-list diagnostic.
pub open spec fn sp_build_constructor_decls(
    cs: Seq<SpecParseNode>,
    i: int,
    dt: SpecTypeExpr,
) -> Result<Seq<SpecConstructDecl>, SpecBuildError>
    decreases cs.len() - i,
{
    if i < 0 || i > cs.len() {
        Err(SpecBuildError { rule: Rule::Eoi, text: Seq::empty() })
    } else if i == cs.len() {
        Ok(Seq::empty())
    } else {
        match sp_build_constructor_decl(cs[i], dt) {
            Err(e) => Err(e),
            Ok(c) => match sp_build_constructor_decls(cs, i + 1, dt) {
                Err(e) => Err(e),
                Ok(rest) => Ok(seq![c] + rest),
            },
        }
    }
}

/// The model of an algebraic data type declaration; a nameless node is
/// the diagnostic naming it.
pub open spec fn sp_build_type_declaration(n: SpecParseNode) -> Result<
    SpecStatement,
    SpecBuildError,
> {
    if n.children.len() >= 1 {
        let name = n.children[0].text;
        match sp_build_constructor_decls(n.children, 1, SpecTypeExpr::CustomType(name)) {
            Ok(cds) => Ok(SpecStatement::TypeDeclaration { name, constructors: cds }),
            Err(e) => Err(e),
        }
    } else {
        Err(node_error(n))
    }
}

/// The model of one top-level statement; an unrecognized node kind or an
/// impossible shape is the diagnostic naming the offending node.
pub open spec fn sp_build_statement(n: SpecParseNode) -> Result<SpecStatement, SpecBuildError> {
    match n.rule {
        Rule::ConstDeclaration => {
            if n.children.len() >= 2 {
                match sp_build_type(n.children[1]) {
                    Ok(ty) => Ok(SpecStatement::Declaration { name: n.children[0].text, ty }),
                    Err(e) => Err(e),
                }
            } else {
                Err(node_error(n))
            }
        },
        Rule::TypeDeclaration => sp_build_type_declaration(n),
        Rule::Definition => {
            if n.children.len() >= 3 {
                match sp_build_patterns(n.children[1].children, 0) {
                    Err(e) => Err(e),
                    Ok(args) => match sp_build_body(n.children[2]) {
                        Err(e) => Err(e),
                        Ok(body) => Ok(
                            SpecStatement::Definition { name: n.children[0].text, args, body },
                        ),
                    },
                }
            } else {
                Err(node_error(n))
            }
        },
        Rule::Comment => Ok(SpecStatement::Comment(n.text)),
        Rule::Eoi => Ok(SpecStatement::Comment("End of Input"@)),
        _ => Err(node_error(n)),
    }
}

/// The statements the top-level nodes from position `i` on denote, or
/// the first failing node's diagnostic. A start position outside the
/// node list never arises; it answers an empty-list diagnostic.
pub open spec fn sp_build_program(ns: Seq<SpecParseNode>, i: int) -> Result<
    Seq<SpecStatement>,
    SpecBuildError,
>
    decreases ns.len() - i,
{
    if i < 0 || i > ns.len() {
        Err(SpecBuildError { rule: Rule::Eoi, text: Seq::empty() })
    } else if i == ns.len() {
        Ok(Seq::empty())
    } else {
        match sp_build_statement(ns[i]) {
            Err(e) => Err(e),
            Ok(st) => match sp_build_program(ns, i + 1) {
                Err(e) => Err(e),
                Ok(rest) => Ok(seq![st] + rest),
            },
        }
    }
}

/// Builds one guard; an `otherwise` condition is normalized to a
/// boolean-true literal. A condition of any other kind fails naming the
/// guard node and its source text.
fn build_guard(n: &ParseNode) -> (r: Result<crate::ast::Guard, BuildError>)
    ensures
        match (r, sp_build_guard(n.deep_view())) {
            (Ok(g), Ok(sg)) => g.deep_view() == sg,
            (Err(e), Err(se)) => e.deep_view() == se,
            _ => false,
        },
{
    broadcast use lemma_deep_view_nodes, lemma_node_view;

    if n.children.len() >= 2 {
        let cond = if let Rule::Otherwise = n.children[0].rule {
            Expression::Literal(Literal::Bool(true))
        } else if let Rule::Expression = n.children[0].rule {
            build_expression(&n.children[0])?
        } else {
            return Err(BuildError { rule: n.rule, text: n.text.clone() });
        };
        let res = build_expression(&n.children[1])?;
        Ok(crate::ast::Guard { condition: cond, result: res })
    } else {
        Err(BuildError { rule: n.rule, text: n.text.clone() })
    }
}

/// Builds the guards the sub-trees from position `i` on denote.
fn build_guards(cs: &Vec<ParseNode>, i: usize) -> (r: Result<Vec<crate::ast::Guard>, BuildError>)
    requires
        i <= cs.len(),
    ensures
        match (r, sp_build_guards(deep_view_nodes(*cs), i as int)) {
            (Ok(gs), Ok(sgs)) => gs.deep_view() == sgs,
            (Err(e), Err(se)) => e.deep_view() == se,
            _ => false,
        },
    decreases cs.len() - i,
{
    broadcast use lemma_deep_view_nodes, lemma_node_view;

    if i == cs.len() {
        let empty: Vec<crate::ast::Guard> = Vec::new();
        proof {
            assert(empty.deep_view() =~= Seq::<crate::ast::SpecGuard>::empty());
        }
        Ok(empty)
    } else {
        let g = build_guard(&cs[i])?;
        let mut rest = build_guards(cs, i + 1)?;
        rest.insert(0, g);
        proof {
            let s = deep_view_nodes(*cs);
            assert(rest.deep_view() =~= seq![sp_build_guard(s[i as int])->Ok_0]
                + sp_build_guards(s, i + 1)->Ok_0);
        }
        Ok(rest)
    }
}

/// Builds a body: one unconditional expression or a guard list. Any
/// other node kind fails, the error naming its rule kind and source
/// text.
pub fn build_body(n: &ParseNode) -> (r: Result<crate::ast::Body, BuildError>)
    ensures
        match (r, sp_build_body(n.deep_view())) {
            (Ok(b), Ok(sb)) => b.deep_view() == sb,
            (Err(e), Err(se)) => e.deep_view() == se,
            _ => false,
        },
{
    broadcast use lemma_deep_view_nodes, lemma_node_view;

    match n.rule {
        Rule::Expression => {
            let e = build_expression(n)?;
            Ok(crate::ast::Body::Expression(e))
        },
        Rule::Guards => {
            let gs = build_guards(&n.children, 0)?;
            Ok(crate::ast::Body::Guards(gs))
        },
        _ => Err(BuildError { rule: n.rule, text: n.text.clone() }),
    }
}

/// Builds one constructor declaration of an algebraic data type: its
/// type is a function from its field types to the declared type, or the
/// declared type itself if it has no fields. A nameless node fails
/// naming itself.
fn build_constructor_decl(n: &ParseNode, datatype: TypeExpr) -> (r: Result<
    ConstructDecl,
    BuildError,
>)
    ensures
        match (r, sp_build_constructor_decl(n.deep_view(), datatype.deep_view())) {
            (Ok(c), Ok(sc)) => c.deep_view() == sc,
            (Err(e), Err(se)) => e.deep_view() == se,
            _ => false,
        },
{
    broadcast use lemma_deep_view_types, lemma_deep_view_nodes, lemma_node_view;

    if n.children.len() >= 1 {
        let name = n.children[0].text.clone();
        let mut types = build_types(&n.children, 1)?;
        let ghost dt_view = datatype.deep_view();
        let ghost types_before = deep_view_types(types);
        types.push(datatype);
        proof {
            assert(deep_view_types(types) =~= types_before.push(dt_view));
        }
        if types.len() == 1 {
            match types.pop() {
                Some(t) => Ok(ConstructDecl { name, ty: t }),
                None => Err(BuildError { rule: n.rule, text: n.text.clone() }),
            }
        } else {
            Ok(ConstructDecl { name, ty: TypeExpr::Func(types) })
        }
    } else {
        Err(BuildError { rule: n.rule, text: n.text.clone() })
    }
}

/// Builds an algebraic data type declaration: the first child names the
/// type, the rest are its constructors. A nameless node fails naming
/// itself.
fn build_type_declaration(n: &ParseNode) -> (r: Result<Statement, BuildError>)
    ensures
        match (r, sp_build_type_declaration(n.deep_view())) {
            (Ok(st), Ok(sst)) => st.deep_view() == sst,
            (Err(e), Err(se)) => e.deep_view() == se,
            _ => false,
        },
{
    broadcast use lemma_deep_view_nodes, lemma_node_view;

    if n.children.len() >= 1 {
        let name = n.children[0].text.clone();
        let constructors = build_constructor_decls(&n.children, 1, &name)?;
        Ok(Statement::TypeDeclaration { name, constructors })
    } else {
        Err(BuildError { rule: n.rule, text: n.text.clone() })
    }
}

/// Builds the constructor declarations from position `i` on, each with
/// the declared type named `dt_name` as its result type.
fn build_constructor_decls(cs: &Vec<ParseNode>, i: usize, dt_name: &String) -> (r: Result<
    Vec<ConstructDecl>,
    BuildError,
>)
    requires
        i <= cs.len(),
    ensures
        match (r, sp_build_constructor_decls(
            deep_view_nodes(*cs),
            i as int,
            SpecTypeExpr::CustomType(dt_name@),
        )) {
            (Ok(cds), Ok(scds)) => cds.deep_view() == scds,
            (Err(e), Err(se)) => e.deep_view() == se,
            _ => false,
        },
    decreases cs.len() - i,
{
    broadcast use lemma_deep_view_nodes, lemma_node_view;

    if i == cs.len() {
        let empty: Vec<ConstructDecl> = Vec::new();
        proof {
            assert(empty.deep_view() =~= Seq::<SpecConstructDecl>::empty());
        }
        Ok(empty)
    } else {
        let c = build_constructor_decl(&cs[i], TypeExpr::CustomType(dt_name.clone()))?;
        let mut rest = build_constructor_decls(cs, i + 1, dt_name)?;
        rest.insert(0, c);
        proof {
            let s = deep_view_nodes(*cs);
            let dt = SpecTypeExpr::CustomType(dt_name@);
            assert(rest.deep_view() =~= seq![sp_build_constructor_decl(s[i as int], dt)->Ok_0]
                + sp_build_constructor_decls(s, i + 1, dt)->Ok_0);
        }
        Ok(rest)
    }
}

/// Builds one top-level statement: a declaration, a definition, an
/// algebraic data type declaration, a comment, or the end-of-input
/// marker. Any other node kind fails, the error naming its rule kind and
/// source text — the fail-fast signal of a grammar/builder mismatch.
pub fn build_statement(n: &ParseNode) -> (r: Result<Statement, BuildError>)
    ensures
        match (r, sp_build_statement(n.deep_view())) {
            (Ok(st), Ok(sst)) => st.deep_view() == sst,
            (Err(e), Err(se)) => e.deep_view() == se,
            _ => false,
        },
{
    broadcast use lemma_deep_view_patterns, lemma_deep_view_nodes, lemma_node_view;

    match n.rule {
        Rule::ConstDeclaration => {
            if n.children.len() >= 2 {
                let name = n.children[0].text.clone();
                let ty = build_type(&n.children[1])?;
                Ok(Statement::Declaration { name, ty })
            } else {
                Err(BuildError { rule: n.rule, text: n.text.clone() })
            }
        },
        Rule::TypeDeclaration => build_type_declaration(n),
        Rule::Definition => {
            if n.children.len() >= 3 {
                let name = n.children[0].text.clone();
                let args = build_patterns(&n.children[1].children, 0)?;
                let body = build_body(&n.children[2])?;
                Ok(Statement::Definition { name, args, body })
            } else {
                Err(BuildError { rule: n.rule, text: n.text.clone() })
            }
        },
        Rule::Comment => Ok(Statement::Comment(n.text.clone())),
        Rule::Eoi => Ok(Statement::Comment(String::from_str("End of Input"))),
        _ => Err(BuildError { rule: n.rule, text: n.text.clone() }),
    }
}

/// Builds the statements the top-level nodes from position `i` on
/// denote.
fn build_statements(ns: &Vec<ParseNode>, i: usize) -> (r: Result<Vec<Statement>, BuildError>)
    requires
        i <= ns.len(),
    ensures
        match (r, sp_build_program(deep_view_nodes(*ns), i as int)) {
            (Ok(ss), Ok(sss)) => ss.deep_view() == sss,
            (Err(e), Err(se)) => e.deep_view() == se,
            _ => false,
        },
    decreases ns.len() - i,
{
    broadcast use lemma_deep_view_nodes, lemma_node_view;

    if i == ns.len() {
        let empty: Vec<Statement> = Vec::new();
        proof {
            assert(empty.deep_view() =~= Seq::<SpecStatement>::empty());
        }
        Ok(empty)
    } else {
        let st = build_statement(&ns[i])?;
        let mut rest = build_statements(ns, i + 1)?;
        rest.insert(0, st);
        proof {
            let s = deep_view_nodes(*ns);
            assert(rest.deep_view() =~= seq![sp_build_statement(s[i as int])->Ok_0]
                + sp_build_program(s, i + 1)->Ok_0);
        }
        Ok(rest)
    }
}

/// Builds the program the top-level parse-tree nodes denote: one
/// statement per node, in order. On any node kind it has no mapping for
/// it fails with the offending node's rule kind and source text — the
/// fail-fast signal of a grammar/builder mismatch.
pub fn build_ast(nodes: &Vec<ParseNode>) -> (r: Result<Program, BuildError>)
    ensures
        match (r, sp_build_program(deep_view_nodes(*nodes), 0)) {
            (Ok(p), Ok(sp)) => p.deep_view() == sp,
            (Err(e), Err(se)) => e.deep_view() == se,
            _ => false,
        },
{
    let statements = build_statements(nodes, 0)?;
    Ok(Program { statements })
}

} // verus!
