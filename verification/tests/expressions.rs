use haskfront::ast::{Expression, Literal};
use haskfront::ast_build::build_expression;
use haskfront::parse_tree::{ParseNode, Rule};
use haskfront::precedence::{resolve_tokens, ExprToken};

fn node(rule: Rule, text: &str, children: Vec<ParseNode>) -> ParseNode {
    ParseNode { rule, text: text.to_string(), children }
}

fn int_lit(s: &str) -> ParseNode {
    node(Rule::Literal, s, vec![node(Rule::Integer, s, vec![])])
}

fn int_expr(v: i64) -> Expression {
    Expression::Literal(Literal::Integer(v))
}

fn call(f: &str, args: Vec<Expression>) -> Expression {
    Expression::FuncCall { function: f.to_string(), args }
}

#[test]
fn precedence_multiplication_inner() {
    // "1 + 2 * 3": multiplication is the inner node
    let e = node(
        Rule::Expression,
        "1 + 2 * 3",
        vec![
            int_lit("1"),
            node(Rule::Add, "+", vec![]),
            int_lit("2"),
            node(Rule::Mul, "*", vec![]),
            int_lit("3"),
        ],
    );
    let built = build_expression(&e).unwrap();
    assert_eq!(
        built,
        call("+", vec![int_expr(1), call("*", vec![int_expr(2), int_expr(3)])])
    );
}

#[test]
fn left_associativity_subtraction() {
    // "1 - 2 - 3" parses as (1 - 2) - 3
    let e = node(
        Rule::Expression,
        "1 - 2 - 3",
        vec![
            int_lit("1"),
            node(Rule::Sub, "-", vec![]),
            int_lit("2"),
            node(Rule::Sub, "-", vec![]),
            int_lit("3"),
        ],
    );
    let built = build_expression(&e).unwrap();
    assert_eq!(
        built,
        call("-", vec![call("-", vec![int_expr(1), int_expr(2)]), int_expr(3)])
    );
}

#[test]
fn negation_binds_looser_than_multiplication() {
    // "-1 * 2" resolves as -(1 * 2)
    let e = node(
        Rule::Expression,
        "-1 * 2",
        vec![
            node(Rule::Negative, "-", vec![]),
            int_lit("1"),
            node(Rule::Mul, "*", vec![]),
            int_lit("2"),
        ],
    );
    let built = build_expression(&e).unwrap();
    assert_eq!(built, call("-", vec![call("*", vec![int_expr(1), int_expr(2)])]));
}

#[test]
fn negation_binds_tighter_than_addition() {
    // "-1 + 2" resolves as (-1) + 2
    let e = node(
        Rule::Expression,
        "-1 + 2",
        vec![
            node(Rule::Negative, "-", vec![]),
            int_lit("1"),
            node(Rule::Add, "+", vec![]),
            int_lit("2"),
        ],
    );
    let built = build_expression(&e).unwrap();
    assert_eq!(built, call("+", vec![call("-", vec![int_expr(1)]), int_expr(2)]));
}

#[test]
fn comparison_tier_is_left_associative() {
    // "1 < 2 == 3": one tier, left to right
    let e = node(
        Rule::Expression,
        "1 < 2 == 3",
        vec![
            int_lit("1"),
            node(Rule::Lesser, "<", vec![]),
            int_lit("2"),
            node(Rule::Equal, "==", vec![]),
            int_lit("3"),
        ],
    );
    let built = build_expression(&e).unwrap();
    assert_eq!(
        built,
        call("==", vec![call("<", vec![int_expr(1), int_expr(2)]), int_expr(3)])
    );
}

#[test]
fn application_is_loosest() {
    // "f $ 1 + 2" applies f to the whole sum
    let e = node(
        Rule::Expression,
        "f $ 1 + 2",
        vec![
            node(Rule::IdentLower, "f", vec![]),
            node(Rule::Application, "$", vec![]),
            int_lit("1"),
            node(Rule::Add, "+", vec![]),
            int_lit("2"),
        ],
    );
    let built = build_expression(&e).unwrap();
    assert_eq!(
        built,
        call(
            "$",
            vec![
                Expression::Ident("f".to_string()),
                call("+", vec![int_expr(1), int_expr(2)])
            ]
        )
    );
}

#[test]
fn prefix_function_call_primary() {
    // "f x 2" as a prefix call primary
    let e = node(
        Rule::Expression,
        "f x 2",
        vec![node(
            Rule::FuncPrefix,
            "f x 2",
            vec![
                node(Rule::IdentLower, "f", vec![]),
                node(Rule::IdentLower, "x", vec![]),
                int_lit("2"),
            ],
        )],
    );
    let built = build_expression(&e).unwrap();
    assert_eq!(
        built,
        call("f", vec![Expression::Ident("x".to_string()), int_expr(2)])
    );
}

#[test]
fn parenthesized_operand_changes_grouping() {
    // "(1 + 2) * 3": the parenthesized sum is one operand
    let inner = node(
        Rule::Expression,
        "1 + 2",
        vec![int_lit("1"), node(Rule::Add, "+", vec![]), int_lit("2")],
    );
    let e = node(
        Rule::Expression,
        "(1 + 2) * 3",
        vec![inner, node(Rule::Mul, "*", vec![]), int_lit("3")],
    );
    let built = build_expression(&e).unwrap();
    assert_eq!(
        built,
        call("*", vec![call("+", vec![int_expr(1), int_expr(2)]), int_expr(3)])
    );
}

#[test]
fn resolve_tokens_single_operand() {
    let toks = vec![ExprToken::Operand(int_expr(7))];
    assert_eq!(resolve_tokens(toks), Some(int_expr(7)));
}

#[test]
fn resolve_tokens_rejects_adjacent_operands() {
    let toks = vec![ExprToken::Operand(int_expr(1)), ExprToken::Operand(int_expr(2))];
    assert_eq!(resolve_tokens(toks), None);
}

#[test]
fn resolve_tokens_rejects_trailing_operator() {
    let toks = vec![
        ExprToken::Operand(int_expr(1)),
        ExprToken::Infix(Rule::Add, "+".to_string()),
    ];
    assert_eq!(resolve_tokens(toks), None);
}

#[test]
fn resolve_tokens_rejects_empty_sequence() {
    assert_eq!(resolve_tokens(Vec::new()), None);
}

#[test]
fn double_negation() {
    // "- - 1" resolves as -(-1)
    let toks = vec![
        ExprToken::Prefix("-".to_string()),
        ExprToken::Prefix("-".to_string()),
        ExprToken::Operand(int_expr(1)),
    ];
    assert_eq!(
        resolve_tokens(toks),
        Some(call("-", vec![call("-", vec![int_expr(1)])]))
    );
}

#[test]
fn malformed_expression_node_reports_error() {
    // a wildcard node is no expression token
    let e = node(
        Rule::Expression,
        "_",
        vec![node(Rule::Wildcard, "_", vec![])],
    );
    let err = build_expression(&e).unwrap_err();
    assert_eq!(err.rule, Rule::Wildcard);
    assert_eq!(err.text, "_".to_string());
}

#[test]
fn all_tiers_nest_tighter_to_the_right() {
    // "a $ b || c && d < e : f + g * h ^ i . j": each operator binds
    // tighter than the one before it, so the tree nests to the right
    // and the in-order reading keeps the original order
    let names = ["a", "b", "c", "d", "e", "f", "g", "h", "i", "j"];
    let ops = [
        (Rule::Application, "$"),
        (Rule::Or, "||"),
        (Rule::And, "&&"),
        (Rule::Lesser, "<"),
        (Rule::Cons, ":"),
        (Rule::Add, "+"),
        (Rule::Mul, "*"),
        (Rule::ExpInt, "^"),
        (Rule::Composition, "."),
    ];
    let mut children = vec![node(Rule::IdentLower, names[0], vec![])];
    for (k, (rule, text)) in ops.iter().enumerate() {
        children.push(node(*rule, text, vec![]));
        children.push(node(Rule::IdentLower, names[k + 1], vec![]));
    }
    let e = node(Rule::Expression, "chain", children);
    let built = build_expression(&e).unwrap();
    let mut expected = Expression::Ident("j".to_string());
    for k in (0..ops.len()).rev() {
        expected = call(
            ops[k].1,
            vec![Expression::Ident(names[k].to_string()), expected],
        );
    }
    assert_eq!(built, expected);
}
