use haskfront::ast::{Body, ConstructDecl, Expression, Literal, Pattern, Statement, TypeExpr};
use haskfront::ast_build::{build_ast, build_literal, build_pattern, build_statement, build_type};
use haskfront::parse_tree::{ParseNode, Rule};

fn node(rule: Rule, text: &str, children: Vec<ParseNode>) -> ParseNode {
    ParseNode { rule, text: text.to_string(), children }
}

fn int_lit(s: &str) -> ParseNode {
    node(Rule::Literal, s, vec![node(Rule::Integer, s, vec![])])
}

#[test]
fn primitive_types_map_directly() {
    assert_eq!(build_type(&node(Rule::IntType, "Int", vec![])).unwrap(), TypeExpr::Int);
    assert_eq!(build_type(&node(Rule::FloatType, "Float", vec![])).unwrap(), TypeExpr::Float);
    assert_eq!(build_type(&node(Rule::CharType, "Char", vec![])).unwrap(), TypeExpr::Char);
    assert_eq!(build_type(&node(Rule::BoolType, "Bool", vec![])).unwrap(), TypeExpr::Bool);
}

#[test]
fn function_type_flattens_chain() {
    let t = node(
        Rule::FuncType,
        "Int -> Bool -> Int",
        vec![
            node(Rule::IntType, "Int", vec![]),
            node(Rule::BoolType, "Bool", vec![]),
            node(Rule::IntType, "Int", vec![]),
        ],
    );
    assert_eq!(
        build_type(&t).unwrap(),
        TypeExpr::Func(vec![TypeExpr::Int, TypeExpr::Bool, TypeExpr::Int])
    );
}

#[test]
fn length_one_function_type_collapses() {
    let t = node(Rule::FuncType, "Int", vec![node(Rule::IntType, "Int", vec![])]);
    assert_eq!(build_type(&t).unwrap(), TypeExpr::Int);
}

#[test]
fn list_custom_and_generic_types() {
    let t = node(Rule::ListType, "[Int]", vec![node(Rule::IntType, "Int", vec![])]);
    assert_eq!(build_type(&t).unwrap(), TypeExpr::List(Box::new(TypeExpr::Int)));
    let c = node(Rule::CustomType, "Maybe", vec![]);
    assert_eq!(build_type(&c).unwrap(), TypeExpr::CustomType("Maybe".to_string()));
    let g = node(Rule::Generic, "a", vec![]);
    assert_eq!(build_type(&g).unwrap(), TypeExpr::Generic("a".to_string()));
}

#[test]
fn unknown_type_node_reports_rule_and_text() {
    let err = build_type(&node(Rule::Comment, "-- x", vec![])).unwrap_err();
    assert_eq!(err.rule, Rule::Comment);
    assert_eq!(err.text, "-- x".to_string());
}

#[test]
fn integer_literal_parses_its_text() {
    let l = build_literal(&node(Rule::Integer, "42", vec![])).unwrap();
    assert_eq!(l, Literal::Integer(42));
}

#[test]
fn largest_integer_literal_parses() {
    let l = build_literal(&node(Rule::Integer, "9223372036854775807", vec![])).unwrap();
    assert_eq!(l, Literal::Integer(i64::MAX));
}

#[test]
fn out_of_range_integer_literal_is_an_error() {
    let err = build_literal(&node(Rule::Integer, "9223372036854775808", vec![])).unwrap_err();
    assert_eq!(err.rule, Rule::Integer);
    assert_eq!(err.text, "9223372036854775808".to_string());
    assert!(build_literal(&node(Rule::Integer, "99999999999999999999999999", vec![])).is_err());
}

#[test]
fn non_digit_integer_literal_is_an_error() {
    assert!(build_literal(&node(Rule::Integer, "12a", vec![])).is_err());
    assert!(build_literal(&node(Rule::Integer, "", vec![])).is_err());
}

#[test]
fn decimal_literal_keeps_its_text() {
    let l = build_literal(&node(Rule::Decimal, "3.25", vec![])).unwrap();
    assert_eq!(l, Literal::Decimal("3.25".to_string()));
}

#[test]
fn boolean_literals_resolve_through_sub_rule() {
    let t = node(Rule::Bool, "True", vec![node(Rule::TrueLiteral, "True", vec![])]);
    assert_eq!(build_literal(&t).unwrap(), Literal::Bool(true));
    let f = node(Rule::Bool, "False", vec![node(Rule::FalseLiteral, "False", vec![])]);
    assert_eq!(build_literal(&f).unwrap(), Literal::Bool(false));
}

#[test]
fn list_literal_elements_are_full_expressions() {
    // [1, 2 + 3]
    let sum = node(
        Rule::Expression,
        "2 + 3",
        vec![int_lit("2"), node(Rule::Add, "+", vec![]), int_lit("3")],
    );
    let one = node(Rule::Expression, "1", vec![int_lit("1")]);
    let l = build_literal(&node(Rule::List, "[1, 2 + 3]", vec![one, sum])).unwrap();
    assert_eq!(
        l,
        Literal::List(vec![
            Expression::Literal(Literal::Integer(1)),
            Expression::FuncCall {
                function: "+".to_string(),
                args: vec![
                    Expression::Literal(Literal::Integer(2)),
                    Expression::Literal(Literal::Integer(3))
                ],
            },
        ])
    );
}

#[test]
fn ident_wildcard_and_literal_patterns() {
    assert_eq!(
        build_pattern(&node(Rule::IdentLower, "x", vec![])).unwrap(),
        Pattern::Ident("x".to_string())
    );
    assert_eq!(build_pattern(&node(Rule::Wildcard, "_", vec![])).unwrap(), Pattern::Wildcard);
    let lit = node(Rule::Literal, "0", vec![node(Rule::Integer, "0", vec![])]);
    assert_eq!(build_pattern(&lit).unwrap(), Pattern::Literal(Literal::Integer(0)));
}

#[test]
fn prefix_constructor_pattern() {
    // "Just x"
    let c = node(
        Rule::Constructor,
        "Just x",
        vec![node(
            Rule::PrefixConstructor,
            "Just x",
            vec![
                node(Rule::IdentUpper, "Just", vec![]),
                node(Rule::IdentLower, "x", vec![]),
            ],
        )],
    );
    assert_eq!(
        build_pattern(&c).unwrap(),
        Pattern::Constructor {
            name: "Just".to_string(),
            args: vec![Pattern::Ident("x".to_string())],
        }
    );
}

#[test]
fn binary_constructor_pattern() {
    // cons-style "x :Cons: xs"
    let c = node(
        Rule::Constructor,
        "x :Cons: xs",
        vec![node(
            Rule::BinConstructor,
            "x :Cons: xs",
            vec![
                node(Rule::IdentLower, "x", vec![]),
                node(Rule::IdentUpper, "Cons", vec![]),
                node(Rule::IdentLower, "xs", vec![]),
            ],
        )],
    );
    assert_eq!(
        build_pattern(&c).unwrap(),
        Pattern::Constructor {
            name: "Cons".to_string(),
            args: vec![
                Pattern::Ident("x".to_string()),
                Pattern::Ident("xs".to_string())
            ],
        }
    );
}

#[test]
fn declaration_statement() {
    let st = node(
        Rule::ConstDeclaration,
        "f :: Int",
        vec![
            node(Rule::IdentLower, "f", vec![]),
            node(Rule::FuncType, "Int", vec![node(Rule::IntType, "Int", vec![])]),
        ],
    );
    assert_eq!(
        build_statement(&st).unwrap(),
        Statement::Declaration { name: "f".to_string(), ty: TypeExpr::Int }
    );
}

#[test]
fn definition_statement_with_guards_normalizes_otherwise() {
    // f x | x < 0 = 0
    //     | otherwise = x
    let cond = node(
        Rule::Expression,
        "x < 0",
        vec![
            node(Rule::IdentLower, "x", vec![]),
            node(Rule::Lesser, "<", vec![]),
            int_lit("0"),
        ],
    );
    let zero = node(Rule::Expression, "0", vec![int_lit("0")]);
    let x = node(Rule::Expression, "x", vec![node(Rule::IdentLower, "x", vec![])]);
    let g1 = node(Rule::Guard, "| x < 0 = 0", vec![cond, zero]);
    let g2 = node(
        Rule::Guard,
        "| otherwise = x",
        vec![node(Rule::Otherwise, "otherwise", vec![]), x],
    );
    let st = node(
        Rule::Definition,
        "f x | ...",
        vec![
            node(Rule::IdentLower, "f", vec![]),
            node(Rule::Args, "x", vec![node(Rule::IdentLower, "x", vec![])]),
            node(Rule::Guards, "| ...", vec![g1, g2]),
        ],
    );
    let built = build_statement(&st).unwrap();
    match built {
        Statement::Definition { name, args, body } => {
            assert_eq!(name, "f".to_string());
            assert_eq!(args, vec![Pattern::Ident("x".to_string())]);
            match body {
                Body::Guards(gs) => {
                    assert_eq!(gs.len(), 2);
                    assert_eq!(gs[1].condition, Expression::Literal(Literal::Bool(true)));
                    assert_eq!(gs[1].result, Expression::Ident("x".to_string()));
                },
                _ => panic!("expected guards"),
            }
        },
        _ => panic!("expected a definition"),
    }
}

#[test]
fn comment_and_end_of_input_statements() {
    let c = node(Rule::Comment, "-- hi", vec![]);
    assert_eq!(
        build_statement(&c).unwrap(),
        Statement::Comment("-- hi".to_string())
    );
    let e = node(Rule::Eoi, "", vec![]);
    assert_eq!(
        build_statement(&e).unwrap(),
        Statement::Comment("End of Input".to_string())
    );
}

#[test]
fn unknown_statement_node_reports_rule_and_text() {
    let err = build_statement(&node(Rule::Add, "+", vec![])).unwrap_err();
    assert_eq!(err.rule, Rule::Add);
    assert_eq!(err.text, "+".to_string());
}

#[test]
fn unknown_pattern_node_reports_rule_and_text() {
    let err = build_pattern(&node(Rule::Guards, "| x", vec![])).unwrap_err();
    assert_eq!(err.rule, Rule::Guards);
    assert_eq!(err.text, "| x".to_string());
}

#[test]
fn propagated_error_names_the_failing_inner_node() {
    // a declaration whose type sub-tree holds an unrecognized node:
    // the diagnostic names that inner node, not the statement
    let st = node(
        Rule::ConstDeclaration,
        "f :: ???",
        vec![
            node(Rule::IdentLower, "f", vec![]),
            node(
                Rule::FuncType,
                "???",
                vec![node(Rule::Wildcard, "???", vec![])],
            ),
        ],
    );
    let err = build_statement(&st).unwrap_err();
    assert_eq!(err.rule, Rule::Wildcard);
    assert_eq!(err.text, "???".to_string());
}

#[test]
fn type_declaration_builds_constructor_declarations() {
    // data Maybe = Nothing | Just a
    let st = node(
        Rule::TypeDeclaration,
        "data Maybe = Nothing | Just a",
        vec![
            node(Rule::IdentUpper, "Maybe", vec![]),
            node(Rule::Constructor, "Nothing", vec![node(Rule::IdentUpper, "Nothing", vec![])]),
            node(
                Rule::Constructor,
                "Just a",
                vec![
                    node(Rule::IdentUpper, "Just", vec![]),
                    node(Rule::Generic, "a", vec![]),
                ],
            ),
        ],
    );
    let built = build_statement(&st).unwrap();
    assert_eq!(
        built,
        Statement::TypeDeclaration {
            name: "Maybe".to_string(),
            constructors: vec![
                ConstructDecl {
                    name: "Nothing".to_string(),
                    ty: TypeExpr::CustomType("Maybe".to_string()),
                },
                ConstructDecl {
                    name: "Just".to_string(),
                    ty: TypeExpr::Func(vec![
                        TypeExpr::Generic("a".to_string()),
                        TypeExpr::CustomType("Maybe".to_string()),
                    ]),
                },
            ],
        }
    );
}

#[test]
fn build_ast_maps_each_node_to_one_statement() {
    let decl = node(
        Rule::ConstDeclaration,
        "f :: Int",
        vec![
            node(Rule::IdentLower, "f", vec![]),
            node(Rule::FuncType, "Int", vec![node(Rule::IntType, "Int", vec![])]),
        ],
    );
    let comment = node(Rule::Comment, "-- done", vec![]);
    let eoi = node(Rule::Eoi, "", vec![]);
    let program = build_ast(&vec![decl, comment, eoi]).unwrap();
    assert_eq!(program.statements.len(), 3);
    assert_eq!(
        program.statements[0],
        Statement::Declaration { name: "f".to_string(), ty: TypeExpr::Int }
    );
    assert_eq!(program.statements[1], Statement::Comment("-- done".to_string()));
    assert_eq!(program.statements[2], Statement::Comment("End of Input".to_string()));
}

#[test]
fn empty_parse_tree_builds_an_empty_program() {
    let program = build_ast(&vec![]).unwrap();
    assert!(program.statements.is_empty());
}
