use haskfront::ast::{Body, Expression, Literal, Pattern, Program, Statement, TypeExpr};
use haskfront::ast_analyse::{analyze_program, AnalysisError};

fn decl(name: &str, ty: TypeExpr) -> Statement {
    Statement::Declaration { name: name.to_string(), ty }
}

fn def(name: &str, args: Vec<Pattern>, body: Body) -> Statement {
    Statement::Definition { name: name.to_string(), args, body }
}

fn ident_pat(name: &str) -> Pattern {
    Pattern::Ident(name.to_string())
}

fn ident_body(name: &str) -> Body {
    Body::Expression(Expression::Ident(name.to_string()))
}

fn int_int_int() -> TypeExpr {
    TypeExpr::Func(vec![TypeExpr::Int, TypeExpr::Int, TypeExpr::Int])
}

#[test]
fn declaration_then_definition_binds_locals_positionally() {
    // f :: Int -> Int -> Int ; f x y = x
    let program = Program {
        statements: vec![
            decl("f", int_int_int()),
            def("f", vec![ident_pat("x"), ident_pat("y")], ident_body("x")),
        ],
    };
    let (sym_tab, _class_tab, _typ_tab) = analyze_program(program).unwrap();
    let f = sym_tab.get(&"f".to_string()).unwrap();
    assert_eq!(f.ty, int_int_int());
    assert!(f.explicit);
    assert_eq!(f.instances.len(), 1);
    let inst = &f.instances[0];
    assert_eq!(inst.args, vec![ident_pat("x"), ident_pat("y")]);
    assert_eq!(inst.body, ident_body("x"));
    let x = inst.local.get(&"x".to_string()).unwrap();
    assert_eq!(x.ty, TypeExpr::Int);
    assert!(x.instances.is_empty());
    let y = inst.local.get(&"y".to_string()).unwrap();
    assert_eq!(y.ty, TypeExpr::Int);
    assert!(inst.local.get(&"z".to_string()).is_none());
}

#[test]
fn duplicate_declaration_fails_on_the_second() {
    // f :: Int declared twice
    let program = Program {
        statements: vec![decl("f", TypeExpr::Int), decl("f", TypeExpr::Int)],
    };
    let err = analyze_program(program).unwrap_err();
    assert_eq!(err, AnalysisError::DuplicateDeclaration { name: "f".to_string() });
}

#[test]
fn duplicate_declaration_leaves_first_entry_as_declared() {
    // the second declaration fails even with another type; a fresh run
    // with only the first declaration still sees its original type
    let failing = Program {
        statements: vec![decl("f", TypeExpr::Int), decl("f", TypeExpr::Bool)],
    };
    let err = analyze_program(failing).unwrap_err();
    assert_eq!(err, AnalysisError::DuplicateDeclaration { name: "f".to_string() });
    let only_first = Program { statements: vec![decl("f", TypeExpr::Int)] };
    let (sym_tab, _, _) = analyze_program(only_first).unwrap();
    assert_eq!(sym_tab.get(&"f".to_string()).unwrap().ty, TypeExpr::Int);
}

#[test]
fn undeclared_definition_fails() {
    // g x = x with no prior declaration of g
    let program = Program {
        statements: vec![def("g", vec![ident_pat("x")], ident_body("x"))],
    };
    let err = analyze_program(program).unwrap_err();
    assert_eq!(err, AnalysisError::UndeclaredSymbol { name: "g".to_string() });
}

#[test]
fn arity_mismatch_fails() {
    // h :: Int -> Int -> Int ; h x = x (one argument, two expected)
    let program = Program {
        statements: vec![
            decl("h", int_int_int()),
            def("h", vec![ident_pat("x")], ident_body("x")),
        ],
    };
    let err = analyze_program(program).unwrap_err();
    assert_eq!(err, AnalysisError::ArityMismatch { name: "h".to_string() });
}

#[test]
fn two_equations_accumulate_two_instances_in_order() {
    let program = Program {
        statements: vec![
            decl("f", int_int_int()),
            def("f", vec![ident_pat("x"), ident_pat("y")], ident_body("x")),
            def(
                "f",
                vec![Pattern::Wildcard, Pattern::Wildcard],
                Body::Expression(Expression::Literal(Literal::Integer(1))),
            ),
        ],
    };
    let (sym_tab, _, _) = analyze_program(program).unwrap();
    let f = sym_tab.get(&"f".to_string()).unwrap();
    assert_eq!(f.instances.len(), 2);
    assert_eq!(f.instances[0].args, vec![ident_pat("x"), ident_pat("y")]);
    assert_eq!(f.instances[0].body, ident_body("x"));
    assert_eq!(f.instances[1].args, vec![Pattern::Wildcard, Pattern::Wildcard]);
    assert_eq!(
        f.instances[1].body,
        Body::Expression(Expression::Literal(Literal::Integer(1)))
    );
}

#[test]
fn rerunning_analysis_yields_identical_tables() {
    let make = || Program {
        statements: vec![
            decl("f", int_int_int()),
            def("f", vec![ident_pat("x"), ident_pat("y")], ident_body("x")),
            decl("c", TypeExpr::Bool),
            Statement::Comment("-- note".to_string()),
        ],
    };
    let first = analyze_program(make()).unwrap();
    let second = analyze_program(make()).unwrap();
    assert_eq!(first, second);
}

#[test]
fn non_function_declared_type_checks_no_arity() {
    // f :: Int ; f x = x — no function type, so no arity check and an
    // empty local scope
    let program = Program {
        statements: vec![
            decl("f", TypeExpr::Int),
            def("f", vec![ident_pat("x")], ident_body("x")),
        ],
    };
    let (sym_tab, _, _) = analyze_program(program).unwrap();
    let f = sym_tab.get(&"f".to_string()).unwrap();
    assert_eq!(f.instances.len(), 1);
    assert!(f.instances[0].local.get(&"x".to_string()).is_none());
}

#[test]
fn only_identifier_patterns_bind_into_the_local_scope() {
    // f :: Int -> Int -> Int ; f _ y = y — the wildcard binds nothing
    let program = Program {
        statements: vec![
            decl("f", int_int_int()),
            def("f", vec![Pattern::Wildcard, ident_pat("y")], ident_body("y")),
        ],
    };
    let (sym_tab, _, _) = analyze_program(program).unwrap();
    let f = sym_tab.get(&"f".to_string()).unwrap();
    let inst = &f.instances[0];
    assert!(inst.local.get(&"_".to_string()).is_none());
    assert_eq!(inst.local.get(&"y".to_string()).unwrap().ty, TypeExpr::Int);
}

#[test]
fn repeated_parameter_name_keeps_the_later_binding() {
    // f :: Int -> Bool -> Int ; f x x = x — the second x shadows the first
    let program = Program {
        statements: vec![
            decl(
                "f",
                TypeExpr::Func(vec![TypeExpr::Int, TypeExpr::Bool, TypeExpr::Int]),
            ),
            def("f", vec![ident_pat("x"), ident_pat("x")], ident_body("x")),
        ],
    };
    let (sym_tab, _, _) = analyze_program(program).unwrap();
    let f = sym_tab.get(&"f".to_string()).unwrap();
    assert_eq!(
        f.instances[0].local.get(&"x".to_string()).unwrap().ty,
        TypeExpr::Bool
    );
}

#[test]
fn type_declarations_and_comments_touch_no_table() {
    let program = Program {
        statements: vec![
            Statement::TypeDeclaration { name: "Maybe".to_string(), constructors: vec![] },
            Statement::Comment("-- nothing".to_string()),
        ],
    };
    let (sym_tab, _, _) = analyze_program(program).unwrap();
    assert!(sym_tab.get(&"Maybe".to_string()).is_none());
}

#[test]
fn analysis_stops_at_the_first_error() {
    // the duplicate declaration of f comes before the undeclared g
    let program = Program {
        statements: vec![
            decl("f", TypeExpr::Int),
            decl("f", TypeExpr::Int),
            def("g", vec![], ident_body("g")),
        ],
    };
    let err = analyze_program(program).unwrap_err();
    assert_eq!(err, AnalysisError::DuplicateDeclaration { name: "f".to_string() });
}

#[test]
fn empty_program_yields_empty_tables() {
    let program = Program { statements: vec![] };
    let (sym_tab, _, _) = analyze_program(program).unwrap();
    assert!(sym_tab.get(&"f".to_string()).is_none());
}
