//! The abstract syntax model: programs, statements, types, patterns,
//! bodies and expressions, together with their mathematical models.
//!
//! Every executable type has a spec-level model reached through
//! `deep_view()`; contracts of the builder and the analyzer are stated
//! over those models.

use vstd::prelude::*;

verus! {

/// A type expression of the surface language.
#[derive(Debug, PartialEq)]
pub enum TypeExpr {
    Int,
    Float,
    Char,
    Bool,
    List(Box<TypeExpr>),
    /// Parameter types followed by the return type, flattened to one
    /// sequence; never constructed with fewer than two elements.
    Func(Vec<TypeExpr>),
    CustomType(String),
    Generic(String),
}

/// The mathematical model of a `TypeExpr`.
pub enum SpecTypeExpr {
    Int,
    Float,
    Char,
    Bool,
    List(Box<SpecTypeExpr>),
    Func(Seq<SpecTypeExpr>),
    CustomType(Seq<char>),
    Generic(Seq<char>),
}

/// The models of the elements of a sequence of type expressions.
pub open spec fn deep_view_types(ts: Vec<TypeExpr>) -> Seq<SpecTypeExpr>
    decreases ts,
{
    Seq::new(
        ts.len() as nat,
        |i: int|
            if 0 <= i < ts.len() {
                ts[i].deep_view()
            } else {
                SpecTypeExpr::Int
            },
    )
}

impl DeepView for TypeExpr {
    type V = SpecTypeExpr;

    open spec fn deep_view(&self) -> SpecTypeExpr
        decreases self,
    {
        match self {
            TypeExpr::Int => SpecTypeExpr::Int,
            TypeExpr::Float => SpecTypeExpr::Float,
            TypeExpr::Char => SpecTypeExpr::Char,
            TypeExpr::Bool => SpecTypeExpr::Bool,
            TypeExpr::List(t) => SpecTypeExpr::List(Box::new((**t).deep_view())),
            TypeExpr::Func(ts) => SpecTypeExpr::Func(deep_view_types(*ts)),
            TypeExpr::CustomType(s) => SpecTypeExpr::CustomType(s.deep_view()),
            TypeExpr::Generic(s) => SpecTypeExpr::Generic(s.deep_view()),
        }
    }
}

/// A literal value: an integer, a decimal kept as its literal text, a
/// boolean, or a list whose elements are arbitrary expressions.
#[derive(Debug, PartialEq)]
pub enum Literal {
    Integer(i64),
    /// The decimal's source text; the front end never computes with the
    /// value, so the text is carried as written.
    Decimal(String),
    Bool(bool),
    List(Vec<Expression>),
}

/// An expression: a literal, an identifier, or one uniform application
/// node covering prefix application, infix operators and composition.
#[derive(Debug, PartialEq)]
pub enum Expression {
    Literal(Literal),
    Ident(String),
    FuncCall { function: String, args: Vec<Expression> },
}

/// The mathematical model of a `Literal`.
pub enum SpecLiteral {
    Integer(i64),
    Decimal(Seq<char>),
    Bool(bool),
    List(Seq<SpecExpression>),
}

/// The mathematical model of an `Expression`.
pub enum SpecExpression {
    Literal(SpecLiteral),
    Ident(Seq<char>),
    FuncCall { function: Seq<char>, args: Seq<SpecExpression> },
}

/// The models of the elements of a sequence of expressions.
pub open spec fn deep_view_exprs(es: Vec<Expression>) -> Seq<SpecExpression>
    decreases es,
{
    Seq::new(
        es.len() as nat,
        |i: int|
            if 0 <= i < es.len() {
                es[i].deep_view()
            } else {
                SpecExpression::Ident(Seq::empty())
            },
    )
}

impl DeepView for Literal {
    type V = SpecLiteral;

    open spec fn deep_view(&self) -> SpecLiteral
        decreases self,
    {
        match self {
            Literal::Integer(i) => SpecLiteral::Integer(*i),
            Literal::Decimal(s) => SpecLiteral::Decimal(s.deep_view()),
            Literal::Bool(b) => SpecLiteral::Bool(*b),
            Literal::List(es) => SpecLiteral::List(deep_view_exprs(*es)),
        }
    }
}

impl DeepView for Expression {
    type V = SpecExpression;

    open spec fn deep_view(&self) -> SpecExpression
        decreases self,
    {
        match self {
            Expression::Literal(l) => SpecExpression::Literal(l.deep_view()),
            Expression::Ident(s) => SpecExpression::Ident(s.deep_view()),
            Expression::FuncCall { function, args } => SpecExpression::FuncCall {
                function: function.deep_view(),
                args: deep_view_exprs(*args),
            },
        }
    }
}

/// An argument pattern of a definition.
#[derive(Debug, PartialEq)]
pub enum Pattern {
    Ident(String),
    Literal(Literal),
    Wildcard,
    Constructor { name: String, args: Vec<Pattern> },
}

/// The mathematical model of a `Pattern`.
pub enum SpecPattern {
    Ident(Seq<char>),
    Literal(SpecLiteral),
    Wildcard,
    Constructor { name: Seq<char>, args: Seq<SpecPattern> },
}

/// The models of the elements of a sequence of patterns.
pub open spec fn deep_view_patterns(ps: Vec<Pattern>) -> Seq<SpecPattern>
    decreases ps,
{
    Seq::new(
        ps.len() as nat,
        |i: int|
            if 0 <= i < ps.len() {
                ps[i].deep_view()
            } else {
                SpecPattern::Wildcard
            },
    )
}

impl DeepView for Pattern {
    type V = SpecPattern;

    open spec fn deep_view(&self) -> SpecPattern
        decreases self,
    {
        match self {
            Pattern::Ident(s) => SpecPattern::Ident(s.deep_view()),
            Pattern::Literal(l) => SpecPattern::Literal(l.deep_view()),
            Pattern::Wildcard => SpecPattern::Wildcard,
            Pattern::Constructor { name, args } => SpecPattern::Constructor {
                name: name.deep_view(),
                args: deep_view_patterns(*args),
            },
        }
    }
}

/// One conditional right-hand side: a boolean condition and the result
/// produced when it holds. The `otherwise` fallback is normalized to a
/// boolean-true condition before it reaches this type.
#[derive(Debug, PartialEq)]
pub struct Guard {
    pub condition: Expression,
    pub result: Expression,
}

/// The mathematical model of a `Guard`.
pub struct SpecGuard {
    pub condition: SpecExpression,
    pub result: SpecExpression,
}

impl DeepView for Guard {
    type V = SpecGuard;

    open spec fn deep_view(&self) -> SpecGuard {
        SpecGuard { condition: self.condition.deep_view(), result: self.result.deep_view() }
    }
}

/// The right-hand side of one definition equation: a single expression
/// or an ordered, first-match-wins list of guards.
#[derive(Debug, PartialEq)]
pub enum Body {
    Expression(Expression),
    Guards(Vec<Guard>),
}

/// The mathematical model of a `Body`.
pub enum SpecBody {
    Expression(SpecExpression),
    Guards(Seq<SpecGuard>),
}

impl DeepView for Body {
    type V = SpecBody;

    open spec fn deep_view(&self) -> SpecBody {
        match self {
            Body::Expression(e) => SpecBody::Expression(e.deep_view()),
            Body::Guards(gs) => SpecBody::Guards(gs.deep_view()),
        }
    }
}

/// One constructor of an algebraic data type, read as a declaration:
/// its type is a function from its field types to the declared type, or
/// the bare declared type if it has no fields.
#[derive(Debug, PartialEq)]
pub struct ConstructDecl {
    pub name: String,
    pub ty: TypeExpr,
}

/// The mathematical model of a `ConstructDecl`.
pub struct SpecConstructDecl {
    pub name: Seq<char>,
    pub ty: SpecTypeExpr,
}

impl DeepView for ConstructDecl {
    type V = SpecConstructDecl;

    open spec fn deep_view(&self) -> SpecConstructDecl {
        SpecConstructDecl { name: self.name.deep_view(), ty: self.ty.deep_view() }
    }
}

/// A top-level statement.
#[derive(Debug, PartialEq)]
pub enum Statement {
    /// A standalone type signature.
    Declaration { name: String, ty: TypeExpr },
    /// One equation of a function or value.
    Definition { name: String, args: Vec<Pattern>, body: Body },
    /// An algebraic data type with its named constructors.
    TypeDeclaration { name: String, constructors: Vec<ConstructDecl> },
    /// Informational only; never takes part in symbol or type binding.
    Comment(String),
}

/// The mathematical model of a `Statement`.
pub enum SpecStatement {
    Declaration { name: Seq<char>, ty: SpecTypeExpr },
    Definition { name: Seq<char>, args: Seq<SpecPattern>, body: SpecBody },
    TypeDeclaration { name: Seq<char>, constructors: Seq<SpecConstructDecl> },
    Comment(Seq<char>),
}

impl DeepView for Statement {
    type V = SpecStatement;

    open spec fn deep_view(&self) -> SpecStatement {
        match self {
            Statement::Declaration { name, ty } => SpecStatement::Declaration {
                name: name.deep_view(),
                ty: ty.deep_view(),
            },
            Statement::Definition { name, args, body } => SpecStatement::Definition {
                name: name.deep_view(),
                args: args.deep_view(),
                body: body.deep_view(),
            },
            Statement::TypeDeclaration { name, constructors } => SpecStatement::TypeDeclaration {
                name: name.deep_view(),
                constructors: constructors.deep_view(),
            },
            Statement::Comment(s) => SpecStatement::Comment(s.deep_view()),
        }
    }
}

/// A parsed compilation unit: the ordered sequence of its statements.
#[derive(Debug, PartialEq)]
pub struct Program {
    pub statements: Vec<Statement>,
}

impl DeepView for Program {
    type V = Seq<SpecStatement>;

    open spec fn deep_view(&self) -> Seq<SpecStatement> {
        self.statements.deep_view()
    }
}

/// Clones a type expression; the copy has the same model.
#[verifier::loop_isolation(false)]
pub fn clone_type_expr(t: &TypeExpr) -> (r: TypeExpr)
    ensures
        r.deep_view() == t.deep_view(),
    decreases t,
{
    match t {
        TypeExpr::Int => TypeExpr::Int,
        TypeExpr::Float => TypeExpr::Float,
        TypeExpr::Char => TypeExpr::Char,
        TypeExpr::Bool => TypeExpr::Bool,
        TypeExpr::List(inner) => TypeExpr::List(Box::new(clone_type_expr(inner))),
        TypeExpr::Func(ts) => {
            let mut copy: Vec<TypeExpr> = Vec::new();
            let mut i: usize = 0;
            while i < ts.len()
                invariant
                    i <= ts.len(),
                    copy.len() == i,
                    forall|k: int| 0 <= k < i ==> copy[k].deep_view() == ts[k].deep_view(),
                decreases ts.len() - i,
            {
                copy.push(clone_type_expr(&ts[i]));
                i = i + 1;
            }
            proof {
                assert(deep_view_types(copy) =~= deep_view_types(*ts));
            }
            TypeExpr::Func(copy)
        },
        TypeExpr::CustomType(s) => TypeExpr::CustomType(s.clone()),
        TypeExpr::Generic(s) => TypeExpr::Generic(s.clone()),
    }
}

impl Clone for TypeExpr {
    /// The clone of a type expression has the same model.
    fn clone(&self) -> (r: TypeExpr)
        ensures
            r.deep_view() == self.deep_view(),
    {
        clone_type_expr(self)
    }
}

} // verus!
