//! The rule-tagged parse tree that the external grammar provider hands
//! to the AST builder.
//!
//! The grammar itself is an external collaborator: something else turns
//! source text into this tree. The builder only reads the rule kind, the
//! matched text and the children of each node.

use vstd::prelude::*;

verus! {

/// The kind of grammar rule a parse-tree node was produced by.
#[derive(Debug, Clone, Copy, PartialEq, Eq, Structural)]
pub enum Rule {
    // statements
    ConstDeclaration,
    TypeDeclaration,
    Definition,
    Comment,
    /// End-of-input marker.
    Eoi,
    // definition parts
    Args,
    Expression,
    Guards,
    Guard,
    Otherwise,
    // type expressions
    IntType,
    FloatType,
    CharType,
    BoolType,
    ListType,
    FuncType,
    CustomType,
    Generic,
    // patterns
    IdentLower,
    IdentUpper,
    Wildcard,
    Constructor,
    PrefixConstructor,
    BinConstructor,
    // literals
    Literal,
    Integer,
    Decimal,
    Bool,
    TrueLiteral,
    FalseLiteral,
    List,
    // expression primaries and operators
    FuncPrefix,
    Application,
    Or,
    And,
    LessOrEqual,
    GreatOrEqual,
    Lesser,
    Greater,
    Equal,
    NotEqual,
    Cons,
    Concat,
    Add,
    Sub,
    Negative,
    Mul,
    Div,
    ExpInt,
    ExpFloat,
    ExpFrac,
    Composition,
    Indexing,
}

/// One node of the parse tree: its rule kind, the source text it
/// matched, and its child nodes in source order.
#[derive(Debug, PartialEq)]
pub struct ParseNode {
    pub rule: Rule,
    pub text: String,
    pub children: Vec<ParseNode>,
}

/// The mathematical model of a `ParseNode`.
pub struct SpecParseNode {
    pub rule: Rule,
    pub text: Seq<char>,
    pub children: Seq<SpecParseNode>,
}

/// The models of the elements of a sequence of parse-tree nodes.
pub open spec fn deep_view_nodes(ns: Vec<ParseNode>) -> Seq<SpecParseNode>
    decreases ns,
{
    Seq::new(
        ns.len() as nat,
        |i: int|
            if 0 <= i < ns.len() {
                ns[i].deep_view()
            } else {
                SpecParseNode { rule: Rule::Eoi, text: Seq::empty(), children: Seq::empty() }
            },
    )
}

impl DeepView for ParseNode {
    type V = SpecParseNode;

    open spec fn deep_view(&self) -> SpecParseNode
        decreases self,
    {
        SpecParseNode {
            rule: self.rule,
            text: self.text.deep_view(),
            children: deep_view_nodes(self.children),
        }
    }
}

} // verus!
