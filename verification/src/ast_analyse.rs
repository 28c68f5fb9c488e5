//! The semantic analyzer: a single forward pass over a program's
//! statements that builds the symbol table, enforcing one declaration
//! per name, definition only after declaration, and per-definition
//! arity and argument binding; it stops at the first error.
//!
//! The class and type tables are scaffolding: the pass returns them
//! empty, as an extension seam.

use vstd::prelude::*;

use crate::ast::Body;
use crate::ast::Pattern;
use crate::ast::Program;
use crate::ast::SpecBody;
use crate::ast::SpecPattern;
use crate::ast::SpecStatement;
use crate::ast::SpecTypeExpr;
use crate::ast::Statement;
use crate::ast::TypeExpr;
use crate::ast::deep_view_patterns;

verus! {

/// One named symbol: its declared type, whether the type came from an
/// explicit signature, and one instance per equation bound to it, in
/// source order.
#[derive(Debug, PartialEq)]
pub struct Symbol {
    pub ty: TypeExpr,
    pub explicit: bool,
    pub instances: Vec<Instance>,
}

/// One equation bound to a symbol: its argument patterns, its local
/// scope (parameter name to parameter type, derived positionally from
/// the symbol's function type), and its body.
#[derive(Debug, PartialEq)]
pub struct Instance {
    pub args: Vec<Pattern>,
    pub local: SymTab,
    pub body: Body,
}

/// A symbol table: insert-ordered name/symbol entries whose model is
/// the finite map they denote, a later entry for a name shadowing an
/// earlier one.
#[derive(Debug, PartialEq)]
pub struct SymTab {
    entries: Vec<(String, Symbol)>,
}

/// The mathematical model of a `Symbol`.
pub struct SpecSymbol {
    pub ty: SpecTypeExpr,
    pub explicit: bool,
    pub instances: Seq<SpecInstance>,
}

/// The mathematical model of an `Instance`.
pub struct SpecInstance {
    pub args: Seq<SpecPattern>,
    pub local: Map<Seq<char>, SpecSymbol>,
    pub body: SpecBody,
}

/// The models of the elements of a sequence of instances.
pub open spec fn deep_view_instances(is: Vec<Instance>) -> Seq<SpecInstance>
    decreases is, 0int, 0int,
{
    Seq::new(
        is.len() as nat,
        |i: int|
            if 0 <= i < is.len() {
                is[i].deep_view()
            } else {
                SpecInstance {
                    args: Seq::empty(),
                    local: Map::empty(),
                    body: SpecBody::Guards(Seq::empty()),
                }
            },
    )
}

/// The map the first `i` entries of a symbol-table entry list denote:
/// each entry inserted left to right, so a later entry for a name
/// shadows an earlier one.
pub open spec fn symtab_map_upto(es: Seq<(String, Symbol)>, i: int) -> Map<Seq<char>, SpecSymbol>
    decreases es, i, 0int,
{
    if i <= 0 || i > es.len() {
        Map::empty()
    } else {
        symtab_map_upto(es, i - 1).insert(es[i - 1].0@, es[i - 1].1.deep_view())
    }
}

impl DeepView for Symbol {
    type V = SpecSymbol;

    open spec fn deep_view(&self) -> SpecSymbol
        decreases self, 0int, 1int,
    {
        SpecSymbol {
            ty: self.ty.deep_view(),
            explicit: self.explicit,
            instances: deep_view_instances(self.instances),
        }
    }
}

impl DeepView for Instance {
    type V = SpecInstance;

    open spec fn deep_view(&self) -> SpecInstance
        decreases self, 0int, 1int,
    {
        SpecInstance {
            args: deep_view_patterns(self.args),
            local: self.local.deep_view(),
            body: self.body.deep_view(),
        }
    }
}

impl DeepView for SymTab {
    type V = Map<Seq<char>, SpecSymbol>;

    closed spec fn deep_view(&self) -> Map<Seq<char>, SpecSymbol>
        decreases self, 0int, 1int,
    {
        symtab_map_upto(self.entries@, self.entries@.len() as int)
    }
}

/// The model of a symbol, field by field.
pub broadcast proof fn lemma_symbol_view(s: Symbol)
    ensures
        (#[trigger] s.deep_view()).ty == s.ty.deep_view(),
        s.deep_view().explicit == s.explicit,
        s.deep_view().instances == deep_view_instances(s.instances),
{
}

/// The model of an instance, field by field.
pub broadcast proof fn lemma_instance_view(i: Instance)
    ensures
        (#[trigger] i.deep_view()).args == deep_view_patterns(i.args),
        i.deep_view().local == i.local.deep_view(),
        i.deep_view().body == i.body.deep_view(),
{
}

/// The sequence views agree with the element-wise model of a vector of
/// instances.
pub broadcast proof fn lemma_deep_view_instances(v: Vec<Instance>)
    ensures
        #[trigger] deep_view_instances(v) == v.deep_view(),
{
    reveal_with_fuel(deep_view_instances, 2);
    assert forall|i: int| 0 <= i < v.len() implies deep_view_instances(v)[i]
        == v.deep_view()[i] by {
        assert(deep_view_instances(v)[i] == v[i].deep_view());
        assert(v.deep_view()[i] == v[i].deep_view());
    }
    assert(deep_view_instances(v) =~= v.deep_view());
}

/// The map a prefix of an entry list denotes depends only on that
/// prefix.
proof fn lemma_symtab_map_prefix(es1: Seq<(String, Symbol)>, es2: Seq<(String, Symbol)>, i: int)
    requires
        0 <= i <= es1.len(),
        i <= es2.len(),
        forall|j: int| 0 <= j < i ==> es1[j] == es2[j],
    ensures
        symtab_map_upto(es1, i) == symtab_map_upto(es2, i),
    decreases i,
{
    if i > 0 {
        lemma_symtab_map_prefix(es1, es2, i - 1);
    }
}

/// What the map an entry list denotes holds: a key is present exactly
/// when some entry carries it, and its value comes from the last entry
/// that does.
proof fn lemma_symtab_map_char(es: Seq<(String, Symbol)>, i: int)
    requires
        0 <= i <= es.len(),
    ensures
        forall|k: Seq<char>|
            #[trigger] symtab_map_upto(es, i).dom().contains(k) <==> exists|j: int|
                0 <= j < i && (#[trigger] es[j].0)@ == k,
        forall|j: int|
            0 <= j < i && (forall|j2: int| j < j2 < i ==> (#[trigger] es[j2].0)@ != es[j].0@)
                ==> symtab_map_upto(es, i)[(#[trigger] es[j].0)@] == es[j].1.deep_view(),
    decreases i,
{
    if i > 0 {
        lemma_symtab_map_char(es, i - 1);
        let m = symtab_map_upto(es, i);
        let m0 = symtab_map_upto(es, i - 1);
        assert(m == m0.insert(es[i - 1].0@, es[i - 1].1.deep_view()));
        assert forall|k: Seq<char>| #[trigger] m.dom().contains(k) implies exists|j: int|
            0 <= j < i && (#[trigger] es[j].0)@ == k by {
            if k == es[i - 1].0@ {
                assert(0 <= i - 1 < i && (es[i - 1].0)@ == k);
            } else {
                assert(m0.dom().contains(k));
                let j0 = choose|j: int| 0 <= j < i - 1 && (#[trigger] es[j].0)@ == k;
                assert(0 <= j0 < i && (es[j0].0)@ == k);
            }
        }
        assert forall|k: Seq<char>|
            (exists|j: int| 0 <= j < i && (#[trigger] es[j].0)@ == k) implies #[trigger] m
            .dom().contains(k) by {
            let j0 = choose|j: int| 0 <= j < i && (#[trigger] es[j].0)@ == k;
            if j0 == i - 1 {
            } else {
                assert(m0.dom().contains(k));
            }
        }
        assert forall|j: int|
            0 <= j < i && (forall|j2: int|
                j < j2 < i ==> (#[trigger] es[j2].0)@ != es[j].0@) implies symtab_map_upto(
            es,
            i,
        )[(#[trigger] es[j].0)@] == es[j].1.deep_view() by {
            if j == i - 1 {
            } else {
                assert(forall|j2: int| j < j2 < i - 1 ==> (#[trigger] es[j2].0)@ != es[j].0@);
                assert(m0[es[j].0@] == es[j].1.deep_view());
                assert((es[i - 1].0)@ != es[j].0@);
            }
        }
    }
}

impl SymTab {
    /// Makes an empty table.
    pub fn new() -> (t: SymTab)
        ensures
            t.deep_view() == Map::<Seq<char>, SpecSymbol>::empty(),
    {
        SymTab { entries: Vec::new() }
    }

    /// Looks a name up: the symbol the table maps it to, or `None` when
    /// the name is unbound.
    pub fn get(&self, name: &String) -> (r: Option<&Symbol>)
        ensures
            match r {
                Some(sym) => self.deep_view().dom().contains(name@) && sym.deep_view()
                    == self.deep_view()[name@],
                None => !self.deep_view().dom().contains(name@),
            },
    {
        proof {
            lemma_symtab_map_char(self.entries@, self.entries@.len() as int);
        }
        let mut j = self.entries.len();
        while j > 0
            invariant
                j <= self.entries.len(),
                forall|j2: int|
                    j <= j2 < self.entries@.len() ==> (#[trigger] self.entries@[j2].0)@ != name@,
            decreases j,
        {
            j = j - 1;
            if self.entries[j].0 == *name {
                proof {
                    lemma_symtab_map_char(self.entries@, self.entries@.len() as int);
                }
                return Some(&self.entries[j].1);
            }
        }
        None
    }

    /// The position of the last entry carrying a name, if any entry
    /// does.
    fn index_of_last(&self, name: &String) -> (r: Option<usize>)
        ensures
            match r {
                Some(j) => j < self.entries@.len() && (self.entries@[j as int].0)@ == name@
                    && forall|j2: int|
                    j < j2 < self.entries@.len() ==> (#[trigger] self.entries@[j2].0)@ != name@,
                None => forall|j2: int|
                    0 <= j2 < self.entries@.len() ==> (#[trigger] self.entries@[j2].0)@ != name@,
            },
    {
        let mut j = self.entries.len();
        while j > 0
            invariant
                j <= self.entries.len(),
                forall|j2: int|
                    j <= j2 < self.entries@.len() ==> (#[trigger] self.entries@[j2].0)@ != name@,
            decreases j,
        {
            j = j - 1;
            if self.entries[j].0 == *name {
                return Some(j);
            }
        }
        None
    }

    /// Binds a name to a symbol: the table afterwards maps the name to
    /// it and every other name as before.
    pub fn insert(&mut self, name: String, sym: Symbol)
        ensures
            final(self).deep_view() == old(self).deep_view().insert(name@, sym.deep_view()),
    {
        let ghost es_old = self.entries@;
        self.entries.push((name, sym));
        proof {
            lemma_symtab_map_prefix(es_old, self.entries@, es_old.len() as int);
        }
    }
}

} // verus!

verus! {

/// The shape of a type-class contract: named methods with their types.
/// Scaffolding: the analysis pass never fills it.
#[derive(Debug, PartialEq)]
pub struct Class {
    pub functions: Vec<(String, TypeExpr)>,
}

/// The constructors associated with a user-declared algebraic type.
/// Scaffolding: the analysis pass never fills it.
#[derive(Debug, PartialEq)]
pub struct Type {
    pub instances: Vec<String>,
}

/// The class table: insert-ordered name/class entries. The analysis
/// pass returns it empty.
#[derive(Debug, PartialEq)]
pub struct ClassTab {
    entries: Vec<(String, Class)>,
}

/// The type table: insert-ordered name/type entries. The analysis pass
/// returns it empty.
#[derive(Debug, PartialEq)]
pub struct TypeTab {
    entries: Vec<(String, Type)>,
}

/// The mathematical model of a `Class`.
pub struct SpecClass {
    pub functions: Seq<(Seq<char>, SpecTypeExpr)>,
}

/// The mathematical model of a `Type`.
pub struct SpecType {
    pub instances: Seq<Seq<char>>,
}

impl DeepView for Class {
    type V = SpecClass;

    open spec fn deep_view(&self) -> SpecClass {
        SpecClass { functions: self.functions.deep_view() }
    }
}

impl DeepView for Type {
    type V = SpecType;

    open spec fn deep_view(&self) -> SpecType {
        SpecType { instances: self.instances.deep_view() }
    }
}

impl DeepView for ClassTab {
    type V = Seq<(Seq<char>, SpecClass)>;

    closed spec fn deep_view(&self) -> Seq<(Seq<char>, SpecClass)> {
        self.entries.deep_view()
    }
}

impl DeepView for TypeTab {
    type V = Seq<(Seq<char>, SpecType)>;

    closed spec fn deep_view(&self) -> Seq<(Seq<char>, SpecType)> {
        self.entries.deep_view()
    }
}

impl ClassTab {
    /// Makes an empty table.
    pub fn new() -> (t: ClassTab)
        ensures
            t.deep_view() == Seq::<(Seq<char>, SpecClass)>::empty(),
    {
        let t = ClassTab { entries: Vec::new() };
        proof {
            assert(t.entries.deep_view() =~= Seq::<(Seq<char>, SpecClass)>::empty());
        }
        t
    }
}

impl TypeTab {
    /// Makes an empty table.
    pub fn new() -> (t: TypeTab)
        ensures
            t.deep_view() == Seq::<(Seq<char>, SpecType)>::empty(),
    {
        let t = TypeTab { entries: Vec::new() };
        proof {
            assert(t.entries.deep_view() =~= Seq::<(Seq<char>, SpecType)>::empty());
        }
        t
    }
}

/// A semantic error; analysis stops at the first one and returns no
/// partial tables.
#[derive(Debug, PartialEq)]
pub enum AnalysisError {
    /// The name was declared more than once.
    DuplicateDeclaration { name: String },
    /// The name was defined with no prior declaration.
    UndeclaredSymbol { name: String },
    /// A definition's argument count does not match the declared
    /// function type's parameter count.
    ArityMismatch { name: String },
}

/// The mathematical model of an `AnalysisError`.
pub enum SpecAnalysisError {
    DuplicateDeclaration { name: Seq<char> },
    UndeclaredSymbol { name: Seq<char> },
    ArityMismatch { name: Seq<char> },
}

impl DeepView for AnalysisError {
    type V = SpecAnalysisError;

    open spec fn deep_view(&self) -> SpecAnalysisError {
        match self {
            AnalysisError::DuplicateDeclaration { name } => {
                SpecAnalysisError::DuplicateDeclaration { name: name@ }
            },
            AnalysisError::UndeclaredSymbol { name } => {
                SpecAnalysisError::UndeclaredSymbol { name: name@ }
            },
            AnalysisError::ArityMismatch { name } => {
                SpecAnalysisError::ArityMismatch { name: name@ }
            },
        }
    }
}

/// The local scope of one definition equation, from zipping its first
/// `i` argument patterns against the declared parameter types
/// positionally: only plain identifier patterns bind a name; a later
/// binding of a name shadows an earlier one.
pub open spec fn sp_zip_locals(
    args: Seq<SpecPattern>,
    types: Seq<SpecTypeExpr>,
    i: int,
) -> Map<Seq<char>, SpecSymbol>
    decreases i,
{
    if i <= 0 {
        Map::empty()
    } else {
        let m = sp_zip_locals(args, types, i - 1);
        match args[i - 1] {
            SpecPattern::Ident(nm) => m.insert(
                nm,
                SpecSymbol { ty: types[i - 1], explicit: true, instances: Seq::empty() },
            ),
            _ => m,
        }
    }
}

/// What one definition contributes: when the declared type is a
/// function type, the equation must supply exactly one argument pattern
/// per declared parameter type (the final slot being the return type),
/// else the definition fails with an arity mismatch naming the symbol;
/// for a non-function declared type the local scope is empty and no
/// arity is checked.
pub open spec fn sp_local_table(
    name: Seq<char>,
    args: Seq<SpecPattern>,
    symty: SpecTypeExpr,
) -> Result<Map<Seq<char>, SpecSymbol>, SpecAnalysisError> {
    match symty {
        SpecTypeExpr::Func(types) => {
            if args.len() as int != types.len() as int - 1 {
                Err(SpecAnalysisError::ArityMismatch { name })
            } else {
                Ok(sp_zip_locals(args, types, args.len() as int))
            }
        },
        _ => Ok(Map::empty()),
    }
}

/// What one statement does to the symbol table. A declaration of an
/// already-declared name fails with a duplicate-declaration error; a
/// fresh declaration binds the name to a symbol with its type, marked
/// explicit, with no instances yet. A definition of an undeclared name
/// fails with an undeclared-symbol error; otherwise its local scope is
/// computed and one instance is appended to the symbol's list. Type
/// declarations and comments change nothing.
pub open spec fn sp_analyze_stmt(st: SpecStatement, m: Map<Seq<char>, SpecSymbol>) -> Result<
    Map<Seq<char>, SpecSymbol>,
    SpecAnalysisError,
> {
    match st {
        SpecStatement::Declaration { name, ty } => {
            if m.dom().contains(name) {
                Err(SpecAnalysisError::DuplicateDeclaration { name })
            } else {
                Ok(m.insert(name, SpecSymbol { ty, explicit: true, instances: Seq::empty() }))
            }
        },
        SpecStatement::Definition { name, args, body } => {
            if !m.dom().contains(name) {
                Err(SpecAnalysisError::UndeclaredSymbol { name })
            } else {
                let sym = m[name];
                match sp_local_table(name, args, sym.ty) {
                    Err(e) => Err(e),
                    Ok(local) => Ok(
                        m.insert(
                            name,
                            SpecSymbol {
                                ty: sym.ty,
                                explicit: sym.explicit,
                                instances: sym.instances.push(
                                    SpecInstance { args, local, body },
                                ),
                            },
                        ),
                    ),
                }
            }
        },
        SpecStatement::TypeDeclaration { .. } => Ok(m),
        SpecStatement::Comment(_) => Ok(m),
    }
}

/// The symbol table after the statements, statement by statement from
/// table `m` on, or the first error.
pub open spec fn sp_analyze_stmts(
    stmts: Seq<SpecStatement>,
    m: Map<Seq<char>, SpecSymbol>,
) -> Result<Map<Seq<char>, SpecSymbol>, SpecAnalysisError>
    decreases stmts.len(),
{
    if stmts.len() == 0 {
        Ok(m)
    } else {
        match sp_analyze_stmt(stmts[0], m) {
            Err(e) => Err(e),
            Ok(m2) => sp_analyze_stmts(stmts.drop_first(), m2),
        }
    }
}

/// The symbol table a whole program yields, from an empty table, or the
/// first error.
pub open spec fn sp_analyze_program(stmts: Seq<SpecStatement>) -> Result<
    Map<Seq<char>, SpecSymbol>,
    SpecAnalysisError,
> {
    sp_analyze_stmts(stmts, Map::empty())
}

} // verus!

verus! {

/// In-place replacement of the last entry carrying a key denotes the
/// map with that key bound to the new value.
proof fn lemma_symtab_map_update_last(
    es: Seq<(String, Symbol)>,
    es2: Seq<(String, Symbol)>,
    j: int,
    i: int,
)
    requires
        0 <= j < i <= es.len(),
        es2.len() == es.len(),
        forall|k: int| 0 <= k < es.len() && k != j ==> es2[k] == es[k],
        (es2[j].0)@ == (es[j].0)@,
        forall|j2: int| j < j2 < i ==> (#[trigger] es[j2].0)@ != es[j].0@,
    ensures
        symtab_map_upto(es2, i) == symtab_map_upto(es, i).insert(
            es[j].0@,
            es2[j].1.deep_view(),
        ),
    decreases i,
{
    let key = es[j].0@;
    let v2 = es2[j].1.deep_view();
    if i == j + 1 {
        lemma_symtab_map_prefix(es, es2, j);
        assert(symtab_map_upto(es2, i) == symtab_map_upto(es2, j).insert(key, v2));
        assert(symtab_map_upto(es, j).insert(key, es[j].1.deep_view()).insert(key, v2)
            =~= symtab_map_upto(es, j).insert(key, v2));
    } else {
        lemma_symtab_map_update_last(es, es2, j, i - 1);
        let k_i = (es[i - 1].0)@;
        let v_i = es[i - 1].1.deep_view();
        assert(es2[i - 1] == es[i - 1]);
        assert(symtab_map_upto(es2, i) == symtab_map_upto(es, i - 1).insert(key, v2).insert(
            k_i,
            v_i,
        ));
        assert(k_i != key);
        assert(symtab_map_upto(es, i - 1).insert(key, v2).insert(k_i, v_i) =~= symtab_map_upto(
            es,
            i - 1,
        ).insert(k_i, v_i).insert(key, v2));
    }
}

/// Computes the local scope of one definition equation against the
/// declared type of its symbol: when that type is a function type, the
/// equation must supply exactly one argument pattern per declared
/// parameter type, else the result is an arity-mismatch error naming
/// the symbol; plain identifier patterns are bound to the parameter
/// types positionally, other patterns bind nothing.
fn local_table(name: &String, args: &Vec<Pattern>, symbol: &Symbol) -> (r: Result<
    SymTab,
    AnalysisError,
>)
    ensures
        match (r, sp_local_table(name@, args.deep_view(), symbol.ty.deep_view())) {
            (Ok(t), Ok(m)) => t.deep_view() == m,
            (Err(e), Err(se)) => e.deep_view() == se,
            _ => false,
        },
{
    broadcast use
        crate::ast_build::lemma_deep_view_types,
        crate::ast_build::lemma_deep_view_patterns,
        lemma_symbol_view,
        lemma_deep_view_instances;

    match &symbol.ty {
        TypeExpr::Func(types) => {
            proof {
                crate::ast_build::lemma_deep_view_types(*types);
                assert(symbol.ty.deep_view() == SpecTypeExpr::Func(types.deep_view()));
                assert(types.deep_view().len() == types@.len());
            }
            if types.len() == 0 || args.len() != types.len() - 1 {
                Err(AnalysisError::ArityMismatch { name: name.clone() })
            } else {
                let ghost args_v = args.deep_view();
                let ghost types_v = types.deep_view();
                let mut locals = SymTab::new();
                let mut i: usize = 0;
                while i < args.len()
                    invariant
                        args.len() == types.len() - 1,
                        i <= args.len(),
                        args_v == args.deep_view(),
                        types_v == types.deep_view(),
                        locals.deep_view() == sp_zip_locals(args_v, types_v, i as int),
                    decreases args.len() - i,
                {
                    match &args[i] {
                        Pattern::Ident(nm) => {
                            let empty_instances: Vec<Instance> = Vec::new();
                            let sym = Symbol {
                                ty: types[i].clone(),
                                explicit: true,
                                instances: empty_instances,
                            };
                            proof {
                                assert(deep_view_instances(sym.instances)
                                    =~= Seq::<SpecInstance>::empty());
                                assert(args_v[i as int] == SpecPattern::Ident(nm@));
                            }
                            locals.insert(nm.clone(), sym);
                        },
                        _ => {
                            proof {
                                assert(!(args_v[i as int] is Ident));
                            }
                        },
                    }
                    i = i + 1;
                }
                Ok(locals)
            }
        },
        _ => Ok(SymTab::new()),
    }
}

/// Handles one declaration: an already-declared name fails with a
/// duplicate-declaration error and the table is unchanged; a fresh name
/// is bound to a symbol with the declared type, marked explicit, with
/// no instances yet.
fn analyze_decl(name: String, ty: TypeExpr, sym_tab: &mut SymTab) -> (r: Result<
    (),
    AnalysisError,
>)
    ensures
        match (r, sp_analyze_stmt(
            SpecStatement::Declaration { name: name@, ty: ty.deep_view() },
            old(sym_tab).deep_view(),
        )) {
            (Ok(()), Ok(m)) => final(sym_tab).deep_view() == m,
            (Err(e), Err(se)) => e.deep_view() == se && final(sym_tab).deep_view() == old(
                sym_tab,
            ).deep_view(),
            _ => false,
        },
{
    broadcast use lemma_symbol_view, lemma_deep_view_instances;

    let already = match sym_tab.get(&name) {
        Some(_) => true,
        None => false,
    };
    if already {
        Err(AnalysisError::DuplicateDeclaration { name })
    } else {
        let empty_instances: Vec<Instance> = Vec::new();
        let sym = Symbol { ty, explicit: true, instances: empty_instances };
        proof {
            assert(deep_view_instances(sym.instances) =~= Seq::<SpecInstance>::empty());
        }
        sym_tab.insert(name, sym);
        Ok(())
    }
}

/// Handles one definition equation: an undeclared name fails with an
/// undeclared-symbol error; otherwise the equation's local scope is
/// computed against the declared type and one instance is appended to
/// the symbol's list, multiple equations for one name accumulating in
/// source order. On any error the table is unchanged.
#[verifier::rlimit(50)]
fn analyze_def(name: String, args: Vec<Pattern>, body: Body, sym_tab: &mut SymTab) -> (r: Result<
    (),
    AnalysisError,
>)
    ensures
        match (r, sp_analyze_stmt(
            SpecStatement::Definition {
                name: name@,
                args: args.deep_view(),
                body: body.deep_view(),
            },
            old(sym_tab).deep_view(),
        )) {
            (Ok(()), Ok(m)) => final(sym_tab).deep_view() == m,
            (Err(e), Err(se)) => e.deep_view() == se && final(sym_tab).deep_view() == old(
                sym_tab,
            ).deep_view(),
            _ => false,
        },
{
    broadcast use
        crate::ast_build::lemma_deep_view_patterns,
        lemma_symbol_view,
        lemma_instance_view,
        lemma_deep_view_instances;

    let ghost es = sym_tab.entries@;
    let ghost m = sym_tab.deep_view();
    proof {
        lemma_symtab_map_char(es, es.len() as int);
    }
    match sym_tab.index_of_last(&name) {
        Some(j) => {
            proof {
                assert(m.dom().contains(name@));
                assert(m[name@] == es[j as int].1.deep_view());
            }
            let local = match local_table(&name, &args, &sym_tab.entries[j].1) {
                Ok(local) => local,
                Err(e) => {
                    return Err(e);
                },
            };
            let (nm, mut sym) = sym_tab.entries.remove(j);
            let ghost sym_before = sym.deep_view();
            let ghost inst_count = sym.instances.len() as int;
            sym.instances.push(Instance { args, local, body });
            proof {
                assert(deep_view_instances(sym.instances) =~= sym_before.instances.push(
                    sym.instances@[inst_count].deep_view(),
                ));
            }
            sym_tab.entries.insert(j, (nm, sym));
            proof {
                let es2 = sym_tab.entries@;
                assert(forall|k: int| 0 <= k < es.len() && k != j ==> es2[k] == es[k]);
                lemma_symtab_map_update_last(es, es2, j as int, es.len() as int);
            }
            Ok(())
        },
        None => {
            proof {
                assert(!m.dom().contains(name@));
            }
            Err(AnalysisError::UndeclaredSymbol { name })
        },
    }
}

/// Handles one statement: declarations and definitions touch the symbol
/// table as their rules say; type declarations and comments change no
/// table in this pass.
fn analyze_stmt(
    stmt: Statement,
    sym_tab: &mut SymTab,
    class_tab: &mut ClassTab,
    typ_tab: &mut TypeTab,
) -> (r: Result<(), AnalysisError>)
    ensures
        match (r, sp_analyze_stmt(stmt.deep_view(), old(sym_tab).deep_view())) {
            (Ok(()), Ok(m)) => final(sym_tab).deep_view() == m,
            (Err(e), Err(se)) => e.deep_view() == se && final(sym_tab).deep_view() == old(
                sym_tab,
            ).deep_view(),
            _ => false,
        },
        *final(class_tab) == *old(class_tab),
        *final(typ_tab) == *old(typ_tab),
{
    match stmt {
        Statement::Declaration { name, ty } => analyze_decl(name, ty, sym_tab),
        Statement::Definition { name, args, body } => analyze_def(name, args, body, sym_tab),
        Statement::TypeDeclaration { .. } => Ok(()),
        Statement::Comment(_) => Ok(()),
    }
}

/// Analyzes a program: one forward pass over its statements, stopping
/// at the first error. On success the symbol table holds one symbol per
/// declared name with one instance per equation in source order; the
/// class and type tables come back empty, as scaffolding.
#[verifier::loop_isolation(false)]
pub fn analyze_program(program: Program) -> (r: Result<
    (SymTab, ClassTab, TypeTab),
    AnalysisError,
>)
    ensures
        match (r, sp_analyze_program(program.deep_view())) {
            (Ok(tabs), Ok(m)) => tabs.0.deep_view() == m && tabs.1.deep_view() == Seq::<
                (Seq<char>, SpecClass),
            >::empty() && tabs.2.deep_view() == Seq::<(Seq<char>, SpecType)>::empty(),
            (Err(e), Err(se)) => e.deep_view() == se,
            _ => false,
        },
{
    let ghost all = program.deep_view();
    let mut sym_tab = SymTab::new();
    let mut class_tab = ClassTab::new();
    let mut typ_tab = TypeTab::new();
    let mut stmts = program.statements;
    while stmts.len() > 0
        invariant
            sp_analyze_program(all) == sp_analyze_stmts(stmts.deep_view(), sym_tab.deep_view()),
            class_tab.deep_view() == Seq::<(Seq<char>, SpecClass)>::empty(),
            typ_tab.deep_view() == Seq::<(Seq<char>, SpecType)>::empty(),
        decreases stmts.len(),
    {
        let ghost before = stmts.deep_view();
        let ghost m_before = sym_tab.deep_view();
        let stmt = stmts.remove(0);
        proof {
            assert(stmts.deep_view() =~= before.drop_first());
            assert(before[0] == stmt.deep_view());
        }
        match analyze_stmt(stmt, &mut sym_tab, &mut class_tab, &mut typ_tab) {
            Ok(()) => {
                proof {
                    assert(sp_analyze_stmts(before, m_before) == sp_analyze_stmts(
                        before.drop_first(),
                        sym_tab.deep_view(),
                    ));
                }
            },
            Err(e) => {
                proof {
                    assert(sp_analyze_stmts(before, m_before) == sp_analyze_program(all));
                }
                return Err(e);
            },
        }
    }
    proof {
        assert(stmts.deep_view() =~= Seq::<SpecStatement>::empty());
    }
    Ok((sym_tab, class_tab, typ_tab))
}

} // verus!

verus! {

/// Multi-equation accumulation: starting from any table that has a
/// name declared, two definition statements for that name, each passing
/// the arity check against its declared type, both succeed and leave
/// the symbol with its type and explicitness unchanged and with exactly
/// the two new instances appended to its list, in source order.
pub proof fn lemma_multi_equation_accumulation(
    m: Map<Seq<char>, SpecSymbol>,
    name: Seq<char>,
    args1: Seq<SpecPattern>,
    body1: SpecBody,
    args2: Seq<SpecPattern>,
    body2: SpecBody,
)
    requires
        m.dom().contains(name),
        sp_local_table(name, args1, m[name].ty) is Ok,
        sp_local_table(name, args2, m[name].ty) is Ok,
    ensures
        ({
            let r1 = sp_analyze_stmt(
                SpecStatement::Definition { name, args: args1, body: body1 },
                m,
            );
            &&& r1 is Ok
            &&& {
                let r2 = sp_analyze_stmt(
                    SpecStatement::Definition { name, args: args2, body: body2 },
                    r1->Ok_0,
                );
                &&& r2 is Ok
                &&& r2->Ok_0[name].ty == m[name].ty
                &&& r2->Ok_0[name].explicit == m[name].explicit
                &&& r2->Ok_0[name].instances == m[name].instances.push(
                    SpecInstance {
                        args: args1,
                        local: sp_local_table(name, args1, m[name].ty)->Ok_0,
                        body: body1,
                    },
                ).push(
                    SpecInstance {
                        args: args2,
                        local: sp_local_table(name, args2, m[name].ty)->Ok_0,
                        body: body2,
                    },
                )
            }
        }),
{
}

/// Analysis reads nothing but the program: programs with equal models
/// yield equal results, so re-running the pass on the same program
/// value, with fresh tables each time, gives identical tables.
pub proof fn lemma_analyze_rerun(p1: Program, p2: Program)
    requires
        p1.deep_view() == p2.deep_view(),
    ensures
        sp_analyze_program(p1.deep_view()) == sp_analyze_program(p2.deep_view()),
{
}

} // verus!

verus! {

/// Duplicate declaration: declaring an already-declared name fails with
/// a duplicate-declaration error naming it; analysis returns no table on
/// an error, so the first declaration's binding stands untouched.
pub proof fn lemma_duplicate_declaration(
    m: Map<Seq<char>, SpecSymbol>,
    name: Seq<char>,
    ty: SpecTypeExpr,
)
    requires
        m.dom().contains(name),
    ensures
        sp_analyze_stmt(SpecStatement::Declaration { name, ty }, m) == Result::<
            Map<Seq<char>, SpecSymbol>,
            SpecAnalysisError,
        >::Err(SpecAnalysisError::DuplicateDeclaration { name }),
{
}

/// Undeclared definition: defining a name with no prior declaration
/// fails with an undeclared-symbol error naming it.
pub proof fn lemma_undeclared_definition(
    m: Map<Seq<char>, SpecSymbol>,
    name: Seq<char>,
    args: Seq<SpecPattern>,
    body: SpecBody,
)
    requires
        !m.dom().contains(name),
    ensures
        sp_analyze_stmt(SpecStatement::Definition { name, args, body }, m) == Result::<
            Map<Seq<char>, SpecSymbol>,
            SpecAnalysisError,
        >::Err(SpecAnalysisError::UndeclaredSymbol { name }),
{
}

/// Arity mismatch: a definition whose argument count differs from its
/// declared function type's parameter count fails with an arity-mismatch
/// error naming the symbol.
pub proof fn lemma_arity_mismatch(
    m: Map<Seq<char>, SpecSymbol>,
    name: Seq<char>,
    args: Seq<SpecPattern>,
    body: SpecBody,
)
    requires
        m.dom().contains(name),
        m[name].ty is Func,
        args.len() as int != m[name].ty->Func_0.len() as int - 1,
    ensures
        sp_analyze_stmt(SpecStatement::Definition { name, args, body }, m) == Result::<
            Map<Seq<char>, SpecSymbol>,
            SpecAnalysisError,
        >::Err(SpecAnalysisError::ArityMismatch { name }),
{
}

} // verus!
