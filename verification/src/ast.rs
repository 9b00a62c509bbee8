//! The abstract syntax of the source language together with its mathematical
//! model. Every executable type has a view that replaces `Vec` by `Seq` and
//! `String` by `Seq<char>`; all contracts of the crate are stated over views.

use vstd::prelude::*;

verus! {

/// The identity of a variable. All semantic decisions use it, never the name.
pub type VariableId = u32;

/// A variable: an identifier and, for diagnostics, the name it was written with.
#[derive(Debug, PartialEq, Eq)]
pub struct Variable {
    pub name: Option<String>,
    pub id: VariableId,
}

/// The model of a variable: its name as a sequence of characters.
pub struct VariableView {
    pub name: Option<Seq<char>>,
    pub id: VariableId,
}

/// The model of an optional name.
pub open spec fn name_view(name: Option<String>) -> Option<Seq<char>> {
    match name {
        Some(s) => Some(s@),
        None => None,
    }
}

impl View for Variable {
    type V = VariableView;

    open spec fn view(&self) -> VariableView {
        VariableView { name: name_view(self.name), id: self.id }
    }
}

/// The model of a variable that carries no name.
pub open spec fn anonymous(id: VariableId) -> VariableView {
    VariableView { name: None, id }
}

impl Variable {
    /// A nameless variable with the given identifier.
    pub fn new(id: VariableId) -> (r: Variable)
        ensures
            r@ == anonymous(id),
    {
        Variable { name: None, id }
    }
}

impl Clone for Variable {
    fn clone(&self) -> (r: Variable)
        ensures
            r@ == self@,
    {
        let name = match &self.name {
            Some(s) => Some(s.clone()),
            None => None,
        };
        Variable { name, id: self.id }
    }
}

/// The binary operators. `Equal` states a constraint; it is not a boolean value.
#[derive(Debug, Clone, Copy, PartialEq, Eq, Structural)]
pub enum InfixOp {
    Add,
    Subtract,
    Multiply,
    Divide,
    IntDivide,
    Modulo,
    Exponentiate,
    Equal,
}

/// The types that inference attaches to expressions.
#[derive(Debug, PartialEq, Eq)]
pub enum Type {
    Unit,
    Int,
    Variable(Variable),
    Function(Box<Type>, Box<Type>),
    Product(Box<Type>, Box<Type>),
    List(Box<Type>),
    Forall(Variable, Box<Type>),
}

/// The model of a type.
pub enum TypeView {
    Unit,
    Int,
    Variable(VariableView),
    Function(Box<TypeView>, Box<TypeView>),
    Product(Box<TypeView>, Box<TypeView>),
    List(Box<TypeView>),
    Forall(VariableView, Box<TypeView>),
}

/// The model of a type: the same type over the models of its variables.
pub open spec fn type_view(t: Type) -> TypeView
    decreases t,
{
    match t {
        Type::Unit => TypeView::Unit,
        Type::Int => TypeView::Int,
        Type::Variable(v) => TypeView::Variable(v@),
        Type::Function(a, b) => TypeView::Function(
            Box::new(type_view(*a)),
            Box::new(type_view(*b)),
        ),
        Type::Product(a, b) => TypeView::Product(Box::new(type_view(*a)), Box::new(type_view(*b))),
        Type::List(a) => TypeView::List(Box::new(type_view(*a))),
        Type::Forall(v, a) => TypeView::Forall(v@, Box::new(type_view(*a))),
    }
}

impl View for Type {
    type V = TypeView;

    open spec fn view(&self) -> TypeView {
        type_view(*self)
    }
}

/// The model of an optional type.
pub open spec fn opt_type_view(t: Option<Type>) -> Option<TypeView> {
    match t {
        Some(t) => Some(t@),
        None => None,
    }
}

/// A copy of the type.
pub fn clone_type(t: &Type) -> (r: Type)
    ensures
        r@ == t@,
    decreases t,
{
    match t {
        Type::Unit => Type::Unit,
        Type::Int => Type::Int,
        Type::Variable(v) => Type::Variable(v.clone()),
        Type::Function(a, b) => Type::Function(Box::new(clone_type(a)), Box::new(clone_type(b))),
        Type::Product(a, b) => Type::Product(Box::new(clone_type(a)), Box::new(clone_type(b))),
        Type::List(a) => Type::List(Box::new(clone_type(a))),
        Type::Forall(v, a) => Type::Forall(v.clone(), Box::new(clone_type(a))),
    }
}

impl Clone for Type {
    fn clone(&self) -> (r: Type)
        ensures
            r@ == self@,
    {
        clone_type(self)
    }
}

/// A copy of the optional type.
pub fn clone_opt_type(t: &Option<Type>) -> (r: Option<Type>)
    ensures
        opt_type_view(r) == opt_type_view(*t),
{
    match t {
        Some(t) => Some(clone_type(t)),
        None => None,
    }
}

/// The patterns of bindings, parameters and match branches.
#[derive(Debug, PartialEq, Eq)]
pub enum Pattern {
    Unit,
    Nil,
    Constant(i32),
    Variable(Variable),
    As(Box<Pattern>, Variable),
    Product(Box<Pattern>, Box<Pattern>),
    Cons(Box<Pattern>, Box<Pattern>),
}

/// The model of a pattern.
pub enum PatternView {
    Unit,
    Nil,
    Constant(i32),
    Variable(VariableView),
    As(Box<PatternView>, VariableView),
    Product(Box<PatternView>, Box<PatternView>),
    Cons(Box<PatternView>, Box<PatternView>),
}

/// The model of a pattern: the same pattern over the models of its variables.
pub open spec fn pattern_view(p: Pattern) -> PatternView
    decreases p,
{
    match p {
        Pattern::Unit => PatternView::Unit,
        Pattern::Nil => PatternView::Nil,
        Pattern::Constant(c) => PatternView::Constant(c),
        Pattern::Variable(v) => PatternView::Variable(v@),
        Pattern::As(a, v) => PatternView::As(Box::new(pattern_view(*a)), v@),
        Pattern::Product(a, b) => PatternView::Product(
            Box::new(pattern_view(*a)),
            Box::new(pattern_view(*b)),
        ),
        Pattern::Cons(a, b) => PatternView::Cons(
            Box::new(pattern_view(*a)),
            Box::new(pattern_view(*b)),
        ),
    }
}

impl View for Pattern {
    type V = PatternView;

    open spec fn view(&self) -> PatternView {
        pattern_view(*self)
    }
}

/// The models of a list of patterns.
pub open spec fn patterns_view(ps: Seq<Pattern>) -> Seq<PatternView> {
    Seq::new(ps.len(), |i: int| ps[i]@)
}

/// A copy of the pattern.
pub fn clone_pattern(p: &Pattern) -> (r: Pattern)
    ensures
        r@ == p@,
    decreases p,
{
    match p {
        Pattern::Unit => Pattern::Unit,
        Pattern::Nil => Pattern::Nil,
        Pattern::Constant(c) => Pattern::Constant(*c),
        Pattern::Variable(v) => Pattern::Variable(v.clone()),
        Pattern::As(a, v) => Pattern::As(Box::new(clone_pattern(a)), v.clone()),
        Pattern::Product(a, b) => Pattern::Product(
            Box::new(clone_pattern(a)),
            Box::new(clone_pattern(b)),
        ),
        Pattern::Cons(a, b) => Pattern::Cons(
            Box::new(clone_pattern(a)),
            Box::new(clone_pattern(b)),
        ),
    }
}

impl Clone for Pattern {
    fn clone(&self) -> (r: Pattern)
        ensures
            r@ == self@,
    {
        clone_pattern(self)
    }
}

/// A copy of the list of patterns.
pub fn clone_patterns(ps: &Vec<Pattern>) -> (r: Vec<Pattern>)
    ensures
        patterns_view(r@) == patterns_view(ps@),
{
    let mut out: Vec<Pattern> = Vec::new();
    let mut i: usize = 0;
    while i < ps.len()
        invariant
            i <= ps.len(),
            out.len() == i,
            forall|j: int| 0 <= j < i ==> (#[trigger] out[j])@ == ps[j]@,
        decreases ps.len() - i,
    {
        out.push(clone_pattern(&ps[i]));
        i += 1;
    }
    assert(patterns_view(out@) =~= patterns_view(ps@));
    out
}

/// The expansion that a compile-time built-in performs once it has all its
/// arguments.
#[derive(Debug, Clone, Copy, PartialEq, Eq, Structural)]
pub enum IntrinsicKind {
    /// `fresh e`: a new witness variable whose prover definition is `e`.
    Fresh,
    /// `iter n`: the function that applies its first argument `n` times.
    Iter,
}

/// An expression together with the type that inference gave it, if any.
#[derive(Debug, PartialEq, Eq)]
pub struct TExpr {
    pub v: Expr,
    pub t: Option<Type>,
}

/// The expressions of the language.
#[derive(Debug, PartialEq, Eq)]
pub enum Expr {
    Unit,
    Nil,
    Constant(i32),
    Variable(Variable),
    Sequence(Vec<TExpr>),
    Infix(InfixOp, Box<TExpr>, Box<TExpr>),
    Negate(Box<TExpr>),
    Product(Box<TExpr>, Box<TExpr>),
    Cons(Box<TExpr>, Box<TExpr>),
    Application(Box<TExpr>, Box<TExpr>),
    Function(Function),
    LetBinding(LetBinding, Box<TExpr>),
    Match(Match),
    Intrinsic(Intrinsic),
}

/// A function literal: its parameters and its body.
#[derive(Debug, PartialEq, Eq)]
pub struct Function(pub Vec<Pattern>, pub Box<TExpr>);

/// A binding of a pattern to an expression.
#[derive(Debug, PartialEq, Eq)]
pub struct LetBinding(pub Pattern, pub Box<TExpr>);

/// A match: the scrutinee and the branches, each a pattern with its body.
#[derive(Debug, PartialEq, Eq)]
pub struct Match(pub Box<TExpr>, pub Vec<(Pattern, TExpr)>);

/// A compile-time built-in with the arguments collected so far.
#[derive(Debug, PartialEq, Eq)]
pub struct Intrinsic {
    pub arity: usize,
    pub imp_typ: Type,
    pub imp: IntrinsicKind,
    pub args: Vec<TExpr>,
}

/// The model of a typed expression.
pub struct TExprView {
    pub v: ExprView,
    pub t: Option<TypeView>,
}

/// The model of an expression. A function, a let-binding and a match hold
/// their parts themselves.
pub enum ExprView {
    Unit,
    Nil,
    Constant(i32),
    Variable(VariableView),
    Sequence(Seq<TExprView>),
    Infix(InfixOp, Box<TExprView>, Box<TExprView>),
    Negate(Box<TExprView>),
    Product(Box<TExprView>, Box<TExprView>),
    Cons(Box<TExprView>, Box<TExprView>),
    Application(Box<TExprView>, Box<TExprView>),
    Function(Seq<PatternView>, Box<TExprView>),
    LetBinding(PatternView, Box<TExprView>, Box<TExprView>),
    Match(Box<TExprView>, Seq<(PatternView, TExprView)>),
    Intrinsic(IntrinsicView),
}

/// The model of a built-in.
pub struct IntrinsicView {
    pub arity: usize,
    pub imp_typ: TypeView,
    pub imp: IntrinsicKind,
    pub args: Seq<TExprView>,
}

/// The model of a typed expression: the model of the expression with the
/// model of the type.
pub open spec fn texpr_view(e: TExpr) -> TExprView
    decreases e,
{
    TExprView { v: expr_view(e.v), t: opt_type_view(e.t) }
}

/// The model of an expression: the same expression over the models of its
/// parts.
pub open spec fn expr_view(e: Expr) -> ExprView
    decreases e,
{
    match e {
        Expr::Unit => ExprView::Unit,
        Expr::Nil => ExprView::Nil,
        Expr::Constant(c) => ExprView::Constant(c),
        Expr::Variable(v) => ExprView::Variable(v@),
        Expr::Sequence(es) => ExprView::Sequence(texprs_view(es@)),
        Expr::Infix(op, a, b) => ExprView::Infix(
            op,
            Box::new(texpr_view(*a)),
            Box::new(texpr_view(*b)),
        ),
        Expr::Negate(a) => ExprView::Negate(Box::new(texpr_view(*a))),
        Expr::Product(a, b) => ExprView::Product(
            Box::new(texpr_view(*a)),
            Box::new(texpr_view(*b)),
        ),
        Expr::Cons(a, b) => ExprView::Cons(Box::new(texpr_view(*a)), Box::new(texpr_view(*b))),
        Expr::Application(a, b) => ExprView::Application(
            Box::new(texpr_view(*a)),
            Box::new(texpr_view(*b)),
        ),
        Expr::Function(f) => ExprView::Function(patterns_view(f.0@), Box::new(texpr_view(*f.1))),
        Expr::LetBinding(b, body) => ExprView::LetBinding(
            b.0@,
            Box::new(texpr_view(*b.1)),
            Box::new(texpr_view(*body)),
        ),
        Expr::Match(m) => ExprView::Match(Box::new(texpr_view(*m.0)), branches_view(m.1@)),
        Expr::Intrinsic(i) => ExprView::Intrinsic(
            IntrinsicView {
                arity: i.arity,
                imp_typ: i.imp_typ@,
                imp: i.imp,
                args: texprs_view(i.args@),
            },
        ),
    }
}

/// The models of a list of expressions.
pub open spec fn texprs_view(es: Seq<TExpr>) -> Seq<TExprView>
    decreases es,
{
    Seq::new(
        es.len(),
        |i: int|
            if 0 <= i < es.len() {
                texpr_view(es[i])
            } else {
                arbitrary()
            },
    )
}

/// The models of a list of branches.
pub open spec fn branches_view(bs: Seq<(Pattern, TExpr)>) -> Seq<(PatternView, TExprView)>
    decreases bs,
{
    Seq::new(
        bs.len(),
        |i: int|
            if 0 <= i < bs.len() {
                (bs[i].0@, texpr_view(bs[i].1))
            } else {
                arbitrary()
            },
    )
}

impl View for TExpr {
    type V = TExprView;

    open spec fn view(&self) -> TExprView {
        texpr_view(*self)
    }
}

impl View for Expr {
    type V = ExprView;

    open spec fn view(&self) -> ExprView {
        expr_view(*self)
    }
}

/// The model of an expression that carries no type.
pub open spec fn untyped(v: ExprView) -> TExprView {
    TExprView { v, t: None }
}

/// Whether `e` is a binary node over `a` and `b`.
pub open spec fn is_pair_of(e: TExprView, a: TExprView, b: TExprView) -> bool {
    match e.v {
        ExprView::Infix(_, x, y)
        | ExprView::Application(x, y)
        | ExprView::Product(x, y)
        | ExprView::Cons(x, y) => *x == a && *y == b,
        _ => false,
    }
}

/// Whether `e` is a sequence of `es` or a built-in with the arguments `es`.
pub open spec fn is_list_of(e: TExprView, es: Seq<TExprView>) -> bool {
    match e.v {
        ExprView::Sequence(xs) => xs == es,
        ExprView::Intrinsic(i) => i.args == es,
        _ => false,
    }
}

impl TExpr {
    /// The expression without a type.
    pub fn untyped(v: Expr) -> (r: TExpr)
        ensures
            r@ == untyped(v@),
    {
        TExpr { v, t: None }
    }
}

/// A copy of the typed expression.
pub fn clone_texpr(e: &TExpr) -> (r: TExpr)
    ensures
        r@ == e@,
    decreases e,
{
    TExpr { v: clone_expr(&e.v), t: clone_opt_type(&e.t) }
}

/// A copy of the expression.
pub fn clone_expr(e: &Expr) -> (r: Expr)
    ensures
        r@ == e@,
    decreases e,
{
    match e {
        Expr::Unit => Expr::Unit,
        Expr::Nil => Expr::Nil,
        Expr::Constant(c) => Expr::Constant(*c),
        Expr::Variable(v) => Expr::Variable(v.clone()),
        Expr::Sequence(es) => Expr::Sequence(clone_texprs(es)),
        Expr::Infix(op, a, b) => Expr::Infix(
            *op,
            Box::new(clone_texpr(a)),
            Box::new(clone_texpr(b)),
        ),
        Expr::Negate(a) => Expr::Negate(Box::new(clone_texpr(a))),
        Expr::Product(a, b) => Expr::Product(Box::new(clone_texpr(a)), Box::new(clone_texpr(b))),
        Expr::Cons(a, b) => Expr::Cons(Box::new(clone_texpr(a)), Box::new(clone_texpr(b))),
        Expr::Application(a, b) => Expr::Application(
            Box::new(clone_texpr(a)),
            Box::new(clone_texpr(b)),
        ),
        Expr::Function(f) => Expr::Function(
            Function(clone_patterns(&f.0), Box::new(clone_texpr(&f.1))),
        ),
        Expr::LetBinding(b, body) => Expr::LetBinding(
            LetBinding(clone_pattern(&b.0), Box::new(clone_texpr(&b.1))),
            Box::new(clone_texpr(body)),
        ),
        Expr::Match(m) => Expr::Match(Match(Box::new(clone_texpr(&m.0)), clone_branches(&m.1))),
        Expr::Intrinsic(i) => Expr::Intrinsic(
            Intrinsic {
                arity: i.arity,
                imp_typ: clone_type(&i.imp_typ),
                imp: i.imp,
                args: clone_texprs(&i.args),
            },
        ),
    }
}

/// A copy of the list of expressions.
pub fn clone_texprs(es: &Vec<TExpr>) -> (r: Vec<TExpr>)
    ensures
        texprs_view(r@) == texprs_view(es@),
    decreases es,
{
    let mut out: Vec<TExpr> = Vec::new();
    let mut i: usize = 0;
    while i < es.len()
        invariant
            i <= es.len(),
            out.len() == i,
            forall|j: int| 0 <= j < i ==> (#[trigger] out[j])@ == es[j]@,
        decreases es.len() - i,
    {
        out.push(clone_texpr(&es[i]));
        i += 1;
    }
    assert(texprs_view(out@) =~= texprs_view(es@));
    out
}

/// A copy of the list of branches.
pub fn clone_branches(bs: &Vec<(Pattern, TExpr)>) -> (r: Vec<(Pattern, TExpr)>)
    ensures
        branches_view(r@) == branches_view(bs@),
    decreases bs,
{
    let mut out: Vec<(Pattern, TExpr)> = Vec::new();
    let mut i: usize = 0;
    while i < bs.len()
        invariant
            i <= bs.len(),
            out.len() == i,
            forall|j: int|
                0 <= j < i ==> (#[trigger] out[j]).0@ == bs[j].0@ && out[j].1@ == bs[j].1@,
        decreases bs.len() - i,
    {
        out.push((clone_pattern(&bs[i].0), clone_texpr(&bs[i].1)));
        i += 1;
    }
    assert(branches_view(out@) =~= branches_view(bs@));
    out
}

impl Clone for TExpr {
    fn clone(&self) -> (r: TExpr)
        ensures
            r@ == self@,
    {
        clone_texpr(self)
    }
}

/// A top-level definition.
#[derive(Debug, PartialEq, Eq)]
pub struct Definition(pub LetBinding);

/// The model of a definition: what it defines and by what.
pub struct DefinitionView {
    pub pattern: PatternView,
    pub value: TExprView,
}

impl View for Definition {
    type V = DefinitionView;

    open spec fn view(&self) -> DefinitionView {
        DefinitionView { pattern: self.0.0@, value: (*self.0.1)@ }
    }
}

impl Clone for Definition {
    fn clone(&self) -> (r: Definition)
        ensures
            r@ == self@,
    {
        Definition(LetBinding(clone_pattern(&self.0.0), Box::new(clone_texpr(&self.0.1))))
    }
}

/// The models of a list of definitions.
pub open spec fn definitions_view(ds: Seq<Definition>) -> Seq<DefinitionView> {
    Seq::new(ds.len(), |i: int| ds[i]@)
}

/// A module: its definitions in order, and the expressions that follow them.
#[derive(Debug, PartialEq, Eq)]
pub struct Module {
    pub defs: Vec<Definition>,
    pub exprs: Vec<TExpr>,
}

/// The model of a module.
pub struct ModuleView {
    pub defs: Seq<DefinitionView>,
    pub exprs: Seq<TExprView>,
}

impl View for Module {
    type V = ModuleView;

    open spec fn view(&self) -> ModuleView {
        ModuleView { defs: definitions_view(self.defs@), exprs: texprs_view(self.exprs@) }
    }
}

impl Clone for Module {
    fn clone(&self) -> (r: Module)
        ensures
            r@ == self@,
    {
        let mut defs: Vec<Definition> = Vec::new();
        let mut i: usize = 0;
        while i < self.defs.len()
            invariant
                i <= self.defs.len(),
                defs.len() == i,
                forall|j: int| 0 <= j < i ==> (#[trigger] defs[j])@ == self.defs[j]@,
            decreases self.defs.len() - i,
        {
            defs.push(self.defs[i].clone());
            i += 1;
        }
        assert(definitions_view(defs@) =~= definitions_view(self.defs@));
        Module { defs, exprs: clone_texprs(&self.exprs) }
    }
}

impl Default for Module {
    fn default() -> (r: Module)
        ensures
            r@ == (ModuleView { defs: Seq::empty(), exprs: Seq::empty() }),
    {
        let r = Module { defs: Vec::new(), exprs: Vec::new() };
        assert(r@.defs =~= Seq::empty());
        assert(r@.exprs =~= Seq::empty());
        r
    }
}

} // verus!
