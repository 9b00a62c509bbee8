//! The compile-time built-ins `fresh` and `iter`: how they are registered and
//! what they expand to.

use vstd::prelude::*;
use std::collections::{HashMap, HashSet};
use crate::ast::{
    Expr, ExprView, Function, Intrinsic, IntrinsicKind, IntrinsicView, LetBinding, Pattern,
    PatternView, TExpr, TExprView, Type, TypeView, Variable, VariableId, anonymous, clone_opt_type,
    clone_texpr, clone_texprs, clone_type, patterns_view, texprs_view, type_view, untyped,
};
use crate::env::{add_witness, bind, bind_type, bindings_view, lookup, push_texpr, types_view};
use crate::error::{CompileError, ErrorView};
use crate::names::NameMap;
use crate::vargen::{VarGen, mint};

verus! {

broadcast use vstd::std_specs::hash::group_hash_axioms;

/// An expansion with the state that it leaves.
pub struct Expanded {
    pub term: TExprView,
    pub prover: Set<VariableId>,
    pub next: nat,
}

/// Whether the outcome `r` of an executable expansion, with the state it
/// left, is what the model `m` prescribes.
pub open spec fn expanded_as(
    m: Result<Expanded, ErrorView>,
    r: Result<TExpr, CompileError>,
    prover: Set<VariableId>,
    next: nat,
) -> bool {
    match r {
        Ok(term) => m == Ok::<Expanded, ErrorView>(Expanded { term: term@, prover, next }),
        Err(e) => m == Err::<Expanded, ErrorView>(e@),
    }
}

/// `fresh e` is `let w = e in w` for a new variable `w`, which becomes a
/// witness. Both the binding and the variable have the type of `e`.
pub open spec fn fresh_expansion(
    args: Seq<TExprView>,
    prover: Set<VariableId>,
    next: nat,
) -> Result<Expanded, ErrorView> {
    if args.len() == 1 {
        match mint(next) {
            Ok((id, next1)) => Ok(
                Expanded {
                    term: TExprView {
                        v: ExprView::LetBinding(
                            PatternView::Variable(anonymous(id)),
                            Box::new(args[0]),
                            Box::new(
                                TExprView { v: ExprView::Variable(anonymous(id)), t: args[0].t },
                            ),
                        ),
                        t: args[0].t,
                    },
                    prover: prover.insert(id),
                    next: next1,
                },
            ),
            Err(x) => Err(x),
        }
    } else {
        Err(ErrorView::MalformedIntrinsicArguments(IntrinsicKind::Fresh))
    }
}

/// `func` applied `n` times to `arg`; every application has the type of `arg`.
pub open spec fn iterate(func: TExprView, arg: TExprView, n: nat) -> TExprView
    decreases n,
{
    if n == 0 {
        arg
    } else {
        TExprView {
            v: ExprView::Application(
                Box::new(func),
                Box::new(iterate(func, arg, (n - 1) as nat)),
            ),
            t: arg.t,
        }
    }
}

/// The type of the value that `iter` iterates on, a type variable.
pub open spec fn iterated_type(x: VariableId) -> TypeView {
    TypeView::Variable(anonymous(x))
}

/// The type of the function that `iter` iterates.
pub open spec fn iterated_function_type(x: VariableId) -> TypeView {
    TypeView::Function(Box::new(iterated_type(x)), Box::new(iterated_type(x)))
}

/// The function `f x -> f (f (.. (f x)))` with `n` applications of `f`, and
/// none where `n` is negative.
pub open spec fn church_numeral(f: VariableId, x: VariableId, n: i32) -> TExprView {
    TExprView {
        v: ExprView::Function(
            seq![PatternView::Variable(anonymous(f)), PatternView::Variable(anonymous(x))],
            Box::new(
                iterate(
                    TExprView {
                        v: ExprView::Variable(anonymous(f)),
                        t: Some(iterated_function_type(x)),
                    },
                    TExprView { v: ExprView::Variable(anonymous(x)), t: Some(iterated_type(x)) },
                    if n < 0 {
                        0nat
                    } else {
                        n as nat
                    },
                ),
            ),
        ),
        t: Some(
            TypeView::Function(
                Box::new(iterated_function_type(x)),
                Box::new(iterated_function_type(x)),
            ),
        ),
    }
}

/// `iter n` for an integer constant `n` is the Church numeral of `n` over two
/// new variables, the value first and the function second. An argument that
/// is a bound variable stands for its binding, through at most `fuel`
/// bindings. Any other argument is malformed.
pub open spec fn iter_expansion(
    args: Seq<TExprView>,
    bindings: Map<VariableId, TExprView>,
    prover: Set<VariableId>,
    next: nat,
    fuel: nat,
) -> Result<Expanded, ErrorView>
    decreases fuel,
{
    if args.len() == 1 {
        match args[0].v {
            ExprView::Constant(n) => match mint(next) {
                Ok((x, next1)) => match mint(next1) {
                    Ok((f, next2)) => Ok(
                        Expanded { term: church_numeral(f, x, n), prover, next: next2 },
                    ),
                    Err(e) => Err(e),
                },
                Err(e) => Err(e),
            },
            ExprView::Variable(var) => if bindings.contains_key(var.id) {
                if fuel == 0 {
                    Err(ErrorView::RecursionLimit)
                } else {
                    iter_expansion(
                        seq![bindings[var.id]],
                        bindings,
                        prover,
                        next,
                        (fuel - 1) as nat,
                    )
                }
            } else {
                Err(ErrorView::MalformedIntrinsicArguments(IntrinsicKind::Iter))
            },
            _ => Err(ErrorView::MalformedIntrinsicArguments(IntrinsicKind::Iter)),
        }
    } else {
        Err(ErrorView::MalformedIntrinsicArguments(IntrinsicKind::Iter))
    }
}

/// The built-in `i` given one more argument: the built-in with the argument
/// added while it still lacks arguments, and its expansion once it has them.
pub open spec fn apply_intrinsic(
    i: IntrinsicView,
    arg: TExprView,
    bindings: Map<VariableId, TExprView>,
    prover: Set<VariableId>,
    next: nat,
    fuel: nat,
) -> Result<Expanded, ErrorView> {
    if i.args.len() + 1 < i.arity {
        Ok(
            Expanded {
                term: untyped(
                    ExprView::Intrinsic(
                        IntrinsicView {
                            arity: i.arity,
                            imp_typ: i.imp_typ,
                            imp: i.imp,
                            args: i.args.push(arg),
                        },
                    ),
                ),
                prover,
                next,
            },
        )
    } else {
        match i.imp {
            IntrinsicKind::Fresh => fresh_expansion(i.args.push(arg), prover, next),
            IntrinsicKind::Iter => iter_expansion(i.args.push(arg), bindings, prover, next, fuel),
        }
    }
}

/// `fresh x` returns a new unconstrained variable whose prover definition is
/// the supplied expression.
pub fn expand_fresh_intrinsic(
    args: &Vec<TExpr>,
    prover_defs: &mut HashSet<VariableId>,
    gen: &mut VarGen,
) -> (r: Result<TExpr, CompileError>)
    ensures
        expanded_as(
            fresh_expansion(texprs_view(args@), old(prover_defs)@, old(gen)@),
            r,
            final(prover_defs)@,
            final(gen)@,
        ),
{
    assert(texprs_view(args@).len() == args.len());
    if args.len() != 1 {
        return Err(CompileError::MalformedIntrinsicArguments(IntrinsicKind::Fresh));
    }
    let val = &args[0];
    assert(texprs_view(args@)[0] == val@);
    let id = gen.try_generate_id()?;
    add_witness(prover_defs, id);
    let witness = TExpr { v: Expr::Variable(Variable::new(id)), t: clone_opt_type(&val.t) };
    assert(witness@ == TExprView { v: ExprView::Variable(anonymous(id)), t: val@.t });
    let pattern = Pattern::Variable(Variable::new(id));
    assert(pattern@ == PatternView::Variable(anonymous(id)));
    let expansion = TExpr {
        v: Expr::LetBinding(LetBinding(pattern, Box::new(clone_texpr(val))), Box::new(witness)),
        t: clone_opt_type(&val.t),
    };
    assert(expansion@ == TExprView {
        v: ExprView::LetBinding(pattern@, Box::new(val@), Box::new(witness@)),
        t: val@.t,
    });
    Ok(expansion)
}

/// The type of the function that `iter` iterates, over the type variable `x`.
fn iterated_function_type_of(x: VariableId) -> (r: Type)
    ensures
        r@ == iterated_function_type(x),
{
    proof {
        reveal_with_fuel(type_view, 2);
    }
    Type::Function(
        Box::new(Type::Variable(Variable::new(x))),
        Box::new(Type::Variable(Variable::new(x))),
    )
}

/// `iter n` returns the Church numeral of the given integer. An argument that
/// is a bound variable is read as its binding, through at most `fuel` bindings.
pub fn expand_iter_intrinsic(
    args: &Vec<TExpr>,
    bindings: &HashMap<VariableId, TExpr>,
    prover_defs: &mut HashSet<VariableId>,
    gen: &mut VarGen,
    fuel: usize,
) -> (r: Result<TExpr, CompileError>)
    ensures
        expanded_as(
            iter_expansion(
                texprs_view(args@),
                bindings_view(bindings@),
                old(prover_defs)@,
                old(gen)@,
                fuel as nat,
            ),
            r,
            final(prover_defs)@,
            final(gen)@,
        ),
        final(prover_defs)@ == old(prover_defs)@,
    decreases fuel,
{
    assert(texprs_view(args@).len() == args.len());
    if args.len() != 1 {
        return Err(CompileError::MalformedIntrinsicArguments(IntrinsicKind::Iter));
    }
    assert(texprs_view(args@)[0] == args[0]@);
    match &args[0].v {
        Expr::Constant(n) => {
            let x = gen.try_generate_id()?;
            let f = gen.try_generate_id()?;
            let mut body = TExpr {
                v: Expr::Variable(Variable::new(x)),
                t: Some(Type::Variable(Variable::new(x))),
            };
            let ghost func = TExprView {
                v: ExprView::Variable(anonymous(f)),
                t: Some(iterated_function_type(x)),
            };
            let ghost arg = TExprView {
                v: ExprView::Variable(anonymous(x)),
                t: Some(iterated_type(x)),
            };
            assert(body@ == arg);
            let mut k: i32 = 0;
            while k < *n
                invariant
                    0 <= k,
                    k <= *n || (*n < 0 && k == 0),
                    body@ == iterate(func, arg, k as nat),
                    arg.t == Some(iterated_type(x)),
                    func == (TExprView {
                        v: ExprView::Variable(anonymous(f)),
                        t: Some(iterated_function_type(x)),
                    }),
                decreases *n - k,
            {
                let callee = TExpr {
                    v: Expr::Variable(Variable::new(f)),
                    t: Some(iterated_function_type_of(x)),
                };
                assert(callee@ == func);
                let ghost inner = body@;
                let ty = Type::Variable(Variable::new(x));
                assert(ty@ == iterated_type(x));
                body = TExpr {
                    v: Expr::Application(Box::new(callee), Box::new(body)),
                    t: Some(ty),
                };
                assert(body@ == TExprView {
                    v: ExprView::Application(Box::new(func), Box::new(inner)),
                    t: arg.t,
                });
                k += 1;
            }
            let mut params: Vec<Pattern> = Vec::new();
            params.push(Pattern::Variable(Variable::new(f)));
            params.push(Pattern::Variable(Variable::new(x)));
            assert(patterns_view(params@) =~= seq![
                PatternView::Variable(anonymous(f)),
                PatternView::Variable(anonymous(x)),
            ]);
            let ghost inner = body@;
            let expansion = TExpr {
                v: Expr::Function(Function(params, Box::new(body))),
                t: Some(
                    Type::Function(
                        Box::new(iterated_function_type_of(x)),
                        Box::new(iterated_function_type_of(x)),
                    ),
                ),
            };
            assert(expansion@.v == ExprView::Function(patterns_view(params@), Box::new(inner)));
            assert(expansion@.t == Some(
                TypeView::Function(
                    Box::new(iterated_function_type(x)),
                    Box::new(iterated_function_type(x)),
                ),
            ));
            assert(expansion@ == church_numeral(f, x, *n));
            Ok(expansion)
        },
        Expr::Variable(var) => match lookup(bindings, var.id) {
            Some(bound) => {
                if fuel == 0 {
                    return Err(CompileError::RecursionLimit);
                }
                let mut inner: Vec<TExpr> = Vec::new();
                inner.push(clone_texpr(bound));
                assert(texprs_view(inner@) =~= seq![bound@]);
                expand_iter_intrinsic(&inner, bindings, prover_defs, gen, fuel - 1)
            },
            None => Err(CompileError::MalformedIntrinsicArguments(IntrinsicKind::Iter)),
        },
        _ => Err(CompileError::MalformedIntrinsicArguments(IntrinsicKind::Iter)),
    }
}

/// The type of `fresh`: for every type `a`, a function from `a` to `a`.
pub open spec fn fresh_type(a: VariableId) -> TypeView {
    TypeView::Forall(anonymous(a), Box::new(iterated_function_type(a)))
}

/// The type of `iter`: for every type `a`, a function from integers to
/// functions from functions on `a` to functions on `a`.
pub open spec fn iter_type(a: VariableId) -> TypeView {
    TypeView::Forall(
        anonymous(a),
        Box::new(
            TypeView::Function(
                Box::new(TypeView::Int),
                Box::new(
                    TypeView::Function(
                        Box::new(iterated_function_type(a)),
                        Box::new(iterated_function_type(a)),
                    ),
                ),
            ),
        ),
    )
}

/// The built-in of the given kind and type that takes one argument and has
/// none yet.
pub open spec fn unary_intrinsic(imp: IntrinsicKind, imp_typ: TypeView) -> TExprView {
    untyped(
        ExprView::Intrinsic(IntrinsicView { arity: 1, imp_typ, imp, args: Seq::empty() }),
    )
}

/// The compilation environment that built-ins are registered in: the global
/// names, the bindings, the types and the position of the generator.
pub type Registry = (
    Map<Seq<char>, VariableId>,
    Map<VariableId, TExprView>,
    Map<VariableId, TypeView>,
    nat,
);

/// Whether the environment `after` is `before` with a built-in registered
/// under `name`: the generator issued an identifier for the built-in and one
/// for the variable of its type, in this order.
pub open spec fn registered(
    name: Seq<char>,
    imp: IntrinsicKind,
    imp_typ: TypeView,
    before: Registry,
    after: Registry,
) -> bool {
    let id = before.3 as VariableId;
    &&& after.3 == before.3 + 2
    &&& after.0 == before.0.insert(name, id)
    &&& after.1 == before.1.insert(id, unary_intrinsic(imp, imp_typ))
    &&& after.2 == before.2.insert(id, imp_typ)
}

/// Enters a built-in of one argument under its name, its identifier and its
/// type.
fn register(
    name: &str,
    imp: IntrinsicKind,
    id: VariableId,
    imp_typ: Type,
    globals: &mut NameMap,
    bindings: &mut HashMap<VariableId, TExpr>,
    types: &mut HashMap<VariableId, Type>,
)
    ensures
        final(globals)@ == old(globals)@.insert(name@, id),
        bindings_view(final(bindings)@) == bindings_view(old(bindings)@).insert(
            id,
            unary_intrinsic(imp, imp_typ@),
        ),
        types_view(final(types)@) == types_view(old(types)@).insert(id, imp_typ@),
{
    globals.insert(name.to_owned(), id);
    let intrinsic = Intrinsic::new(1, clone_type(&imp_typ), imp);
    bind_type(types, id, imp_typ);
    bind(bindings, id, TExpr::untyped(Expr::Intrinsic(intrinsic)));
}

/// Registers the `fresh` built-in in the compilation environment. It fails,
/// with `IdentifiersExhausted`, exactly when the generator has fewer than two
/// identifiers left.
pub fn register_fresh_intrinsic(
    globals: &mut NameMap,
    bindings: &mut HashMap<VariableId, TExpr>,
    types: &mut HashMap<VariableId, Type>,
    gen: &mut VarGen,
) -> (r: Result<(), CompileError>)
    ensures
        match r {
            Ok(()) => old(gen)@ + 2 <= u32::MAX && registered(
                "fresh"@,
                IntrinsicKind::Fresh,
                fresh_type((old(gen)@ + 1) as VariableId),
                (
                    old(globals)@,
                    bindings_view(old(bindings)@),
                    types_view(old(types)@),
                    old(gen)@,
                ),
                (
                    final(globals)@,
                    bindings_view(final(bindings)@),
                    types_view(final(types)@),
                    final(gen)@,
                ),
            ),
            Err(e) => old(gen)@ + 2 > u32::MAX && e@ == ErrorView::IdentifiersExhausted,
        },
{
    let id = gen.try_generate_id()?;
    let arg = gen.try_generate_id()?;
    let imp_typ = Type::Forall(Variable::new(arg), Box::new(iterated_function_type_of(arg)));
    register("fresh", IntrinsicKind::Fresh, id, imp_typ, globals, bindings, types);
    Ok(())
}

/// Registers the `iter` built-in in the compilation environment. It fails,
/// with `IdentifiersExhausted`, exactly when the generator has fewer than two
/// identifiers left.
pub fn register_iter_intrinsic(
    globals: &mut NameMap,
    bindings: &mut HashMap<VariableId, TExpr>,
    types: &mut HashMap<VariableId, Type>,
    gen: &mut VarGen,
) -> (r: Result<(), CompileError>)
    ensures
        match r {
            Ok(()) => old(gen)@ + 2 <= u32::MAX && registered(
                "iter"@,
                IntrinsicKind::Iter,
                iter_type((old(gen)@ + 1) as VariableId),
                (
                    old(globals)@,
                    bindings_view(old(bindings)@),
                    types_view(old(types)@),
                    old(gen)@,
                ),
                (
                    final(globals)@,
                    bindings_view(final(bindings)@),
                    types_view(final(types)@),
                    final(gen)@,
                ),
            ),
            Err(e) => old(gen)@ + 2 > u32::MAX && e@ == ErrorView::IdentifiersExhausted,
        },
{
    let id = gen.try_generate_id()?;
    let arg = gen.try_generate_id()?;
    let over_functions = Type::Function(
        Box::new(iterated_function_type_of(arg)),
        Box::new(iterated_function_type_of(arg)),
    );
    assert(over_functions@ == TypeView::Function(
        Box::new(iterated_function_type(arg)),
        Box::new(iterated_function_type(arg)),
    ));
    let ghost inner = over_functions@;
    let from_integers = Type::Function(Box::new(Type::Int), Box::new(over_functions));
    assert(from_integers@ == TypeView::Function(Box::new(TypeView::Int), Box::new(inner))) by {
        reveal_with_fuel(type_view, 2);
    }
    let imp_typ = Type::Forall(Variable::new(arg), Box::new(from_integers));
    assert(imp_typ@ == iter_type(arg));
    register("iter", IntrinsicKind::Iter, id, imp_typ, globals, bindings, types);
    Ok(())
}

impl Intrinsic {
    /// A built-in that has no argument yet.
    pub fn new(arity: usize, imp_typ: Type, imp: IntrinsicKind) -> (r: Intrinsic)
        ensures
            r.arity == arity,
            r.imp_typ@ == imp_typ@,
            r.imp == imp,
            texprs_view(r.args@) == Seq::<TExprView>::empty(),
    {
        let r = Intrinsic { arity, imp_typ, imp, args: Vec::new() };
        assert(texprs_view(r.args@) =~= Seq::<TExprView>::empty());
        r
    }

    /// Gives the built-in one more argument, and expands it if that was the
    /// last one.
    pub fn apply(
        &self,
        arg: TExpr,
        bindings: &HashMap<VariableId, TExpr>,
        prover_defs: &mut HashSet<VariableId>,
        gen: &mut VarGen,
        fuel: usize,
    ) -> (r: Result<TExpr, CompileError>)
        ensures
            expanded_as(
                apply_intrinsic(
                    (IntrinsicView {
                        arity: self.arity,
                        imp_typ: self.imp_typ@,
                        imp: self.imp,
                        args: texprs_view(self.args@),
                    }),
                    arg@,
                    bindings_view(bindings@),
                    old(prover_defs)@,
                    old(gen)@,
                    fuel as nat,
                ),
                r,
                final(prover_defs)@,
                final(gen)@,
            ),
    {
        let mut args = clone_texprs(&self.args);
        assert(texprs_view(args@).len() == args.len());
        assert(texprs_view(self.args@).len() == self.args.len());
        push_texpr(&mut args, arg);
        if args.len() < self.arity {
            Ok(
                TExpr::untyped(
                    Expr::Intrinsic(
                        Intrinsic {
                            arity: self.arity,
                            imp_typ: clone_type(&self.imp_typ),
                            imp: self.imp,
                            args,
                        },
                    ),
                ),
            )
        } else {
            match self.imp {
                IntrinsicKind::Fresh => expand_fresh_intrinsic(&args, prover_defs, gen),
                IntrinsicKind::Iter => expand_iter_intrinsic(
                    &args,
                    bindings,
                    prover_defs,
                    gen,
                    fuel,
                ),
            }
        }
    }
}

} // verus!
