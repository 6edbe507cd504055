//! Inference of a whole expression: generation followed by unification.
use vstd::prelude::*;
use crate::generate::{constraints_of, generate_constraints, generated, well_formed};
use crate::inference::{
    equate, is_placeholder, occurs, subst_constraints, subst_entries, Constraint, InferError,
    Substitution, Term,
};
use crate::types::{BinExp, Expr, Operation};
use crate::unify::{solve, step, unify, view_result};

verus! {

/// What inference gives for `e`: the solution of its constraints from an
/// empty substitution, or the error met on the way.
pub open spec fn inferred(e: Expr) -> Result<Seq<Substitution>, InferError> {
    match generated(e) {
        Ok(cs) => solve(cs, Seq::empty()),
        Err(x) => Err(x),
    }
}

/// The substitution that gives the type of each sub-expression of `expr` and
/// of each variable in it, as `inferred` says.
pub fn infer_types(expr: &Expr) -> (r: Result<Vec<Substitution>, InferError>)
    ensures
        view_result(r) == inferred(*expr),
{
    match generate_constraints(expr) {
        Ok(cons) => unify(cons, Vec::new()),
        Err(e) => Err(e),
    }
}

/// The entry `e = t`.
pub open spec fn entry(e: Expr, t: Term) -> Substitution {
    Substitution { var: Term::Expr(e), is: t }
}

/// Solving the one constraint `p = t`, for a placeholder `p` and a base type
/// `t`, records that entry and nothing else.
proof fn lemma_solve_single(e: Expr, t: Term)
    requires
        t is Num || t is Bool,
    ensures
        solve(seq![equate(Term::Expr(e), t)], Seq::empty()) == Ok::<Seq<Substitution>, InferError>(
            seq![entry(e, t)],
        ),
{
    let cs = seq![equate(Term::Expr(e), t)];
    let none = Seq::<Constraint>::empty();
    let nosubs = Seq::<Substitution>::empty();
    assert(cs.drop_first() =~= none);
    assert(subst_constraints(Term::Expr(e), t, none) =~= none);
    assert(subst_entries(Term::Expr(e), t, nosubs).push(entry(e, t)) =~= seq![entry(e, t)]);
    assert(!occurs(Term::Expr(e), t));
    assert(step(cs, nosubs) == Ok::<(Seq<Constraint>, Seq<Substitution>), InferError>(
        (none, seq![entry(e, t)]),
    ));
    assert(solve(none, seq![entry(e, t)]) == Ok::<Seq<Substitution>, InferError>(seq![entry(e, t)]));
}

/// A numeric literal is inferred to be a number, and nothing else is recorded.
pub proof fn lemma_number_literal(n: i64)
    ensures
        inferred(Expr::Number(n)) == Ok::<Seq<Substitution>, InferError>(
            seq![entry(Expr::Number(n), Term::Num)],
        ),
{
    lemma_solve_single(Expr::Number(n), Term::Num);
}

/// A boolean literal is inferred to be a boolean, and nothing else is recorded.
pub proof fn lemma_bool_literal(b: bool)
    ensures
        inferred(Expr::Bool(b)) == Ok::<Seq<Substitution>, InferError>(
            seq![entry(Expr::Bool(b), Term::Bool)],
        ),
{
    lemma_solve_single(Expr::Bool(b), Term::Bool);
}

/// A step that eliminates the placeholder `v` of the first constraint `v = t`.
proof fn lemma_eliminate_first(v: Term, t: Term, cs: Seq<Constraint>, subs: Seq<Substitution>)
    requires
        cs.len() > 0,
        cs[0] == equate(v, t),
        is_placeholder(v),
        v != t,
        !occurs(v, t),
    ensures
        solve(cs, subs) == solve(
            subst_constraints(v, t, cs.drop_first()),
            subst_entries(v, t, subs).push(Substitution { var: v, is: t }),
        ),
{
}

/// A step that drops a first constraint whose sides are equal.
proof fn lemma_drop_first(cs: Seq<Constraint>, subs: Seq<Substitution>)
    requires
        cs.len() > 0,
        cs[0].lhs == cs[0].rhs,
    ensures
        solve(cs, subs) == solve(cs.drop_first(), subs),
{
}

/// The sum of two numeric literals: both operands and the sum are inferred
/// to be numbers, and nothing else is recorded (one entry serves both operands
/// when they are the same literal).
pub proof fn lemma_sum_of_numbers(a: i64, b: i64)
    ensures
        ({
            let l = Expr::Number(a);
            let r = Expr::Number(b);
            let e = Expr::Binary(BinExp { left: Box::new(l), operator: Operation::Add, right: Box::new(r) });
            inferred(e) == Ok::<Seq<Substitution>, InferError>(
                if a == b {
                    seq![entry(l, Term::Num), entry(e, Term::Num)]
                } else {
                    seq![entry(l, Term::Num), entry(r, Term::Num), entry(e, Term::Num)]
                },
            )
        }),
{
    let l = Expr::Number(a);
    let r = Expr::Number(b);
    let e = Expr::Binary(BinExp { left: Box::new(l), operator: Operation::Add, right: Box::new(r) });
    let pl = Term::Expr(l);
    let pr = Term::Expr(r);
    let pe = Term::Expr(e);
    let n = Term::Num;
    let nn = equate(n, n);
    let none = Seq::<Substitution>::empty();
    let cs0 = constraints_of(e);
    assert(well_formed(l) && well_formed(r));
    assert(well_formed(e));
    assert(constraints_of(l) == seq![equate(pl, n)]);
    assert(constraints_of(r) == seq![equate(pr, n)]);
    assert(cs0 =~= seq![equate(pl, n), equate(pr, n), equate(pl, n), equate(pr, n), equate(pe, n)]);
    let s1 = seq![entry(l, n)];
    lemma_eliminate_first(pl, n, cs0, none);
    assert(subst_entries(pl, n, none).push(entry(l, n)) =~= s1);
    if a != b {
        let cs1 = seq![equate(pr, n), nn, equate(pr, n), equate(pe, n)];
        assert(subst_constraints(pl, n, cs0.drop_first()) =~= cs1);
        let s2 = seq![entry(l, n), entry(r, n)];
        lemma_eliminate_first(pr, n, cs1, s1);
        assert(subst_entries(pr, n, s1).push(entry(r, n)) =~= s2);
        let cs2 = seq![nn, nn, equate(pe, n)];
        assert(subst_constraints(pr, n, cs1.drop_first()) =~= cs2);
        lemma_drop_first(cs2, s2);
        assert(cs2.drop_first() =~= seq![nn, equate(pe, n)]);
        lemma_drop_first(seq![nn, equate(pe, n)], s2);
        assert(seq![nn, equate(pe, n)].drop_first() =~= seq![equate(pe, n)]);
        let s3 = seq![entry(l, n), entry(r, n), entry(e, n)];
        lemma_eliminate_first(pe, n, seq![equate(pe, n)], s2);
        assert(subst_entries(pe, n, s2).push(entry(e, n)) =~= s3);
        assert(subst_constraints(pe, n, seq![equate(pe, n)].drop_first()) =~= Seq::<Constraint>::empty());
    } else {
        let cs1 = seq![nn, nn, nn, equate(pe, n)];
        assert(subst_constraints(pl, n, cs0.drop_first()) =~= cs1);
        lemma_drop_first(cs1, s1);
        assert(cs1.drop_first() =~= seq![nn, nn, equate(pe, n)]);
        lemma_drop_first(seq![nn, nn, equate(pe, n)], s1);
        assert(seq![nn, nn, equate(pe, n)].drop_first() =~= seq![nn, equate(pe, n)]);
        lemma_drop_first(seq![nn, equate(pe, n)], s1);
        assert(seq![nn, equate(pe, n)].drop_first() =~= seq![equate(pe, n)]);
        let s2 = seq![entry(l, n), entry(e, n)];
        lemma_eliminate_first(pe, n, seq![equate(pe, n)], s1);
        assert(subst_entries(pe, n, s1).push(entry(e, n)) =~= s2);
        assert(subst_constraints(pe, n, seq![equate(pe, n)].drop_first()) =~= Seq::<Constraint>::empty());
    }
}

} // verus!
