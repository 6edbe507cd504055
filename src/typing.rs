//! The typing rules of the language over type terms, and what inference
//! means for them: the substitution it finds is a principal typing, and when
//! it fails there is no typing at all.
use vstd::prelude::*;
use crate::generate::{constraints_of, well_formed};
use crate::infer::inferred;
use crate::inference::{arrow, is_placeholder, Constraint, InferError, Substitution, Term};
use crate::principal::{
    instantiate, lemma_failure_has_no_unifier, lemma_solution_principal, resolve, unifies,
};
use crate::types::{BinExp, CallExp, Expr, FunExp, IfExp, Operation, Type};
use crate::unify::as_constraints;

verus! {

/// The type that `theta` gives to the node `e`.
pub open spec fn type_of(theta: spec_fn(Term) -> Term, e: Expr) -> Term {
    instantiate(theta, Term::Expr(e))
}

/// Under `theta`, every node of `e` meets its typing rule: a literal has its
/// base type, a variable node the type of its variable, an arithmetic node
/// and both its operands are numbers, a conditional has a boolean condition
/// and the type of each branch, a function `fn(x) = b` has the type
/// `x -> b`, and the function of a call `f(a)` has the type `a -> f(a)`.
pub open spec fn well_typed(theta: spec_fn(Term) -> Term, e: Expr) -> bool
    decreases e,
{
    match e {
        Expr::Number(_) => type_of(theta, e) == Term::Num,
        Expr::Bool(_) => type_of(theta, e) == Term::Bool,
        Expr::Variable(x) => type_of(theta, e) == instantiate(theta, Term::Var(x)),
        Expr::Binary(b) => {
            &&& type_of(theta, *b.left) == Term::Num
            &&& type_of(theta, *b.right) == Term::Num
            &&& type_of(theta, e) == Term::Num
            &&& well_typed(theta, *b.left)
            &&& well_typed(theta, *b.right)
        },
        Expr::Conditional(c) => {
            &&& type_of(theta, *c.condition) == Term::Bool
            &&& type_of(theta, e) == type_of(theta, *c.then_branch)
            &&& type_of(theta, e) == type_of(theta, *c.elze)
            &&& well_typed(theta, *c.condition)
            &&& well_typed(theta, *c.then_branch)
            &&& well_typed(theta, *c.elze)
        },
        Expr::Function(f) => {
            &&& (*f.argument matches Expr::Variable(x) && type_of(theta, e) == arrow(
                instantiate(theta, Term::Var(x)),
                type_of(theta, *f.body),
            ))
            &&& well_typed(theta, *f.body)
        },
        Expr::Call(c) => {
            &&& type_of(theta, *c.caller) == arrow(
                type_of(theta, *c.callee),
                type_of(theta, e),
            )
            &&& well_typed(theta, *c.caller)
            &&& well_typed(theta, *c.callee)
        },
    }
}

proof fn lemma_unifies_append(theta: spec_fn(Term) -> Term, a: Seq<Constraint>, b: Seq<Constraint>)
    ensures
        unifies(theta, a + b) == (unifies(theta, a) && unifies(theta, b)),
{
    let s = a + b;
    if unifies(theta, s) {
        assert forall|i: int| 0 <= i < a.len() implies instantiate(theta, (#[trigger] a[i]).lhs)
            == instantiate(theta, a[i].rhs) by {
            assert(s[i] == a[i]);
        }
        assert forall|i: int| 0 <= i < b.len() implies instantiate(theta, (#[trigger] b[i]).lhs)
            == instantiate(theta, b[i].rhs) by {
            assert(s[a.len() + i] == b[i]);
        }
    }
    if unifies(theta, a) && unifies(theta, b) {
        assert forall|i: int| 0 <= i < s.len() implies instantiate(theta, (#[trigger] s[i]).lhs)
            == instantiate(theta, s[i].rhs) by {
            if i < a.len() {
                assert(s[i] == a[i]);
            } else {
                assert(s[i] == b[i - a.len()]);
            }
        }
    }
}

/// A map unifies the constraints of a well-formed expression exactly when it
/// types the expression.
proof fn lemma_unifies_iff_well_typed(theta: spec_fn(Term) -> Term, e: Expr)
    requires
        well_formed(e),
    ensures
        unifies(theta, constraints_of(e)) == well_typed(theta, e),
    decreases e,
{
    let own = constraints_of(e);
    match e {
        Expr::Binary(b) => {
            lemma_unifies_iff_well_typed(theta, *b.left);
            lemma_unifies_iff_well_typed(theta, *b.right);
            let tail = own.subrange(own.len() - 3, own.len() as int);
            lemma_unifies_append(theta, constraints_of(*b.left), constraints_of(*b.right));
            lemma_unifies_append(theta, constraints_of(*b.left) + constraints_of(*b.right), tail);
            assert(own =~= constraints_of(*b.left) + constraints_of(*b.right) + tail);
            assert(unifies(theta, tail) == (tail[0].lhs == tail[0].lhs && instantiate(
                theta,
                tail[0].lhs,
            ) == instantiate(theta, tail[0].rhs) && instantiate(theta, tail[1].lhs) == instantiate(
                theta,
                tail[1].rhs,
            ) && instantiate(theta, tail[2].lhs) == instantiate(theta, tail[2].rhs)));
        },
        Expr::Conditional(c) => {
            lemma_unifies_iff_well_typed(theta, *c.condition);
            lemma_unifies_iff_well_typed(theta, *c.then_branch);
            lemma_unifies_iff_well_typed(theta, *c.elze);
            let tail = own.subrange(own.len() - 3, own.len() as int);
            let kids = constraints_of(*c.condition) + constraints_of(*c.then_branch)
                + constraints_of(*c.elze);
            lemma_unifies_append(theta, constraints_of(*c.condition), constraints_of(*c.then_branch));
            lemma_unifies_append(
                theta,
                constraints_of(*c.condition) + constraints_of(*c.then_branch),
                constraints_of(*c.elze),
            );
            lemma_unifies_append(theta, kids, tail);
            assert(own =~= kids + tail);
            assert(unifies(theta, tail) == (tail[0].lhs == tail[0].lhs && instantiate(
                theta,
                tail[0].lhs,
            ) == instantiate(theta, tail[0].rhs) && instantiate(theta, tail[1].lhs) == instantiate(
                theta,
                tail[1].rhs,
            ) && instantiate(theta, tail[2].lhs) == instantiate(theta, tail[2].rhs)));
        },
        Expr::Function(f) => {
            lemma_unifies_iff_well_typed(theta, *f.body);
            let tail = own.subrange(own.len() - 1, own.len() as int);
            lemma_unifies_append(theta, constraints_of(*f.body), tail);
            assert(own =~= constraints_of(*f.body) + tail);
            assert(unifies(theta, tail) == (tail[0].lhs == tail[0].lhs && instantiate(
                theta,
                tail[0].lhs,
            ) == instantiate(theta, tail[0].rhs)));
        },
        Expr::Call(c) => {
            lemma_unifies_iff_well_typed(theta, *c.caller);
            lemma_unifies_iff_well_typed(theta, *c.callee);
            let tail = own.subrange(own.len() - 1, own.len() as int);
            lemma_unifies_append(theta, constraints_of(*c.caller), constraints_of(*c.callee));
            lemma_unifies_append(theta, constraints_of(*c.caller) + constraints_of(*c.callee), tail);
            assert(own =~= constraints_of(*c.caller) + constraints_of(*c.callee) + tail);
            assert(unifies(theta, tail) == (tail[0].lhs == tail[0].lhs && instantiate(
                theta,
                tail[0].lhs,
            ) == instantiate(theta, tail[0].rhs)));
        },
        _ => {
            assert(unifies(theta, own) == (own[0].lhs == own[0].lhs && instantiate(
                theta,
                own[0].lhs,
            ) == instantiate(theta, own[0].rhs)));
        },
    }
}

/// When inference succeeds, its substitution is a principal typing of the
/// expression: the map that sends each entry's `var` to its `is` types every
/// node by the rules, and a map types every node by the rules exactly when it
/// makes both sides of every entry equal.
pub proof fn lemma_inference_principal(e: Expr, subs: Seq<Substitution>, theta: spec_fn(Term) -> Term)
    requires
        inferred(e) == Ok::<Seq<Substitution>, InferError>(subs),
    ensures
        well_typed(resolve(subs), e),
        well_typed(theta, e) == unifies(theta, as_constraints(subs)),
{
    assert(well_formed(e));
    lemma_solution_principal(constraints_of(e), subs, theta);
    lemma_unifies_iff_well_typed(theta, e);
    lemma_unifies_iff_well_typed(resolve(subs), e);
}

/// When inference fails on an expression whose functions all take a
/// variable, no map of the placeholders types it by the rules.
pub proof fn lemma_inference_failure(e: Expr, theta: spec_fn(Term) -> Term)
    requires
        well_formed(e),
        inferred(e) is Err,
    ensures
        !well_typed(theta, e),
{
    lemma_failure_has_no_unifier(constraints_of(e), theta);
    lemma_unifies_iff_well_typed(theta, e);
}

/// A conditional that infers has a boolean condition, and both of its
/// branches have the conditional's type.
pub proof fn lemma_conditional_typing(c: IfExp, subs: Seq<Substitution>)
    requires
        inferred(Expr::Conditional(c)) == Ok::<Seq<Substitution>, InferError>(subs),
    ensures
        type_of(resolve(subs), *c.condition) == Term::Bool,
        type_of(resolve(subs), *c.then_branch) == type_of(resolve(subs), Expr::Conditional(c)),
        type_of(resolve(subs), *c.elze) == type_of(resolve(subs), Expr::Conditional(c)),
{
    lemma_inference_principal(Expr::Conditional(c), subs, resolve(subs));
}

/// A conditional fails to infer when its condition is a numeric literal, or
/// when one branch is a boolean literal and the other a numeric literal.
pub proof fn lemma_conditional_mismatch(c: IfExp)
    requires
        *c.condition is Number || (*c.then_branch is Bool && *c.elze is Number) || (
        *c.then_branch is Number && *c.elze is Bool),
    ensures
        inferred(Expr::Conditional(c)) is Err,
{
    if let Ok(subs) = inferred(Expr::Conditional(c)) {
        let theta = resolve(subs);
        lemma_inference_principal(Expr::Conditional(c), subs, theta);
        assert(well_typed(theta, *c.condition) && well_typed(theta, *c.then_branch) && well_typed(
            theta,
            *c.elze,
        ));
    }
}

/// Inference succeeds on every expression whose functions all take a
/// variable and that some map of the placeholders types by the rules.
pub proof fn lemma_typable_infers(e: Expr, theta: spec_fn(Term) -> Term)
    requires
        well_formed(e),
        well_typed(theta, e),
    ensures
        inferred(e) is Ok,
{
    if inferred(e) is Err {
        lemma_inference_failure(e, theta);
    }
}

/// `subs` holds the entry `p = t`.
pub open spec fn has_entry(subs: Seq<Substitution>, p: Term, t: Term) -> bool {
    exists|i: int| 0 <= i < subs.len() && subs[i] == (Substitution { var: p, is: t })
}

/// Where the map of a substitution sends a placeholder somewhere else, the
/// substitution holds that entry.
proof fn lemma_resolved_entry(subs: Seq<Substitution>, p: Term, t: Term)
    requires
        is_placeholder(p),
        resolve(subs)(p) == t,
        t != p,
    ensures
        has_entry(subs, p, t),
{
    let i = choose|i: int| 0 <= i < subs.len() && (#[trigger] subs[i]).var == p;
    assert(subs[i] == (Substitution { var: p, is: t }));
}

/// The function `fn(x) = x + 2`, with the annotation `ann` on its argument.
pub open spec fn add_two(ann: Type) -> Expr {
    let x = Expr::Variable('x');
    let body = Expr::Binary(BinExp { left: Box::new(x), operator: Operation::Add, right: Box::new(Expr::Number(2)) });
    Expr::Function(FunExp { argument: Box::new(x), arg_type: ann, body: Box::new(body) })
}

/// The application of `fn(x) = x + 2` to `a`.
pub open spec fn apply_add_two(ann: Type, a: Expr) -> Expr {
    Expr::Call(CallExp { caller: Box::new(add_two(ann)), callee: Box::new(a) })
}

/// Applying `fn(x) = x + 2` to a numeric literal infers, and records that the
/// application is a number; applying it to a boolean literal or to a function
/// fails; and whenever an application of it infers, its argument and the
/// application are numbers.
pub proof fn lemma_apply_add_two(ann: Type, a: Expr)
    ensures
        a is Number ==> inferred(apply_add_two(ann, a)) is Ok && has_entry(
            inferred(apply_add_two(ann, a))->Ok_0,
            Term::Expr(apply_add_two(ann, a)),
            Term::Num,
        ),
        a is Bool || a is Function ==> inferred(apply_add_two(ann, a)) is Err,
        inferred(apply_add_two(ann, a)) is Ok ==> type_of(
            resolve(inferred(apply_add_two(ann, a))->Ok_0),
            a,
        ) == Term::Num && type_of(
            resolve(inferred(apply_add_two(ann, a))->Ok_0),
            apply_add_two(ann, a),
        ) == Term::Num,
{
    let f = add_two(ann);
    let c = apply_add_two(ann, a);
    let body = *f->Function_0.body;
    let x = Expr::Variable('x');
    if let Ok(subs) = inferred(c) {
        let theta = resolve(subs);
        lemma_inference_principal(c, subs, theta);
        assert(well_typed(theta, f) && well_typed(theta, a));
        assert(well_typed(theta, body));
        assert(well_typed(theta, x));
        if a is Number {
            lemma_resolved_entry(subs, Term::Expr(c), Term::Num);
        }
    }
    if a is Number {
        let n = Term::Num;
        let theta = |p: Term|
            if p == Term::Expr(f) {
                arrow(n, n)
            } else {
                n
            };
        assert(well_typed(theta, x));
        assert(well_typed(theta, Expr::Number(2)));
        assert(well_typed(theta, body));
        assert(well_typed(theta, f));
        assert(well_typed(theta, a));
        assert(well_formed(x) && well_formed(Expr::Number(2)));
        assert(well_formed(body));
        assert(well_formed(f) && well_formed(a));
        lemma_typable_infers(c, theta);
    }
}

} // verus!
