//! What the solver's outcome means: on success a most general unifier of the
//! constraints, on failure a proof that none exists.
use vstd::prelude::*;
use crate::inference::{
    arrow, constraint_vars, constraints_size, equate, is_placeholder, occurs, subst_constraint,
    subst_constraints, subst_entries, subst_entry, subst_term, term_size, term_vars, Constraint,
    InferError, Substitution, Term,
};
use crate::unify::{as_constraints, lemma_solution_solved, lemma_step_decreases, solve, solved_form, step};

verus! {

/// `t` with every placeholder `p` in it replaced by `theta(p)`.
pub open spec fn instantiate(theta: spec_fn(Term) -> Term, t: Term) -> Term
    decreases t,
{
    match t {
        Term::Arrow(a) => arrow(instantiate(theta, *a.domain), instantiate(theta, *a.range)),
        Term::Expr(_) => theta(t),
        Term::Var(_) => theta(t),
        _ => t,
    }
}

/// `theta` makes the two sides of every constraint of `cs` equal.
pub open spec fn unifies(theta: spec_fn(Term) -> Term, cs: Seq<Constraint>) -> bool {
    forall|i: int|
        0 <= i < cs.len() ==> instantiate(theta, (#[trigger] cs[i]).lhs) == instantiate(
            theta,
            cs[i].rhs,
        )
}

/// The map that sends the `var` of each entry of `subs` to its `is`, and
/// every other term to itself.
pub open spec fn resolve(subs: Seq<Substitution>) -> spec_fn(Term) -> Term {
    |p: Term|
        if exists|i: int| 0 <= i < subs.len() && (#[trigger] subs[i]).var == p {
            subs[choose|i: int| 0 <= i < subs.len() && (#[trigger] subs[i]).var == p].is
        } else {
            p
        }
}

/// Replacing `v` by a term that `theta` makes equal to it keeps the image.
proof fn lemma_instantiate_subst(theta: spec_fn(Term) -> Term, v: Term, t: Term, u: Term)
    requires
        is_placeholder(v),
        instantiate(theta, v) == instantiate(theta, t),
    ensures
        instantiate(theta, subst_term(v, t, u)) == instantiate(theta, u),
    decreases u,
{
    if let Term::Arrow(a) = u {
        lemma_instantiate_subst(theta, v, t, *a.domain);
        lemma_instantiate_subst(theta, v, t, *a.range);
    }
}

/// A term is at least as large, once instantiated, as any placeholder in it.
proof fn lemma_instantiate_size(theta: spec_fn(Term) -> Term, v: Term, t: Term)
    requires
        is_placeholder(v),
        occurs(v, t),
    ensures
        term_size(instantiate(theta, t)) >= term_size(instantiate(theta, v)),
        t != v ==> term_size(instantiate(theta, t)) > term_size(instantiate(theta, v)),
    decreases t,
{
    if let Term::Arrow(a) = t {
        if occurs(v, *a.domain) {
            lemma_instantiate_size(theta, v, *a.domain);
        } else {
            lemma_instantiate_size(theta, v, *a.range);
        }
    }
}

/// A map that fixes every placeholder of `t` fixes `t`.
proof fn lemma_instantiate_fixed(theta: spec_fn(Term) -> Term, t: Term)
    requires
        forall|p: Term| #[trigger] term_vars(t).contains(p) ==> theta(p) == p,
    ensures
        instantiate(theta, t) == t,
    decreases t,
{
    if let Term::Arrow(a) = t {
        assert forall|p: Term| #[trigger] term_vars(*a.domain).contains(p) implies theta(p) == p by {
            assert(term_vars(t).contains(p));
        }
        assert forall|p: Term| #[trigger] term_vars(*a.range).contains(p) implies theta(p) == p by {
            assert(term_vars(t).contains(p));
        }
        lemma_instantiate_fixed(theta, *a.domain);
        lemma_instantiate_fixed(theta, *a.range);
    } else if is_placeholder(t) {
        assert(term_vars(t).contains(t));
    }
}

/// A step that succeeds keeps the maps that unify the queue and the
/// substitution together.
proof fn lemma_step_keeps_unifiers(
    theta: spec_fn(Term) -> Term,
    cs: Seq<Constraint>,
    subs: Seq<Substitution>,
)
    requires
        cs.len() > 0,
    ensures
        step(cs, subs) matches Ok((next, subs2)) ==> ((unifies(theta, cs) && unifies(
            theta,
            as_constraints(subs),
        )) == (unifies(theta, next) && unifies(theta, as_constraints(subs2)))),
{
    let left = cs[0].lhs;
    let right = cs[0].rhs;
    let rest = cs.drop_first();
    assert(unifies(theta, cs) == (instantiate(theta, left) == instantiate(theta, right) && unifies(
        theta,
        rest,
    ))) by {
        if unifies(theta, rest) && instantiate(theta, left) == instantiate(theta, right) {
            assert forall|i: int| 0 <= i < cs.len() implies instantiate(theta, (#[trigger] cs[i]).lhs)
                == instantiate(theta, cs[i].rhs) by {
                if i > 0 {
                    assert(cs[i] == rest[i - 1]);
                }
            }
        }
        if unifies(theta, cs) {
            assert forall|i: int| 0 <= i < rest.len() implies instantiate(
                theta,
                (#[trigger] rest[i]).lhs,
            ) == instantiate(theta, rest[i].rhs) by {
                assert(rest[i] == cs[i + 1]);
            }
        }
    }
    if let Ok((next, subs2)) = step(cs, subs) {
        if left == right {
            // The queue only lost a constraint that every map unifies.
        } else if is_placeholder(left) || is_placeholder(right) {
            let (v, t) = if is_placeholder(left) {
                (left, right)
            } else {
                (right, left)
            };
            let n = subs.len() as int;
            let old_entries = as_constraints(subs);
            let new_entries = as_constraints(subs2);
            assert(next == subst_constraints(v, t, rest));
            assert(subs2 == subst_entries(v, t, subs).push(Substitution { var: v, is: t }));
            assert(next.len() == rest.len());
            assert(new_entries.len() == n + 1);
            assert forall|i: int| 0 <= i < rest.len() implies #[trigger] next[i] == subst_constraint(
                v,
                t,
                rest[i],
            ) by {}
            assert forall|i: int| 0 <= i < n implies #[trigger] new_entries[i] == equate(
                subst_term(v, t, subs[i].var),
                subst_term(v, t, subs[i].is),
            ) && old_entries[i] == equate(subs[i].var, subs[i].is) by {
                assert(subs2[i] == subst_entry(v, t, subs[i]));
            }
            assert(new_entries[n] == equate(v, t));
            if instantiate(theta, v) == instantiate(theta, t) {
                assert forall|i: int| 0 <= i < rest.len() implies (instantiate(
                    theta,
                    (#[trigger] next[i]).lhs,
                ) == instantiate(theta, next[i].rhs)) == (instantiate(theta, rest[i].lhs)
                    == instantiate(theta, rest[i].rhs)) by {
                    lemma_instantiate_subst(theta, v, t, rest[i].lhs);
                    lemma_instantiate_subst(theta, v, t, rest[i].rhs);
                }
                assert forall|i: int| 0 <= i < n implies (instantiate(
                    theta,
                    (#[trigger] new_entries[i]).lhs,
                ) == instantiate(theta, new_entries[i].rhs)) == (instantiate(
                    theta,
                    old_entries[i].lhs,
                ) == instantiate(theta, old_entries[i].rhs)) by {
                    lemma_instantiate_subst(theta, v, t, subs[i].var);
                    lemma_instantiate_subst(theta, v, t, subs[i].is);
                }
                if unifies(theta, rest) {
                    assert(unifies(theta, next));
                }
                if unifies(theta, next) {
                    assert forall|i: int| 0 <= i < rest.len() implies instantiate(
                        theta,
                        (#[trigger] rest[i]).lhs,
                    ) == instantiate(theta, rest[i].rhs) by {
                        assert(next[i] == subst_constraint(v, t, rest[i]));
                        lemma_instantiate_subst(theta, v, t, rest[i].lhs);
                        lemma_instantiate_subst(theta, v, t, rest[i].rhs);
                    }
                }
                if unifies(theta, old_entries) {
                    assert(unifies(theta, new_entries));
                }
                if unifies(theta, new_entries) {
                    assert forall|i: int| 0 <= i < old_entries.len() implies instantiate(
                        theta,
                        (#[trigger] old_entries[i]).lhs,
                    ) == instantiate(theta, old_entries[i].rhs) by {
                        assert(new_entries[i] == equate(
                            subst_term(v, t, subs[i].var),
                            subst_term(v, t, subs[i].is),
                        ));
                        lemma_instantiate_subst(theta, v, t, subs[i].var);
                        lemma_instantiate_subst(theta, v, t, subs[i].is);
                    }
                }
            } else {
                assert(!unifies(theta, new_entries)) by {
                    assert(new_entries[n] == equate(v, t));
                }
            }
        } else {
            let a = left->Arrow_0;
            let b = right->Arrow_0;
            assert(next == seq![equate(*a.domain, *b.domain), equate(*a.range, *b.range)] + rest);
            assert(next[0] == equate(*a.domain, *b.domain));
            assert(next[1] == equate(*a.range, *b.range));
            assert forall|i: int| 0 <= i < rest.len() implies #[trigger] next[i + 2] == rest[i] by {}
            if unifies(theta, next) {
                assert forall|i: int| 0 <= i < rest.len() implies instantiate(
                    theta,
                    (#[trigger] rest[i]).lhs,
                ) == instantiate(theta, rest[i].rhs) by {
                    assert(next[i + 2] == rest[i]);
                }
            }
            if unifies(theta, cs) {
                assert forall|i: int| 0 <= i < next.len() implies instantiate(
                    theta,
                    (#[trigger] next[i]).lhs,
                ) == instantiate(theta, next[i].rhs) by {
                    if i >= 2 {
                        assert(next[i] == rest[i - 2]);
                    }
                }
            }
        }
    }
}

/// A step that fails shows that no map unifies the queue.
proof fn lemma_failed_step(theta: spec_fn(Term) -> Term, cs: Seq<Constraint>, subs: Seq<Substitution>)
    requires
        cs.len() > 0,
        step(cs, subs) is Err,
    ensures
        !unifies(theta, cs),
{
    let left = cs[0].lhs;
    let right = cs[0].rhs;
    if is_placeholder(left) {
        lemma_instantiate_size(theta, left, right);
    } else if is_placeholder(right) {
        lemma_instantiate_size(theta, right, left);
    }
}

proof fn lemma_solve_unifiers(theta: spec_fn(Term) -> Term, cs: Seq<Constraint>, subs: Seq<Substitution>)
    ensures
        solve(cs, subs) matches Ok(r) ==> ((unifies(theta, cs) && unifies(
            theta,
            as_constraints(subs),
        )) == unifies(theta, as_constraints(r))),
        solve(cs, subs) is Err ==> !(unifies(theta, cs) && unifies(theta, as_constraints(subs))),
    decreases constraint_vars(cs).len(), constraints_size(cs),
{
    if cs.len() > 0 {
        lemma_step_decreases(cs, subs);
        lemma_step_keeps_unifiers(theta, cs, subs);
        if let Ok((next, subs2)) = step(cs, subs) {
            lemma_solve_unifiers(theta, next, subs2);
        } else {
            lemma_failed_step(theta, cs, subs);
        }
    }
}

/// A substitution in solved form is unified by the map that sends each
/// entry's `var` to its `is`.
proof fn lemma_resolve_unifies(subs: Seq<Substitution>)
    requires
        solved_form(subs),
    ensures
        unifies(resolve(subs), as_constraints(subs)),
{
    let theta = resolve(subs);
    let cs = as_constraints(subs);
    assert forall|i: int| 0 <= i < cs.len() implies instantiate(theta, (#[trigger] cs[i]).lhs)
        == instantiate(theta, cs[i].rhs) by {
        let v = subs[i].var;
        assert(cs[i] == equate(v, subs[i].is));
        assert(is_placeholder(v));
        let j = choose|j: int| 0 <= j < subs.len() && (#[trigger] subs[j]).var == v;
        assert(subs[j] == subs[j] && subs[i] == subs[i]);
        assert(j == i);
        assert forall|p: Term| #[trigger] term_vars(subs[i].is).contains(p) implies theta(p) == p by {
            if exists|k: int| 0 <= k < subs.len() && (#[trigger] subs[k]).var == p {
                let k = choose|k: int| 0 <= k < subs.len() && (#[trigger] subs[k]).var == p;
                assert(subs[k] == subs[k] && subs[i] == subs[i]);
            }
        }
        lemma_instantiate_fixed(theta, subs[i].is);
    }
}

/// On success, unification gives a most general unifier of the constraints:
/// a map of the placeholders makes both sides of every constraint equal
/// exactly when it makes both sides of every entry equal, and the map that
/// sends each entry's `var` to its `is` does so.
pub proof fn lemma_solution_principal(
    cs: Seq<Constraint>,
    subs: Seq<Substitution>,
    theta: spec_fn(Term) -> Term,
)
    requires
        solve(cs, Seq::empty()) == Ok::<Seq<Substitution>, InferError>(subs),
    ensures
        unifies(theta, cs) == unifies(theta, as_constraints(subs)),
        unifies(resolve(subs), cs),
{
    let none = Seq::<Substitution>::empty();
    assert(unifies(theta, as_constraints(none)));
    assert(unifies(resolve(subs), as_constraints(none)));
    lemma_solve_unifiers(theta, cs, none);
    lemma_solve_unifiers(resolve(subs), cs, none);
    lemma_solution_solved(cs, subs);
    lemma_resolve_unifies(subs);
}

/// When unification fails, no map of the placeholders makes both sides of
/// every constraint equal.
pub proof fn lemma_failure_has_no_unifier(cs: Seq<Constraint>, theta: spec_fn(Term) -> Term)
    requires
        solve(cs, Seq::empty()) is Err,
    ensures
        !unifies(theta, cs),
{
    let none = Seq::<Substitution>::empty();
    assert(unifies(theta, as_constraints(none)));
    lemma_solve_unifiers(theta, cs, none);
}

} // verus!
