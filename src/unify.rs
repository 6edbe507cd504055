//! The unifier: solves a queue of constraints into a substitution.
use vstd::prelude::*;
use vstd::set_lib::lemma_len_subset;
use crate::inference::{
    constraint_vars, constraints_size, equate, is_placeholder, occurs, subst_constraint,
    subst_constraints, subst_entries, subst_entry, subst_term, term_size, term_vars, ArrowType,
    Constraint, InferError, Substitution, Term,
};

verus! {

/// The state of the solver: the constraints still to solve, front first, and
/// the substitution found so far.
pub struct Types {
    pub constraints: Vec<Constraint>,
    pub substitutions: Vec<Substitution>,
}

/// Eliminates the placeholder `v`, known to equal `t`: fails if `v` occurs in
/// `t`; else replaces `v` by `t` in the remaining constraints `rest` and in the
/// substitution `subs`, and records `v = t` at its end.
pub open spec fn eliminate(v: Term, t: Term, rest: Seq<Constraint>, subs: Seq<Substitution>) -> Result<
    (Seq<Constraint>, Seq<Substitution>),
    InferError,
> {
    if occurs(v, t) {
        Err(InferError::OccursCheck(v, t))
    } else {
        Ok((subst_constraints(v, t, rest), subst_entries(v, t, subs).push(Substitution { var: v, is: t })))
    }
}

/// One step of the solver on the non-empty queue `cs`: takes its first
/// constraint and drops it when both sides are equal, eliminates a placeholder
/// side (the left one first), splits two arrows into their domains and their
/// ranges at the front of the queue, and fails on any other pair.
pub open spec fn step(cs: Seq<Constraint>, subs: Seq<Substitution>) -> Result<
    (Seq<Constraint>, Seq<Substitution>),
    InferError,
>
    recommends
        cs.len() > 0,
{
    let left = cs[0].lhs;
    let right = cs[0].rhs;
    let rest = cs.drop_first();
    if left == right {
        Ok((rest, subs))
    } else if is_placeholder(left) {
        eliminate(left, right, rest, subs)
    } else if is_placeholder(right) {
        eliminate(right, left, rest, subs)
    } else {
        match (left, right) {
            (Term::Arrow(a), Term::Arrow(b)) => Ok(
                (seq![equate(*a.domain, *b.domain), equate(*a.range, *b.range)] + rest, subs),
            ),
            _ => Err(InferError::Mismatch(left, right)),
        }
    }
}

/// The outcome of solving the queue `cs` from the substitution `subs`: steps
/// until the queue is empty (the substitution then reached) or a step fails.
pub open spec fn solve(cs: Seq<Constraint>, subs: Seq<Substitution>) -> Result<
    Seq<Substitution>,
    InferError,
>
    decreases constraint_vars(cs).len(), constraints_size(cs),
{
    if cs.len() == 0 {
        Ok(subs)
    } else {
        proof {
            lemma_step_decreases(cs, subs);
        }
        match step(cs, subs) {
            Ok((next, subs2)) => solve(next, subs2),
            Err(e) => Err(e),
        }
    }
}

/// The outcome `r` as sequences.
pub open spec fn view_result(r: Result<Vec<Substitution>, InferError>) -> Result<
    Seq<Substitution>,
    InferError,
> {
    match r {
        Ok(v) => Ok(v@),
        Err(e) => Err(e),
    }
}

proof fn lemma_term_vars_finite(t: Term)
    ensures
        term_vars(t).finite(),
    decreases t,
{
    if let Term::Arrow(a) = t {
        lemma_term_vars_finite(*a.domain);
        lemma_term_vars_finite(*a.range);
    }
}

proof fn lemma_constraint_vars_finite(cs: Seq<Constraint>)
    ensures
        constraint_vars(cs).finite(),
    decreases cs.len(),
{
    if cs.len() > 0 {
        lemma_term_vars_finite(cs[0].lhs);
        lemma_term_vars_finite(cs[0].rhs);
        lemma_constraint_vars_finite(cs.drop_first());
    }
}

/// For a placeholder, occurring is being one of the term's placeholders.
proof fn lemma_occurs_vars(v: Term, t: Term)
    requires
        is_placeholder(v),
    ensures
        occurs(v, t) == term_vars(t).contains(v),
    decreases t,
{
    if let Term::Arrow(a) = t {
        lemma_occurs_vars(v, *a.domain);
        lemma_occurs_vars(v, *a.range);
    }
}

proof fn lemma_subst_vars(v: Term, by: Term, t: Term)
    requires
        is_placeholder(v),
    ensures
        term_vars(subst_term(v, by, t)).subset_of(term_vars(t).remove(v) + term_vars(by)),
    decreases t,
{
    if let Term::Arrow(a) = t {
        lemma_subst_vars(v, by, *a.domain);
        lemma_subst_vars(v, by, *a.range);
    }
}

proof fn lemma_subst_constraints_vars(v: Term, by: Term, cs: Seq<Constraint>)
    requires
        is_placeholder(v),
    ensures
        constraint_vars(subst_constraints(v, by, cs)).subset_of(
            constraint_vars(cs).remove(v) + term_vars(by),
        ),
    decreases cs.len(),
{
    let s = subst_constraints(v, by, cs);
    if cs.len() > 0 {
        assert(s[0] == subst_constraint(v, by, cs[0]));
        assert(s.drop_first() =~= subst_constraints(v, by, cs.drop_first()));
        lemma_subst_vars(v, by, cs[0].lhs);
        lemma_subst_vars(v, by, cs[0].rhs);
        lemma_subst_constraints_vars(v, by, cs.drop_first());
    }
}

proof fn lemma_constraint_vars_append(a: Seq<Constraint>, b: Seq<Constraint>)
    ensures
        constraint_vars(a + b) == constraint_vars(a) + constraint_vars(b),
        constraints_size(a + b) == constraints_size(a) + constraints_size(b),
    decreases a.len(),
{
    if a.len() == 0 {
        assert(a + b =~= b);
        assert(constraint_vars(a + b) =~= constraint_vars(a) + constraint_vars(b));
    } else {
        assert((a + b)[0] == a[0]);
        assert((a + b).drop_first() =~= a.drop_first() + b);
        lemma_constraint_vars_append(a.drop_first(), b);
        assert(constraint_vars(a + b) =~= constraint_vars(a) + constraint_vars(b));
    }
}

proof fn lemma_pair_vars(c: Constraint, d: Constraint)
    ensures
        constraint_vars(seq![c, d]) == term_vars(c.lhs) + term_vars(c.rhs) + term_vars(d.lhs)
            + term_vars(d.rhs),
        constraints_size(seq![c, d]) == term_size(c.lhs) + term_size(c.rhs) + term_size(d.lhs)
            + term_size(d.rhs),
{
    let s = seq![c, d];
    let e = Seq::<Constraint>::empty();
    assert(s.drop_first() =~= seq![d]);
    assert(seq![d].drop_first() =~= e);
    assert(constraint_vars(e) == Set::<Term>::empty());
    assert(constraints_size(e) == 0);
    assert(constraint_vars(seq![d]) == term_vars(d.lhs) + term_vars(d.rhs) + constraint_vars(e));
    assert(constraints_size(seq![d]) == term_size(d.lhs) + term_size(d.rhs) + constraints_size(e));
    assert(constraint_vars(s) == term_vars(c.lhs) + term_vars(c.rhs) + constraint_vars(seq![d]));
    assert(constraint_vars(s) =~= term_vars(c.lhs) + term_vars(c.rhs) + term_vars(d.lhs) + term_vars(
        d.rhs,
    ));
}

/// A step that succeeds takes the queue down in the order of its number of
/// distinct placeholders, then of its size.
pub proof fn lemma_step_decreases(cs: Seq<Constraint>, subs: Seq<Substitution>)
    requires
        cs.len() > 0,
    ensures
        step(cs, subs) matches Ok((next, _)) ==> constraint_vars(next).len() < constraint_vars(
            cs,
        ).len() || (constraint_vars(next).len() == constraint_vars(cs).len() && constraints_size(
            next,
        ) < constraints_size(cs)),
{
    let left = cs[0].lhs;
    let right = cs[0].rhs;
    let rest = cs.drop_first();
    let all = constraint_vars(cs);
    lemma_constraint_vars_finite(cs);
    assert(all == term_vars(left) + term_vars(right) + constraint_vars(rest));
    if let Ok((next, _)) = step(cs, subs) {
        if left == right {
            lemma_len_subset(constraint_vars(rest), all);
        } else if is_placeholder(left) || is_placeholder(right) {
            let (v, t) = if is_placeholder(left) {
                (left, right)
            } else {
                (right, left)
            };
            lemma_occurs_vars(v, t);
            lemma_subst_constraints_vars(v, t, rest);
            assert(all.contains(v));
            assert(constraint_vars(next).subset_of(all.remove(v)));
            lemma_len_subset(constraint_vars(next), all.remove(v));
        } else {
            let a = left->Arrow_0;
            let b = right->Arrow_0;
            let front = seq![equate(*a.domain, *b.domain), equate(*a.range, *b.range)];
            lemma_pair_vars(equate(*a.domain, *b.domain), equate(*a.range, *b.range));
            lemma_constraint_vars_append(front, rest);
            assert(constraint_vars(next) =~= all);
        }
    }
}

/// Whether `left` occurs in `right`, at its root or inside an arrow.
pub fn occurs_check(left: &Term, right: &Term) -> (r: bool)
    ensures
        r == occurs(*left, *right),
    decreases right,
{
    match right {
        Term::Arrow(a) => occurs_check(left, &a.domain) || occurs_check(left, &a.range),
        _ => *left == *right,
    }
}

/// `term` with every occurrence of `left` replaced by `right`.
pub fn replace(left: &Term, term: &Term, right: &Term) -> (r: Term)
    ensures
        r == subst_term(*left, *right, *term),
    decreases term,
{
    match term {
        Term::Arrow(a) => Term::Arrow(
            ArrowType {
                domain: Box::new(replace(left, &a.domain, right)),
                range: Box::new(replace(left, &a.range, right)),
            },
        ),
        _ => {
            if *left == *term {
                right.clone()
            } else {
                term.clone()
            }
        },
    }
}

/// Replaces `left` by `right` on both sides of every constraint of `consts`
/// and of every entry of `subst`.
pub fn replace_all(
    left: &Term,
    right: &Term,
    consts: &mut Vec<Constraint>,
    subst: &mut Vec<Substitution>,
)
    ensures
        final(consts)@ == subst_constraints(*left, *right, old(consts)@),
        final(subst)@ == subst_entries(*left, *right, old(subst)@),
{
    let ghost cs0 = consts@;
    let ghost subs0 = subst@;
    let mut i: usize = 0;
    while i < consts.len()
        invariant
            consts@.len() == cs0.len(),
            0 <= i <= cs0.len(),
            forall|j: int| 0 <= j < i ==> consts@[j] == subst_constraint(*left, *right, cs0[j]),
            forall|j: int| i <= j < cs0.len() ==> consts@[j] == cs0[j],
        decreases cs0.len() - i,
    {
        let c = Constraint::new(replace(left, &consts[i].lhs, right), replace(left, &consts[i].rhs, right));
        consts.set(i, c);
        i = i + 1;
    }
    assert(consts@ =~= subst_constraints(*left, *right, cs0));
    let mut k: usize = 0;
    while k < subst.len()
        invariant
            subst@.len() == subs0.len(),
            0 <= k <= subs0.len(),
            forall|j: int| 0 <= j < k ==> subst@[j] == subst_entry(*left, *right, subs0[j]),
            forall|j: int| k <= j < subs0.len() ==> subst@[j] == subs0[j],
        decreases subs0.len() - k,
    {
        let s = Substitution { var: replace(left, &subst[k].var, right), is: replace(left, &subst[k].is, right) };
        subst.set(k, s);
        k = k + 1;
    }
    assert(subst@ =~= subst_entries(*left, *right, subs0));
}

impl Types {
    /// Eliminates the placeholder `var`, known to equal `is`, as `eliminate`
    /// says; on failure the state is left as it was.
    pub fn unify_helper(&mut self, var: &Term, is: &Term) -> (r: Result<(), InferError>)
        ensures
            match eliminate(*var, *is, old(self).constraints@, old(self).substitutions@) {
                Ok((cs, subs)) => r is Ok && final(self).constraints@ == cs
                    && final(self).substitutions@ == subs,
                Err(e) => r == Err::<(), InferError>(e) && final(self).constraints@ == old(
                    self,
                ).constraints@ && final(self).substitutions@ == old(self).substitutions@,
            },
    {
        if occurs_check(var, is) {
            return Err(InferError::OccursCheck(var.clone(), is.clone()));
        }
        replace_all(var, is, &mut self.constraints, &mut self.substitutions);
        self.substitutions.push(Substitution::new(var, is));
        Ok(())
    }

    /// Takes one step of the solver, as `step` says. On failure the first
    /// constraint has been taken from the queue and the substitution is as it
    /// was.
    pub fn unify_assist(&mut self) -> (r: Result<(), InferError>)
        requires
            old(self).constraints.len() > 0,
        ensures
            match step(old(self).constraints@, old(self).substitutions@) {
                Ok((cs, subs)) => r is Ok && final(self).constraints@ == cs
                    && final(self).substitutions@ == subs,
                Err(e) => r == Err::<(), InferError>(e) && final(self).constraints@ == old(
                    self,
                ).constraints@.drop_first() && final(self).substitutions@ == old(self).substitutions@,
            },
    {
        let ghost cs0 = self.constraints@;
        let Constraint { lhs: left, rhs: right } = self.constraints.remove(0);
        assert(self.constraints@ =~= cs0.drop_first());
        if left == right {
            Ok(())
        } else if left.is_ident() {
            self.unify_helper(&left, &right)
        } else if right.is_ident() {
            self.unify_helper(&right, &left)
        } else {
            if let (Term::Arrow(a), Term::Arrow(b)) = (&left, &right) {
                let ranges = Constraint::new((*a.range).clone(), (*b.range).clone());
                let domains = Constraint::new((*a.domain).clone(), (*b.domain).clone());
                self.constraints.insert(0, ranges);
                self.constraints.insert(0, domains);
                assert(self.constraints@ =~= seq![
                    equate(*a.domain, *b.domain),
                    equate(*a.range, *b.range),
                ] + cs0.drop_first());
                return Ok(());
            }
            Err(InferError::Mismatch(left, right))
        }
    }
}

/// Solves the queue `constraints`, front first, starting from the
/// substitution `substitutions`: the outcome is that of `solve`.
pub fn unify(constraints: Vec<Constraint>, substitutions: Vec<Substitution>) -> (r: Result<
    Vec<Substitution>,
    InferError,
>)
    ensures
        view_result(r) == solve(constraints@, substitutions@),
{
    let ghost goal = solve(constraints@, substitutions@);
    let mut state = Types { constraints, substitutions };
    while state.constraints.len() > 0
        invariant
            solve(state.constraints@, state.substitutions@) == goal,
            goal == solve(constraints@, substitutions@),
        decreases constraint_vars(state.constraints@).len(), constraints_size(state.constraints@),
    {
        proof {
            lemma_step_decreases(state.constraints@, state.substitutions@);
        }
        let ghost before = (state.constraints@, state.substitutions@);
        let stepped = state.unify_assist();
        if let Err(e) = stepped {
            assert(solve(before.0, before.1) == Err::<Seq<Substitution>, InferError>(e));
            return Err(e);
        }
    }
    Ok(state.substitutions)
}

/// The entries of `subs` as constraints `var = is`.
pub open spec fn as_constraints(subs: Seq<Substitution>) -> Seq<Constraint> {
    subs.map_values(|s: Substitution| equate(s.var, s.is))
}

/// `subs` is in solved form: every entry's `var` is a placeholder, no two
/// entries share their `var`, and no entry's `var` occurs in any entry's `is`.
pub open spec fn solved_form(subs: Seq<Substitution>) -> bool {
    &&& forall|i: int| 0 <= i < subs.len() ==> is_placeholder(#[trigger] subs[i].var)
    &&& forall|i: int, j: int|
        #![trigger subs[i], subs[j]]
        0 <= i < subs.len() && 0 <= j < subs.len() && i != j ==> subs[i].var != subs[j].var
    &&& forall|i: int, j: int|
        #![trigger subs[i], subs[j]]
        0 <= i < subs.len() && 0 <= j < subs.len() ==> !term_vars(subs[j].is).contains(subs[i].var)
}

/// What holds between steps: the substitution is in solved form and none of
/// its placeholders is left in the queue.
pub open spec fn solver_invariant(cs: Seq<Constraint>, subs: Seq<Substitution>) -> bool {
    &&& solved_form(subs)
    &&& forall|i: int| 0 <= i < subs.len() ==> !constraint_vars(cs).contains(#[trigger] subs[i].var)
}

/// Replacing a placeholder that does not occur changes nothing.
proof fn lemma_subst_absent(v: Term, by: Term, t: Term)
    requires
        is_placeholder(v),
        !term_vars(t).contains(v),
    ensures
        subst_term(v, by, t) == t,
    decreases t,
{
    if let Term::Arrow(a) = t {
        lemma_subst_absent(v, by, *a.domain);
        lemma_subst_absent(v, by, *a.range);
    }
}

proof fn lemma_step_keeps_invariant(cs: Seq<Constraint>, subs: Seq<Substitution>)
    requires
        cs.len() > 0,
        solver_invariant(cs, subs),
    ensures
        step(cs, subs) matches Ok((next, subs2)) ==> solver_invariant(next, subs2),
{
    let left = cs[0].lhs;
    let right = cs[0].rhs;
    let rest = cs.drop_first();
    let all = constraint_vars(cs);
    assert(all == term_vars(left) + term_vars(right) + constraint_vars(rest));
    if let Ok((next, subs2)) = step(cs, subs) {
        if left == right {
            assert(constraint_vars(next).subset_of(all));
        } else if is_placeholder(left) || is_placeholder(right) {
            let (v, t) = if is_placeholder(left) {
                (left, right)
            } else {
                (right, left)
            };
            lemma_occurs_vars(v, t);
            lemma_subst_constraints_vars(v, t, rest);
            assert(all.contains(v));
            assert(term_vars(t).subset_of(all));
            assert(constraint_vars(next).subset_of(all.remove(v)));
            let n = subs.len() as int;
            assert forall|i: int| 0 <= i < n implies #[trigger] subs2[i] == Substitution {
                var: subs[i].var,
                is: subst_term(v, t, subs[i].is),
            } by {
                lemma_subst_absent(v, t, subs[i].var);
            }
            assert forall|i: int| 0 <= i < n implies term_vars(subst_term(v, t, subs[i].is)).subset_of(
                term_vars(subs[i].is).remove(v) + term_vars(t),
            ) by {
                lemma_subst_vars(v, t, subs[i].is);
            }
            assert(subs2[n] == Substitution { var: v, is: t });
            assert forall|i: int, j: int|
                0 <= i < subs2.len() && 0 <= j < subs2.len() implies !term_vars(
                #[trigger] subs2[j].is,
            ).contains(#[trigger] subs2[i].var) by {
                if j < n {
                    lemma_subst_vars(v, t, subs[j].is);
                }
            }
        } else {
            let a = left->Arrow_0;
            let b = right->Arrow_0;
            let front = seq![equate(*a.domain, *b.domain), equate(*a.range, *b.range)];
            lemma_pair_vars(equate(*a.domain, *b.domain), equate(*a.range, *b.range));
            lemma_constraint_vars_append(front, rest);
            assert(constraint_vars(next) =~= all);
        }
    }
}

proof fn lemma_solve_keeps_invariant(cs: Seq<Constraint>, subs: Seq<Substitution>)
    requires
        solver_invariant(cs, subs),
    ensures
        solve(cs, subs) matches Ok(r) ==> solved_form(r),
    decreases constraint_vars(cs).len(), constraints_size(cs),
{
    if cs.len() > 0 {
        lemma_step_decreases(cs, subs);
        lemma_step_keeps_invariant(cs, subs);
        if let Ok((next, subs2)) = step(cs, subs) {
            lemma_solve_keeps_invariant(next, subs2);
        }
    }
}

/// A substitution that `solve` produces from an empty one is in solved form.
pub proof fn lemma_solution_solved(cs: Seq<Constraint>, subs: Seq<Substitution>)
    requires
        solve(cs, Seq::empty()) == Ok::<Seq<Substitution>, InferError>(subs),
    ensures
        solved_form(subs),
{
    lemma_solve_keeps_invariant(cs, Seq::empty());
}

/// Solving the entries of a solved form from its `k`-th on, with the first
/// `k` already recorded, gives it back.
proof fn lemma_resolve(subs: Seq<Substitution>, k: int)
    requires
        solved_form(subs),
        0 <= k <= subs.len(),
    ensures
        solve(as_constraints(subs.subrange(k, subs.len() as int)), subs.subrange(0, k)) == Ok::<
            Seq<Substitution>,
            InferError,
        >(subs),
    decreases subs.len() - k,
{
    let n = subs.len() as int;
    let cs = as_constraints(subs.subrange(k, n));
    if k == n {
        assert(subs.subrange(0, k) =~= subs);
    } else {
        let v = subs[k].var;
        let t = subs[k].is;
        assert(cs[0] == equate(v, t));
        assert(!term_vars(t).contains(v));
        assert(term_vars(v).contains(v));
        lemma_occurs_vars(v, t);
        let rest = as_constraints(subs.subrange(k + 1, n));
        assert(cs.drop_first() =~= rest);
        assert forall|j: int| 0 <= j < rest.len() implies #[trigger] subst_constraint(v, t, rest[j])
            == rest[j] by {
            assert(subs[k + 1 + j].var != v);
            lemma_subst_absent(v, t, subs[k + 1 + j].var);
            lemma_subst_absent(v, t, subs[k + 1 + j].is);
        }
        assert(subst_constraints(v, t, rest) =~= rest);
        let done = subs.subrange(0, k);
        assert forall|j: int| 0 <= j < done.len() implies #[trigger] subst_entry(v, t, done[j])
            == done[j] by {
            assert(subs[j].var != v);
            lemma_subst_absent(v, t, subs[j].var);
            lemma_subst_absent(v, t, subs[j].is);
        }
        assert(subst_entries(v, t, done).push(Substitution { var: v, is: t }) =~= subs.subrange(
            0,
            k + 1,
        ));
        assert(step(cs, done) == Ok::<(Seq<Constraint>, Seq<Substitution>), InferError>(
            (rest, subs.subrange(0, k + 1)),
        ));
        lemma_resolve(subs, k + 1);
    }
}

/// Solving again, from an empty substitution, the entries of a substitution
/// that `solve` produced, taken as constraints `var = is`, gives that same
/// substitution.
pub proof fn lemma_unify_idempotent(cs: Seq<Constraint>, subs: Seq<Substitution>)
    requires
        solve(cs, Seq::empty()) == Ok::<Seq<Substitution>, InferError>(subs),
    ensures
        solve(as_constraints(subs), Seq::empty()) == Ok::<Seq<Substitution>, InferError>(subs),
{
    lemma_solution_solved(cs, subs);
    lemma_resolve(subs, 0);
    assert(subs.subrange(0, subs.len() as int) =~= subs);
    assert(subs.subrange(0, 0) =~= Seq::<Substitution>::empty());
}

} // verus!
