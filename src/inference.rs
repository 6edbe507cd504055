//! Type terms, the constraints between them and the substitutions that solve them.
use vstd::prelude::*;
use crate::types::Expr;

verus! {

/// A type term.
///
/// `Expr(e)` stands for the unknown type of the expression node `e` and
/// `Var(x)` for that of the program variable `x`: these two are placeholders.
/// A node is identified by its full structure, so two equal sub-expressions at
/// different places in a tree share one placeholder.
#[derive(Debug)]
pub enum Term {
    Expr(Expr),
    Var(char),
    Num,
    Bool,
    Arrow(ArrowType),
}

/// The function type `domain -> range`.
#[derive(Debug)]
pub struct ArrowType {
    pub domain: Box<Term>,
    pub range: Box<Term>,
}

/// The obligation that `lhs` and `rhs` denote one type.
#[derive(Debug)]
pub struct Constraint {
    pub lhs: Term,
    pub rhs: Term,
}

/// A decision of the solver: the placeholder `var` equals `is`.
#[derive(Debug)]
pub struct Substitution {
    pub var: Term,
    pub is: Term,
}

/// Why inference failed.
#[derive(Debug)]
pub enum InferError {
    /// A function's argument is not a bare variable.
    ArgumentNotVariable,
    /// The two terms cannot be made equal.
    Mismatch(Term, Term),
    /// The placeholder would have to equal a term that contains it.
    OccursCheck(Term, Term),
    /// An expression form for which no typing rule exists; every form of
    /// `Expr` has one, so inference does not return this.
    Unsupported,
}

/// The term `Arrow(domain, range)`.
pub open spec fn arrow(domain: Term, range: Term) -> Term {
    Term::Arrow(ArrowType { domain: Box::new(domain), range: Box::new(range) })
}

/// The constraint `lhs = rhs`.
pub open spec fn equate(lhs: Term, rhs: Term) -> Constraint {
    Constraint { lhs, rhs }
}

/// A placeholder term: one that stands for an unknown type.
pub open spec fn is_placeholder(t: Term) -> bool {
    t is Expr || t is Var
}

/// `v` occurs in `t`, at the root or inside an arrow.
pub open spec fn occurs(v: Term, t: Term) -> bool
    decreases t,
{
    match t {
        Term::Arrow(a) => occurs(v, *a.domain) || occurs(v, *a.range),
        _ => t == v,
    }
}

/// `t` with every occurrence of `v` replaced by `by`.
pub open spec fn subst_term(v: Term, by: Term, t: Term) -> Term
    decreases t,
{
    match t {
        Term::Arrow(a) => arrow(subst_term(v, by, *a.domain), subst_term(v, by, *a.range)),
        _ => if t == v {
            by
        } else {
            t
        },
    }
}

/// Both sides of `c` with `v` replaced by `by`.
pub open spec fn subst_constraint(v: Term, by: Term, c: Constraint) -> Constraint {
    equate(subst_term(v, by, c.lhs), subst_term(v, by, c.rhs))
}

/// Both sides of `s` with `v` replaced by `by`.
pub open spec fn subst_entry(v: Term, by: Term, s: Substitution) -> Substitution {
    Substitution { var: subst_term(v, by, s.var), is: subst_term(v, by, s.is) }
}

/// Every constraint of `cs` with `v` replaced by `by`.
pub open spec fn subst_constraints(v: Term, by: Term, cs: Seq<Constraint>) -> Seq<Constraint> {
    cs.map_values(|c: Constraint| subst_constraint(v, by, c))
}

/// Every entry of `subs` with `v` replaced by `by`.
pub open spec fn subst_entries(v: Term, by: Term, subs: Seq<Substitution>) -> Seq<Substitution> {
    subs.map_values(|s: Substitution| subst_entry(v, by, s))
}

/// The placeholders that occur in `t`.
pub open spec fn term_vars(t: Term) -> Set<Term>
    decreases t,
{
    match t {
        Term::Arrow(a) => term_vars(*a.domain) + term_vars(*a.range),
        Term::Expr(_) => set![t],
        Term::Var(_) => set![t],
        _ => Set::empty(),
    }
}

/// The placeholders that occur in `cs`.
pub open spec fn constraint_vars(cs: Seq<Constraint>) -> Set<Term>
    decreases cs.len(),
{
    if cs.len() == 0 {
        Set::empty()
    } else {
        term_vars(cs[0].lhs) + term_vars(cs[0].rhs) + constraint_vars(cs.drop_first())
    }
}

/// The number of nodes of `t`.
pub open spec fn term_size(t: Term) -> nat
    decreases t,
{
    match t {
        Term::Arrow(a) => 1 + term_size(*a.domain) + term_size(*a.range),
        _ => 1,
    }
}

/// The number of nodes of all the terms in `cs`.
pub open spec fn constraints_size(cs: Seq<Constraint>) -> nat
    decreases cs.len(),
{
    if cs.len() == 0 {
        0
    } else {
        term_size(cs[0].lhs) + term_size(cs[0].rhs) + constraints_size(cs.drop_first())
    }
}

impl Term {
    /// Whether this term is a placeholder.
    pub fn is_ident(&self) -> (r: bool)
        ensures
            r == is_placeholder(*self),
    {
        matches!(self, Term::Expr(_) | Term::Var(_))
    }

    /// The term `Arrow(domain, range)`.
    pub fn make_arrow(domain: &Term, range: &Term) -> (r: Self)
        ensures
            r == arrow(*domain, *range),
    {
        Term::Arrow(ArrowType { domain: Box::new(domain.clone()), range: Box::new(range.clone()) })
    }
}

impl Substitution {
    pub fn new(var: &Term, is: &Term) -> (r: Self)
        ensures
            r.var == *var,
            r.is == *is,
    {
        Substitution { var: var.clone(), is: is.clone() }
    }
}

impl Constraint {
    pub fn new(lhs: Term, rhs: Term) -> (r: Self)
        ensures
            r == equate(lhs, rhs),
    {
        Constraint { lhs, rhs }
    }
}

impl Clone for Term {
    fn clone(&self) -> (r: Self)
        ensures
            r == *self,
        decreases self,
    {
        match self {
            Term::Expr(e) => Term::Expr(e.clone()),
            Term::Var(x) => Term::Var(*x),
            Term::Num => Term::Num,
            Term::Bool => Term::Bool,
            Term::Arrow(a) => Term::Arrow(
                ArrowType { domain: Box::new((*a.domain).clone()), range: Box::new((*a.range).clone()) },
            ),
        }
    }
}

impl Clone for ArrowType {
    fn clone(&self) -> (r: Self)
        ensures
            r == *self,
    {
        ArrowType { domain: Box::new((*self.domain).clone()), range: Box::new((*self.range).clone()) }
    }
}

impl Clone for Constraint {
    fn clone(&self) -> (r: Self)
        ensures
            r == *self,
    {
        Constraint { lhs: self.lhs.clone(), rhs: self.rhs.clone() }
    }
}

impl Clone for Substitution {
    fn clone(&self) -> (r: Self)
        ensures
            r == *self,
    {
        Substitution { var: self.var.clone(), is: self.is.clone() }
    }
}

/// Structural equality of terms.
fn term_eq(a: &Term, b: &Term) -> (r: bool)
    ensures
        r == (*a == *b),
    decreases a,
{
    match (a, b) {
        (Term::Expr(e), Term::Expr(f)) => *e == *f,
        (Term::Var(x), Term::Var(y)) => *x == *y,
        (Term::Num, Term::Num) => true,
        (Term::Bool, Term::Bool) => true,
        (Term::Arrow(p), Term::Arrow(q)) => term_eq(&p.domain, &q.domain) && term_eq(&p.range, &q.range),
        _ => false,
    }
}

impl PartialEq for Term {
    fn eq(&self, other: &Term) -> (r: bool) {
        term_eq(self, other)
    }
}

impl vstd::std_specs::cmp::PartialEqSpecImpl for Term {
    open spec fn obeys_eq_spec() -> bool {
        true
    }

    open spec fn eq_spec(&self, other: &Term) -> bool {
        *self == *other
    }
}

impl PartialEq for ArrowType {
    fn eq(&self, other: &ArrowType) -> (r: bool) {
        term_eq(&self.domain, &other.domain) && term_eq(&self.range, &other.range)
    }
}

impl vstd::std_specs::cmp::PartialEqSpecImpl for ArrowType {
    open spec fn obeys_eq_spec() -> bool {
        true
    }

    open spec fn eq_spec(&self, other: &ArrowType) -> bool {
        *self == *other
    }
}

impl PartialEq for Constraint {
    fn eq(&self, other: &Constraint) -> (r: bool) {
        term_eq(&self.lhs, &other.lhs) && term_eq(&self.rhs, &other.rhs)
    }
}

impl vstd::std_specs::cmp::PartialEqSpecImpl for Constraint {
    open spec fn obeys_eq_spec() -> bool {
        true
    }

    open spec fn eq_spec(&self, other: &Constraint) -> bool {
        *self == *other
    }
}

impl PartialEq for Substitution {
    fn eq(&self, other: &Substitution) -> (r: bool) {
        term_eq(&self.var, &other.var) && term_eq(&self.is, &other.is)
    }
}

impl vstd::std_specs::cmp::PartialEqSpecImpl for Substitution {
    open spec fn obeys_eq_spec() -> bool {
        true
    }

    open spec fn eq_spec(&self, other: &Substitution) -> bool {
        *self == *other
    }
}

impl Eq for Term {}

impl Eq for ArrowType {}

impl Eq for Constraint {}

impl Eq for Substitution {}

} // verus!
