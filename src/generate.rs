//! The constraint generator: the typing rules of the language as equations
//! between type terms.
use vstd::prelude::*;
use crate::inference::{arrow, equate, Constraint, InferError, Term};
use crate::types::{BinExp, CallExp, Expr, FunExp, IfExp};

verus! {

/// Every function inside `e` has a bare variable as its argument.
pub open spec fn well_formed(e: Expr) -> bool
    decreases e,
{
    match e {
        Expr::Binary(b) => well_formed(*b.left) && well_formed(*b.right),
        Expr::Conditional(c) => well_formed(*c.condition) && well_formed(*c.then_branch) && well_formed(
            *c.elze,
        ),
        Expr::Function(f) => (*f.argument) is Variable && well_formed(*f.body),
        Expr::Call(c) => well_formed(*c.caller) && well_formed(*c.callee),
        _ => true,
    }
}

/// The constraints that the typing rules give for `e`: those of the children
/// first, from left to right, then the node's own.
pub open spec fn constraints_of(e: Expr) -> Seq<Constraint>
    decreases e,
{
    match e {
        Expr::Number(_) => seq![equate(Term::Expr(e), Term::Num)],
        Expr::Bool(_) => seq![equate(Term::Expr(e), Term::Bool)],
        Expr::Variable(x) => seq![equate(Term::Expr(e), Term::Var(x))],
        Expr::Binary(b) => constraints_of(*b.left) + constraints_of(*b.right) + seq![
            equate(Term::Expr(*b.left), Term::Num),
            equate(Term::Expr(*b.right), Term::Num),
            equate(Term::Expr(e), Term::Num),
        ],
        Expr::Conditional(c) => constraints_of(*c.condition) + constraints_of(*c.then_branch)
            + constraints_of(*c.elze) + seq![
            equate(Term::Expr(*c.condition), Term::Bool),
            equate(Term::Expr(e), Term::Expr(*c.then_branch)),
            equate(Term::Expr(e), Term::Expr(*c.elze)),
        ],
        Expr::Function(f) => match *f.argument {
            Expr::Variable(x) => constraints_of(*f.body) + seq![
                equate(Term::Expr(e), arrow(Term::Var(x), Term::Expr(*f.body))),
            ],
            _ => constraints_of(*f.body),
        },
        Expr::Call(c) => constraints_of(*c.caller) + constraints_of(*c.callee) + seq![
            equate(Term::Expr(*c.caller), arrow(Term::Expr(*c.callee), Term::Expr(e))),
        ],
    }
}

/// What generation gives for `e`: its constraints, or the error for a
/// function whose argument is not a variable.
pub open spec fn generated(e: Expr) -> Result<Seq<Constraint>, InferError> {
    if well_formed(e) {
        Ok(constraints_of(e))
    } else {
        Err(InferError::ArgumentNotVariable)
    }
}

/// Whether every function inside `expr` has a bare variable as its argument.
fn check_arguments(expr: &Expr) -> (r: bool)
    ensures
        r == well_formed(*expr),
    decreases expr,
{
    match expr {
        Expr::Binary(b) => check_arguments(&b.left) && check_arguments(&b.right),
        Expr::Conditional(c) => check_arguments(&c.condition) && check_arguments(&c.then_branch)
            && check_arguments(&c.elze),
        Expr::Function(f) => matches!(*f.argument, Expr::Variable(_)) && check_arguments(&f.body),
        Expr::Call(c) => check_arguments(&c.caller) && check_arguments(&c.callee),
        _ => true,
    }
}

/// Appends the constraints of `expr` to `out`.
fn push_constraints(expr: &Expr, out: &mut Vec<Constraint>)
    requires
        well_formed(*expr),
    ensures
        final(out)@ == old(out)@ + constraints_of(*expr),
    decreases expr,
{
    let ghost start = out@;
    match expr {
        Expr::Number(_) => {
            out.push(Constraint::new(Term::Expr(expr.clone()), Term::Num));
        },
        Expr::Bool(_) => {
            out.push(Constraint::new(Term::Expr(expr.clone()), Term::Bool));
        },
        Expr::Variable(x) => {
            out.push(Constraint::new(Term::Expr(expr.clone()), Term::Var(*x)));
        },
        Expr::Binary(BinExp { left, operator: _, right }) => {
            push_constraints(left, out);
            push_constraints(right, out);
            out.push(Constraint::new(Term::Expr((**left).clone()), Term::Num));
            out.push(Constraint::new(Term::Expr((**right).clone()), Term::Num));
            out.push(Constraint::new(Term::Expr(expr.clone()), Term::Num));
        },
        Expr::Conditional(IfExp { condition, then_branch, elze }) => {
            push_constraints(condition, out);
            push_constraints(then_branch, out);
            push_constraints(elze, out);
            out.push(Constraint::new(Term::Expr((**condition).clone()), Term::Bool));
            out.push(Constraint::new(Term::Expr(expr.clone()), Term::Expr((**then_branch).clone())));
            out.push(Constraint::new(Term::Expr(expr.clone()), Term::Expr((**elze).clone())));
        },
        Expr::Function(FunExp { argument, arg_type: _, body }) => {
            push_constraints(body, out);
            if let Expr::Variable(a) = &**argument {
                let range = Term::Expr((**body).clone());
                out.push(Constraint::new(Term::Expr(expr.clone()), Term::make_arrow(&Term::Var(*a), &range)));
            }
        },
        Expr::Call(CallExp { caller, callee }) => {
            push_constraints(caller, out);
            push_constraints(callee, out);
            let range = Term::Expr(expr.clone());
            let domain = Term::Expr((**callee).clone());
            out.push(Constraint::new(Term::Expr((**caller).clone()), Term::make_arrow(&domain, &range)));
        },
    }
    assert(out@ =~= start + constraints_of(*expr));
}

/// The constraints that the typing rules give for `expr`, in the order of
/// `constraints_of`. Fails, with nothing generated, when a function inside
/// `expr` has an argument that is not a bare variable.
pub fn generate_constraints(expr: &Expr) -> (r: Result<Vec<Constraint>, InferError>)
    ensures
        r matches Ok(cs) ==> generated(*expr) == Ok::<Seq<Constraint>, InferError>(cs@),
        r is Err ==> r == Err::<Vec<Constraint>, InferError>(InferError::ArgumentNotVariable)
            && !well_formed(*expr),
{
    if !check_arguments(expr) {
        return Err(InferError::ArgumentNotVariable);
    }
    let mut out: Vec<Constraint> = Vec::new();
    push_constraints(expr, &mut out);
    assert(out@ =~= constraints_of(*expr));
    Ok(out)
}

} // verus!
