use type_inference::generate::generate_constraints;
use type_inference::infer::infer_types;
use type_inference::inference::{Constraint, InferError, Substitution, Term};
use type_inference::types::{BinExp, CallExp, Expr, FunExp, IfExp, Operation, Type};
use type_inference::unify::{occurs_check, replace, replace_all, unify, Types};

fn sub(var: Term, is: Term) -> Substitution {
    Substitution::new(&var, &is)
}

fn num_arrow() -> Term {
    Term::make_arrow(&Term::Num, &Term::Num)
}

fn lambda(arg: char, body: Expr) -> Expr {
    Expr::Function(FunExp::new(Expr::Variable(arg), Type::Number, body))
}

fn call(f: Expr, a: Expr) -> Expr {
    Expr::Call(CallExp::new(f, a))
}

fn as_constraints(subs: &[Substitution]) -> Vec<Constraint> {
    subs.iter().map(|s| Constraint::new(s.var.clone(), s.is.clone())).collect()
}

#[test]
fn numeric_literal_maps_to_number_only() {
    for n in [0i64, 1, -5, i64::MAX, i64::MIN] {
        let e = Expr::Number(n);
        assert_eq!(infer_types(&e).unwrap(), vec![sub(Term::Expr(e.clone()), Term::Num)]);
    }
}

#[test]
fn boolean_literal_maps_to_bool_only() {
    for b in [true, false] {
        let e = Expr::Bool(b);
        assert_eq!(infer_types(&e).unwrap(), vec![sub(Term::Expr(e.clone()), Term::Bool)]);
    }
}

#[test]
fn sum_of_two_distinct_literals() {
    let e = Expr::Number(3) + Expr::Number(4);
    assert_eq!(
        infer_types(&e).unwrap(),
        vec![
            sub(Term::Expr(Expr::Number(3)), Term::Num),
            sub(Term::Expr(Expr::Number(4)), Term::Num),
            sub(Term::Expr(e.clone()), Term::Num),
        ]
    );
}

#[test]
fn equal_operands_share_one_placeholder() {
    let e = Expr::Number(7) + Expr::Number(7);
    assert_eq!(
        infer_types(&e).unwrap(),
        vec![sub(Term::Expr(Expr::Number(7)), Term::Num), sub(Term::Expr(e.clone()), Term::Num)]
    );
}

#[test]
fn sum_with_boolean_operand_fails() {
    let e = Expr::Bool(true) + Expr::Number(1);
    assert!(matches!(infer_types(&e), Err(InferError::Mismatch(Term::Bool, Term::Num))));
}

#[test]
fn function_of_number_to_number() {
    let body = Expr::Variable('x') + Expr::Number(2);
    let f = lambda('x', body.clone());
    let result = infer_types(&f).unwrap();
    assert!(result.contains(&sub(Term::Var('x'), Term::Num)));
    assert!(result.contains(&sub(Term::Expr(body), Term::Num)));
    assert!(result.contains(&sub(Term::Expr(f.clone()), num_arrow())));
}

#[test]
fn applying_function_to_number_gives_number() {
    let f = lambda('x', Expr::Variable('x') + Expr::Number(2));
    let c = call(f.clone(), Expr::Number(10));
    let result = infer_types(&c).unwrap();
    assert!(result.contains(&sub(Term::Expr(c.clone()), Term::Num)));
    assert!(result.contains(&sub(Term::Expr(f), num_arrow())));
}

#[test]
fn applying_function_to_boolean_fails() {
    let f = lambda('x', Expr::Variable('x') + Expr::Number(2));
    let c = call(f, Expr::Bool(true));
    assert!(matches!(infer_types(&c), Err(InferError::Mismatch(_, _))));
}

#[test]
fn higher_order_parameter_is_a_function() {
    let inner = call(Expr::Variable('x'), Expr::Number(5)) + Expr::Number(2);
    let outer = lambda('x', inner);
    let arg = lambda('y', Expr::Variable('y') + Expr::Number(5));
    let c = call(outer.clone(), arg);
    let result = infer_types(&c).unwrap();
    assert!(result.contains(&sub(Term::Var('x'), num_arrow())));
    assert!(result.contains(&sub(Term::Expr(c.clone()), Term::Num)));
    assert!(result.contains(&sub(
        Term::Expr(outer),
        Term::make_arrow(&num_arrow(), &Term::Num)
    )));
}

#[test]
fn conditional_with_boolean_condition_and_agreeing_branches() {
    let e = Expr::Conditional(IfExp::new(Expr::Bool(false), Expr::Bool(true), Expr::Bool(false)));
    let result = infer_types(&e).unwrap();
    assert!(result.contains(&sub(Term::Expr(e.clone()), Term::Bool)));
}

#[test]
fn conditional_with_numeric_condition_fails() {
    let e = Expr::Conditional(IfExp::new(Expr::Number(1), Expr::Number(1), Expr::Number(2)));
    assert!(matches!(infer_types(&e), Err(InferError::Mismatch(Term::Num, Term::Bool))));
}

#[test]
fn solving_a_solution_again_gives_it_back() {
    let exprs = vec![
        Expr::Number(1),
        Expr::Number(1) + Expr::Number(2),
        lambda('x', Expr::Variable('x') + Expr::Number(2)),
        call(lambda('x', Expr::Variable('x') + Expr::Number(2)), Expr::Number(10)),
        Expr::Conditional(IfExp::new(Expr::Bool(true), Expr::Number(1), Expr::Number(2))),
        call(
            lambda('x', call(Expr::Variable('x'), Expr::Number(5)) + Expr::Number(2)),
            lambda('y', Expr::Variable('y') + Expr::Number(5)),
        ),
        Expr::Variable('z'),
    ];
    for e in exprs {
        let first = infer_types(&e).unwrap();
        let again = unify(as_constraints(&first), Vec::new()).unwrap();
        assert_eq!(again, first);
    }
}

#[test]
fn free_variable_stays_a_placeholder() {
    let e = Expr::Variable('z');
    assert_eq!(infer_types(&e).unwrap(), vec![sub(Term::Expr(e.clone()), Term::Var('z'))]);
}

#[test]
fn self_application_fails_the_occurs_check() {
    let f = lambda('x', call(Expr::Variable('x'), Expr::Variable('x')));
    assert!(matches!(infer_types(&f), Err(InferError::OccursCheck(Term::Var('x'), _))));
}

#[test]
fn function_argument_must_be_a_variable() {
    let f = Expr::Function(FunExp::new(Expr::Number(1), Type::Number, Expr::Number(2)));
    assert!(matches!(generate_constraints(&f), Err(InferError::ArgumentNotVariable)));
    let nested = Expr::Number(1) + call(f, Expr::Number(3));
    assert!(matches!(infer_types(&nested), Err(InferError::ArgumentNotVariable)));
}

#[test]
fn constraints_come_children_first() {
    let l = Expr::Number(1);
    let r = Expr::Bool(true);
    let e = Expr::Binary(BinExp::new(l.clone(), Operation::Sub, r.clone()));
    assert_eq!(
        generate_constraints(&e).unwrap(),
        vec![
            Constraint::new(Term::Expr(l.clone()), Term::Num),
            Constraint::new(Term::Expr(r.clone()), Term::Bool),
            Constraint::new(Term::Expr(l), Term::Num),
            Constraint::new(Term::Expr(r), Term::Num),
            Constraint::new(Term::Expr(e.clone()), Term::Num),
        ]
    );
}

#[test]
fn constraints_of_conditional_function_and_call() {
    let c = Expr::Bool(true);
    let t = Expr::Number(1);
    let x = Expr::Variable('x');
    let cond = Expr::Conditional(IfExp::new(c.clone(), t.clone(), x.clone()));
    assert_eq!(
        generate_constraints(&cond).unwrap(),
        vec![
            Constraint::new(Term::Expr(c.clone()), Term::Bool),
            Constraint::new(Term::Expr(t.clone()), Term::Num),
            Constraint::new(Term::Expr(x.clone()), Term::Var('x')),
            Constraint::new(Term::Expr(c), Term::Bool),
            Constraint::new(Term::Expr(cond.clone()), Term::Expr(t)),
            Constraint::new(Term::Expr(cond.clone()), Term::Expr(x.clone())),
        ]
    );
    let f = lambda('x', x.clone());
    let app = call(f.clone(), Expr::Number(4));
    assert_eq!(
        generate_constraints(&app).unwrap(),
        vec![
            Constraint::new(Term::Expr(x.clone()), Term::Var('x')),
            Constraint::new(
                Term::Expr(f.clone()),
                Term::make_arrow(&Term::Var('x'), &Term::Expr(x))
            ),
            Constraint::new(Term::Expr(Expr::Number(4)), Term::Num),
            Constraint::new(
                Term::Expr(f),
                Term::make_arrow(&Term::Expr(Expr::Number(4)), &Term::Expr(app.clone()))
            ),
        ]
    );
}

#[test]
fn arrows_unify_by_domain_and_range() {
    let cs = vec![Constraint::new(
        Term::make_arrow(&Term::Var('a'), &Term::Num),
        Term::make_arrow(&Term::Bool, &Term::Var('b')),
    )];
    assert_eq!(
        unify(cs, Vec::new()).unwrap(),
        vec![sub(Term::Var('a'), Term::Bool), sub(Term::Var('b'), Term::Num)]
    );
}

#[test]
fn later_decisions_rewrite_earlier_entries() {
    let cs = vec![
        Constraint::new(Term::Var('a'), Term::make_arrow(&Term::Var('b'), &Term::Var('b'))),
        Constraint::new(Term::Num, Term::Var('b')),
    ];
    assert_eq!(
        unify(cs, Vec::new()).unwrap(),
        vec![sub(Term::Var('a'), num_arrow()), sub(Term::Var('b'), Term::Num)]
    );
}

#[test]
fn base_types_do_not_unify() {
    let cs = vec![Constraint::new(Term::Num, Term::Bool)];
    assert!(matches!(unify(cs, Vec::new()), Err(InferError::Mismatch(Term::Num, Term::Bool))));
    let cs = vec![Constraint::new(num_arrow(), Term::Bool)];
    assert!(matches!(unify(cs, Vec::new()), Err(InferError::Mismatch(Term::Arrow(_), Term::Bool))));
}

#[test]
fn empty_queue_keeps_the_substitution() {
    let start = vec![sub(Term::Var('q'), Term::Bool)];
    assert_eq!(unify(Vec::new(), start.clone()).unwrap(), start);
}

#[test]
fn occurs_check_looks_inside_arrows() {
    let a = Term::Var('a');
    assert!(occurs_check(&a, &Term::make_arrow(&Term::Num, &a)));
    assert!(occurs_check(&a, &a));
    assert!(!occurs_check(&a, &Term::make_arrow(&Term::Num, &Term::Var('b'))));
}

#[test]
fn replace_rewrites_every_occurrence() {
    let a = Term::Var('a');
    let t = Term::make_arrow(&a, &Term::make_arrow(&Term::Bool, &a));
    let expected = Term::make_arrow(&Term::Num, &Term::make_arrow(&Term::Bool, &Term::Num));
    assert_eq!(replace(&a, &t, &Term::Num), expected);
    assert_eq!(replace(&Term::Var('c'), &t, &Term::Num), t);
}

#[test]
fn replace_all_rewrites_constraints_and_entries() {
    let a = Term::Var('a');
    let mut cs = vec![Constraint::new(a.clone(), Term::make_arrow(&a, &Term::Bool))];
    let mut subs = vec![sub(Term::Var('b'), a.clone())];
    replace_all(&a, &Term::Num, &mut cs, &mut subs);
    assert_eq!(cs, vec![Constraint::new(Term::Num, Term::make_arrow(&Term::Num, &Term::Bool))]);
    assert_eq!(subs, vec![sub(Term::Var('b'), Term::Num)]);
}

#[test]
fn one_step_splits_arrows_to_the_front() {
    let mut state = Types {
        constraints: vec![
            Constraint::new(num_arrow(), Term::make_arrow(&Term::Var('a'), &Term::Bool)),
            Constraint::new(Term::Var('c'), Term::Num),
        ],
        substitutions: Vec::new(),
    };
    assert!(state.unify_assist().is_ok());
    assert_eq!(
        state.constraints,
        vec![
            Constraint::new(Term::Num, Term::Var('a')),
            Constraint::new(Term::Num, Term::Bool),
            Constraint::new(Term::Var('c'), Term::Num),
        ]
    );
    assert!(state.unify_assist().is_ok());
    assert_eq!(state.substitutions, vec![sub(Term::Var('a'), Term::Num)]);
    assert!(matches!(state.unify_assist(), Err(InferError::Mismatch(Term::Num, Term::Bool))));
    assert_eq!(state.constraints, vec![Constraint::new(Term::Var('c'), Term::Num)]);
}

#[test]
fn failed_elimination_leaves_state_unchanged() {
    let a = Term::Var('a');
    let cyc = Term::make_arrow(&a, &Term::Num);
    let mut state = Types { constraints: vec![Constraint::new(Term::Bool, Term::Var('d'))], substitutions: Vec::new() };
    assert!(matches!(state.unify_helper(&a, &cyc), Err(InferError::OccursCheck(_, _))));
    assert_eq!(state.constraints, vec![Constraint::new(Term::Bool, Term::Var('d'))]);
    assert!(state.substitutions.is_empty());
}

#[test]
fn expressions_build_compare_and_copy() {
    assert_eq!(Expr::from(5i64), Expr::Number(5));
    assert_eq!(Expr::from(false), Expr::Bool(false));
    let sum = Expr::Number(1) + Expr::Number(2);
    assert_eq!(sum, Expr::Binary(BinExp::new(Expr::Number(1), Operation::Add, Expr::Number(2))));
    assert_ne!(sum, Expr::Binary(BinExp::new(Expr::Number(1), Operation::Sub, Expr::Number(2))));
    let f = lambda('x', sum.clone());
    assert_eq!(f.clone(), f);
    let t = Type::Function(type_inference::types::FunType::new(Type::Number, Type::Bool));
    assert_eq!(t.clone(), t);
    assert_ne!(t, Type::String);
    assert!(Term::Var('a').is_ident());
    assert!(Term::Expr(Expr::Number(1)).is_ident());
    assert!(!Term::Num.is_ident());
    assert!(!num_arrow().is_ident());
}
