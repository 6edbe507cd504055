//! The expression language whose types are inferred.
use vstd::prelude::*;

verus! {

/// A binary operator. Every operator takes and yields numbers.
#[derive(Debug, Clone, Copy, PartialEq, Eq, Structural)]
pub enum Operation {
    Add,
    Sub,
    Less,
}

/// A type annotation that may be written on a function's argument.
/// Inference does not read it.
#[derive(Debug)]
pub enum Type {
    Number,
    String,
    Bool,
    Function(FunType),
}

/// The type of a one-argument function.
#[derive(Debug)]
pub struct FunType {
    pub input: Box<Type>,
    pub output: Box<Type>,
}

impl FunType {
    pub fn new(input: Type, output: Type) -> (r: Self)
        ensures
            *r.input == input,
            *r.output == output,
    {
        FunType { input: Box::new(input), output: Box::new(output) }
    }
}

impl Clone for Type {
    fn clone(&self) -> (r: Self)
        ensures
            r == *self,
        decreases self,
    {
        match self {
            Type::Number => Type::Number,
            Type::String => Type::String,
            Type::Bool => Type::Bool,
            Type::Function(f) => Type::Function(
                FunType { input: Box::new((*f.input).clone()), output: Box::new((*f.output).clone()) },
            ),
        }
    }
}

impl Clone for FunType {
    fn clone(&self) -> (r: Self)
        ensures
            r == *self,
    {
        FunType { input: Box::new((*self.input).clone()), output: Box::new((*self.output).clone()) }
    }
}

/// Structural equality of types.
fn type_eq(a: &Type, b: &Type) -> (r: bool)
    ensures
        r == (*a == *b),
    decreases a,
{
    match (a, b) {
        (Type::Number, Type::Number) => true,
        (Type::String, Type::String) => true,
        (Type::Bool, Type::Bool) => true,
        (Type::Function(f), Type::Function(g)) => type_eq(&f.input, &g.input) && type_eq(&f.output, &g.output),
        _ => false,
    }
}

impl PartialEq for Type {
    fn eq(&self, other: &Type) -> (r: bool) {
        type_eq(self, other)
    }
}

impl vstd::std_specs::cmp::PartialEqSpecImpl for Type {
    open spec fn obeys_eq_spec() -> bool {
        true
    }

    open spec fn eq_spec(&self, other: &Type) -> bool {
        *self == *other
    }
}

/// An expression. Sub-expressions are boxed.
#[derive(Debug)]
pub enum Expr {
    Number(i64),
    Bool(bool),
    Variable(char),
    Binary(BinExp),
    Conditional(IfExp),
    Function(FunExp),
    Call(CallExp),
}

/// `left operator right`.
#[derive(Debug)]
pub struct BinExp {
    pub left: Box<Expr>,
    pub operator: Operation,
    pub right: Box<Expr>,
}

/// `if condition { then_branch } else { elze }`.
#[derive(Debug)]
pub struct IfExp {
    pub condition: Box<Expr>,
    pub then_branch: Box<Expr>,
    pub elze: Box<Expr>,
}

/// A one-argument function `fn(argument) = body`. The argument must be a
/// variable for its type to be inferred.
#[derive(Debug)]
pub struct FunExp {
    pub argument: Box<Expr>,
    pub arg_type: Type,
    pub body: Box<Expr>,
}

/// An application `caller(callee)`: `caller` is the function, `callee` its argument.
#[derive(Debug)]
pub struct CallExp {
    pub caller: Box<Expr>,
    pub callee: Box<Expr>,
}

impl BinExp {
    pub fn new(left: Expr, operator: Operation, right: Expr) -> (r: Self)
        ensures
            *r.left == left,
            r.operator == operator,
            *r.right == right,
    {
        BinExp { left: Box::new(left), operator, right: Box::new(right) }
    }
}

impl IfExp {
    pub fn new(cond: Expr, then_branch: Expr, elze: Expr) -> (r: Self)
        ensures
            *r.condition == cond,
            *r.then_branch == then_branch,
            *r.elze == elze,
    {
        IfExp { condition: Box::new(cond), then_branch: Box::new(then_branch), elze: Box::new(elze) }
    }
}

impl FunExp {
    pub fn new(argument: Expr, arg_type: Type, body: Expr) -> (r: Self)
        ensures
            *r.argument == argument,
            r.arg_type == arg_type,
            *r.body == body,
    {
        FunExp { argument: Box::new(argument), arg_type, body: Box::new(body) }
    }
}

impl CallExp {
    pub fn new(ler: Expr, lee: Expr) -> (r: Self)
        ensures
            *r.caller == ler,
            *r.callee == lee,
    {
        CallExp { caller: Box::new(ler), callee: Box::new(lee) }
    }
}

impl From<i64> for Expr {
    fn from(num: i64) -> (r: Self) {
        Expr::Number(num)
    }
}

impl vstd::std_specs::convert::FromSpecImpl<i64> for Expr {
    open spec fn obeys_from_spec() -> bool {
        true
    }

    open spec fn from_spec(num: i64) -> Expr {
        Expr::Number(num)
    }
}

impl From<bool> for Expr {
    fn from(value: bool) -> (r: Self) {
        Expr::Bool(value)
    }
}

impl vstd::std_specs::convert::FromSpecImpl<bool> for Expr {
    open spec fn obeys_from_spec() -> bool {
        true
    }

    open spec fn from_spec(value: bool) -> Expr {
        Expr::Bool(value)
    }
}

/// `a + b` builds the binary expression `Add(a, b)`.
impl std::ops::Add for Expr {
    type Output = Expr;

    fn add(self, other: Self) -> (r: Expr) {
        Expr::Binary(BinExp::new(self, Operation::Add, other))
    }
}

impl vstd::std_specs::ops::AddSpecImpl for Expr {
    open spec fn obeys_add_spec() -> bool {
        true
    }

    open spec fn add_req(self, other: Expr) -> bool {
        true
    }

    open spec fn add_spec(self, other: Expr) -> Expr {
        Expr::Binary(BinExp { left: Box::new(self), operator: Operation::Add, right: Box::new(other) })
    }
}

impl Clone for Expr {
    fn clone(&self) -> (r: Self)
        ensures
            r == *self,
        decreases self,
    {
        match self {
            Expr::Number(n) => Expr::Number(*n),
            Expr::Bool(b) => Expr::Bool(*b),
            Expr::Variable(c) => Expr::Variable(*c),
            Expr::Binary(e) => Expr::Binary(
                BinExp {
                    left: Box::new((*e.left).clone()),
                    operator: e.operator,
                    right: Box::new((*e.right).clone()),
                },
            ),
            Expr::Conditional(e) => Expr::Conditional(
                IfExp {
                    condition: Box::new((*e.condition).clone()),
                    then_branch: Box::new((*e.then_branch).clone()),
                    elze: Box::new((*e.elze).clone()),
                },
            ),
            Expr::Function(e) => Expr::Function(
                FunExp {
                    argument: Box::new((*e.argument).clone()),
                    arg_type: e.arg_type.clone(),
                    body: Box::new((*e.body).clone()),
                },
            ),
            Expr::Call(e) => Expr::Call(
                CallExp { caller: Box::new((*e.caller).clone()), callee: Box::new((*e.callee).clone()) },
            ),
        }
    }
}

impl Clone for BinExp {
    fn clone(&self) -> (r: Self)
        ensures
            r == *self,
    {
        BinExp { left: Box::new((*self.left).clone()), operator: self.operator, right: Box::new((*self.right).clone()) }
    }
}

impl Clone for IfExp {
    fn clone(&self) -> (r: Self)
        ensures
            r == *self,
    {
        IfExp {
            condition: Box::new((*self.condition).clone()),
            then_branch: Box::new((*self.then_branch).clone()),
            elze: Box::new((*self.elze).clone()),
        }
    }
}

impl Clone for FunExp {
    fn clone(&self) -> (r: Self)
        ensures
            r == *self,
    {
        FunExp {
            argument: Box::new((*self.argument).clone()),
            arg_type: self.arg_type.clone(),
            body: Box::new((*self.body).clone()),
        }
    }
}

impl Clone for CallExp {
    fn clone(&self) -> (r: Self)
        ensures
            r == *self,
    {
        CallExp { caller: Box::new((*self.caller).clone()), callee: Box::new((*self.callee).clone()) }
    }
}

/// Structural equality of expressions.
fn expr_eq(a: &Expr, b: &Expr) -> (r: bool)
    ensures
        r == (*a == *b),
    decreases a,
{
    match (a, b) {
        (Expr::Number(m), Expr::Number(n)) => *m == *n,
        (Expr::Bool(p), Expr::Bool(q)) => *p == *q,
        (Expr::Variable(x), Expr::Variable(y)) => *x == *y,
        (Expr::Binary(e), Expr::Binary(f)) => {
            e.operator == f.operator && expr_eq(&e.left, &f.left) && expr_eq(&e.right, &f.right)
        },
        (Expr::Conditional(e), Expr::Conditional(f)) => {
            expr_eq(&e.condition, &f.condition) && expr_eq(&e.then_branch, &f.then_branch) && expr_eq(&e.elze, &f.elze)
        },
        (Expr::Function(e), Expr::Function(f)) => {
            expr_eq(&e.argument, &f.argument) && type_eq(&e.arg_type, &f.arg_type) && expr_eq(&e.body, &f.body)
        },
        (Expr::Call(e), Expr::Call(f)) => {
            expr_eq(&e.caller, &f.caller) && expr_eq(&e.callee, &f.callee)
        },
        _ => false,
    }
}

impl PartialEq for Expr {
    fn eq(&self, other: &Expr) -> (r: bool) {
        expr_eq(self, other)
    }
}

impl vstd::std_specs::cmp::PartialEqSpecImpl for Expr {
    open spec fn obeys_eq_spec() -> bool {
        true
    }

    open spec fn eq_spec(&self, other: &Expr) -> bool {
        *self == *other
    }
}

impl PartialEq for FunType {
    fn eq(&self, other: &FunType) -> (r: bool) {
        type_eq(&self.input, &other.input) && type_eq(&self.output, &other.output)
    }
}

impl vstd::std_specs::cmp::PartialEqSpecImpl for FunType {
    open spec fn obeys_eq_spec() -> bool {
        true
    }

    open spec fn eq_spec(&self, other: &FunType) -> bool {
        *self == *other
    }
}

impl PartialEq for BinExp {
    fn eq(&self, other: &BinExp) -> (r: bool) {
        self.operator == other.operator && expr_eq(&self.left, &other.left) && expr_eq(&self.right, &other.right)
    }
}

impl vstd::std_specs::cmp::PartialEqSpecImpl for BinExp {
    open spec fn obeys_eq_spec() -> bool {
        true
    }

    open spec fn eq_spec(&self, other: &BinExp) -> bool {
        *self == *other
    }
}

impl PartialEq for IfExp {
    fn eq(&self, other: &IfExp) -> (r: bool) {
        expr_eq(&self.condition, &other.condition) && expr_eq(&self.then_branch, &other.then_branch) && expr_eq(&self.elze, &other.elze)
    }
}

impl vstd::std_specs::cmp::PartialEqSpecImpl for IfExp {
    open spec fn obeys_eq_spec() -> bool {
        true
    }

    open spec fn eq_spec(&self, other: &IfExp) -> bool {
        *self == *other
    }
}

impl PartialEq for FunExp {
    fn eq(&self, other: &FunExp) -> (r: bool) {
        expr_eq(&self.argument, &other.argument) && type_eq(&self.arg_type, &other.arg_type) && expr_eq(&self.body, &other.body)
    }
}

impl vstd::std_specs::cmp::PartialEqSpecImpl for FunExp {
    open spec fn obeys_eq_spec() -> bool {
        true
    }

    open spec fn eq_spec(&self, other: &FunExp) -> bool {
        *self == *other
    }
}

impl PartialEq for CallExp {
    fn eq(&self, other: &CallExp) -> (r: bool) {
        expr_eq(&self.caller, &other.caller) && expr_eq(&self.callee, &other.callee)
    }
}

impl vstd::std_specs::cmp::PartialEqSpecImpl for CallExp {
    open spec fn obeys_eq_spec() -> bool {
        true
    }

    open spec fn eq_spec(&self, other: &CallExp) -> bool {
        *self == *other
    }
}

impl Eq for Type {}

impl Eq for FunType {}

impl Eq for Expr {}

impl Eq for BinExp {}

impl Eq for IfExp {}

impl Eq for FunExp {}

impl Eq for CallExp {}

} // verus!
