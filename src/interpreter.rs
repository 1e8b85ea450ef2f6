use vstd::prelude::*;

use crate::environment::Environment;
use crate::error::RuntimeError;
use crate::grammar::declaration::{Declaration, Initialization};
use crate::grammar::expression::{
    binary_of, ternary_of, BinaryOperator, Expression, Literal, UnaryOperator, Variable,
};
use crate::grammar::statement::Statement;
use crate::number::Number;
use crate::value::{Value, ValueView};

verus! {

/// Names bound to values.
pub type Bindings = Map<Seq<char>, ValueView>;

/// A failed evaluation: the message and the expression that failed.
pub type Failure = (Seq<char>, Expression);

pub open spec fn unknown_variable_message(name: Seq<char>) -> Seq<char> {
    "unknown variable `"@ + name + "`"@
}

pub open spec fn unassigned_variable_message(name: Seq<char>) -> Seq<char> {
    "variable `"@ + name + "` has does not have a value"@
}

pub open spec fn checked(n: Option<Number>) -> Result<ValueView, Seq<char>> {
    match n {
        Some(x) => Ok(ValueView::Number(x)),
        None => Err("numeric result out of range"@),
    }
}

pub open spec fn literal_value(l: Literal) -> ValueView {
    match l {
        Literal::String(s) => ValueView::String(s@),
        Literal::Number(n) => ValueView::Number(n),
        Literal::True => ValueView::Boolean(true),
        Literal::False => ValueView::Boolean(false),
        Literal::Nil => ValueView::Nil,
    }
}

/// What a unary operator gives for an operand, or the error message.
pub open spec fn unary_result(op: UnaryOperator, v: ValueView) -> Result<ValueView, Seq<char>> {
    match op {
        UnaryOperator::Not => Ok(ValueView::Boolean(!v.is_truthy())),
        UnaryOperator::Minus => match v {
            ValueView::Number(n) => Ok(ValueView::Number(n.spec_neg())),
            _ => Err("cannot negate non-numerical value"@),
        },
    }
}

/// What a binary operator gives for two operands, or the error message.
pub open spec fn binary_result(op: BinaryOperator, l: ValueView, r: ValueView) -> Result<
    ValueView,
    Seq<char>,
> {
    match op {
        BinaryOperator::Comma => Ok(r),
        BinaryOperator::Equal => Ok(ValueView::Boolean(l.equals(r))),
        BinaryOperator::NotEqual => Ok(ValueView::Boolean(!l.equals(r))),
        BinaryOperator::Less => match (l, r) {
            (ValueView::Number(a), ValueView::Number(b)) => Ok(ValueView::Boolean(a.less_than(b))),
            _ => Err("cannot compare non-numeric types"@),
        },
        BinaryOperator::LessEqual => match (l, r) {
            (ValueView::Number(a), ValueView::Number(b)) => Ok(ValueView::Boolean(a.at_most(b))),
            _ => Err("cannot compare non-numeric types"@),
        },
        BinaryOperator::Greater => match (l, r) {
            (ValueView::Number(a), ValueView::Number(b)) => Ok(ValueView::Boolean(b.less_than(a))),
            _ => Err("cannot compare non-numeric types"@),
        },
        BinaryOperator::GreaterEqual => match (l, r) {
            (ValueView::Number(a), ValueView::Number(b)) => Ok(ValueView::Boolean(b.at_most(a))),
            _ => Err("cannot compare non-numeric types"@),
        },
        BinaryOperator::Plus => match (l, r) {
            (ValueView::Number(a), ValueView::Number(b)) => checked(a.spec_add(b)),
            (ValueView::String(a), ValueView::String(b)) => Ok(ValueView::String(a + b)),
            _ => Err("cannot add non-numeric types"@),
        },
        BinaryOperator::Minus => match (l, r) {
            (ValueView::Number(a), ValueView::Number(b)) => checked(a.spec_sub(b)),
            _ => Err("cannot subtract non-numeric types"@),
        },
        BinaryOperator::Multiply => match (l, r) {
            (ValueView::Number(a), ValueView::Number(b)) => checked(a.spec_mul(b)),
            _ => Err("cannot multiply non-numeric types"@),
        },
        BinaryOperator::Divide => match (l, r) {
            (ValueView::Number(a), ValueView::Number(b)) => if b.numer() == 0 {
                Err("cannot divide by 0"@)
            } else {
                checked(a.spec_div(b))
            },
            _ => Err("cannot divide non-numeric types"@),
        },
    }
}

/// The value of `e` in the bindings `env`, or the failure that stops it.
pub open spec fn eval(env: Bindings, e: Expression) -> Result<ValueView, Failure>
    decreases e,
{
    match e {
        Expression::Literal(l) => Ok(literal_value(l)),
        Expression::Grouping(g) => eval(env, *g.expr),
        Expression::Unary(u) => match eval(env, *u.expr) {
            Err(f) => Err(f),
            Ok(v) => match unary_result(u.operator, v) {
                Ok(w) => Ok(w),
                Err(m) => Err((m, e)),
            },
        },
        Expression::Binary(b) => match eval(env, *b.left) {
            Err(f) => Err(f),
            Ok(l) => match eval(env, *b.right) {
                Err(f) => Err(f),
                Ok(r) => match binary_result(b.operator, l, r) {
                    Ok(w) => Ok(w),
                    Err(m) => Err((m, e)),
                },
            },
        },
        Expression::Ternary(t) => match eval(env, *t.condition) {
            Err(f) => Err(f),
            Ok(c) => if c.is_truthy() {
                eval(env, *t.left_branch)
            } else {
                eval(env, *t.right_branch)
            },
        },
        Expression::Variable(v) => if !env.contains_key(v.name@) {
            Err((unknown_variable_message(v.name@), e))
        } else if env[v.name@] == ValueView::Void {
            Err((unassigned_variable_message(v.name@), e))
        } else {
            Ok(env[v.name@])
        },
    }
}

pub open spec fn outcome(r: Result<Value, RuntimeError>) -> Result<ValueView, Failure> {
    match r {
        Ok(v) => Ok(v@),
        Err(e) => Err((e.message@, e.expr)),
    }
}

pub open spec fn message_outcome(r: Result<Value, String>) -> Result<ValueView, Seq<char>> {
    match r {
        Ok(v) => Ok(v@),
        Err(m) => Err(m@),
    }
}

fn text(s: &str) -> (r: String)
    ensures
        r@ == s@,
{
    String::from_str(s)
}

fn checked_number(n: Option<Number>) -> (r: Result<Value, String>)
    ensures
        message_outcome(r) == checked(n),
{
    match n {
        Some(x) => Ok(Value::Number(x)),
        None => Err(text("numeric result out of range")),
    }
}

fn literal_to_value(l: &Literal) -> (r: Value)
    ensures
        r@ == literal_value(*l),
{
    match l {
        Literal::String(s) => Value::String(s.clone()),
        Literal::Number(n) => Value::Number(*n),
        Literal::True => Value::Boolean(true),
        Literal::False => Value::Boolean(false),
        Literal::Nil => Value::Nil,
    }
}

pub fn is_truthy(v: &Value) -> (r: bool)
    ensures
        r == v@.is_truthy(),
{
    match v {
        Value::Boolean(b) => *b,
        Value::Nil => false,
        _ => true,
    }
}

/// The language's `==` on two values.
pub fn values_equal(l: &Value, r: &Value) -> (res: bool)
    ensures
        res == l@.equals(r@),
{
    match (l, r) {
        (Value::Number(a), Value::Number(b)) => a.equals(b),
        (Value::String(a), Value::String(b)) => *a == *b,
        (Value::Boolean(a), Value::Boolean(b)) => *a == *b,
        (Value::Nil, Value::Nil) => true,
        _ => false,
    }
}

pub fn apply_unary(op: UnaryOperator, v: Value) -> (r: Result<Value, String>)
    ensures
        message_outcome(r) == unary_result(op, v@),
{
    match op {
        UnaryOperator::Not => Ok(Value::Boolean(!is_truthy(&v))),
        UnaryOperator::Minus => match v {
            Value::Number(n) => Ok(Value::Number(n.neg())),
            _ => Err(text("cannot negate non-numerical value")),
        },
    }
}

pub fn apply_binary(op: BinaryOperator, l: Value, r: Value) -> (res: Result<Value, String>)
    ensures
        message_outcome(res) == binary_result(op, l@, r@),
{
    match op {
        BinaryOperator::Comma => Ok(r),
        BinaryOperator::Equal => Ok(Value::Boolean(values_equal(&l, &r))),
        BinaryOperator::NotEqual => Ok(Value::Boolean(!values_equal(&l, &r))),
        BinaryOperator::Less => match (l, r) {
            (Value::Number(a), Value::Number(b)) => Ok(Value::Boolean(a.lt(&b))),
            _ => Err(text("cannot compare non-numeric types")),
        },
        BinaryOperator::LessEqual => match (l, r) {
            (Value::Number(a), Value::Number(b)) => Ok(Value::Boolean(a.le(&b))),
            _ => Err(text("cannot compare non-numeric types")),
        },
        BinaryOperator::Greater => match (l, r) {
            (Value::Number(a), Value::Number(b)) => Ok(Value::Boolean(b.lt(&a))),
            _ => Err(text("cannot compare non-numeric types")),
        },
        BinaryOperator::GreaterEqual => match (l, r) {
            (Value::Number(a), Value::Number(b)) => Ok(Value::Boolean(b.le(&a))),
            _ => Err(text("cannot compare non-numeric types")),
        },
        BinaryOperator::Plus => match (l, r) {
            (Value::Number(a), Value::Number(b)) => checked_number(a.add(&b)),
            (Value::String(a), Value::String(b)) => {
                let mut s = a;
                s.append(b.as_str());
                Ok(Value::String(s))
            },
            _ => Err(text("cannot add non-numeric types")),
        },
        BinaryOperator::Minus => match (l, r) {
            (Value::Number(a), Value::Number(b)) => checked_number(a.sub(&b)),
            _ => Err(text("cannot subtract non-numeric types")),
        },
        BinaryOperator::Multiply => match (l, r) {
            (Value::Number(a), Value::Number(b)) => checked_number(a.mul(&b)),
            _ => Err(text("cannot multiply non-numeric types")),
        },
        BinaryOperator::Divide => match (l, r) {
            (Value::Number(a), Value::Number(b)) => {
                if b.is_zero() {
                    Err(text("cannot divide by 0"))
                } else {
                    checked_number(a.div(&b))
                }
            },
            _ => Err(text("cannot divide non-numeric types")),
        },
    }
}

/// What running a declaration does: the bindings after it, the values it
/// printed, and its result (`Void` on success).
pub struct Effect {
    pub env: Bindings,
    pub printed: Seq<ValueView>,
    pub result: Result<ValueView, Failure>,
}

pub open spec fn run_statement(env: Bindings, s: Statement) -> Effect {
    match s {
        Statement::Expression(x) => match eval(env, x.expr) {
            Ok(_) => Effect { env, printed: seq![], result: Ok(ValueView::Void) },
            Err(f) => Effect { env, printed: seq![], result: Err(f) },
        },
        Statement::Print(p) => match eval(env, p.expr) {
            Ok(v) => Effect { env, printed: seq![v], result: Ok(ValueView::Void) },
            Err(f) => Effect { env, printed: seq![], result: Err(f) },
        },
    }
}

pub open spec fn run_declaration(env: Bindings, d: Declaration) -> Effect {
    match d {
        Declaration::Init(i) => Effect {
            env: env.insert(i.name@, ValueView::Void),
            printed: seq![],
            result: Ok(ValueView::Void),
        },
        Declaration::Inst(i) => match eval(env, i.definition) {
            Ok(v) => Effect {
                env: env.insert(i.name@, v),
                printed: seq![],
                result: Ok(ValueView::Void),
            },
            Err(f) => Effect { env, printed: seq![], result: Err(f) },
        },
        Declaration::Stmt(s) => run_statement(env, s.stmt),
    }
}

/// Evaluates declarations one at a time against one environment.
pub struct Interpreter {
    pub environment: Environment,
    /// What print statements produced, oldest first, until taken.
    pub output: Vec<Value>,
}

impl Interpreter {
    pub fn new() -> (r: Self)
        ensures
            r.environment@ == Map::<Seq<char>, ValueView>::empty(),
            r.environment.wf(),
            r.output@.len() == 0,
    {
        Interpreter { environment: Environment::new(), output: Vec::new() }
    }

    /// The value of an expression in the current environment.
    pub fn evaluate_expression(&self, e: &Expression) -> (r: Result<Value, RuntimeError>)
        ensures
            outcome(r) == eval(self.environment@, *e),
        decreases e,
    {
        match e {
            Expression::Literal(l) => Ok(literal_to_value(l)),
            Expression::Grouping(g) => self.evaluate_expression(&g.expr),
            Expression::Unary(u) => {
                let v = match self.evaluate_expression(&u.expr) {
                    Ok(v) => v,
                    Err(f) => return Err(f),
                };
                match apply_unary(u.operator, v) {
                    Ok(w) => Ok(w),
                    Err(m) => Err(RuntimeError::new(m, e.copy())),
                }
            },
            Expression::Binary(b) => {
                let l = match self.evaluate_expression(&b.left) {
                    Ok(v) => v,
                    Err(f) => return Err(f),
                };
                let r = match self.evaluate_expression(&b.right) {
                    Ok(v) => v,
                    Err(f) => return Err(f),
                };
                match apply_binary(b.operator, l, r) {
                    Ok(w) => Ok(w),
                    Err(m) => Err(RuntimeError::new(m, e.copy())),
                }
            },
            Expression::Ternary(t) => {
                let c = match self.evaluate_expression(&t.condition) {
                    Ok(v) => v,
                    Err(f) => return Err(f),
                };
                if is_truthy(&c) {
                    self.evaluate_expression(&t.left_branch)
                } else {
                    self.evaluate_expression(&t.right_branch)
                }
            },
            Expression::Variable(v) => match self.environment.get(&v.name) {
                None => {
                    let mut m = text("unknown variable `");
                    m.append(v.name.as_str());
                    m.append("`");
                    Err(RuntimeError::new(m, e.copy()))
                },
                Some(val) => {
                    if val.is_void() {
                        let mut m = text("variable `");
                        m.append(v.name.as_str());
                        m.append("` has does not have a value");
                        Err(RuntimeError::new(m, e.copy()))
                    } else {
                        Ok(val)
                    }
                },
            },
        }
    }

    fn execute_statement(&mut self, s: &Statement) -> (r: Result<Value, RuntimeError>)
        ensures
            final(self).environment == old(self).environment,
            final(self).environment@ == run_statement(old(self).environment@, *s).env,
            final(self).output@.map_values(|v: Value| v@) == old(self).output@.map_values(
                |v: Value| v@,
            ) + run_statement(old(self).environment@, *s).printed,
            outcome(r) == run_statement(old(self).environment@, *s).result,
    {
        match s {
            Statement::Expression(x) => match self.evaluate_expression(&x.expr) {
                Ok(_) => {
                    assert(self.output@.map_values(|v: Value| v@) =~= self.output@.map_values(
                        |v: Value| v@,
                    ) + seq![]);
                    Ok(Value::Void)
                },
                Err(f) => {
                    assert(self.output@.map_values(|v: Value| v@) =~= self.output@.map_values(
                        |v: Value| v@,
                    ) + seq![]);
                    Err(f)
                },
            },
            Statement::Print(p) => match self.evaluate_expression(&p.expr) {
                Ok(v) => {
                    let ghost before = self.output@;
                    self.output.push(v);
                    assert(self.output@.map_values(|v: Value| v@) =~= before.map_values(
                        |v: Value| v@,
                    ) + seq![v@]);
                    Ok(Value::Void)
                },
                Err(f) => {
                    assert(self.output@.map_values(|v: Value| v@) =~= self.output@.map_values(
                        |v: Value| v@,
                    ) + seq![]);
                    Err(f)
                },
            },
        }
    }

    /// Runs one declaration: binds names, records printed values, and gives
    /// `Void` or the runtime error that stopped it.
    pub fn evaluate(&mut self, decl: &Declaration) -> (r: Result<Value, RuntimeError>)
        requires
            old(self).environment.wf(),
        ensures
            final(self).environment.wf(),
            final(self).environment@ == run_declaration(old(self).environment@, *decl).env,
            final(self).output@.map_values(|v: Value| v@) == old(self).output@.map_values(
                |v: Value| v@,
            ) + run_declaration(old(self).environment@, *decl).printed,
            outcome(r) == run_declaration(old(self).environment@, *decl).result,
    {
        match decl {
            Declaration::Init(i) => {
                self.environment.add_name(i.name.clone());
                assert(self.output@.map_values(|v: Value| v@) =~= self.output@.map_values(
                    |v: Value| v@,
                ) + seq![]);
                Ok(Value::Void)
            },
            Declaration::Inst(i) => match self.evaluate_expression(&i.definition) {
                Ok(v) => {
                    self.environment.set_value(i.name.clone(), v);
                    assert(self.output@.map_values(|v: Value| v@) =~= self.output@.map_values(
                        |v: Value| v@,
                    ) + seq![]);
                    Ok(Value::Void)
                },
                Err(f) => {
                    assert(self.output@.map_values(|v: Value| v@) =~= self.output@.map_values(
                        |v: Value| v@,
                    ) + seq![]);
                    Err(f)
                },
            },
            Declaration::Stmt(s) => self.execute_statement(&s.stmt),
        }
    }

    /// Hands over the printed values and empties the record.
    pub fn take_output(&mut self) -> (r: Vec<Value>)
        ensures
            r@ == old(self).output@,
            final(self).output@.len() == 0,
            final(self).environment == old(self).environment,
    {
        let mut out: Vec<Value> = Vec::new();
        std::mem::swap(&mut out, &mut self.output);
        out
    }
}

/// The kind of a value, telling variants apart.
pub open spec fn kind(v: ValueView) -> int {
    match v {
        ValueView::Boolean(_) => 0,
        ValueView::String(_) => 1,
        ValueView::Number(_) => 2,
        ValueView::Nil => 3,
        ValueView::Void => 4,
    }
}

pub open spec fn boolean(b: bool) -> Result<ValueView, Seq<char>> {
    Ok(ValueView::Boolean(b))
}

/// A comma evaluates its left side, then gives the value of its right side.
pub proof fn lemma_comma_evaluates_both(env: Bindings, l: Expression, r: Expression)
    ensures
        eval(env, binary_of(BinaryOperator::Comma, l, r)) == match eval(env, l) {
            Err(f) => Err(f),
            Ok(_) => eval(env, r),
        },
{
}

/// A ternary evaluates only the branch its condition selects: the other one,
/// whatever it is (even one that would fail), does not change the result.
pub proof fn lemma_ternary_evaluates_one_branch(
    env: Bindings,
    c: Expression,
    a: Expression,
    b: Expression,
)
    ensures
        eval(env, ternary_of(c, a, b)) == match eval(env, c) {
            Err(f) => Err(f),
            Ok(v) => if v.is_truthy() {
                eval(env, a)
            } else {
                eval(env, b)
            },
        },
{
}

/// `==` between values of different kinds is false and `!=` true; for every
/// pair, `!=` is the negation of `==`.
pub proof fn lemma_equality_across_kinds(l: ValueView, r: ValueView)
    ensures
        kind(l) != kind(r) ==> binary_result(BinaryOperator::Equal, l, r) == boolean(false),
        kind(l) != kind(r) ==> binary_result(BinaryOperator::NotEqual, l, r) == boolean(true),
        binary_result(BinaryOperator::Equal, l, r) matches Ok(ValueView::Boolean(e))
            && binary_result(BinaryOperator::NotEqual, l, r) == boolean(!e),
{
}

/// Dividing a number by zero is an error, never a value.
pub proof fn lemma_division_by_zero(a: Number, b: Number)
    requires
        b.numer() == 0,
    ensures
        binary_result(BinaryOperator::Divide, ValueView::Number(a), ValueView::Number(b))
            == Err::<ValueView, Seq<char>>("cannot divide by 0"@),
{
}

/// `+` joins two strings, and fails when a string meets any other kind.
pub proof fn lemma_plus_on_strings(a: Seq<char>, v: ValueView)
    ensures
        v matches ValueView::String(b) ==> binary_result(BinaryOperator::Plus, ValueView::String(a), v)
            == Ok::<ValueView, Seq<char>>(ValueView::String(a + b)),
        !(v is String) ==> binary_result(BinaryOperator::Plus, ValueView::String(a), v) is Err,
        !(v is String) ==> binary_result(BinaryOperator::Plus, v, ValueView::String(a)) is Err,
{
}

/// After `var name;` reading `name` is an error.
pub proof fn lemma_declared_variable_has_no_value(env: Bindings, name: String)
    ensures
        ({
            let x = Expression::Variable(Variable { name });
            let env2 = run_declaration(env, Declaration::Init(Initialization { name })).env;
            eval(env2, x) == Err::<ValueView, Failure>((unassigned_variable_message(name@), x))
        }),
{
}

} // verus!
