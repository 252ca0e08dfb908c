use vstd::prelude::*;

use crate::ast::{
    CmpOperators, ExprV, Expression, Operator, ParamV, Statement, StmtV, clone_params,
    clone_statements, exprs_view, stmts_view,
};
use crate::value::{
    EnvV, Envoirment, FunctionType, Value, ValueV, env_get, env_set, lemma_env_set_unique,
    names_unique,
};

verus! {

/// Why running a program failed.
#[derive(Clone, Copy, Debug, PartialEq, Eq, Structural)]
pub enum EvalError {
    /// A variable or function name that no visible environment binds.
    UnresolvedName,
    /// A call whose argument count differs from the callee's parameter count.
    Arity,
    /// An operator applied to values of kinds it does not take.
    TypeMismatch,
    /// Integer division by zero, or an integer result out of range.
    Arithmetic,
    /// A construct that this evaluator does not carry out.
    Unimplemented,
    /// Calls nested deeper than `MAX_CALL_DEPTH`: a resource limit of this
    /// evaluator, which stands in for the host's stack, not an error of the
    /// language.
    DepthExceeded,
}

/// How deep calls may nest in one top-level statement. Each nested call takes
/// host stack, so the evaluator stops with `DepthExceeded` past this depth
/// rather than overflow the stack.
pub const MAX_CALL_DEPTH: u64 = 1000;

/// How a statement or a block ended: normally, or by `return` with a value.
pub enum Flow {
    Normal,
    Return(ValueV),
}

/// The model of the scope that an expression is evaluated in.
pub open spec fn scope_view(l: Option<&Envoirment>) -> Option<EnvV> {
    match l {
        Some(e) => Some(e@),
        None => None,
    }
}

/// The value of a variable: the call-local environment first, then the global one.
pub open spec fn lookup(globals: EnvV, local: Option<EnvV>, name: Seq<char>) -> Option<ValueV> {
    match local {
        Some(l) => if env_get(l, name) is Some {
            env_get(l, name)
        } else {
            env_get(globals, name)
        },
        None => env_get(globals, name),
    }
}

pub open spec fn abs(x: int) -> int {
    if x < 0 {
        -x
    } else {
        x
    }
}

/// Integer division that truncates toward zero.
pub open spec fn trunc_div(x: int, d: int) -> int {
    let q = abs(x) / abs(d);
    if (x < 0) == (d < 0) {
        q
    } else {
        -q
    }
}

/// An integer result, or an arithmetic error when it leaves the range of `i64`.
pub open spec fn int_result(x: int) -> Result<ValueV, EvalError> {
    if i64::MIN <= x <= i64::MAX {
        Ok(ValueV::Int(x as i64))
    } else {
        Err(EvalError::Arithmetic)
    }
}

/// A binary operator on two values: `Int` with `Int` only; two floats are
/// beyond this evaluator, and any other pairing is a type mismatch.
pub open spec fn binary_op(op: Operator, a: ValueV, b: ValueV) -> Result<ValueV, EvalError> {
    match (a, b) {
        (ValueV::Int(x), ValueV::Int(y)) => match op {
            Operator::Plus => int_result(x + y),
            Operator::Minus => int_result(x - y),
            Operator::Multiplication => int_result(x * y),
            Operator::Division => if y == 0 {
                Err(EvalError::Arithmetic)
            } else {
                int_result(trunc_div(x as int, y as int))
            },
        },
        (ValueV::Float(_), ValueV::Float(_)) => Err(EvalError::Unimplemented),
        _ => Err(EvalError::TypeMismatch),
    }
}

/// The lexicographic order of two character sequences from index `i`, by
/// code point: -1, 0 or 1.
pub open spec fn text_order(a: Seq<char>, b: Seq<char>, i: int) -> int
    decreases a.len() - i,
{
    if i >= a.len() {
        if i >= b.len() {
            0
        } else {
            -1
        }
    } else if i >= b.len() {
        1
    } else if a[i] != b[i] {
        if (a[i] as u32) < (b[i] as u32) {
            -1
        } else {
            1
        }
    } else {
        text_order(a, b, i + 1)
    }
}

pub open spec fn sign(x: int) -> int {
    if x < 0 {
        -1
    } else if x > 0 {
        1
    } else {
        0
    }
}

/// The order of two values of the same kind (-1, 0 or 1); values of
/// different kinds, and functions, are incomparable.
pub open spec fn order(a: ValueV, b: ValueV) -> Option<int> {
    match (a, b) {
        (ValueV::Null, ValueV::Null) => Some(0),
        (ValueV::Int(x), ValueV::Int(y)) => Some(sign(x - y)),
        (ValueV::Char(x), ValueV::Char(y)) => Some(sign((x as u32) - (y as u32))),
        (ValueV::Bool(x), ValueV::Bool(y)) => Some(
            if x == y {
                0
            } else if !x {
                -1
            } else {
                1
            },
        ),
        (ValueV::Str(x), ValueV::Str(y)) => Some(text_order(x, y, 0)),
        _ => None,
    }
}

/// Whether a comparison holds; two floats are beyond this evaluator.
pub open spec fn compare(op: CmpOperators, a: ValueV, b: ValueV) -> Result<bool, EvalError> {
    if a is Float && b is Float {
        Err(EvalError::Unimplemented)
    } else {
        let o = order(a, b);
        Ok(
            match op {
                CmpOperators::Equal => o == Some(0int),
                CmpOperators::NotEqual => o != Some(0int),
                CmpOperators::LessThen => o == Some(-1int),
                CmpOperators::LessThenOrEqual => o == Some(-1int) || o == Some(0int),
                CmpOperators::GreaterThen => o == Some(1int),
                CmpOperators::GreaterThenOrEqual => o == Some(1int) || o == Some(0int),
            },
        )
    }
}

/// The environment `env` with each parameter bound to its argument, in order.
pub open spec fn bind_params(params: Seq<ParamV>, vals: Seq<ValueV>, env: EnvV) -> EnvV
    decreases params.len(),
{
    if params.len() == 0 || vals.len() == 0 {
        env
    } else {
        bind_params(params.drop_first(), vals.drop_first(), env_set(env, params[0].name, vals[0]))
    }
}

/// The value of an expression and the function table after it. `funcs` is the
/// function table, `globals` the global variables, `local` the call-local
/// environment if any; `fuel` is how many calls may still nest.
pub open spec fn eval(funcs: EnvV, globals: EnvV, local: Option<EnvV>, e: ExprV, fuel: nat) -> (EnvV, Result<ValueV, EvalError>)
    decreases fuel, 0int, e,
{
    match e {
        ExprV::Str(s) => (funcs, Ok(ValueV::Str(s))),
        ExprV::Int(n) => (funcs, Ok(ValueV::Int(n))),
        ExprV::Bool(b) => (funcs, Ok(ValueV::Bool(b))),
        ExprV::Float(t) => (funcs, Ok(ValueV::Float(t))),
        ExprV::Char(c) => (funcs, Ok(ValueV::Char(c))),
        ExprV::Ident(n) => (
            funcs,
            match lookup(globals, local, n) {
                Some(v) => Ok(v),
                None => Err(EvalError::UnresolvedName),
            },
        ),
        ExprV::Unary(_, _) => (funcs, Err(EvalError::Unimplemented)),
        ExprV::Binary(op, l, r) => {
            let (f1, a) = eval(funcs, globals, local, *l, fuel);
            if a is Err {
                (f1, Err(a->Err_0))
            } else {
                let (f2, b) = eval(f1, globals, local, *r, fuel);
                if b is Err {
                    (f2, Err(b->Err_0))
                } else {
                    (f2, binary_op(op, a->Ok_0, b->Ok_0))
                }
            }
        },
        ExprV::Call(callee, args) => match *callee {
            ExprV::Ident(n) => match env_get(funcs, n) {
                Some(ValueV::Function(_, kind, params, body, _)) => {
                    if params.len() != args.len() {
                        (funcs, Err(EvalError::Arity))
                    } else if kind is Native {
                        (funcs, Ok(ValueV::Null))
                    } else {
                        let (f1, vals) = eval_args(funcs, globals, local, args, seq![], fuel);
                        if vals is Err {
                            (f1, Err(vals->Err_0))
                        } else if fuel == 0 {
                            (f1, Err(EvalError::DepthExceeded))
                        } else {
                            let (f2, _l, res) = exec_block(
                                f1,
                                globals,
                                bind_params(params, vals->Ok_0, seq![]),
                                body,
                                (fuel - 1) as nat,
                            );
                            (
                                f2,
                                match res {
                                    Err(err) => Err(err),
                                    Ok(Flow::Normal) => Ok(ValueV::Null),
                                    Ok(Flow::Return(v)) => Ok(v),
                                },
                            )
                        }
                    }
                },
                Some(_) => (funcs, Err(EvalError::Unimplemented)),
                None => (funcs, Err(EvalError::UnresolvedName)),
            },
            _ => (funcs, Err(EvalError::Unimplemented)),
        },
    }
}

/// The values of argument expressions, left to right, after the values `acc`.
pub open spec fn eval_args(
    funcs: EnvV,
    globals: EnvV,
    local: Option<EnvV>,
    args: Seq<ExprV>,
    acc: Seq<ValueV>,
    fuel: nat,
) -> (EnvV, Result<Seq<ValueV>, EvalError>)
    decreases fuel, 0int, args,
{
    if args.len() == 0 {
        (funcs, Ok(acc))
    } else {
        let (f1, v) = eval(funcs, globals, local, args[0], fuel);
        if v is Err {
            (f1, Err(v->Err_0))
        } else {
            eval_args(f1, globals, local, args.drop_first(), acc.push(v->Ok_0), fuel)
        }
    }
}

/// One statement run inside a call or a block, whose environment is `local`:
/// the function table and the local environment after it, and how it ended.
/// An `if` body runs in a fresh, empty environment of its own, which sees the
/// global variables but not `local`, and is dropped when the body ends; a
/// `return` in it ends the enclosing body too.
pub open spec fn exec_local(funcs: EnvV, globals: EnvV, local: EnvV, s: StmtV, fuel: nat) -> (EnvV, EnvV, Result<Flow, EvalError>)
    decreases fuel, 1int, s,
{
    match s {
        StmtV::Let(n, _, e) => {
            let (f, r) = eval(funcs, globals, Some(local), e, fuel);
            match r {
                Ok(v) => (f, env_set(local, n, v), Ok(Flow::Normal)),
                Err(err) => (f, local, Err(err)),
            }
        },
        StmtV::Func(n, ps, body, ret) => (
            env_set(funcs, n, ValueV::Function(n, FunctionType::Function, ps, body, ret)),
            local,
            Ok(Flow::Normal),
        ),
        StmtV::If(l, op, r, body) => {
            let (f1, a) = eval(funcs, globals, Some(local), l, fuel);
            if a is Err {
                (f1, local, Err(a->Err_0))
            } else {
                let (f2, b) = eval(f1, globals, Some(local), r, fuel);
                if b is Err {
                    (f2, local, Err(b->Err_0))
                } else {
                    match compare(op, a->Ok_0, b->Ok_0) {
                        Err(err) => (f2, local, Err(err)),
                        Ok(false) => (f2, local, Ok(Flow::Normal)),
                        Ok(true) => {
                            let (f3, _b, res) = exec_block(f2, globals, seq![], body, fuel);
                            (f3, local, res)
                        },
                    }
                }
            }
        },
        StmtV::Return(e) => {
            let (f, r) = eval(funcs, globals, Some(local), e, fuel);
            match r {
                Ok(v) => (f, local, Ok(Flow::Return(v))),
                Err(err) => (f, local, Err(err)),
            }
        },
        StmtV::Expr(e) => {
            let (f, r) = eval(funcs, globals, Some(local), e, fuel);
            match r {
                Ok(_) => (f, local, Ok(Flow::Normal)),
                Err(err) => (f, local, Err(err)),
            }
        },
    }
}

/// Statements run in order in the environment `local`, up to the first
/// `return` or error.
pub open spec fn exec_block(funcs: EnvV, globals: EnvV, local: EnvV, body: Seq<StmtV>, fuel: nat) -> (EnvV, EnvV, Result<Flow, EvalError>)
    decreases fuel, 1int, body,
{
    if body.len() == 0 {
        (funcs, local, Ok(Flow::Normal))
    } else {
        let (f1, l1, r) = exec_local(funcs, globals, local, body[0], fuel);
        match r {
            Ok(Flow::Normal) => exec_block(f1, globals, l1, body.drop_first(), fuel),
            _ => (f1, l1, r),
        }
    }
}

/// One top-level statement: the function table and the global variables
/// after it. A `return` outside any function is not carried out.
pub open spec fn exec_top(funcs: EnvV, globals: EnvV, s: StmtV, fuel: nat) -> (EnvV, EnvV, Result<(), EvalError>) {
    match s {
        StmtV::Let(n, _, e) => {
            let (f, r) = eval(funcs, globals, None, e, fuel);
            match r {
                Ok(v) => (f, env_set(globals, n, v), Ok(())),
                Err(err) => (f, globals, Err(err)),
            }
        },
        StmtV::Func(n, ps, body, ret) => (
            env_set(funcs, n, ValueV::Function(n, FunctionType::Function, ps, body, ret)),
            globals,
            Ok(()),
        ),
        StmtV::If(l, op, r, body) => {
            let (f1, a) = eval(funcs, globals, None, l, fuel);
            if a is Err {
                (f1, globals, Err(a->Err_0))
            } else {
                let (f2, b) = eval(f1, globals, None, r, fuel);
                if b is Err {
                    (f2, globals, Err(b->Err_0))
                } else {
                    match compare(op, a->Ok_0, b->Ok_0) {
                        Err(err) => (f2, globals, Err(err)),
                        Ok(false) => (f2, globals, Ok(())),
                        Ok(true) => {
                            let (f3, _b, res) = exec_block(f2, globals, seq![], body, fuel);
                            (
                                f3,
                                globals,
                                match res {
                                    Ok(Flow::Normal) => Ok(()),
                                    Ok(Flow::Return(_)) => Err(EvalError::Unimplemented),
                                    Err(err) => Err(err),
                                },
                            )
                        },
                    }
                }
            }
        },
        StmtV::Return(_) => (funcs, globals, Err(EvalError::Unimplemented)),
        StmtV::Expr(e) => {
            let (f, r) = eval(funcs, globals, None, e, fuel);
            match r {
                Ok(_) => (f, globals, Ok(())),
                Err(err) => (f, globals, Err(err)),
            }
        },
    }
}

/// A whole program run statement by statement up to the first error; each
/// top-level statement may nest calls `MAX_CALL_DEPTH` deep.
pub open spec fn run_program(funcs: EnvV, globals: EnvV, stmts: Seq<StmtV>) -> (EnvV, EnvV, Result<(), EvalError>)
    decreases stmts.len(),
{
    if stmts.len() == 0 {
        (funcs, globals, Ok(()))
    } else {
        let (f, g, r) = exec_top(funcs, globals, stmts[0], MAX_CALL_DEPTH as nat);
        if r is Err {
            (f, g, r)
        } else {
            run_program(f, g, stmts.drop_first())
        }
    }
}

/// Evaluating an expression keeps the names of the function table unique.
pub proof fn lemma_eval_unique(funcs: EnvV, globals: EnvV, local: Option<EnvV>, e: ExprV, fuel: nat)
    requires
        names_unique(funcs),
    ensures
        names_unique(eval(funcs, globals, local, e, fuel).0),
    decreases fuel, 0int, e,
{
    match e {
        ExprV::Binary(op, l, r) => {
            lemma_eval_unique(funcs, globals, local, *l, fuel);
            let (f1, a) = eval(funcs, globals, local, *l, fuel);
            lemma_eval_unique(f1, globals, local, *r, fuel);
        },
        ExprV::Call(callee, args) => {
            if let ExprV::Ident(n) = *callee {
                if let Some(ValueV::Function(_, kind, params, body, _)) = env_get(funcs, n) {
                    if params.len() == args.len() && !(kind is Native) {
                        lemma_args_unique(funcs, globals, local, args, seq![], fuel);
                        let (f1, vals) = eval_args(funcs, globals, local, args, seq![], fuel);
                        if vals is Ok && fuel > 0 {
                            lemma_block_unique(
                                f1,
                                globals,
                                bind_params(params, vals->Ok_0, seq![]),
                                body,
                                (fuel - 1) as nat,
                            );
                        }
                    }
                }
            }
        },
        _ => {},
    }
}

/// Evaluating arguments keeps the names of the function table unique.
pub proof fn lemma_args_unique(
    funcs: EnvV,
    globals: EnvV,
    local: Option<EnvV>,
    args: Seq<ExprV>,
    acc: Seq<ValueV>,
    fuel: nat,
)
    requires
        names_unique(funcs),
    ensures
        names_unique(eval_args(funcs, globals, local, args, acc, fuel).0),
    decreases fuel, 0int, args,
{
    if args.len() > 0 {
        lemma_eval_unique(funcs, globals, local, args[0], fuel);
        let (f1, v) = eval(funcs, globals, local, args[0], fuel);
        if v is Ok {
            lemma_args_unique(f1, globals, local, args.drop_first(), acc.push(v->Ok_0), fuel);
        }
    }
}

/// Running a statement inside a call keeps the names of the function table unique.
pub proof fn lemma_local_unique(funcs: EnvV, globals: EnvV, local: EnvV, s: StmtV, fuel: nat)
    requires
        names_unique(funcs),
    ensures
        names_unique(exec_local(funcs, globals, local, s, fuel).0),
    decreases fuel, 1int, s,
{
    match s {
        StmtV::Let(_, _, e) => lemma_eval_unique(funcs, globals, Some(local), e, fuel),
        StmtV::Func(n, ps, body, ret) => lemma_env_set_unique(
            funcs,
            n,
            ValueV::Function(n, FunctionType::Function, ps, body, ret),
        ),
        StmtV::If(l, op, r, body) => {
            lemma_eval_unique(funcs, globals, Some(local), l, fuel);
            let (f1, a) = eval(funcs, globals, Some(local), l, fuel);
            lemma_eval_unique(f1, globals, Some(local), r, fuel);
            let (f2, b) = eval(f1, globals, Some(local), r, fuel);
            lemma_block_unique(f2, globals, seq![], body, fuel);
        },
        StmtV::Return(e) => lemma_eval_unique(funcs, globals, Some(local), e, fuel),
        StmtV::Expr(e) => lemma_eval_unique(funcs, globals, Some(local), e, fuel),
    }
}

/// Running a block keeps the names of the function table unique.
pub proof fn lemma_block_unique(funcs: EnvV, globals: EnvV, local: EnvV, body: Seq<StmtV>, fuel: nat)
    requires
        names_unique(funcs),
    ensures
        names_unique(exec_block(funcs, globals, local, body, fuel).0),
    decreases fuel, 1int, body,
{
    if body.len() > 0 {
        lemma_local_unique(funcs, globals, local, body[0], fuel);
        let (f1, l1, r) = exec_local(funcs, globals, local, body[0], fuel);
        if r matches Ok(Flow::Normal) {
            lemma_block_unique(f1, globals, l1, body.drop_first(), fuel);
        }
    }
}

/// A top-level statement keeps the names of the function table and of the
/// global variables unique.
pub proof fn lemma_top_unique(funcs: EnvV, globals: EnvV, s: StmtV, fuel: nat)
    requires
        names_unique(funcs),
        names_unique(globals),
    ensures
        names_unique(exec_top(funcs, globals, s, fuel).0),
        names_unique(exec_top(funcs, globals, s, fuel).1),
{
    match s {
        StmtV::Let(n, _, e) => {
            lemma_eval_unique(funcs, globals, None, e, fuel);
            let (f, r) = eval(funcs, globals, None, e, fuel);
            if r is Ok {
                lemma_env_set_unique(globals, n, r->Ok_0);
            }
        },
        StmtV::Func(n, ps, body, ret) => lemma_env_set_unique(
            funcs,
            n,
            ValueV::Function(n, FunctionType::Function, ps, body, ret),
        ),
        StmtV::If(l, op, r, body) => {
            lemma_eval_unique(funcs, globals, None, l, fuel);
            let (f1, a) = eval(funcs, globals, None, l, fuel);
            lemma_eval_unique(f1, globals, None, r, fuel);
            let (f2, b) = eval(f1, globals, None, r, fuel);
            lemma_block_unique(f2, globals, seq![], body, fuel);
        },
        StmtV::Return(_) => {},
        StmtV::Expr(e) => lemma_eval_unique(funcs, globals, None, e, fuel),
    }
}

/// Arguments that all evaluate give one value each, after those already read.
pub proof fn lemma_eval_args_len(
    funcs: EnvV,
    globals: EnvV,
    local: Option<EnvV>,
    args: Seq<ExprV>,
    acc: Seq<ValueV>,
    fuel: nat,
)
    ensures
        eval_args(funcs, globals, local, args, acc, fuel).1 is Ok ==> eval_args(
            funcs,
            globals,
            local,
            args,
            acc,
            fuel,
        ).1->Ok_0.len() == acc.len() + args.len(),
    decreases args.len(),
{
    if args.len() > 0 {
        let (f1, v) = eval(funcs, globals, local, args[0], fuel);
        if v is Ok {
            lemma_eval_args_len(f1, globals, local, args.drop_first(), acc.push(v->Ok_0), fuel);
        }
    }
}

pub open spec fn values_view(vs: Seq<Value>) -> Seq<ValueV> {
    Seq::new(vs.len(), |i: int| vs[i]@)
}

/// Whether an executable outcome of a statement is the model outcome `res`.
pub open spec fn flow_matches(r: Result<Option<Value>, EvalError>, res: Result<Flow, EvalError>) -> bool {
    match res {
        Err(e) => r is Err && r->Err_0 == e,
        Ok(Flow::Normal) => r is Ok && r->Ok_0 is None,
        Ok(Flow::Return(v)) => r is Ok && r->Ok_0 is Some && r->Ok_0->Some_0@ == v,
    }
}

/// The evaluator: the global variables in `env`, the function table in `globals`.
pub struct Engine {
    pub env: Envoirment,
    pub globals: Envoirment,
}

impl Engine {
    /// The evaluator's invariant: no variable and no function is bound twice.
    pub open spec fn wf(&self) -> bool {
        self.env.wf() && self.globals.wf()
    }

    /// An evaluator with no variables and no functions.
    pub fn new() -> (r: Engine)
        ensures
            r.wf(),
            r.env@ == Seq::<(Seq<char>, ValueV)>::empty(),
            r.globals@ == Seq::<(Seq<char>, ValueV)>::empty(),
    {
        Engine { env: Envoirment::new(), globals: Envoirment::new() }
    }

    /// A binary operator applied to two values.
    pub fn run_binary_op(&self, lhs: &Value, op: Operator, rhs: &Value) -> (r: Result<Value, EvalError>)
        ensures
            match binary_op(op, lhs@, rhs@) {
                Ok(v) => r is Ok && r->Ok_0@ == v,
                Err(e) => r is Err && r->Err_0 == e,
            },
    {
        match (lhs, rhs) {
            (Value::Int { value: x }, Value::Int { value: y }) => {
                let out = match op {
                    Operator::Plus => x.checked_add(*y),
                    Operator::Minus => x.checked_sub(*y),
                    Operator::Multiplication => x.checked_mul(*y),
                    Operator::Division => {
                        if *y == 0 {
                            return Err(EvalError::Arithmetic);
                        }
                        x.checked_div(*y)
                    },
                };
                match out {
                    Some(v) => Ok(Value::Int { value: v }),
                    None => Err(EvalError::Arithmetic),
                }
            },
            (Value::Float { .. }, Value::Float { .. }) => Err(EvalError::Unimplemented),
            _ => Err(EvalError::TypeMismatch),
        }
    }

    /// Whether a comparison holds between two values.
    pub fn compare_values(&self, op: CmpOperators, lhs: &Value, rhs: &Value) -> (r: Result<bool, EvalError>)
        ensures
            match compare(op, lhs@, rhs@) {
                Ok(b) => r == Ok::<bool, EvalError>(b),
                Err(e) => r == Err::<bool, EvalError>(e),
            },
    {
        if let (Value::Float { .. }, Value::Float { .. }) = (lhs, rhs) {
            return Err(EvalError::Unimplemented);
        }
        let o = order_values(lhs, rhs);
        let holds = match o {
            None => match op {
                CmpOperators::NotEqual => true,
                _ => false,
            },
            Some(o) => match op {
                CmpOperators::Equal => o == 0,
                CmpOperators::NotEqual => o != 0,
                CmpOperators::LessThen => o == -1,
                CmpOperators::LessThenOrEqual => o == -1 || o == 0,
                CmpOperators::GreaterThen => o == 1,
                CmpOperators::GreaterThenOrEqual => o == 1 || o == 0,
            },
        };
        Ok(holds)
    }

    /// The value of an expression. Variables are looked up in `external_env`
    /// first, when there is one, then in the global variables; `fuel` is how
    /// many calls may still nest. The global variables stay as they are.
    pub fn expression_to_value(
        &mut self,
        expr: &Expression,
        external_env: Option<&Envoirment>,
        fuel: u64,
    ) -> (r: Result<Value, EvalError>)
        ensures
            final(self).env@ == old(self).env@,
            ({
                let (f, res) = eval(
                    old(self).globals@,
                    old(self).env@,
                    scope_view(external_env),
                    expr@,
                    fuel as nat,
                );
                &&& final(self).globals@ == f
                &&& match res {
                    Ok(v) => r is Ok && r->Ok_0@ == v,
                    Err(e) => r is Err && r->Err_0 == e,
                }
            }),
        decreases fuel, 0int, expr,
    {
        match expr {
            Expression::StringLiteral { val } => Ok(Value::String { value: val.clone() }),
            Expression::IntLiteral { val } => Ok(Value::Int { value: *val }),
            Expression::BooleanLiteral { val } => Ok(Value::Bool { value: *val }),
            Expression::FloatLiteral { val } => Ok(Value::Float { value: val.clone() }),
            Expression::CharLiteral { val } => Ok(Value::Char { value: *val }),
            Expression::Identifier { val } => {
                if let Some(l) = external_env {
                    if let Some(v) = l.get(val) {
                        return Ok(v.deep_clone());
                    }
                }
                match self.env.get(val) {
                    Some(v) => Ok(v.deep_clone()),
                    None => Err(EvalError::UnresolvedName),
                }
            },
            Expression::UnaryExpr { .. } => Err(EvalError::Unimplemented),
            Expression::BinaryExpr { op, lhs, rhs } => {
                let a = match self.expression_to_value(lhs, external_env, fuel) {
                    Err(e) => {
                        return Err(e);
                    },
                    Ok(a) => a,
                };
                let b = match self.expression_to_value(rhs, external_env, fuel) {
                    Err(e) => {
                        return Err(e);
                    },
                    Ok(b) => b,
                };
                self.run_binary_op(&a, *op, &b)
            },
            Expression::FunctionCall { name, params } => {
                let callee: &Expression = &**name;
                assert(expr@->Call_0 == Box::new(callee@));
                match callee {
                    Expression::Identifier { val } => {
                        assert(*expr@->Call_0 == ExprV::Ident(val@));
                        let f = match self.globals.get(val) {
                            None => {
                                return Err(EvalError::UnresolvedName);
                            },
                            Some(f) => f.deep_clone(),
                        };
                        match f {
                            Value::Function { kind, params: fparams, body, .. } => {
                                assert(expr@->Call_1 =~= exprs_view(params@));
                                if fparams.len() != params.len() {
                                    return Err(EvalError::Arity);
                                }
                                if let FunctionType::Native = kind {
                                    return Ok(Value::Null);
                                }
                                let ghost g0 = self.globals@;
                                let vals = match self.evaluate_args(params, external_env, fuel) {
                                    Err(e) => {
                                        return Err(e);
                                    },
                                    Ok(vals) => vals,
                                };
                                proof {
                                    lemma_eval_args_len(
                                        g0,
                                        self.env@,
                                        scope_view(external_env),
                                        exprs_view(params@),
                                        seq![],
                                        fuel as nat,
                                    );
                                }
                                if fuel == 0 {
                                    return Err(EvalError::DepthExceeded);
                                }
                                let mut local = bind_arguments(&fparams, &vals);
                                match self.run_block(&body, &mut local, fuel - 1) {
                                    Err(e) => Err(e),
                                    Ok(None) => Ok(Value::Null),
                                    Ok(Some(v)) => Ok(v),
                                }
                            },
                            _ => Err(EvalError::Unimplemented),
                        }
                    },
                    _ => Err(EvalError::Unimplemented),
                }
            },
        }
    }

    fn evaluate_args(
        &mut self,
        args: &Vec<Expression>,
        external_env: Option<&Envoirment>,
        fuel: u64,
    ) -> (r: Result<Vec<Value>, EvalError>)
        ensures
            final(self).env@ == old(self).env@,
            ({
                let (f, res) = eval_args(
                    old(self).globals@,
                    old(self).env@,
                    scope_view(external_env),
                    exprs_view(args@),
                    seq![],
                    fuel as nat,
                );
                &&& final(self).globals@ == f
                &&& match res {
                    Ok(vs) => r is Ok && values_view(r->Ok_0@) == vs,
                    Err(e) => r is Err && r->Err_0 == e,
                }
            }),
        decreases fuel, 0int, args,
    {
        let ghost g0 = self.globals@;
        let ghost all = exprs_view(args@);
        let mut vals: Vec<Value> = Vec::new();
        let mut i: usize = 0;
        assert(values_view(vals@) =~= seq![]);
        assert(all.skip(0) =~= all);
        while i < args.len()
            invariant
                0 <= i <= args@.len(),
                all == exprs_view(args@),
                self.env@ == old(self).env@,
                g0 == old(self).globals@,
                eval_args(g0, self.env@, scope_view(external_env), all, seq![], fuel as nat)
                    == eval_args(
                    self.globals@,
                    self.env@,
                    scope_view(external_env),
                    all.skip(i as int),
                    values_view(vals@),
                    fuel as nat,
                ),
            decreases args@.len() - i,
        {
            proof {
                vstd::std_specs::vec::axiom_vec_decreases_to_view(*args);
                vstd::seq::axiom_seq_index_decreases(args@, i as int);
                assert(all.skip(i as int)[0] == args@[i as int]@);
                assert(all.skip(i as int).drop_first() =~= all.skip(i + 1));
            }
            match self.expression_to_value(&args[i], external_env, fuel) {
                Err(e) => {
                    return Err(e);
                },
                Ok(v) => {
                    let ghost before = values_view(vals@);
                    vals.push(v);
                    assert(values_view(vals@) =~= before.push(v@));
                },
            }
            i = i + 1;
        }
        assert(all.skip(i as int) =~= seq![]);
        Ok(vals)
    }

    fn run_block(&mut self, body: &Vec<Statement>, local: &mut Envoirment, fuel: u64) -> (r: Result<Option<Value>, EvalError>)
        ensures
            final(self).env@ == old(self).env@,
            ({
                let (f, l, res) = exec_block(
                    old(self).globals@,
                    old(self).env@,
                    old(local)@,
                    stmts_view(body@),
                    fuel as nat,
                );
                &&& final(self).globals@ == f
                &&& final(local)@ == l
                &&& flow_matches(r, res)
            }),
        decreases fuel, 1int, body,
    {
        let ghost g0 = self.globals@;
        let ghost l0 = local@;
        let ghost all = stmts_view(body@);
        let mut i: usize = 0;
        assert(all.skip(0) =~= all);
        while i < body.len()
            invariant
                0 <= i <= body@.len(),
                all == stmts_view(body@),
                self.env@ == old(self).env@,
                g0 == old(self).globals@,
                l0 == old(local)@,
                exec_block(g0, self.env@, l0, all, fuel as nat) == exec_block(
                    self.globals@,
                    self.env@,
                    local@,
                    all.skip(i as int),
                    fuel as nat,
                ),
            decreases body@.len() - i,
        {
            proof {
                vstd::std_specs::vec::axiom_vec_decreases_to_view(*body);
                vstd::seq::axiom_seq_index_decreases(body@, i as int);
                assert(all.skip(i as int)[0] == body@[i as int]@);
                assert(all.skip(i as int).drop_first() =~= all.skip(i + 1));
            }
            match self.run_local(&body[i], local, fuel) {
                Err(e) => {
                    return Err(e);
                },
                Ok(Some(v)) => {
                    return Ok(Some(v));
                },
                Ok(None) => {},
            }
            i = i + 1;
        }
        assert(all.skip(i as int) =~= seq![]);
        Ok(None)
    }

    fn run_local(&mut self, statement: &Statement, local: &mut Envoirment, fuel: u64) -> (r: Result<Option<Value>, EvalError>)
        ensures
            final(self).env@ == old(self).env@,
            ({
                let (f, l, res) = exec_local(
                    old(self).globals@,
                    old(self).env@,
                    old(local)@,
                    statement@,
                    fuel as nat,
                );
                &&& final(self).globals@ == f
                &&& final(local)@ == l
                &&& flow_matches(r, res)
            }),
        decreases fuel, 1int, statement,
    {
        match statement {
            Statement::VariableDeclaration { name, value, .. } => {
                match self.expression_to_value(value, Some(&*local), fuel) {
                    Err(e) => Err(e),
                    Ok(v) => {
                        local.set(name.clone(), v);
                        Ok(None)
                    },
                }
            },
            Statement::FunctionDeclaration { name, params, body, return_type } => {
                assert(statement@->Func_2 =~= stmts_view(body@));
                let f = Value::Function {
                    name: name.clone(),
                    kind: FunctionType::Function,
                    params: clone_params(params),
                    body: clone_statements(body),
                    return_type: *return_type,
                };
                self.globals.set(name.clone(), f);
                Ok(None)
            },
            Statement::IfStatement { expr1, cmp_op, expr2, body } => {
                let a = match self.expression_to_value(expr1, Some(&*local), fuel) {
                    Err(e) => {
                        return Err(e);
                    },
                    Ok(a) => a,
                };
                let b = match self.expression_to_value(expr2, Some(&*local), fuel) {
                    Err(e) => {
                        return Err(e);
                    },
                    Ok(b) => b,
                };
                match self.compare_values(*cmp_op, &a, &b) {
                    Err(e) => Err(e),
                    Ok(false) => Ok(None),
                    Ok(true) => {
                        assert(statement@->If_3 =~= stmts_view(body@));
                        let mut block = Envoirment::new();
                        self.run_block(body, &mut block, fuel)
                    },
                }
            },
            Statement::Return { value } => {
                match self.expression_to_value(value, Some(&*local), fuel) {
                    Err(e) => Err(e),
                    Ok(v) => Ok(Some(v)),
                }
            },
            Statement::ExprStatement { expr } => {
                match self.expression_to_value(expr, Some(&*local), fuel) {
                    Err(e) => Err(e),
                    Ok(_) => Ok(None),
                }
            },
        }
    }

    /// Runs one top-level statement: a declaration binds a global variable, a
    /// function declaration enters the function table.
    pub fn run_statement(&mut self, statement: &Statement) -> (r: Result<(), EvalError>)
        ensures
            ({
                let (f, g, res) = exec_top(
                    old(self).globals@,
                    old(self).env@,
                    statement@,
                    MAX_CALL_DEPTH as nat,
                );
                &&& final(self).globals@ == f
                &&& final(self).env@ == g
                &&& r == res
            }),
            old(self).wf() ==> final(self).wf(),
    {
        proof {
            if old(self).wf() {
                lemma_top_unique(self.globals@, self.env@, statement@, MAX_CALL_DEPTH as nat);
            }
        }
        let fuel = MAX_CALL_DEPTH;
        match statement {
            Statement::VariableDeclaration { name, value, .. } => {
                match self.expression_to_value(value, None, fuel) {
                    Err(e) => Err(e),
                    Ok(v) => {
                        self.env.set(name.clone(), v);
                        Ok(())
                    },
                }
            },
            Statement::FunctionDeclaration { name, params, body, return_type } => {
                assert(statement@->Func_2 =~= stmts_view(body@));
                let f = Value::Function {
                    name: name.clone(),
                    kind: FunctionType::Function,
                    params: clone_params(params),
                    body: clone_statements(body),
                    return_type: *return_type,
                };
                self.globals.set(name.clone(), f);
                Ok(())
            },
            Statement::IfStatement { expr1, cmp_op, expr2, body } => {
                let a = match self.expression_to_value(expr1, None, fuel) {
                    Err(e) => {
                        return Err(e);
                    },
                    Ok(a) => a,
                };
                let b = match self.expression_to_value(expr2, None, fuel) {
                    Err(e) => {
                        return Err(e);
                    },
                    Ok(b) => b,
                };
                match self.compare_values(*cmp_op, &a, &b) {
                    Err(e) => Err(e),
                    Ok(false) => Ok(()),
                    Ok(true) => {
                        assert(statement@->If_3 =~= stmts_view(body@));
                        let mut block = Envoirment::new();
                        match self.run_block(body, &mut block, fuel) {
                            Err(e) => Err(e),
                            Ok(None) => Ok(()),
                            Ok(Some(_)) => Err(EvalError::Unimplemented),
                        }
                    },
                }
            },
            Statement::Return { .. } => Err(EvalError::Unimplemented),
            Statement::ExprStatement { expr } => {
                match self.expression_to_value(expr, None, fuel) {
                    Err(e) => Err(e),
                    Ok(_) => Ok(()),
                }
            },
        }
    }

    /// Runs a program statement by statement, stopping at the first error.
    pub fn exectute(&mut self, ast: &Vec<Statement>) -> (r: Result<(), EvalError>)
        ensures
            ({
                let (f, g, res) = run_program(old(self).globals@, old(self).env@, stmts_view(ast@));
                &&& final(self).globals@ == f
                &&& final(self).env@ == g
                &&& r == res
            }),
            old(self).wf() ==> final(self).wf(),
    {
        let ghost all = stmts_view(ast@);
        let ghost f0 = self.globals@;
        let ghost g0 = self.env@;
        let mut i: usize = 0;
        assert(all.skip(0) =~= all);
        while i < ast.len()
            invariant
                0 <= i <= ast@.len(),
                all == stmts_view(ast@),
                f0 == old(self).globals@,
                g0 == old(self).env@,
                run_program(f0, g0, all) == run_program(self.globals@, self.env@, all.skip(i as int)),
                old(self).wf() ==> self.wf(),
            decreases ast@.len() - i,
        {
            assert(all.skip(i as int)[0] == ast@[i as int]@);
            assert(all.skip(i as int).drop_first() =~= all.skip(i + 1));
            match self.run_statement(&ast[i]) {
                Err(e) => {
                    return Err(e);
                },
                Ok(()) => {},
            }
            i = i + 1;
        }
        assert(all.skip(i as int) =~= seq![]);
        Ok(())
    }
}

/// The order of two values of the same kind (-1, 0 or 1), or `None` when they
/// are incomparable.
pub fn order_values(a: &Value, b: &Value) -> (r: Option<i8>)
    ensures
        match order(a@, b@) {
            Some(o) => r is Some && r->Some_0 as int == o,
            None => r is None,
        },
{
    match (a, b) {
        (Value::Null, Value::Null) => Some(0),
        (Value::Int { value: x }, Value::Int { value: y }) => Some(
            if *x < *y {
                -1
            } else if *x > *y {
                1
            } else {
                0
            },
        ),
        (Value::Char { value: x }, Value::Char { value: y }) => {
            let (x, y) = (*x as u32, *y as u32);
            Some(
                if x < y {
                    -1
                } else if x > y {
                    1
                } else {
                    0
                },
            )
        },
        (Value::Bool { value: x }, Value::Bool { value: y }) => Some(
            if *x == *y {
                0
            } else if !*x {
                -1
            } else {
                1
            },
        ),
        (Value::String { value: x }, Value::String { value: y }) => Some(order_text(x, y)),
        _ => None,
    }
}

/// The lexicographic order of two strings by code point: -1, 0 or 1.
pub fn order_text(a: &String, b: &String) -> (r: i8)
    ensures
        r as int == text_order(a@, b@, 0),
{
    let x = a.as_str();
    let y = b.as_str();
    let n = x.unicode_len();
    let m = y.unicode_len();
    let mut i: usize = 0;
    while i < n && i < m
        invariant
            n == x@.len(),
            m == y@.len(),
            x@ == a@,
            y@ == b@,
            0 <= i <= n,
            i <= m,
            text_order(a@, b@, 0) == text_order(a@, b@, i as int),
        decreases n - i,
    {
        let c = x.get_char(i);
        let d = y.get_char(i);
        if c != d {
            if (c as u32) < (d as u32) {
                return -1;
            } else {
                return 1;
            }
        }
        i = i + 1;
    }
    if i >= n {
        if i >= m {
            0
        } else {
            -1
        }
    } else {
        1
    }
}

/// A fresh call-local environment with each parameter bound to its argument.
fn bind_arguments(params: &Vec<crate::ast::FuncParam>, vals: &Vec<Value>) -> (r: Envoirment)
    requires
        params@.len() == vals@.len(),
    ensures
        r@ == bind_params(crate::ast::params_view(params@), values_view(vals@), seq![]),
{
    let ghost ps = crate::ast::params_view(params@);
    let ghost vs = values_view(vals@);
    let mut local = Envoirment::new();
    let mut i: usize = 0;
    assert(ps.skip(0) =~= ps);
    assert(vs.skip(0) =~= vs);
    while i < params.len()
        invariant
            0 <= i <= params@.len(),
            params@.len() == vals@.len(),
            ps == crate::ast::params_view(params@),
            vs == values_view(vals@),
            bind_params(ps, vs, seq![]) == bind_params(ps.skip(i as int), vs.skip(i as int), local@),
        decreases params@.len() - i,
    {
        assert(ps.skip(i as int)[0] == params@[i as int]@);
        assert(vs.skip(i as int)[0] == vals@[i as int]@);
        assert(ps.skip(i as int).drop_first() =~= ps.skip(i + 1));
        assert(vs.skip(i as int).drop_first() =~= vs.skip(i + 1));
        local.set(params[i].name.clone(), vals[i].deep_clone());
        i = i + 1;
    }
    assert(ps.skip(i as int).len() == 0);
    local
}

} // verus!
