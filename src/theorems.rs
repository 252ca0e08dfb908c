use vstd::prelude::*;

use crate::ast::{CmpOperators, ExprV, Operator, StmtV};
use crate::engine::{
    EvalError, Flow, binary_op, compare, eval, exec_block, exec_local, exec_top, trunc_div,
};
use crate::value::{EnvV, ValueV, env_get};

verus! {

/// A call whose argument count differs from the callee's parameter count is an
/// arity error, whatever the kind of the callee: no argument is dropped, none
/// is made up, and no argument is evaluated.
pub proof fn call_arity_mismatch_fails(
    funcs: EnvV,
    globals: EnvV,
    local: Option<EnvV>,
    name: Seq<char>,
    args: Seq<ExprV>,
    fuel: nat,
)
    requires
        env_get(funcs, name) matches Some(ValueV::Function(_, _, params, _, _)) && params.len()
            != args.len(),
    ensures
        eval(funcs, globals, local, ExprV::Call(Box::new(ExprV::Ident(name)), args), fuel) == (
            funcs,
            Err::<ValueV, EvalError>(EvalError::Arity),
        ),
{
}

/// A top-level expression, calls included, leaves the global variables as they
/// were: what a called function declares stays in its own environment, so a
/// name unbound before is still unbound after.
pub proof fn top_level_expression_keeps_globals(
    funcs: EnvV,
    globals: EnvV,
    e: ExprV,
    fuel: nat,
    y: Seq<char>,
    fuel2: nat,
)
    requires
        env_get(globals, y) is None,
    ensures
        exec_top(funcs, globals, StmtV::Expr(e), fuel).1 == globals,
        eval(
            exec_top(funcs, globals, StmtV::Expr(e), fuel).0,
            exec_top(funcs, globals, StmtV::Expr(e), fuel).1,
            None,
            ExprV::Ident(y),
            fuel2,
        ).1 == Err::<ValueV, EvalError>(EvalError::UnresolvedName),
{
}

/// A `return` ends its block: whatever follows it in the same body is never
/// run.
pub proof fn return_ends_block(
    funcs: EnvV,
    globals: EnvV,
    local: EnvV,
    e: ExprV,
    rest: Seq<StmtV>,
    fuel: nat,
)
    ensures
        exec_block(funcs, globals, local, seq![StmtV::Return(e)] + rest, fuel) == exec_local(
            funcs,
            globals,
            local,
            StmtV::Return(e),
            fuel,
        ),
        !(exec_local(funcs, globals, local, StmtV::Return(e), fuel).2 matches Ok(Flow::Normal)),
{
    let body = seq![StmtV::Return(e)] + rest;
    assert(body[0] == StmtV::Return(e));
}

/// Integer division truncates toward zero; `Int` and `Float` never mix.
pub proof fn division_semantics(x: i64, y: i64, t: Seq<char>, op: Operator)
    requires
        y != 0,
        !(x == i64::MIN && y == -1),
    ensures
        binary_op(Operator::Division, ValueV::Int(x), ValueV::Int(y)) == Ok::<ValueV, EvalError>(
            ValueV::Int(trunc_div(x as int, y as int) as i64),
        ),
        binary_op(op, ValueV::Int(x), ValueV::Float(t)) == Err::<ValueV, EvalError>(
            EvalError::TypeMismatch,
        ),
        binary_op(op, ValueV::Float(t), ValueV::Int(x)) == Err::<ValueV, EvalError>(
            EvalError::TypeMismatch,
        ),
        binary_op(Operator::Division, ValueV::Int(x), ValueV::Int(0)) == Err::<ValueV, EvalError>(
            EvalError::Arithmetic,
        ),
{
    let q = trunc_div(x as int, y as int);
    let ax = if x < 0 { -(x as int) } else { x as int };
    let ay = if y < 0 { -(y as int) } else { y as int };
    assert(0 <= ax / ay <= ax) by (nonlinear_arith)
        requires
            ax >= 0,
            ay >= 1,
    ;
    assert(ax <= 0x8000_0000_0000_0000);
    if ay == 1 {
        assert(ax / 1 == ax);
    } else {
        assert(ax / ay <= ax / 2) by (nonlinear_arith)
            requires
                ax >= 0,
                ay >= 2,
        ;
    }
    assert(i64::MIN <= q <= i64::MAX);
}

/// An `if` runs its body exactly when its comparison holds, and the bindings
/// made in the body never outlive it: the enclosing environment comes out as
/// it went in, at top level and inside a call alike.
pub proof fn if_scoping(
    funcs: EnvV,
    globals: EnvV,
    local: EnvV,
    l: ExprV,
    op: CmpOperators,
    r: ExprV,
    body: Seq<StmtV>,
    fuel: nat,
)
    ensures
        exec_top(funcs, globals, StmtV::If(l, op, r, body), fuel).1 == globals,
        exec_local(funcs, globals, local, StmtV::If(l, op, r, body), fuel).1 == local,
        ({
            let (f1, a) = eval(funcs, globals, None, l, fuel);
            let (f2, b) = eval(f1, globals, None, r, fuel);
            a is Ok && b is Ok && compare(op, a->Ok_0, b->Ok_0) == Ok::<bool, EvalError>(false)
                ==> exec_top(funcs, globals, StmtV::If(l, op, r, body), fuel) == (
                f2,
                globals,
                Ok::<(), EvalError>(()),
            )
        }),
        ({
            let (f1, a) = eval(funcs, globals, None, l, fuel);
            let (f2, b) = eval(f1, globals, None, r, fuel);
            let (f3, _bl, res) = exec_block(f2, globals, seq![], body, fuel);
            a is Ok && b is Ok && compare(op, a->Ok_0, b->Ok_0) == Ok::<bool, EvalError>(true)
                && (res matches Ok(Flow::Normal)) ==> exec_top(
                funcs,
                globals,
                StmtV::If(l, op, r, body),
                fuel,
            ) == (f3, globals, Ok::<(), EvalError>(()))
        }),
{
}

} // verus!
