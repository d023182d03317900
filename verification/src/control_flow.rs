//! Statement execution and the flow-control protocol: `break` and
//! `return(values)` travel upward through nested blocks; loops consume
//! `break` at their boundary. Scope pushes are balanced by pops on every
//! exit path, errors included. Each function is proved equal to its
//! mirror in `sem`.

use vstd::prelude::*;

use crate::LuaError;
use crate::ErrKind;
use crate::ast::{Statement, Block, IfThenElse, WhileBlock, RepeatBlock, Exp};
use crate::types::{LuaValue, Val, LuaState, dup_value};
use crate::sem::{
    FlowK, exec_stmt_s, exec_stmts_s, exec_body_s, exec_block_s, exec_ite_s, exec_elseifs_s,
    exec_while_s, exec_repeat_s, locals_write_s, assign_pairs_s, state_push_scope_s,
    state_pop_scope_s, state_set_local_s,
};
use crate::expression::{boolean_coercion, eval_expr, eval_expr_list, vals_view, vals_wf};
use crate::prefixexp::resolve_prefix_expr;

verus! {

/// The flow a statement or block hands upward: none, a `break`, or a
/// `return` carrying the evaluated return values.
#[derive(Debug, PartialEq)]
pub enum FlowControl {
    Normal,
    Return(Vec<LuaValue>),
    Break,
}

impl View for FlowControl {
    type V = FlowK;

    open spec fn view(&self) -> FlowK {
        match self {
            FlowControl::Normal => FlowK::Normal,
            FlowControl::Break => FlowK::Brk,
            FlowControl::Return(vs) => FlowK::Ret(vals_view(vs@)),
        }
    }
}

/// The view of an execution result: the flow's view, or the error kind.
pub open spec fn flow_res_view(r: Result<FlowControl, LuaError>) -> Result<FlowK, ErrKind> {
    match r {
        Ok(fl) => Ok(fl@),
        Err(e) => Err(e@),
    }
}

/// Writes local bindings pairwise into the innermost scope, from
/// position `i` on: a name without a value gets nil, excess values are
/// discarded. Proved equal to `locals_write_s`.
fn locals_write(vars: &Vec<Vec<u8>>, vals: &Vec<LuaValue>, i: usize, ctx: &mut LuaState)
    requires
        old(ctx).wf(),
        vals_wf(vals@, old(ctx)@.tables.len() as int),
    ensures
        final(ctx).wf(),
        final(ctx)@ == locals_write_s(vars@, vals_view(vals@), i as int, old(ctx)@),
        final(ctx)@.tables.len() == old(ctx)@.tables.len(),
        final(ctx)@.scopes == old(ctx)@.scopes,
    decreases vars@.len() - i,
{
    if i >= vars.len() {
        return ;
    }
    proof {
        ctx.wf_model();
        assert(0 <= old(ctx)@.scopes[old(ctx)@.scopes.len() - 1] < old(ctx)@.tables.len());
    }
    let name = vars[i].clone();
    proof {
        assert(name@ =~= vars@[i as int]@);
    }
    let v = if i < vals.len() {
        dup_value(&vals[i])
    } else {
        LuaValue::Nil
    };
    ctx.set_local(name, &v);
    proof {
        assert(ctx@ =~= state_set_local_s(old(ctx)@, vars@[i as int]@, v@));
        assert(ctx@.tables.len() == old(ctx)@.tables.len());
    }
    locals_write(vars, vals, i + 1, ctx);
}

/// Resolves and writes assignment targets pairwise against the values
/// already computed, from position `i` on. Proved equal to
/// `assign_pairs_s`.
fn assign_pairs(
    vars: &Vec<crate::ast::PrefixExp>,
    vals: &Vec<LuaValue>,
    i: usize,
    ctx: &mut LuaState,
    fuel: u64,
) -> (r: Result<(), LuaError>)
    requires
        old(ctx).wf(),
        vals_wf(vals@, old(ctx)@.tables.len() as int),
    ensures
        final(ctx).wf(),
        (match r {
            Ok(_) => Ok::<(), ErrKind>(()),
            Err(e) => Err(e@),
        }) == assign_pairs_s(vars@, vals_view(vals@), i as int, old(ctx)@, fuel as nat).0,
        final(ctx)@ == assign_pairs_s(vars@, vals_view(vals@), i as int, old(ctx)@, fuel as nat).1,
        old(ctx)@.tables.len() <= final(ctx)@.tables.len(),
        final(ctx)@.scopes == old(ctx)@.scopes,
    decreases fuel,
{
    if fuel == 0 {
        return Err(LuaError::OtherError("evaluation fuel exhausted"));
    }
    let f = fuel - 1;
    if i >= vars.len() || i >= vals.len() {
        return Ok(());
    }
    match resolve_prefix_expr(&vars[i].prefix, vars[i].suffix_chain.as_slice(), ctx, f) {
        Err(e) => Err(e),
        Ok(a) => {
            let v = dup_value(&vals[i]);
            match ctx.table_set_at(a.environment, &a.index, &v) {
                Err(e) => Err(e),
                Ok(_) => assign_pairs(vars, vals, i + 1, ctx, f),
            }
        },
    }
}

/// Executes one statement and reports the flow it produced. Proved equal
/// to `exec_stmt_s`; the scope stack is exactly preserved, on error
/// paths included.
pub fn exec_statement(stmt: &Statement, ctx: &mut LuaState, fuel: u64) -> (r: Result<
    FlowControl,
    LuaError,
>)
    requires
        old(ctx).wf(),
    ensures
        final(ctx).wf(),
        flow_res_view(r) == exec_stmt_s(*stmt, old(ctx)@, fuel as nat).0,
        final(ctx)@ == exec_stmt_s(*stmt, old(ctx)@, fuel as nat).1,
        old(ctx)@.tables.len() <= final(ctx)@.tables.len(),
        final(ctx)@.scopes == old(ctx)@.scopes,
    decreases fuel,
{
    if fuel == 0 {
        return Err(LuaError::OtherError("evaluation fuel exhausted"));
    }
    let f = fuel - 1;
    match stmt {
        Statement::LVarAssign(ass) => {
            let rvals = match &ass.vals {
                Some(es) => eval_expr_list(es, 0, ctx, f),
                None => {
                    let empty: Vec<Exp> = Vec::new();
                    proof {
                        assert(empty@ =~= Seq::<Exp>::empty());
                    }
                    eval_expr_list(&empty, 0, ctx, f)
                },
            };
            match rvals {
                Err(e) => Err(e),
                Ok(vs) => {
                    locals_write(&ass.vars, &vs, 0, ctx);
                    Ok(FlowControl::Normal)
                },
            }
        },
        Statement::Assignment(ass) => {
            match eval_expr_list(&ass.vals, 0, ctx, f) {
                Err(e) => Err(e),
                Ok(vs) => match assign_pairs(&ass.vars, &vs, 0, ctx, f) {
                    Err(e) => Err(e),
                    Ok(_) => Ok(FlowControl::Normal),
                },
            }
        },
        Statement::Semicolon => Ok(FlowControl::Normal),
        Statement::Ite(ite) => exec_if_then_else(ite, ctx, f),
        Statement::While(wb) => exec_while(wb, ctx, f),
        Statement::Repeat(rb) => exec_repeat(rb, ctx, f),
        Statement::Break => Ok(FlowControl::Break),
        Statement::Return(exps) => match eval_expr_list(exps, 0, ctx, f) {
            Err(e) => Err(e),
            Ok(vs) => Ok(FlowControl::Return(vs)),
        },
        Statement::NotSupported => Ok(FlowControl::Normal),
    }
}

/// Runs statements in order from position `i` until one disrupts the
/// flow or errs. Proved equal to `exec_stmts_s`.
fn exec_stmts(stmts: &Vec<Statement>, i: usize, ctx: &mut LuaState, fuel: u64) -> (r: Result<
    FlowControl,
    LuaError,
>)
    requires
        old(ctx).wf(),
    ensures
        final(ctx).wf(),
        flow_res_view(r) == exec_stmts_s(stmts@, i as int, old(ctx)@, fuel as nat).0,
        final(ctx)@ == exec_stmts_s(stmts@, i as int, old(ctx)@, fuel as nat).1,
        old(ctx)@.tables.len() <= final(ctx)@.tables.len(),
        final(ctx)@.scopes == old(ctx)@.scopes,
    decreases fuel,
{
    if fuel == 0 {
        return Err(LuaError::OtherError("evaluation fuel exhausted"));
    }
    let f = fuel - 1;
    if i >= stmts.len() {
        return Ok(FlowControl::Normal);
    }
    match exec_statement(&stmts[i], ctx, f) {
        Err(e) => Err(e),
        Ok(FlowControl::Normal) => exec_stmts(stmts, i + 1, ctx, f),
        Ok(fl) => Ok(fl),
    }
}

/// Runs a block's statements and, when no statement disrupted the flow,
/// its return clause; no scope handling. Proved equal to `exec_body_s`.
fn exec_body(block: &Block, ctx: &mut LuaState, fuel: u64) -> (r: Result<FlowControl, LuaError>)
    requires
        old(ctx).wf(),
    ensures
        final(ctx).wf(),
        flow_res_view(r) == exec_body_s(*block, old(ctx)@, fuel as nat).0,
        final(ctx)@ == exec_body_s(*block, old(ctx)@, fuel as nat).1,
        old(ctx)@.tables.len() <= final(ctx)@.tables.len(),
        final(ctx)@.scopes == old(ctx)@.scopes,
    decreases fuel,
{
    if fuel == 0 {
        return Err(LuaError::OtherError("evaluation fuel exhausted"));
    }
    let f = fuel - 1;
    match exec_stmts(&block.stmts, 0, ctx, f) {
        Err(e) => Err(e),
        Ok(FlowControl::Normal) => match &block.ret_stmt {
            Some(exps) => match eval_expr_list(exps, 0, ctx, f) {
                Err(e) => Err(e),
                Ok(vs) => Ok(FlowControl::Return(vs)),
            },
            None => Ok(FlowControl::Normal),
        },
        Ok(fl) => Ok(fl),
    }
}

/// Executes a block: pushes a scope, runs the body, and pops the scope
/// on every exit path, so the scope stack is exactly preserved whether
/// the block completes, disrupts the flow, or raises an error. Proved
/// equal to `exec_block_s`.
pub fn exec_block(block: &Block, ctx: &mut LuaState, fuel: u64) -> (r: Result<
    FlowControl,
    LuaError,
>)
    requires
        old(ctx).wf(),
    ensures
        final(ctx).wf(),
        flow_res_view(r) == exec_block_s(*block, old(ctx)@, fuel as nat).0,
        final(ctx)@ == exec_block_s(*block, old(ctx)@, fuel as nat).1,
        old(ctx)@.tables.len() <= final(ctx)@.tables.len(),
        final(ctx)@.scopes == old(ctx)@.scopes,
    decreases fuel,
{
    if fuel == 0 {
        return Err(LuaError::OtherError("evaluation fuel exhausted"));
    }
    let f = fuel - 1;
    proof {
        ctx.wf_model();
    }
    ctx.push_scope();
    proof {
        assert(ctx@ =~= state_push_scope_s(old(ctx)@));
    }
    let r = exec_body(block, ctx, f);
    ctx.pop_scope();
    proof {
        assert(ctx@ =~= state_pop_scope_s(exec_body_s(*block, state_push_scope_s(old(ctx)@), f as nat).1));
    }
    r
}

/// `if cond then ... elseif ... else ... end`: the primary condition
/// decides between the then-block and the arms. Proved equal to
/// `exec_ite_s`.
pub fn exec_if_then_else(ite: &IfThenElse, ctx: &mut LuaState, fuel: u64) -> (r: Result<
    FlowControl,
    LuaError,
>)
    requires
        old(ctx).wf(),
    ensures
        final(ctx).wf(),
        flow_res_view(r) == exec_ite_s(*ite, old(ctx)@, fuel as nat).0,
        final(ctx)@ == exec_ite_s(*ite, old(ctx)@, fuel as nat).1,
        old(ctx)@.tables.len() <= final(ctx)@.tables.len(),
        final(ctx)@.scopes == old(ctx)@.scopes,
    decreases fuel,
{
    if fuel == 0 {
        return Err(LuaError::OtherError("evaluation fuel exhausted"));
    }
    let f = fuel - 1;
    match eval_expr(&ite.cond, ctx, f) {
        Err(e) => Err(e),
        Ok(c) => {
            if boolean_coercion(&c) {
                exec_block(&ite.then_blk, ctx, f)
            } else {
                exec_elseifs(&ite.elseifs, &ite.else_blk, 0, ctx, f)
            }
        },
    }
}

/// Scans the elseif arms in order from position `i`: the first truthy
/// condition selects its block; with none, the else block (if any) runs.
/// Proved equal to `exec_elseifs_s`.
fn exec_elseifs(
    arms: &Vec<(Exp, Block)>,
    els: &Option<Block>,
    i: usize,
    ctx: &mut LuaState,
    fuel: u64,
) -> (r: Result<FlowControl, LuaError>)
    requires
        old(ctx).wf(),
    ensures
        final(ctx).wf(),
        flow_res_view(r) == exec_elseifs_s(arms@, *els, i as int, old(ctx)@, fuel as nat).0,
        final(ctx)@ == exec_elseifs_s(arms@, *els, i as int, old(ctx)@, fuel as nat).1,
        old(ctx)@.tables.len() <= final(ctx)@.tables.len(),
        final(ctx)@.scopes == old(ctx)@.scopes,
    decreases fuel,
{
    if fuel == 0 {
        return Err(LuaError::OtherError("evaluation fuel exhausted"));
    }
    let f = fuel - 1;
    if i >= arms.len() {
        match els {
            Some(blk) => {
                return exec_block(blk, ctx, f);
            },
            None => {
                return Ok(FlowControl::Normal);
            },
        }
    }
    match eval_expr(&arms[i].0, ctx, f) {
        Err(e) => Err(e),
        Ok(c) => {
            if boolean_coercion(&c) {
                exec_block(&arms[i].1, ctx, f)
            } else {
                exec_elseifs(arms, els, i + 1, ctx, f)
            }
        },
    }
}

/// `while cond do block end`: a falsy condition ends the loop normally,
/// `break` in the body ends it normally, `return` propagates. Proved
/// equal to `exec_while_s`.
pub fn exec_while(blk: &WhileBlock, ctx: &mut LuaState, fuel: u64) -> (r: Result<
    FlowControl,
    LuaError,
>)
    requires
        old(ctx).wf(),
    ensures
        final(ctx).wf(),
        flow_res_view(r) == exec_while_s(*blk, old(ctx)@, fuel as nat).0,
        final(ctx)@ == exec_while_s(*blk, old(ctx)@, fuel as nat).1,
        old(ctx)@.tables.len() <= final(ctx)@.tables.len(),
        final(ctx)@.scopes == old(ctx)@.scopes,
    decreases fuel,
{
    if fuel == 0 {
        return Err(LuaError::OtherError("evaluation fuel exhausted"));
    }
    let f = fuel - 1;
    match eval_expr(&blk.cond, ctx, f) {
        Err(e) => Err(e),
        Ok(c) => {
            if !boolean_coercion(&c) {
                Ok(FlowControl::Normal)
            } else {
                match exec_block(&blk.block, ctx, f) {
                    Err(e) => Err(e),
                    Ok(FlowControl::Normal) => exec_while(blk, ctx, f),
                    Ok(FlowControl::Break) => Ok(FlowControl::Normal),
                    Ok(fl) => Ok(fl),
                }
            }
        },
    }
}

/// `repeat block until cond`: one scope per iteration covers the body
/// and the condition, so the condition sees the body's locals; the scope
/// is popped on every exit path. Proved equal to `exec_repeat_s`.
pub fn exec_repeat(blk: &RepeatBlock, ctx: &mut LuaState, fuel: u64) -> (r: Result<
    FlowControl,
    LuaError,
>)
    requires
        old(ctx).wf(),
    ensures
        final(ctx).wf(),
        flow_res_view(r) == exec_repeat_s(*blk, old(ctx)@, fuel as nat).0,
        final(ctx)@ == exec_repeat_s(*blk, old(ctx)@, fuel as nat).1,
        old(ctx)@.tables.len() <= final(ctx)@.tables.len(),
        final(ctx)@.scopes == old(ctx)@.scopes,
    decreases fuel,
{
    if fuel == 0 {
        return Err(LuaError::OtherError("evaluation fuel exhausted"));
    }
    let f = fuel - 1;
    proof {
        ctx.wf_model();
    }
    ctx.push_scope();
    proof {
        assert(ctx@ =~= state_push_scope_s(old(ctx)@));
    }
    match exec_body(&blk.block, ctx, f) {
        Err(e) => {
            ctx.pop_scope();
            Err(e)
        },
        Ok(FlowControl::Break) => {
            ctx.pop_scope();
            Ok(FlowControl::Normal)
        },
        Ok(FlowControl::Return(vs)) => {
            ctx.pop_scope();
            Ok(FlowControl::Return(vs))
        },
        Ok(FlowControl::Normal) => {
            match eval_expr(&blk.cond, ctx, f) {
                Err(e) => {
                    ctx.pop_scope();
                    Err(e)
                },
                Ok(c) => {
                    if boolean_coercion(&c) {
                        ctx.pop_scope();
                        Ok(FlowControl::Normal)
                    } else {
                        ctx.pop_scope();
                        exec_repeat(blk, ctx, f)
                    }
                },
            }
        },
    }
}

} // verus!

verus! {

/// The state a fresh interpreter starts from: the global table under
/// identity 0 and a base scope (identity 1) binding `_ENV` to it.
pub open spec fn initial_state_s() -> crate::types::StateM {
    crate::types::StateM {
        tables: seq![
            crate::types::TableM {
                id: 0,
                arr: Seq::<Val>::empty(),
                map: Map::<Val, Val>::empty(),
            },
            crate::types::TableM {
                id: 1,
                arr: Seq::<Val>::empty(),
                map: Map::<Val, Val>::empty().insert(
                    Val::Str(crate::types::env_name()),
                    Val::Table(0),
                ),
            },
        ],
        scopes: seq![1int],
    }
}

/// The evaluator entry: builds a fresh state and runs a parsed top-level
/// block's statements (and return clause, if any) directly in the base
/// scope, handing back the flow and the final state for inspection.
pub fn eval_program(block: &Block, fuel: u64) -> (r: (Result<FlowControl, LuaError>, LuaState))
    ensures
        r.1.wf(),
        flow_res_view(r.0) == exec_body_s(*block, initial_state_s(), fuel as nat).0,
        r.1@ == exec_body_s(*block, initial_state_s(), fuel as nat).1,
{
    let mut ctx = LuaState::new();
    proof {
        assert(ctx@.tables[0] =~= initial_state_s().tables[0]);
        assert(ctx@.tables[1] =~= initial_state_s().tables[1]);
        assert(ctx@.tables =~= initial_state_s().tables);
        assert(ctx@ =~= initial_state_s());
    }
    let r = exec_body(block, &mut ctx, fuel);
    (r, ctx)
}

} // verus!
