//! Unary operators: boolean negation, numeric negation, length, bitwise
//! complement. The operand is evaluated, then the operator applied to the
//! value; each function is proved equal to its mirror in `sem`.

use vstd::prelude::*;

use crate::LuaError;
use crate::ast::{Exp, UnOp};
use crate::types::{LuaValue, Number, LuaState, val_wf, res_view, dup_value};
use crate::sem::{unop_s, eval_unexp_s};
use crate::float::{neg_bits, f_to_i64};
use crate::expression::{boolean_coercion, num_coercion, eval_expr};

verus! {

/// Applies a unary operator to an evaluated operand; reads the state
/// only for the length of a table. Proved equal to `unop_s`.
fn unop_vals(operator: &UnOp, v: &LuaValue, ctx: &LuaState) -> (r: Result<LuaValue, LuaError>)
    requires
        ctx.wf(),
        val_wf(v@, ctx@.tables.len() as int),
    ensures
        res_view(r) == unop_s(*operator, v@, ctx@),
        r matches Ok(w) ==> (w@ is Bool || w@ is Int || w@ is Float),
{
    match operator {
        UnOp::BoolNot => Ok(LuaValue::Boolean(!boolean_coercion(v))),
        UnOp::Minus => match num_coercion(dup_value(v)) {
            LuaValue::Number(Number::Int(i)) => Ok(
                LuaValue::Number(Number::Int((0i64).wrapping_sub(i))),
            ),
            LuaValue::Number(Number::Float(b)) => Ok(LuaValue::Number(Number::Float(neg_bits(b)))),
            _ => Err(LuaError::TypeError("trying to do arithmetic on a non-numerical value")),
        },
        UnOp::Length => match v {
            LuaValue::Str(s) => Ok(LuaValue::Number(Number::Int(s.len() as i64))),
            LuaValue::Table(t) => Ok(
                LuaValue::Number(Number::Int(ctx.sequence_border_at(*t) as i64)),
            ),
            _ => Err(LuaError::TypeError("trying to get the size of an unsupported type")),
        },
        UnOp::BitNot => match num_coercion(dup_value(v)) {
            LuaValue::Number(Number::Int(i)) => Ok(LuaValue::Number(Number::Int(!i))),
            LuaValue::Number(Number::Float(b)) => Ok(LuaValue::Number(Number::Int(!f_to_i64(b)))),
            _ => Err(LuaError::TypeError("trying to do bitwise inversion on a non-numerical value")),
        },
    }
}

/// Evaluates the operand, then applies the unary operator. Proved equal
/// to `eval_unexp_s`.
pub fn eval_unary_expr(operand: &Box<Exp>, operator: &UnOp, ctx: &mut LuaState, fuel: u64) -> (r:
    Result<LuaValue, LuaError>)
    requires
        old(ctx).wf(),
    ensures
        final(ctx).wf(),
        res_view(r) == eval_unexp_s(*operator, **operand, old(ctx)@, fuel as nat).0,
        final(ctx)@ == eval_unexp_s(*operator, **operand, old(ctx)@, fuel as nat).1,
        r matches Ok(v) ==> val_wf(v@, final(ctx)@.tables.len() as int),
        old(ctx)@.tables.len() <= final(ctx)@.tables.len(),
        final(ctx)@.scopes == old(ctx)@.scopes,
    decreases fuel,
{
    if fuel == 0 {
        return Err(LuaError::OtherError("evaluation fuel exhausted"));
    }
    let f = fuel - 1;
    match eval_expr(operand, ctx, f) {
        Err(e) => Err(e),
        Ok(v) => unop_vals(operator, &v, ctx),
    }
}

} // verus!
