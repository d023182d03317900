//! Prefix expressions: `(root).suffix.suffix...` chains. The resolver
//! walks the chain to an assignable target (table identity, key); the
//! reading entry point dereferences that target. Each function is proved
//! equal to its mirror in `sem`.

use vstd::prelude::*;

use crate::LuaError;
use crate::ErrKind;
use crate::ast::{ExpSuffix, ExpOrVarName};
use crate::types::{LuaValue, Val, LuaState, val_wf, res_view};
use crate::sem::{resolve_rec_s, resolve_prefix_s, eval_prefix_s};
use crate::expression::eval_expr;

verus! {

/// An assignable target: the identity of the table to write, and the key
/// to write under.
#[derive(Debug)]
pub struct Assignment {
    pub environment: usize,
    pub index: LuaValue,
}

/// The view of a resolution result: the target as (identity, key view),
/// or the error kind.
pub open spec fn asg_view(r: Result<Assignment, LuaError>) -> Result<(int, Val), ErrKind> {
    match r {
        Ok(a) => Ok((a.environment as int, a.index@)),
        Err(e) => Err(e@),
    }
}

/// Walks the suffix chain from position `pos`: before the final suffix
/// the current value must be a table and is dereferenced; the final
/// suffix yields the undereferenced target. Proved equal to
/// `resolve_rec_s`.
pub fn resolve_prefix_expr_rec(
    current: LuaValue,
    suffixes: &[ExpSuffix],
    pos: usize,
    ctx: &mut LuaState,
    fuel: u64,
) -> (r: Result<Assignment, LuaError>)
    requires
        old(ctx).wf(),
        val_wf(current@, old(ctx)@.tables.len() as int),
    ensures
        final(ctx).wf(),
        asg_view(r) == resolve_rec_s(current@, suffixes@, pos as int, old(ctx)@, fuel as nat).0,
        final(ctx)@ == resolve_rec_s(current@, suffixes@, pos as int, old(ctx)@, fuel as nat).1,
        r matches Ok(a) ==> a.environment < final(ctx)@.tables.len() && val_wf(
            a.index@,
            final(ctx)@.tables.len() as int,
        ),
        old(ctx)@.tables.len() <= final(ctx)@.tables.len(),
        final(ctx)@.scopes == old(ctx)@.scopes,
    decreases fuel,
{
    if fuel == 0 {
        return Err(LuaError::OtherError("evaluation fuel exhausted"));
    }
    let f = fuel - 1;
    if pos >= suffixes.len() {
        return Err(LuaError::OtherError("empty suffix chain"));
    }
    if pos == suffixes.len() - 1 {
        match &suffixes[pos] {
            ExpSuffix::FuncCall => Err(LuaError::OtherError("call in assignment position")),
            ExpSuffix::TableDot(name) => match current {
                LuaValue::Table(t) => {
                    let nk = name.clone();
                    proof {
                        assert(nk@ =~= name@);
                    }
                    Ok(Assignment { environment: t, index: LuaValue::Str(nk) })
                },
                _ => Err(LuaError::TypeError("not indexable")),
            },
            ExpSuffix::TableIdx(e) => match current {
                LuaValue::Table(t) => match eval_expr(e, ctx, f) {
                    Err(er) => Err(er),
                    Ok(k) => Ok(Assignment { environment: t, index: k }),
                },
                _ => Err(LuaError::TypeError("not indexable")),
            },
        }
    } else {
        match &suffixes[pos] {
            ExpSuffix::FuncCall => Err(LuaError::NotImplementedError),
            ExpSuffix::TableDot(name) => match current {
                LuaValue::Table(t) => {
                    let nk = name.clone();
                    proof {
                        assert(nk@ =~= name@);
                    }
                    let next = ctx.table_get_at(t, &LuaValue::Str(nk));
                    resolve_prefix_expr_rec(next, suffixes, pos + 1, ctx, f)
                },
                _ => Err(LuaError::TypeError("not indexable")),
            },
            ExpSuffix::TableIdx(e) => match current {
                LuaValue::Table(t) => match eval_expr(e, ctx, f) {
                    Err(er) => Err(er),
                    Ok(k) => {
                        let next = ctx.table_get_at(t, &k);
                        resolve_prefix_expr_rec(next, suffixes, pos + 1, ctx, f)
                    },
                },
                _ => Err(LuaError::TypeError("not indexable")),
            },
        }
    }
}

/// Seeds the walk and resolves the whole prefix expression to a target.
/// A name root resolves to the innermost scope binding the name, or to
/// the value under `_ENV` in the outermost scope; the name itself is the
/// first dotted key. Proved equal to `resolve_prefix_s`.
pub fn resolve_prefix_expr(
    prefix: &ExpOrVarName,
    suffixes: &[ExpSuffix],
    ctx: &mut LuaState,
    fuel: u64,
) -> (r: Result<Assignment, LuaError>)
    requires
        old(ctx).wf(),
    ensures
        final(ctx).wf(),
        asg_view(r) == resolve_prefix_s(*prefix, suffixes@, old(ctx)@, fuel as nat).0,
        final(ctx)@ == resolve_prefix_s(*prefix, suffixes@, old(ctx)@, fuel as nat).1,
        r matches Ok(a) ==> a.environment < final(ctx)@.tables.len() && val_wf(
            a.index@,
            final(ctx)@.tables.len() as int,
        ),
        old(ctx)@.tables.len() <= final(ctx)@.tables.len(),
        final(ctx)@.scopes == old(ctx)@.scopes,
    decreases fuel,
{
    if fuel == 0 {
        return Err(LuaError::OtherError("evaluation fuel exhausted"));
    }
    let f = fuel - 1;
    match prefix {
        ExpOrVarName::Exp(e) => match eval_expr(e, ctx, f) {
            Err(er) => Err(er),
            Ok(cur) => resolve_prefix_expr_rec(cur, suffixes, 0, ctx, f),
        },
        ExpOrVarName::VarName(n) => {
            let cur = match ctx.resolve_name(n) {
                Some(sid) => LuaValue::Table(sid),
                None => ctx.env_value(),
            };
            if suffixes.len() == 0 {
                match cur {
                    LuaValue::Table(t) => {
                        let nk = n.clone();
                        proof {
                            assert(nk@ =~= n@);
                        }
                        Ok(Assignment { environment: t, index: LuaValue::Str(nk) })
                    },
                    _ => Err(LuaError::TypeError("not indexable")),
                }
            } else {
                match cur {
                    LuaValue::Table(t) => {
                        let nk = n.clone();
                        proof {
                            assert(nk@ =~= n@);
                        }
                        let next = ctx.table_get_at(t, &LuaValue::Str(nk));
                        resolve_prefix_expr_rec(next, suffixes, 0, ctx, f)
                    },
                    _ => Err(LuaError::TypeError("not indexable")),
                }
            }
        },
    }
}

/// Reads a prefix expression: resolve it, then dereference the target.
/// Proved equal to `eval_prefix_s`.
pub fn eval_prefix_expr(
    prefix: &ExpOrVarName,
    suffix: &[ExpSuffix],
    ctx: &mut LuaState,
    fuel: u64,
) -> (r: Result<LuaValue, LuaError>)
    requires
        old(ctx).wf(),
    ensures
        final(ctx).wf(),
        res_view(r) == eval_prefix_s(*prefix, suffix@, old(ctx)@, fuel as nat).0,
        final(ctx)@ == eval_prefix_s(*prefix, suffix@, old(ctx)@, fuel as nat).1,
        r matches Ok(v) ==> val_wf(v@, final(ctx)@.tables.len() as int),
        old(ctx)@.tables.len() <= final(ctx)@.tables.len(),
        final(ctx)@.scopes == old(ctx)@.scopes,
    decreases fuel,
{
    if fuel == 0 {
        return Err(LuaError::OtherError("evaluation fuel exhausted"));
    }
    let f = fuel - 1;
    match resolve_prefix_expr(prefix, suffix, ctx, f) {
        Err(e) => Err(e),
        Ok(a) => Ok(ctx.table_get_at(a.environment, &a.index)),
    }
}

} // verus!
