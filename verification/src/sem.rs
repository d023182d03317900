//! The specification interpreter: a fuel-indexed, total mathematical
//! semantics of expressions, prefix expressions, statements and blocks
//! over the state model. Every executable evaluator function is proved to
//! return exactly what its mirror here computes, on the same state.
//!
//! Fuel decreases on every recursive step; exhaustion surfaces as an
//! internal error, so nonterminating source programs cannot stall the
//! (provably terminating) executable interpreter.

use vstd::prelude::*;

use crate::ErrKind;
use crate::ast::{
    Exp, Numeral, BinOp, UnOp, Field, ExpSuffix, ExpOrVarName, PrefixExp, Statement, Block,
    IfThenElse, WhileBlock, RepeatBlock,
};
use crate::types::{
    Val, StateM, TableM, val_eq, table_get_m, table_set_m, map_get_m, map_set_m, key_valid,
    resolve_in, env_name,
};
use crate::float::{f64_neg, f64_to_i64};
use crate::text::{parse_i64_spec};
use crate::float::parse_f64_bits;
use crate::binop::{arith_dispatch_s, compare_s, concat_s};

verus! {

/// Boolean coercion: everything is true but nil and false.
pub open spec fn truthy(v: Val) -> bool {
    !(v == Val::Nil || v == Val::Bool(false))
}

/// String-to-number coercion: an integer parse is tried first, then a
/// decimal float parse; any other value, and a string that parses as
/// neither, is returned unchanged. Hexadecimal-prefixed strings are not
/// numerals to this coercion.
pub open spec fn num_coerce_s(v: Val) -> Val {
    match v {
        Val::Str(s) => match parse_i64_spec(s) {
            Some(i) => Val::Int(i),
            None => if crate::float::hex_prefixed(s) {
                v
            } else {
                match parse_f64_bits(s) {
                    Some(b) => Val::Float(b),
                    None => v,
                }
            },
        },
        _ => v,
    }
}

/// The value of a non-short-circuit binary operator on its two operand
/// values: equality without coercion, comparisons, concatenation and
/// arithmetic after string-to-number coercion.
pub open spec fn binop_vals_s(op: BinOp, v1: Val, v2: Val) -> Result<Val, ErrKind> {
    match op {
        BinOp::Equal => Ok(Val::Bool(val_eq(v1, v2))),
        BinOp::NotEqual => Ok(Val::Bool(!val_eq(v1, v2))),
        BinOp::Lt => compare_s(op, v1, v2),
        BinOp::Leq => compare_s(op, v1, v2),
        BinOp::Gt => compare_s(op, v1, v2),
        BinOp::Geq => compare_s(op, v1, v2),
        BinOp::Concat => concat_s(num_coerce_s(v1), num_coerce_s(v2)),
        BinOp::BoolAnd => Err(ErrKind::OtherErr),
        BinOp::BoolOr => Err(ErrKind::OtherErr),
        _ => arith_dispatch_s(op, num_coerce_s(v1), num_coerce_s(v2)),
    }
}

/// The value of a unary operator: boolean negation, numeric negation
/// after coercion (integer negation wraps), byte length of a string or
/// sequence border of a table, bitwise complement after an integer cast.
pub open spec fn unop_s(op: UnOp, v: Val, st: StateM) -> Result<Val, ErrKind> {
    match op {
        UnOp::BoolNot => Ok(Val::Bool(!truthy(v))),
        UnOp::Minus => match num_coerce_s(v) {
            Val::Int(i) => Ok(Val::Int(vstd::wrapping::i64_specs::wrapping_sub(0, i))),
            Val::Float(b) => Ok(Val::Float(f64_neg(b))),
            _ => Err(ErrKind::TypeErr),
        },
        UnOp::Length => match v {
            Val::Str(s) => Ok(Val::Int(s.len() as i64)),
            Val::Table(t) => Ok(Val::Int(st.tables[t].arr.len() as i64)),
            _ => Err(ErrKind::TypeErr),
        },
        UnOp::BitNot => match num_coerce_s(v) {
            Val::Int(i) => Ok(Val::Int(!i)),
            Val::Float(b) => Ok(Val::Int(!f64_to_i64(b))),
            _ => Err(ErrKind::TypeErr),
        },
    }
}

/// The state after a table write addressed by identity.
pub open spec fn state_set_table_s(st: StateM, tid: int, k: Val, v: Val) -> StateM {
    StateM { tables: st.tables.update(tid, table_set_m(st.tables[tid], k, v)), ..st }
}

/// The state after pushing a fresh scope table.
pub open spec fn state_push_scope_s(st: StateM) -> StateM {
    StateM {
        tables: st.tables.push(
            TableM {
                id: st.tables.len() as int,
                arr: Seq::<Val>::empty(),
                map: Map::<Val, Val>::empty(),
            },
        ),
        scopes: st.scopes.push(st.tables.len() as int),
    }
}

/// The state after popping the innermost scope (the table stays in the
/// arena).
pub open spec fn state_pop_scope_s(st: StateM) -> StateM {
    StateM { scopes: st.scopes.drop_last(), ..st }
}

/// The state after writing a local binding in the innermost scope.
pub open spec fn state_set_local_s(st: StateM, name: Seq<u8>, v: Val) -> StateM {
    StateM {
        tables: st.tables.update(
            st.scopes.last(),
            map_set_m(st.tables[st.scopes.last()], Val::Str(name), v),
        ),
        ..st
    }
}

/// What evaluating an expression yields: a value or an error, and the
/// state after any table allocations the expression performed.
pub open spec fn eval_exp_s(e: Exp, st: StateM, fuel: nat) -> (Result<Val, ErrKind>, StateM)
    decreases fuel,
{
    if fuel == 0 {
        (Err(ErrKind::OtherErr), st)
    } else {
        let f = (fuel - 1) as nat;
        match e {
            Exp::Nil => (Ok(Val::Nil), st),
            Exp::Bool(b) => (Ok(Val::Bool(b)), st),
            Exp::Num(Numeral::Int(i)) => (Ok(Val::Int(i)), st),
            Exp::Num(Numeral::Float(b)) => (Ok(Val::Float(b)), st),
            Exp::Str(s) => (Ok(Val::Str(s@)), st),
            Exp::BinExp(l, op, r) => eval_binexp_s(*l, op, *r, st, f),
            Exp::UnExp(op, o) => eval_unexp_s(op, *o, st, f),
            Exp::PrefixExp(p) => eval_prefix_s(p.prefix, p.suffix_chain@, st, f),
            Exp::Table(fields) => eval_table_lit_s(fields@, st, f),
            Exp::Ellipsis => (Err(ErrKind::NotImpl), st),
            Exp::FuncCall => (Err(ErrKind::NotImpl), st),
            Exp::Lambda => (Err(ErrKind::NotImpl), st),
        }
    }
}

/// Binary expressions: `and`/`or` evaluate the left operand and only
/// evaluate the right one when the left does not decide; every other
/// operator evaluates left then right and applies `binop_vals_s`.
pub open spec fn eval_binexp_s(l: Exp, op: BinOp, r: Exp, st: StateM, fuel: nat) -> (
    Result<Val, ErrKind>,
    StateM,
)
    decreases fuel,
{
    if fuel == 0 {
        (Err(ErrKind::OtherErr), st)
    } else {
        let f = (fuel - 1) as nat;
        if op == BinOp::BoolAnd {
            let (r1, st1) = eval_exp_s(l, st, f);
            match r1 {
                Err(e) => (Err(e), st1),
                Ok(v1) => if !truthy(v1) {
                    (Ok(v1), st1)
                } else {
                    eval_exp_s(r, st1, f)
                },
            }
        } else if op == BinOp::BoolOr {
            let (r1, st1) = eval_exp_s(l, st, f);
            match r1 {
                Err(e) => (Err(e), st1),
                Ok(v1) => if !truthy(v1) {
                    eval_exp_s(r, st1, f)
                } else {
                    (Ok(v1), st1)
                },
            }
        } else {
            let (r1, st1) = eval_exp_s(l, st, f);
            match r1 {
                Err(e) => (Err(e), st1),
                Ok(v1) => {
                    let (r2, st2) = eval_exp_s(r, st1, f);
                    match r2 {
                        Err(e) => (Err(e), st2),
                        Ok(v2) => (binop_vals_s(op, v1, v2), st2),
                    }
                },
            }
        }
    }
}

/// Unary expressions: evaluate the operand, then apply `unop_s`.
pub open spec fn eval_unexp_s(op: UnOp, o: Exp, st: StateM, fuel: nat) -> (
    Result<Val, ErrKind>,
    StateM,
)
    decreases fuel,
{
    if fuel == 0 {
        (Err(ErrKind::OtherErr), st)
    } else {
        let f = (fuel - 1) as nat;
        let (r1, st1) = eval_exp_s(o, st, f);
        match r1 {
            Err(e) => (Err(e), st1),
            Ok(v) => (unop_s(op, v, st1), st1),
        }
    }
}

/// Walks the suffix chain from position `i`. Before the final suffix the
/// current value must be a table and is dereferenced; the final suffix
/// yields the assignment target (table identity, key) undereferenced. A
/// call suffix is not implemented mid-chain and is an internal error at
/// the end; an exhausted chain is an internal error.
pub open spec fn resolve_rec_s(cur: Val, sufs: Seq<ExpSuffix>, i: int, st: StateM, fuel: nat) -> (
    Result<(int, Val), ErrKind>,
    StateM,
)
    decreases fuel,
{
    if fuel == 0 {
        (Err(ErrKind::OtherErr), st)
    } else {
        let f = (fuel - 1) as nat;
        if i < 0 || i >= sufs.len() {
            (Err(ErrKind::OtherErr), st)
        } else if i == sufs.len() - 1 {
            match sufs[i] {
                ExpSuffix::FuncCall => (Err(ErrKind::OtherErr), st),
                ExpSuffix::TableDot(name) => match cur {
                    Val::Table(t) => (Ok((t, Val::Str(name@))), st),
                    _ => (Err(ErrKind::TypeErr), st),
                },
                ExpSuffix::TableIdx(e) => match cur {
                    Val::Table(t) => {
                        let (rk, st1) = eval_exp_s(e, st, f);
                        match rk {
                            Err(er) => (Err(er), st1),
                            Ok(k) => (Ok((t, k)), st1),
                        }
                    },
                    _ => (Err(ErrKind::TypeErr), st),
                },
            }
        } else {
            match sufs[i] {
                ExpSuffix::FuncCall => (Err(ErrKind::NotImpl), st),
                ExpSuffix::TableDot(name) => match cur {
                    Val::Table(t) => resolve_rec_s(
                        table_get_m(st.tables[t], Val::Str(name@)),
                        sufs,
                        i + 1,
                        st,
                        f,
                    ),
                    _ => (Err(ErrKind::TypeErr), st),
                },
                ExpSuffix::TableIdx(e) => match cur {
                    Val::Table(t) => {
                        let (rk, st1) = eval_exp_s(e, st, f);
                        match rk {
                            Err(er) => (Err(er), st1),
                            Ok(k) => resolve_rec_s(
                                table_get_m(st1.tables[t], k),
                                sufs,
                                i + 1,
                                st1,
                                f,
                            ),
                        }
                    },
                    _ => (Err(ErrKind::TypeErr), st),
                },
            }
        }
    }
}

/// Seeds the walk. A name root resolves to the innermost scope that binds
/// the name, or to the value under `_ENV` in the outermost scope, and the
/// name itself becomes the first (dotted) key; an expression root is
/// evaluated and the chain used as is.
pub open spec fn resolve_prefix_s(
    prefix: ExpOrVarName,
    sufs: Seq<ExpSuffix>,
    st: StateM,
    fuel: nat,
) -> (Result<(int, Val), ErrKind>, StateM)
    decreases fuel,
{
    if fuel == 0 {
        (Err(ErrKind::OtherErr), st)
    } else {
        let f = (fuel - 1) as nat;
        match prefix {
            ExpOrVarName::Exp(e) => {
                let (r0, st1) = eval_exp_s(*e, st, f);
                match r0 {
                    Err(er) => (Err(er), st1),
                    Ok(cur) => resolve_rec_s(cur, sufs, 0, st1, f),
                }
            },
            ExpOrVarName::VarName(n) => {
                let cur = match resolve_in(st.tables, st.scopes, n@) {
                    Some(sid) => Val::Table(sid),
                    None => map_get_m(st.tables[st.scopes[0]].map, Val::Str(env_name())),
                };
                if sufs.len() == 0 {
                    match cur {
                        Val::Table(t) => (Ok((t, Val::Str(n@))), st),
                        _ => (Err(ErrKind::TypeErr), st),
                    }
                } else {
                    match cur {
                        Val::Table(t) => resolve_rec_s(
                            table_get_m(st.tables[t], Val::Str(n@)),
                            sufs,
                            0,
                            st,
                            f,
                        ),
                        _ => (Err(ErrKind::TypeErr), st),
                    }
                }
            },
        }
    }
}

/// Reading a prefix expression: resolve it to a target and dereference.
pub open spec fn eval_prefix_s(
    prefix: ExpOrVarName,
    sufs: Seq<ExpSuffix>,
    st: StateM,
    fuel: nat,
) -> (Result<Val, ErrKind>, StateM)
    decreases fuel,
{
    if fuel == 0 {
        (Err(ErrKind::OtherErr), st)
    } else {
        let f = (fuel - 1) as nat;
        let (r0, st1) = resolve_prefix_s(prefix, sufs, st, f);
        match r0 {
            Err(er) => (Err(er), st1),
            Ok((t, k)) => (Ok(table_get_m(st1.tables[t], k)), st1),
        }
    }
}

/// Table constructor fields, in source order: a positional field goes to
/// the next implicit integer index (starting at 1 and counting only
/// positional fields); keyed fields evaluate key and value; a name key is
/// a string key. Key errors propagate.
pub open spec fn eval_fields_s(
    fields: Seq<Field>,
    i: int,
    nextpos: i64,
    tid: int,
    st: StateM,
    fuel: nat,
) -> (Result<(), ErrKind>, StateM)
    decreases fuel,
{
    if fuel == 0 {
        (Err(ErrKind::OtherErr), st)
    } else {
        let f = (fuel - 1) as nat;
        if i < 0 || i >= fields.len() {
            (Ok(()), st)
        } else {
            match fields[i] {
                Field::PosAssign(e) => {
                    let (r1, st1) = eval_exp_s(e, st, f);
                    match r1 {
                        Err(er) => (Err(er), st1),
                        Ok(v) => eval_fields_s(
                            fields,
                            i + 1,
                            vstd::wrapping::i64_specs::wrapping_add(nextpos, 1),
                            tid,
                            state_set_table_s(st1, tid, Val::Int(nextpos), v),
                            f,
                        ),
                    }
                },
                Field::ExpAssign(ke, ve) => {
                    let (rk, st1) = eval_exp_s(ke, st, f);
                    match rk {
                        Err(er) => (Err(er), st1),
                        Ok(k) => {
                            let (rv, st2) = eval_exp_s(ve, st1, f);
                            match rv {
                                Err(er) => (Err(er), st2),
                                Ok(v) => if !key_valid(k) {
                                    (Err(ErrKind::IndexErr), st2)
                                } else {
                                    eval_fields_s(
                                        fields,
                                        i + 1,
                                        nextpos,
                                        tid,
                                        state_set_table_s(st2, tid, k, v),
                                        f,
                                    )
                                },
                            }
                        },
                    }
                },
                Field::NameAssign(name, ve) => {
                    let (rv, st1) = eval_exp_s(ve, st, f);
                    match rv {
                        Err(er) => (Err(er), st1),
                        Ok(v) => eval_fields_s(
                            fields,
                            i + 1,
                            nextpos,
                            tid,
                            state_set_table_s(st1, tid, Val::Str(name@), v),
                            f,
                        ),
                    }
                },
            }
        }
    }
}

/// A table constructor: a fresh table is allocated, then the fields are
/// written in source order.
pub open spec fn eval_table_lit_s(fields: Seq<Field>, st: StateM, fuel: nat) -> (
    Result<Val, ErrKind>,
    StateM,
)
    decreases fuel,
{
    if fuel == 0 {
        (Err(ErrKind::OtherErr), st)
    } else {
        let f = (fuel - 1) as nat;
        let tid = st.tables.len() as int;
        let st1 = StateM {
            tables: st.tables.push(
                TableM { id: tid, arr: Seq::<Val>::empty(), map: Map::<Val, Val>::empty() },
            ),
            ..st
        };
        let (r1, st2) = eval_fields_s(fields, 0, 1, tid, st1, f);
        match r1 {
            Err(er) => (Err(er), st2),
            Ok(_) => (Ok(Val::Table(tid)), st2),
        }
    }
}

/// Evaluates a list of expressions left to right, collecting the values.
pub open spec fn eval_list_s(exps: Seq<Exp>, i: int, st: StateM, fuel: nat) -> (
    Result<Seq<Val>, ErrKind>,
    StateM,
)
    decreases fuel,
{
    if fuel == 0 {
        (Err(ErrKind::OtherErr), st)
    } else {
        let f = (fuel - 1) as nat;
        if i < 0 || i >= exps.len() {
            (Ok(Seq::empty()), st)
        } else {
            let (r1, st1) = eval_exp_s(exps[i], st, f);
            match r1 {
                Err(er) => (Err(er), st1),
                Ok(v) => {
                    let (rr, st2) = eval_list_s(exps, i + 1, st1, f);
                    match rr {
                        Err(er) => (Err(er), st2),
                        Ok(vs) => (Ok(seq![v] + vs), st2),
                    }
                },
            }
        }
    }
}

/// The flow a statement or block hands upward: none, a `break`, or a
/// `return` carrying values.
pub enum FlowK {
    Normal,
    Brk,
    Ret(Seq<Val>),
}

/// Writes local bindings pairwise into the innermost scope; a name
/// without a matching value gets nil, excess values are discarded.
pub open spec fn locals_write_s(vars: Seq<Vec<u8>>, vals: Seq<Val>, i: int, st: StateM) -> StateM
    decreases vars.len() - i,
{
    if i < 0 || i >= vars.len() {
        st
    } else {
        let v = if i < vals.len() {
            vals[i]
        } else {
            Val::Nil
        };
        locals_write_s(vars, vals, i + 1, state_set_local_s(st, vars[i]@, v))
    }
}

/// Resolves and writes assignment targets pairwise against the values
/// already computed; resolution and write errors propagate.
pub open spec fn assign_pairs_s(
    vars: Seq<PrefixExp>,
    vals: Seq<Val>,
    i: int,
    st: StateM,
    fuel: nat,
) -> (Result<(), ErrKind>, StateM)
    decreases fuel,
{
    if fuel == 0 {
        (Err(ErrKind::OtherErr), st)
    } else {
        let f = (fuel - 1) as nat;
        if i < 0 || i >= vars.len() || i >= vals.len() {
            (Ok(()), st)
        } else {
            let (rt, st1) = resolve_prefix_s(vars[i].prefix, vars[i].suffix_chain@, st, f);
            match rt {
                Err(er) => (Err(er), st1),
                Ok((t, k)) => if !key_valid(k) {
                    (Err(ErrKind::IndexErr), st1)
                } else {
                    assign_pairs_s(vars, vals, i + 1, state_set_table_s(st1, t, k, vals[i]), f)
                },
            }
        }
    }
}

/// What executing one statement yields: a flow disruption or an error,
/// and the state after its effects.
pub open spec fn exec_stmt_s(stmt: Statement, st: StateM, fuel: nat) -> (
    Result<FlowK, ErrKind>,
    StateM,
)
    decreases fuel,
{
    if fuel == 0 {
        (Err(ErrKind::OtherErr), st)
    } else {
        let f = (fuel - 1) as nat;
        match stmt {
            Statement::LVarAssign(ass) => {
                let exps = match ass.vals {
                    Some(es) => es@,
                    None => Seq::<Exp>::empty(),
                };
                let (rv, st1) = eval_list_s(exps, 0, st, f);
                match rv {
                    Err(er) => (Err(er), st1),
                    Ok(vs) => (Ok(FlowK::Normal), locals_write_s(ass.vars@, vs, 0, st1)),
                }
            },
            Statement::Assignment(ass) => {
                let (rv, st1) = eval_list_s(ass.vals@, 0, st, f);
                match rv {
                    Err(er) => (Err(er), st1),
                    Ok(vs) => {
                        let (ra, st2) = assign_pairs_s(ass.vars@, vs, 0, st1, f);
                        match ra {
                            Err(er) => (Err(er), st2),
                            Ok(_) => (Ok(FlowK::Normal), st2),
                        }
                    },
                }
            },
            Statement::Semicolon => (Ok(FlowK::Normal), st),
            Statement::Ite(ite) => exec_ite_s(ite, st, f),
            Statement::While(wb) => exec_while_s(wb, st, f),
            Statement::Repeat(rb) => exec_repeat_s(rb, st, f),
            Statement::Break => (Ok(FlowK::Brk), st),
            Statement::Return(exps) => {
                let (rv, st1) = eval_list_s(exps@, 0, st, f);
                match rv {
                    Err(er) => (Err(er), st1),
                    Ok(vs) => (Ok(FlowK::Ret(vs)), st1),
                }
            },
            Statement::NotSupported => (Ok(FlowK::Normal), st),
        }
    }
}

/// Runs statements in order until one disrupts the flow or errs.
pub open spec fn exec_stmts_s(stmts: Seq<Statement>, i: int, st: StateM, fuel: nat) -> (
    Result<FlowK, ErrKind>,
    StateM,
)
    decreases fuel,
{
    if fuel == 0 {
        (Err(ErrKind::OtherErr), st)
    } else {
        let f = (fuel - 1) as nat;
        if i < 0 || i >= stmts.len() {
            (Ok(FlowK::Normal), st)
        } else {
            let (r1, st1) = exec_stmt_s(stmts[i], st, f);
            match r1 {
                Err(er) => (Err(er), st1),
                Ok(FlowK::Normal) => exec_stmts_s(stmts, i + 1, st1, f),
                Ok(fl) => (Ok(fl), st1),
            }
        }
    }
}

/// The statements of a block body followed by its optional return
/// clause, without scope handling: the return clause is evaluated only
/// when no statement disrupted the flow.
pub open spec fn exec_body_s(blk: Block, st: StateM, fuel: nat) -> (Result<FlowK, ErrKind>, StateM)
    decreases fuel,
{
    if fuel == 0 {
        (Err(ErrKind::OtherErr), st)
    } else {
        let f = (fuel - 1) as nat;
        let (r1, st1) = exec_stmts_s(blk.stmts@, 0, st, f);
        match r1 {
            Err(er) => (Err(er), st1),
            Ok(FlowK::Normal) => match blk.ret_stmt {
                Some(exps) => {
                    let (rv, st2) = eval_list_s(exps@, 0, st1, f);
                    match rv {
                        Err(er) => (Err(er), st2),
                        Ok(vs) => (Ok(FlowK::Ret(vs)), st2),
                    }
                },
                None => (Ok(FlowK::Normal), st1),
            },
            Ok(fl) => (Ok(fl), st1),
        }
    }
}

/// A block: push a scope, run the body, pop the scope on every exit path
/// (success, disruption and error alike), and hand the flow upward.
pub open spec fn exec_block_s(blk: Block, st: StateM, fuel: nat) -> (Result<FlowK, ErrKind>, StateM)
    decreases fuel,
{
    if fuel == 0 {
        (Err(ErrKind::OtherErr), st)
    } else {
        let f = (fuel - 1) as nat;
        let (r1, st1) = exec_body_s(blk, state_push_scope_s(st), f);
        (r1, state_pop_scope_s(st1))
    }
}

/// The elseif arms, in order: the first arm whose condition is truthy
/// runs; on none, the else block (if present) runs.
pub open spec fn exec_elseifs_s(
    arms: Seq<(Exp, Block)>,
    els: Option<Block>,
    i: int,
    st: StateM,
    fuel: nat,
) -> (Result<FlowK, ErrKind>, StateM)
    decreases fuel,
{
    if fuel == 0 {
        (Err(ErrKind::OtherErr), st)
    } else {
        let f = (fuel - 1) as nat;
        if i < 0 || i >= arms.len() {
            match els {
                Some(blk) => exec_block_s(blk, st, f),
                None => (Ok(FlowK::Normal), st),
            }
        } else {
            let (rc, st1) = eval_exp_s(arms[i].0, st, f);
            match rc {
                Err(er) => (Err(er), st1),
                Ok(c) => if truthy(c) {
                    exec_block_s(arms[i].1, st1, f)
                } else {
                    exec_elseifs_s(arms, els, i + 1, st1, f)
                },
            }
        }
    }
}

/// `if`: the primary condition decides between the then-block and the
/// elseif/else arms.
pub open spec fn exec_ite_s(ite: IfThenElse, st: StateM, fuel: nat) -> (
    Result<FlowK, ErrKind>,
    StateM,
)
    decreases fuel,
{
    if fuel == 0 {
        (Err(ErrKind::OtherErr), st)
    } else {
        let f = (fuel - 1) as nat;
        let (rc, st1) = eval_exp_s(ite.cond, st, f);
        match rc {
            Err(er) => (Err(er), st1),
            Ok(c) => if truthy(c) {
                exec_block_s(ite.then_blk, st1, f)
            } else {
                exec_elseifs_s(ite.elseifs@, ite.else_blk, 0, st1, f)
            },
        }
    }
}

/// `while`: a falsy condition ends the loop normally; `break` in the body
/// ends it normally; `return` propagates.
pub open spec fn exec_while_s(wb: WhileBlock, st: StateM, fuel: nat) -> (
    Result<FlowK, ErrKind>,
    StateM,
)
    decreases fuel,
{
    if fuel == 0 {
        (Err(ErrKind::OtherErr), st)
    } else {
        let f = (fuel - 1) as nat;
        let (rc, st1) = eval_exp_s(wb.cond, st, f);
        match rc {
            Err(er) => (Err(er), st1),
            Ok(c) => if !truthy(c) {
                (Ok(FlowK::Normal), st1)
            } else {
                let (rb, st2) = exec_block_s(wb.block, st1, f);
                match rb {
                    Err(er) => (Err(er), st2),
                    Ok(FlowK::Normal) => exec_while_s(wb, st2, f),
                    Ok(FlowK::Brk) => (Ok(FlowK::Normal), st2),
                    Ok(fl) => (Ok(fl), st2),
                }
            },
        }
    }
}

/// `repeat`: one scope per iteration covers the body and the `until`
/// condition, so the condition sees the body's locals; the scope is
/// popped on every exit path. `break` ends the loop normally; `return`
/// propagates; a falsy condition re-enters the loop.
pub open spec fn exec_repeat_s(rb: RepeatBlock, st: StateM, fuel: nat) -> (
    Result<FlowK, ErrKind>,
    StateM,
)
    decreases fuel,
{
    if fuel == 0 {
        (Err(ErrKind::OtherErr), st)
    } else {
        let f = (fuel - 1) as nat;
        let (r1, st1) = exec_body_s(rb.block, state_push_scope_s(st), f);
        match r1 {
            Err(er) => (Err(er), state_pop_scope_s(st1)),
            Ok(FlowK::Brk) => (Ok(FlowK::Normal), state_pop_scope_s(st1)),
            Ok(FlowK::Ret(vs)) => (Ok(FlowK::Ret(vs)), state_pop_scope_s(st1)),
            Ok(FlowK::Normal) => {
                let (rc, st2) = eval_exp_s(rb.cond, st1, f);
                match rc {
                    Err(er) => (Err(er), state_pop_scope_s(st2)),
                    Ok(c) => if truthy(c) {
                        (Ok(FlowK::Normal), state_pop_scope_s(st2))
                    } else {
                        exec_repeat_s(rb, state_pop_scope_s(st2), f)
                    },
                }
            },
        }
    }
}

} // verus!
