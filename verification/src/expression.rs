//! Expression evaluation: literals lift directly; binary, unary, prefix
//! and table-constructor expressions dispatch to their evaluators. Each
//! function is proved to return exactly what its mirror in `sem` yields.

use vstd::prelude::*;

use crate::LuaError;
use crate::ast::{Exp, Numeral, Field};
use crate::types::{LuaValue, Number, Val, LuaState, val_wf, res_view};
use crate::sem::{truthy, num_coerce_s, eval_exp_s, eval_table_lit_s, eval_fields_s, eval_list_s};

verus! {

/// The view of a vector of values.
pub open spec fn vals_view(vs: Seq<LuaValue>) -> Seq<Val> {
    vs.map_values(|v: LuaValue| v@)
}

/// Every value of the vector is well formed for an arena of `n` tables.
pub open spec fn vals_wf(vs: Seq<LuaValue>, n: int) -> bool {
    forall|i: int| 0 <= i < vs.len() ==> val_wf((#[trigger] vs[i])@, n)
}

/// Boolean coercion: nil and false are false, everything else (zero and
/// the empty string included) is true.
pub fn boolean_coercion(val: &LuaValue) -> (r: bool)
    ensures
        r == truthy(val@),
{
    match val {
        LuaValue::Nil => false,
        LuaValue::Boolean(b) => *b,
        _ => true,
    }
}

/// Law: boolean coercion is false exactly on nil and the boolean false.
pub proof fn lemma_boolean_coercion_false(v: Val)
    ensures
        !truthy(v) <==> (v == Val::Nil || v == Val::Bool(false)),
{
}

/// String-to-number coercion: an integer parse is tried first, then a
/// float parse; on failure, and on every non-string value, the input is
/// returned unchanged.
pub fn num_coercion(val: LuaValue) -> (r: LuaValue)
    ensures
        r@ == num_coerce_s(val@),
{
    match val {
        LuaValue::Str(s) => match crate::text::parse_i64_bytes(s.as_slice()) {
            Some(i) => LuaValue::Number(Number::Int(i)),
            None => {
                if hex_prefixed_exec(&s) {
                    LuaValue::Str(s)
                } else {
                    match crate::float::f_parse(s.as_slice()) {
                        Some(b) => LuaValue::Number(Number::Float(b)),
                        None => LuaValue::Str(s),
                    }
                }
            },
        },
        _ => val,
    }
}

/// Exec check for a hexadecimal prefix, proved against `hex_prefixed`.
fn hex_prefixed_exec(s: &Vec<u8>) -> (r: bool)
    ensures
        r == crate::float::hex_prefixed(s@),
{
    let off: usize = if s.len() > 0 && (s[0] == 43 || s[0] == 45) {
        1
    } else {
        0
    };
    proof {
        let t = if s@.len() > 0 && (s@[0] == 43 || s@[0] == 45) {
            s@.skip(1)
        } else {
            s@
        };
        assert(t =~= s@.skip(off as int));
        if s@.len() >= off + 2 {
            assert(t[0] == s@[off as int]);
            assert(t[1] == s@[off as int + 1]);
        }
    }
    if s.len() >= off + 2 {
        s[off] == 48 && (s[off + 1] == 120 || s[off + 1] == 88)
    } else {
        false
    }
}

/// Evaluates an expression against the state; table constructors
/// allocate through the state, everything else leaves it unchanged
/// except for nested allocations. Proved equal to `eval_exp_s`.
pub fn eval_expr(expr: &Exp, ctx: &mut LuaState, fuel: u64) -> (r: Result<LuaValue, LuaError>)
    requires
        old(ctx).wf(),
    ensures
        final(ctx).wf(),
        res_view(r) == eval_exp_s(*expr, old(ctx)@, fuel as nat).0,
        final(ctx)@ == eval_exp_s(*expr, old(ctx)@, fuel as nat).1,
        r matches Ok(v) ==> val_wf(v@, final(ctx)@.tables.len() as int),
        old(ctx)@.tables.len() <= final(ctx)@.tables.len(),
        final(ctx)@.scopes == old(ctx)@.scopes,
    decreases fuel,
{
    if fuel == 0 {
        return Err(LuaError::OtherError("evaluation fuel exhausted"));
    }
    let f = fuel - 1;
    match expr {
        Exp::Nil => Ok(LuaValue::Nil),
        Exp::Bool(b) => Ok(LuaValue::Boolean(*b)),
        Exp::Num(Numeral::Int(i)) => Ok(LuaValue::Number(Number::Int(*i))),
        Exp::Num(Numeral::Float(b)) => Ok(LuaValue::Number(Number::Float(*b))),
        Exp::Str(s) => {
            let t = s.clone();
            proof {
                assert(t@ =~= s@);
            }
            Ok(LuaValue::Str(t))
        },
        Exp::BinExp(l, op, r2) => crate::binop::eval_binary_expr(l, r2, op, ctx, f),
        Exp::UnExp(op, o) => crate::unop::eval_unary_expr(o, op, ctx, f),
        Exp::PrefixExp(p) => crate::prefixexp::eval_prefix_expr(
            &p.prefix,
            p.suffix_chain.as_slice(),
            ctx,
            f,
        ),
        Exp::Table(fields) => eval_inline_table(fields, ctx, f),
        Exp::Ellipsis => Err(LuaError::NotImplementedError),
        Exp::FuncCall => Err(LuaError::NotImplementedError),
        Exp::Lambda => Err(LuaError::NotImplementedError),
    }
}

/// A table constructor: allocates a fresh table (reserving room for the
/// positional fields) and writes the fields in source order. Proved
/// equal to `eval_table_lit_s`.
pub fn eval_inline_table(src: &Vec<Field>, ctx: &mut LuaState, fuel: u64) -> (r: Result<
    LuaValue,
    LuaError,
>)
    requires
        old(ctx).wf(),
    ensures
        final(ctx).wf(),
        res_view(r) == eval_table_lit_s(src@, old(ctx)@, fuel as nat).0,
        final(ctx)@ == eval_table_lit_s(src@, old(ctx)@, fuel as nat).1,
        r matches Ok(v) ==> val_wf(v@, final(ctx)@.tables.len() as int),
        old(ctx)@.tables.len() <= final(ctx)@.tables.len(),
        final(ctx)@.scopes == old(ctx)@.scopes,
    decreases fuel,
{
    if fuel == 0 {
        return Err(LuaError::OtherError("evaluation fuel exhausted"));
    }
    let f = fuel - 1;
    let mut sequence_count: usize = 0;
    let mut i: usize = 0;
    while i < src.len()
        invariant
            i <= src@.len(),
            sequence_count <= i,
        decreases src@.len() - i,
    {
        match &src[i] {
            Field::PosAssign(_) => {
                sequence_count = sequence_count + 1;
            },
            _ => {},
        }
        i = i + 1;
    }
    let tid = ctx.alloc_table(sequence_count);
    match eval_fields(src, 0, 1, tid, ctx, f) {
        Err(e) => Err(e),
        Ok(_) => Ok(LuaValue::Table(tid)),
    }
}

/// Writes the constructor fields from position `i` on: positional fields
/// take the next implicit integer index, keyed fields evaluate their key
/// and value. Proved equal to `eval_fields_s`.
fn eval_fields(src: &Vec<Field>, i: usize, nextpos: i64, tid: usize, ctx: &mut LuaState, fuel: u64)
    -> (r: Result<(), LuaError>)
    requires
        old(ctx).wf(),
        tid < old(ctx)@.tables.len(),
    ensures
        final(ctx).wf(),
        (match r {
            Ok(_) => Ok::<(), crate::ErrKind>(()),
            Err(e) => Err(e@),
        }) == eval_fields_s(src@, i as int, nextpos, tid as int, old(ctx)@, fuel as nat).0,
        final(ctx)@ == eval_fields_s(src@, i as int, nextpos, tid as int, old(ctx)@, fuel as nat).1,
        old(ctx)@.tables.len() <= final(ctx)@.tables.len(),
        final(ctx)@.scopes == old(ctx)@.scopes,
    decreases fuel,
{
    if fuel == 0 {
        return Err(LuaError::OtherError("evaluation fuel exhausted"));
    }
    let f = fuel - 1;
    if i >= src.len() {
        return Ok(());
    }
    match &src[i] {
        Field::PosAssign(e) => {
            match eval_expr(e, ctx, f) {
                Err(er) => Err(er),
                Ok(v) => {
                    let k = LuaValue::Number(Number::Int(nextpos));
                    match ctx.table_set_at(tid, &k, &v) {
                        Ok(_) => eval_fields(src, i + 1, nextpos.wrapping_add(1), tid, ctx, f),
                        Err(_) => {
                            proof {
                                assert(false);
                            }
                            Err(LuaError::OtherError("unreachable"))
                        },
                    }
                },
            }
        },
        Field::ExpAssign(ke, ve) => {
            match eval_expr(ke, ctx, f) {
                Err(er) => Err(er),
                Ok(k) => match eval_expr(ve, ctx, f) {
                    Err(er) => Err(er),
                    Ok(v) => match ctx.table_set_at(tid, &k, &v) {
                        Ok(_) => eval_fields(src, i + 1, nextpos, tid, ctx, f),
                        Err(e) => Err(e),
                    },
                },
            }
        },
        Field::NameAssign(name, ve) => {
            match eval_expr(ve, ctx, f) {
                Err(er) => Err(er),
                Ok(v) => {
                    let nk = name.clone();
                    proof {
                        assert(nk@ =~= name@);
                    }
                    let k = LuaValue::Str(nk);
                    match ctx.table_set_at(tid, &k, &v) {
                        Ok(_) => eval_fields(src, i + 1, nextpos, tid, ctx, f),
                        Err(_) => {
                            proof {
                                assert(false);
                            }
                            Err(LuaError::OtherError("unreachable"))
                        },
                    }
                },
            }
        },
    }
}

/// Evaluates a list of expressions left to right, collecting the values.
/// Proved equal to `eval_list_s`.
pub fn eval_expr_list(exps: &Vec<Exp>, i: usize, ctx: &mut LuaState, fuel: u64) -> (r: Result<
    Vec<LuaValue>,
    LuaError,
>)
    requires
        old(ctx).wf(),
    ensures
        final(ctx).wf(),
        (match r {
            Ok(vs) => Ok::<Seq<Val>, crate::ErrKind>(vals_view(vs@)),
            Err(e) => Err(e@),
        }) == eval_list_s(exps@, i as int, old(ctx)@, fuel as nat).0,
        final(ctx)@ == eval_list_s(exps@, i as int, old(ctx)@, fuel as nat).1,
        r matches Ok(vs) ==> vals_wf(vs@, final(ctx)@.tables.len() as int),
        old(ctx)@.tables.len() <= final(ctx)@.tables.len(),
        final(ctx)@.scopes == old(ctx)@.scopes,
    decreases fuel,
{
    if fuel == 0 {
        return Err(LuaError::OtherError("evaluation fuel exhausted"));
    }
    let f = fuel - 1;
    if i >= exps.len() {
        let empty: Vec<LuaValue> = Vec::new();
        proof {
            assert(vals_view(empty@) =~= Seq::<Val>::empty());
        }
        return Ok(empty);
    }
    match eval_expr(&exps[i], ctx, f) {
        Err(er) => Err(er),
        Ok(v) => match eval_expr_list(exps, i + 1, ctx, f) {
            Err(er) => Err(er),
            Ok(mut rest) => {
                let ghost old_rest = rest@;
                rest.insert(0, v);
                proof {
                    let gv = rest@[0];
                    assert(vals_view(rest@) =~= seq![gv@] + vals_view(old_rest));
                }
                Ok(rest)
            },
        },
    }
}

} // verus!
