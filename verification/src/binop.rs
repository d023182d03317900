//! Binary operators: the integer and float kernels of §arithmetic, the
//! safe shift, comparisons, concatenation, and the dispatching evaluator.
//!
//! Integer `+ - *` wrap around on overflow. Division by zero raises an
//! arithmetic error in both kernels before any float operation runs.
//! The true (sign-of-divisor) modulo and the safe shift are proved
//! against their mathematical statements.

use vstd::prelude::*;

use crate::LuaError;
use crate::types::{LuaValue, Number, Val, num_to_float};
use crate::float::{
    add_bits, sub_bits, mul_bits, div_bits, floor_bits, trunc_bits, powi_bits, i64_to_f64,
    f64_to_i64, f64_eq, f64_lt, f64_le, f64_is_zero, f_add, f_sub, f_mul, f_div,
    f_floor, f_trunc, f_powi, f_from_i64, f_to_i64, eq_bits, lt_bits, le_bits, is_zero_bits,
};

verus! {

/// Truncating (round-toward-zero) integer division, as an unbounded
/// integer; the only `i64` overflow case, `i64::MIN / -1`, yields `2^63`.
pub open spec fn trunc_div_val(i: i64, j: i64) -> int
    recommends
        j != 0,
{
    let x = i as int;
    let d = j as int;
    if x >= 0 && d > 0 {
        x / d
    } else if x < 0 && d < 0 {
        (-x) / (-d)
    } else if x < 0 {
        -((-x) / d)
    } else {
        -(x / (-d))
    }
}

/// The remainder of truncating division: `i - (i / j) * j`, with the sign
/// of the dividend.
pub open spec fn trunc_rem_val(i: i64, j: i64) -> int
    recommends
        j != 0,
{
    i - trunc_div_val(i, j) * j
}

/// The true (mathematical) modulo of the language: the remainder shifted
/// into the divisor's sign, so the result lies in `[0, j)` for `j > 0`
/// and in `(j, 0]` for `j < 0`.
pub open spec fn lua_mod_val(i: i64, j: i64) -> int
    recommends
        j != 0,
{
    let r = trunc_rem_val(i, j);
    if r == 0 {
        0
    } else if (r < 0) != (j < 0) {
        r + j
    } else {
        r
    }
}

/// What integer floor-division stores: the truncating quotient, wrapped
/// into `i64` (only `i64::MIN // -1` wraps, back to `i64::MIN`).
pub open spec fn intdiv_val(i: i64, j: i64) -> i64
    recommends
        j != 0,
{
    if i == i64::MIN && j == -1 {
        i64::MIN
    } else {
        trunc_div_val(i, j) as i64
    }
}

/// The safe shift: a shift amount at or beyond the 64-bit word width in
/// either direction gives 0; a negative amount shifts the other way.
pub open spec fn shl_val(left: i64, right: int) -> i64 {
    if right <= -64 {
        0
    } else if right < 0 {
        left >> ((-right) as u64)
    } else if right >= 64 {
        0
    } else {
        left << (right as u64)
    }
}

/// Shifts `left` by `right` bits, to the left for a nonnegative amount
/// and to the right for a negative one; any amount at or beyond the word
/// width gives 0 instead of overflowing.
pub fn safe_left_shift(left: i64, right: i64) -> (r: i64)
    ensures
        r == shl_val(left, right as int),
{
    if right < 0 {
        if right <= -64 {
            0
        } else {
            left >> ((-right) as u64)
        }
    } else {
        if right >= 64 {
            0
        } else {
            left << (right as u64)
        }
    }
}

/// Law: a shift amount whose magnitude reaches the word width gives 0.
pub proof fn lemma_shift_width_zero(x: i64, r: int)
    requires
        r <= -64 || r >= 64,
    ensures
        shl_val(x, r) == 0,
{
}

/// The truncating quotient fits in `i64` for every pair but
/// `i64::MIN / -1`.
proof fn lemma_trunc_div_fits(i: i64, j: i64)
    requires
        j != 0,
        !(i == i64::MIN && j == -1),
    ensures
        i64::MIN as int <= trunc_div_val(i, j) <= i64::MAX as int,
{
    let x = i as int;
    let d = j as int;
    let ax = abs_int(x);
    let ad = abs_int(d);
    vstd::arithmetic::div_mod::lemma_div_pos_is_pos(ax, ad);
    vstd::arithmetic::div_mod::lemma_div_nonincreasing(ax, ad);
    vstd::arithmetic::div_mod::lemma_div_of0(ad);
    if ad >= 2 {
        vstd::arithmetic::div_mod::lemma_div_is_ordered(ax, 0x8000_0000_0000_0000, ad);
        vstd::arithmetic::div_mod::lemma_div_is_ordered_by_denominator(
            0x8000_0000_0000_0000,
            2,
            ad,
        );
        vstd::arithmetic::div_mod::lemma_div_by_multiple(0x4000_0000_0000_0000, 2);
        assert(ax / ad <= 0x4000_0000_0000_0000int);
    } else {
        vstd::arithmetic::div_mod::lemma_div_basics(ax);
    }
}

/// Exec truncating division, proved against `intdiv_val`.
fn intdiv_exec(i: i64, j: i64) -> (r: i64)
    requires
        j != 0,
    ensures
        r == intdiv_val(i, j),
{
    if i == i64::MIN && j == -1 {
        i64::MIN
    } else {
        proof {
            lemma_trunc_div_fits(i, j);
            vstd::arithmetic::div_mod::lemma_div_of0(abs_int(j as int));
        }
        match i.checked_div(j) {
            Some(q) => q,
            None => {
                proof {
                    assert(false);
                }
                0
            },
        }
    }
}

/// Exec true modulo, proved against `lua_mod_val`; the result always fits
/// in an `i64` because its magnitude stays below the divisor's.
fn lua_mod_exec(i: i64, j: i64) -> (r: i64)
    requires
        j != 0,
    ensures
        r == lua_mod_val(i, j),
{
    match i.checked_rem(j) {
        Some(rr) => {
            proof {
                lemma_trunc_rem_range(i, j);
                assert(rr == trunc_rem_val(i, j));
            }
            if rr != 0 && ((rr < 0) != (j < 0)) {
                rr + j
            } else {
                rr
            }
        },
        None => {
            proof {
                assert(i == i64::MIN && j == -1);
                assert(trunc_div_val(i, j) == (-(i64::MIN as int)) / 1);
                assert((-(i64::MIN as int)) / 1 == -(i64::MIN as int)) by (nonlinear_arith);
                assert(trunc_rem_val(i, j) == 0);
            }
            0
        },
    }
}

/// The truncating remainder's magnitude stays below the divisor's, and it
/// matches what `checked_rem` computes.
proof fn lemma_trunc_rem_range(i: i64, j: i64)
    requires
        j != 0,
        !(i == i64::MIN && j == -1),
    ensures
        -abs_int(j as int) < trunc_rem_val(i, j) < abs_int(j as int),
        trunc_rem_val(i, j) == rust_rem(i as int, j as int),
{
    let x = i as int;
    let d = j as int;
    if x >= 0 && d > 0 {
        lemma_div_rem(x, d);
    } else if x < 0 && d < 0 {
        lemma_div_rem(-x, -d);
        assert(x - ((-x) / (-d)) * d == -((-x) - ((-x) / (-d)) * (-d))) by (nonlinear_arith);
    } else if x < 0 {
        lemma_div_rem(-x, d);
        assert(x - (-((-x) / d)) * d == -((-x) - ((-x) / d) * d)) by (nonlinear_arith);
    } else {
        lemma_div_rem(x, -d);
        assert(x - (-(x / (-d))) * d == x - (x / (-d)) * (-d)) by (nonlinear_arith);
    }
}

/// Absolute value of an unbounded integer.
pub open spec fn abs_int(x: int) -> int {
    if x < 0 {
        -x
    } else {
        x
    }
}

/// Rust's `%`: the remainder of truncating division, sign of the
/// dividend.
pub open spec fn rust_rem(x: int, d: int) -> int
    recommends
        d != 0,
{
    if x >= 0 && d > 0 {
        x % d
    } else if x < 0 && d < 0 {
        -((-x) % (-d))
    } else if x < 0 {
        -((-x) % d)
    } else {
        x % (-d)
    }
}

/// Euclidean division of nonnegative operands: quotient times divisor
/// plus remainder gives the dividend back, remainder below the divisor.
proof fn lemma_div_rem(x: int, d: int)
    requires
        x >= 0,
        d > 0,
    ensures
        x == (x / d) * d + (x % d),
        0 <= x % d < d,
        x - (x / d) * d == x % d,
{
    assert(x == (x / d) * d + (x % d)) by (nonlinear_arith)
        requires
            x >= 0 && d > 0,
    ;
    assert(0 <= x % d < d) by (nonlinear_arith)
        requires
            x >= 0 && d > 0,
    ;
}

/// Law: the true modulo lies in `[0, j)` for a positive divisor and in
/// `(j, 0]` for a negative one.
pub proof fn lemma_mod_range(i: i64, j: i64)
    requires
        j != 0,
    ensures
        j > 0 ==> 0 <= lua_mod_val(i, j) < j,
        j < 0 ==> j < lua_mod_val(i, j) <= 0,
{
    if !(i == i64::MIN && j == -1) {
        lemma_trunc_rem_range(i, j);
    } else {
        assert(trunc_div_val(i, j) == (-(i64::MIN as int)) / 1);
        assert((-(i64::MIN as int)) / 1 == -(i64::MIN as int)) by (nonlinear_arith);
        assert(lua_mod_val(i, j) == 0);
    }
}

/// Law: truncating quotient and true modulo reassemble the dividend,
/// `i == (i // j) * j + (i % j)`, whenever the remainder's sign already
/// agrees with the divisor's (it fails otherwise: for i = -4, j = 3 the
/// quotient is -1 and the modulo 2).
pub proof fn lemma_divmod_identity(i: i64, j: i64)
    requires
        j != 0,
        !(i == i64::MIN && j == -1),
        trunc_rem_val(i, j) == 0 || ((trunc_rem_val(i, j) < 0) == (j < 0)),
    ensures
        i as int == trunc_div_val(i, j) * j + lua_mod_val(i, j),
{
    lemma_trunc_rem_range(i, j);
}

} // verus!

verus! {

/// A `^` exponent this core computes: an integral float value fitting an
/// `i32`, handled by binary exponentiation. The core deliberately
/// implements no transcendental power, so every other exponent is a
/// `NotImplemented` error.
pub open spec fn pow_exp_ok(b: u64) -> bool {
    f64_eq(trunc_bits(b), b) && i32::MIN <= f64_to_i64(b) <= i32::MAX
}

/// Exec power kernel over float operands: binary exponentiation for an
/// exponent that `pow_exp_ok` admits, `NotImplemented` for the rest.
fn float_pow(a: u64, b: u64) -> (r: Result<u64, LuaError>)
    ensures
        match r {
            Ok(v) => pow_exp_ok(b) && v == powi_bits(a, f64_to_i64(b) as i32),
            Err(e) => !pow_exp_ok(b) && e@ is NotImpl,
        },
{
    let t = f_trunc(b);
    if eq_bits(t, b) {
        let n = f_to_i64(b);
        if i32::MIN as i64 <= n && n <= i32::MAX as i64 {
            Ok(f_powi(a, n as i32))
        } else {
            Err(LuaError::NotImplementedError)
        }
    } else {
        Err(LuaError::NotImplementedError)
    }
}

/// The integer kernel of the arithmetic table: exact wrapping `+ - *`,
/// float division, truncating floor-division, true modulo, float power,
/// bitwise operators and safe shifts. Division and modulo by zero are
/// arithmetic errors.
pub open spec fn int_arith_s(op: crate::ast::BinOp, i: i64, j: i64) -> Result<Val, crate::ErrKind> {
    match op {
        crate::ast::BinOp::Plus => Ok(Val::Int(vstd::wrapping::i64_specs::wrapping_add(i, j))),
        crate::ast::BinOp::Minus => Ok(Val::Int(vstd::wrapping::i64_specs::wrapping_sub(i, j))),
        crate::ast::BinOp::Mul => Ok(Val::Int(vstd::wrapping::i64_specs::wrapping_mul(i, j))),
        crate::ast::BinOp::Div => if j == 0 {
            Err(crate::ErrKind::ArithErr)
        } else {
            Ok(Val::Float(div_bits(i64_to_f64(i), i64_to_f64(j))))
        },
        crate::ast::BinOp::IntDiv => if j == 0 {
            Err(crate::ErrKind::ArithErr)
        } else {
            Ok(Val::Int(intdiv_val(i, j)))
        },
        crate::ast::BinOp::Mod => if j == 0 {
            Err(crate::ErrKind::ArithErr)
        } else {
            Ok(Val::Int(lua_mod_val(i, j) as i64))
        },
        crate::ast::BinOp::Pow => if i32::MIN <= j <= i32::MAX {
            Ok(Val::Float(powi_bits(i64_to_f64(i), j as i32)))
        } else {
            Err(crate::ErrKind::NotImpl)
        },
        crate::ast::BinOp::BitAnd => Ok(Val::Int(i & j)),
        crate::ast::BinOp::BitOr => Ok(Val::Int(i | j)),
        crate::ast::BinOp::BitXor => Ok(Val::Int(i ^ j)),
        crate::ast::BinOp::BitShl => Ok(Val::Int(shl_val(i, j as int))),
        crate::ast::BinOp::BitShr => Ok(Val::Int(shl_val(i, -(j as int)))),
        _ => Err(crate::ErrKind::TypeErr),
    }
}

/// The float kernel of the arithmetic table, over bit patterns. The
/// bitwise operators first cast both operands to integers; floor-division
/// floors the quotient and casts it to an integer; modulo is
/// `a - floor(a / b) * b`.
pub open spec fn float_arith_s(op: crate::ast::BinOp, a: u64, b: u64) -> Result<
    Val,
    crate::ErrKind,
> {
    match op {
        crate::ast::BinOp::Plus => Ok(Val::Float(add_bits(a, b))),
        crate::ast::BinOp::Minus => Ok(Val::Float(sub_bits(a, b))),
        crate::ast::BinOp::Mul => Ok(Val::Float(mul_bits(a, b))),
        crate::ast::BinOp::Div => if f64_is_zero(b) {
            Err(crate::ErrKind::ArithErr)
        } else {
            Ok(Val::Float(div_bits(a, b)))
        },
        crate::ast::BinOp::IntDiv => if f64_is_zero(b) {
            Err(crate::ErrKind::ArithErr)
        } else {
            Ok(Val::Int(f64_to_i64(floor_bits(div_bits(a, b)))))
        },
        crate::ast::BinOp::Mod => if f64_is_zero(b) {
            Err(crate::ErrKind::ArithErr)
        } else {
            Ok(Val::Float(sub_bits(a, mul_bits(floor_bits(div_bits(a, b)), b))))
        },
        crate::ast::BinOp::Pow => if pow_exp_ok(b) {
            Ok(Val::Float(powi_bits(a, f64_to_i64(b) as i32)))
        } else {
            Err(crate::ErrKind::NotImpl)
        },
        crate::ast::BinOp::BitAnd => Ok(Val::Int(f64_to_i64(a) & f64_to_i64(b))),
        crate::ast::BinOp::BitOr => Ok(Val::Int(f64_to_i64(a) | f64_to_i64(b))),
        crate::ast::BinOp::BitXor => Ok(Val::Int(f64_to_i64(a) ^ f64_to_i64(b))),
        crate::ast::BinOp::BitShl => Ok(Val::Int(shl_val(f64_to_i64(a), f64_to_i64(b) as int))),
        crate::ast::BinOp::BitShr => Ok(Val::Int(shl_val(f64_to_i64(a), -(f64_to_i64(b) as int)))),
        _ => Err(crate::ErrKind::TypeErr),
    }
}

/// Arithmetic after string-to-number coercion: two integers use the
/// integer kernel, any float widens both operands to the float kernel,
/// and anything non-numeric is a type error.
pub open spec fn arith_dispatch_s(op: crate::ast::BinOp, a: Val, b: Val) -> Result<
    Val,
    crate::ErrKind,
> {
    match (a, b) {
        (Val::Int(i), Val::Int(j)) => int_arith_s(op, i, j),
        (Val::Int(i), Val::Float(g)) => float_arith_s(op, i64_to_f64(i), g),
        (Val::Float(f), Val::Int(j)) => float_arith_s(op, f, i64_to_f64(j)),
        (Val::Float(f), Val::Float(g)) => float_arith_s(op, f, g),
        _ => Err(crate::ErrKind::TypeErr),
    }
}

/// What a comparison returns: lexicographic byte order on two strings,
/// exact order on two integers, float order after widening when a float
/// is involved, a type error otherwise.
pub open spec fn compare_s(op: crate::ast::BinOp, a: Val, b: Val) -> Result<Val, crate::ErrKind> {
    match (a, b) {
        (Val::Str(x), Val::Str(y)) => Ok(
            Val::Bool(
                match op {
                    crate::ast::BinOp::Lt => crate::text::bytes_lt(x, y),
                    crate::ast::BinOp::Leq => crate::text::bytes_lt(x, y) || x == y,
                    crate::ast::BinOp::Gt => crate::text::bytes_lt(y, x),
                    crate::ast::BinOp::Geq => crate::text::bytes_lt(y, x) || x == y,
                    _ => false,
                },
            ),
        ),
        (Val::Int(x), Val::Int(y)) => Ok(
            Val::Bool(
                match op {
                    crate::ast::BinOp::Lt => x < y,
                    crate::ast::BinOp::Leq => x <= y,
                    crate::ast::BinOp::Gt => x > y,
                    crate::ast::BinOp::Geq => x >= y,
                    _ => false,
                },
            ),
        ),
        (Val::Int(_), Val::Float(_)) | (Val::Float(_), Val::Int(_))
            | (Val::Float(_), Val::Float(_)) => {
            let fa = num_to_float(a);
            let fb = num_to_float(b);
            Ok(
                Val::Bool(
                    match op {
                        crate::ast::BinOp::Lt => f64_lt(fa, fb),
                        crate::ast::BinOp::Leq => f64_le(fa, fb),
                        crate::ast::BinOp::Gt => f64_lt(fb, fa),
                        crate::ast::BinOp::Geq => f64_le(fb, fa),
                        _ => false,
                    },
                ),
            )
        },
        _ => Err(crate::ErrKind::TypeErr),
    }
}

/// The bytes a coerced concatenation operand contributes: a string its
/// own bytes, a number its decimal text.
pub open spec fn val_text(v: Val) -> Seq<u8> {
    match v {
        Val::Str(s) => s,
        Val::Int(_) => crate::text::num_text(v),
        Val::Float(_) => crate::text::num_text(v),
        _ => Seq::empty(),
    }
}

/// What `..` returns on the coerced operands: the concatenated texts of
/// two strings or numbers, a type error otherwise.
pub open spec fn concat_s(a: Val, b: Val) -> Result<Val, crate::ErrKind> {
    match (a, b) {
        (Val::Str(_), Val::Str(_)) | (Val::Str(_), Val::Int(_)) | (Val::Str(_), Val::Float(_))
            | (Val::Int(_), Val::Str(_)) | (Val::Int(_), Val::Int(_))
            | (Val::Int(_), Val::Float(_)) | (Val::Float(_), Val::Str(_))
            | (Val::Float(_), Val::Int(_)) | (Val::Float(_), Val::Float(_)) => Ok(
            Val::Str(val_text(a) + val_text(b)),
        ),
        _ => Err(crate::ErrKind::TypeErr),
    }
}

/// Exec integer kernel, proved against `int_arith_s`.
fn eval_arith_int(op: &crate::ast::BinOp, i: i64, j: i64) -> (r: Result<LuaValue, LuaError>)
    ensures
        crate::types::res_view(r) == int_arith_s(*op, i, j),
{
    match op {
        crate::ast::BinOp::Plus => Ok(LuaValue::Number(Number::Int(i.wrapping_add(j)))),
        crate::ast::BinOp::Minus => Ok(LuaValue::Number(Number::Int(i.wrapping_sub(j)))),
        crate::ast::BinOp::Mul => Ok(LuaValue::Number(Number::Int(i.wrapping_mul(j)))),
        crate::ast::BinOp::Div => {
            if j == 0 {
                Err(LuaError::ArithmeticError("dividing by 0"))
            } else {
                Ok(LuaValue::Number(Number::Float(f_div(f_from_i64(i), f_from_i64(j)))))
            }
        },
        crate::ast::BinOp::IntDiv => {
            if j == 0 {
                Err(LuaError::ArithmeticError("dividing by 0"))
            } else {
                Ok(LuaValue::Number(Number::Int(intdiv_exec(i, j))))
            }
        },
        crate::ast::BinOp::Mod => {
            if j == 0 {
                Err(LuaError::ArithmeticError("dividing by 0"))
            } else {
                Ok(LuaValue::Number(Number::Int(lua_mod_exec(i, j))))
            }
        },
        crate::ast::BinOp::Pow => {
            if i32::MIN as i64 <= j && j <= i32::MAX as i64 {
                Ok(LuaValue::Number(Number::Float(f_powi(f_from_i64(i), j as i32))))
            } else {
                Err(LuaError::NotImplementedError)
            }
        },
        crate::ast::BinOp::BitAnd => Ok(LuaValue::Number(Number::Int(i & j))),
        crate::ast::BinOp::BitOr => Ok(LuaValue::Number(Number::Int(i | j))),
        crate::ast::BinOp::BitXor => Ok(LuaValue::Number(Number::Int(i ^ j))),
        crate::ast::BinOp::BitShl => Ok(LuaValue::Number(Number::Int(safe_left_shift(i, j)))),
        crate::ast::BinOp::BitShr => {
            if j == i64::MIN {
                Ok(LuaValue::Number(Number::Int(0)))
            } else {
                Ok(LuaValue::Number(Number::Int(safe_left_shift(i, -j))))
            }
        },
        _ => Err(LuaError::TypeError("not an arithmetic operator")),
    }
}

/// Exec float kernel, proved against `float_arith_s`.
fn eval_arith_float(op: &crate::ast::BinOp, a: u64, b: u64) -> (r: Result<LuaValue, LuaError>)
    ensures
        crate::types::res_view(r) == float_arith_s(*op, a, b),
{
    match op {
        crate::ast::BinOp::Plus => Ok(LuaValue::Number(Number::Float(f_add(a, b)))),
        crate::ast::BinOp::Minus => Ok(LuaValue::Number(Number::Float(f_sub(a, b)))),
        crate::ast::BinOp::Mul => Ok(LuaValue::Number(Number::Float(f_mul(a, b)))),
        crate::ast::BinOp::Div => {
            if is_zero_bits(b) {
                Err(LuaError::ArithmeticError("dividing by 0"))
            } else {
                Ok(LuaValue::Number(Number::Float(f_div(a, b))))
            }
        },
        crate::ast::BinOp::IntDiv => {
            if is_zero_bits(b) {
                Err(LuaError::ArithmeticError("dividing by 0"))
            } else {
                Ok(LuaValue::Number(Number::Int(f_to_i64(f_floor(f_div(a, b))))))
            }
        },
        crate::ast::BinOp::Mod => {
            if is_zero_bits(b) {
                Err(LuaError::ArithmeticError("dividing by 0"))
            } else {
                Ok(LuaValue::Number(Number::Float(f_sub(a, f_mul(f_floor(f_div(a, b)), b)))))
            }
        },
        crate::ast::BinOp::Pow => match float_pow(a, b) {
            Ok(v) => Ok(LuaValue::Number(Number::Float(v))),
            Err(e) => Err(e),
        },
        crate::ast::BinOp::BitAnd => Ok(LuaValue::Number(Number::Int(f_to_i64(a) & f_to_i64(b)))),
        crate::ast::BinOp::BitOr => Ok(LuaValue::Number(Number::Int(f_to_i64(a) | f_to_i64(b)))),
        crate::ast::BinOp::BitXor => Ok(LuaValue::Number(Number::Int(f_to_i64(a) ^ f_to_i64(b)))),
        crate::ast::BinOp::BitShl => Ok(
            LuaValue::Number(Number::Int(safe_left_shift(f_to_i64(a), f_to_i64(b)))),
        ),
        crate::ast::BinOp::BitShr => {
            let n = f_to_i64(b);
            if n == i64::MIN {
                Ok(LuaValue::Number(Number::Int(0)))
            } else {
                Ok(LuaValue::Number(Number::Int(safe_left_shift(f_to_i64(a), -n))))
            }
        },
        _ => Err(LuaError::TypeError("not an arithmetic operator")),
    }
}

/// Exec arithmetic dispatch over the already-coerced operands, proved
/// against `arith_dispatch_s`; an arithmetic result is always a number.
pub fn eval_arithmetic(op: &crate::ast::BinOp, a: &LuaValue, b: &LuaValue) -> (r: Result<
    LuaValue,
    LuaError,
>)
    ensures
        crate::types::res_view(r) == arith_dispatch_s(*op, a@, b@),
        r matches Ok(v) ==> (v@ is Int || v@ is Float),
{
    let r = match (a, b) {
        (LuaValue::Number(Number::Int(i)), LuaValue::Number(Number::Int(j))) => eval_arith_int(
            op,
            *i,
            *j,
        ),
        (LuaValue::Number(Number::Int(i)), LuaValue::Number(Number::Float(g))) => eval_arith_float(
            op,
            f_from_i64(*i),
            *g,
        ),
        (LuaValue::Number(Number::Float(f)), LuaValue::Number(Number::Int(j))) => eval_arith_float(
            op,
            *f,
            f_from_i64(*j),
        ),
        (LuaValue::Number(Number::Float(f)), LuaValue::Number(Number::Float(g))) => {
            eval_arith_float(op, *f, *g)
        },
        _ => Err(LuaError::TypeError("trying to do arithmetic on non-numerical values")),
    };
    proof {
        match &r {
            Ok(v) => {
                assert(arith_dispatch_s(*op, a@, b@) == Ok::<Val, crate::ErrKind>(v@));
            },
            Err(_) => {},
        }
    }
    r
}

/// Exec comparison dispatch, proved against `compare_s`.
pub fn eval_cmp(op: &crate::ast::BinOp, a: &LuaValue, b: &LuaValue) -> (r: Result<
    LuaValue,
    LuaError,
>)
    ensures
        crate::types::res_view(r) == compare_s(*op, a@, b@),
        r matches Ok(v) ==> v@ is Bool,
{
    match (a, b) {
        (LuaValue::Str(x), LuaValue::Str(y)) => Ok(
            LuaValue::Boolean(
                match op {
                    crate::ast::BinOp::Lt => crate::text::bytes_lt_exec(x, y),
                    crate::ast::BinOp::Leq => crate::text::bytes_le_exec(x, y),
                    crate::ast::BinOp::Gt => crate::text::bytes_lt_exec(y, x),
                    crate::ast::BinOp::Geq => crate::text::bytes_le_exec(y, x),
                    _ => false,
                },
            ),
        ),
        (LuaValue::Number(Number::Int(x)), LuaValue::Number(Number::Int(y))) => Ok(
            LuaValue::Boolean(
                match op {
                    crate::ast::BinOp::Lt => x < y,
                    crate::ast::BinOp::Leq => x <= y,
                    crate::ast::BinOp::Gt => x > y,
                    crate::ast::BinOp::Geq => x >= y,
                    _ => false,
                },
            ),
        ),
        (LuaValue::Number(x), LuaValue::Number(y)) => {
            let fa = x.to_float();
            let fb = y.to_float();
            Ok(
                LuaValue::Boolean(
                    match op {
                        crate::ast::BinOp::Lt => lt_bits(fa, fb),
                        crate::ast::BinOp::Leq => le_bits(fa, fb),
                        crate::ast::BinOp::Gt => lt_bits(fb, fa),
                        crate::ast::BinOp::Geq => le_bits(fb, fa),
                        _ => false,
                    },
                ),
            )
        },
        _ => Err(LuaError::TypeError("trying to compare values of incomparable kinds")),
    }
}

/// Exec concatenation on the already-coerced operands, proved against
/// `concat_s`.
pub fn concatenation_operator(a: &LuaValue, b: &LuaValue) -> (r: Result<LuaValue, LuaError>)
    ensures
        crate::types::res_view(r) == concat_s(a@, b@),
        r matches Ok(v) ==> v@ is Str,
{
    let mut left: Vec<u8> = match a {
        LuaValue::Str(s) => s.clone(),
        LuaValue::Number(Number::Int(i)) => crate::text::fmt_i64_bytes(*i),
        LuaValue::Number(Number::Float(f)) => crate::float::f_fmt(*f),
        _ => {
            return Err(
                LuaError::TypeError("trying to concatenate non-string, non-numerical values"),
            );
        },
    };
    proof {
        assert(left@ =~= val_text(a@));
    }
    let mut right: Vec<u8> = match b {
        LuaValue::Str(s) => s.clone(),
        LuaValue::Number(Number::Int(i)) => crate::text::fmt_i64_bytes(*i),
        LuaValue::Number(Number::Float(f)) => crate::float::f_fmt(*f),
        _ => {
            return Err(
                LuaError::TypeError("trying to concatenate non-string, non-numerical values"),
            );
        },
    };
    proof {
        assert(right@ =~= val_text(b@));
    }
    left.append(&mut right);
    Ok(LuaValue::Str(left))
}

} // verus!

verus! {

/// Applies a non-short-circuit binary operator to two evaluated
/// operands. Proved equal to `binop_vals_s`; the result is never a
/// table.
fn binop_vals(op: &crate::ast::BinOp, a: &LuaValue, b: &LuaValue) -> (r: Result<
    LuaValue,
    LuaError,
>)
    ensures
        crate::types::res_view(r) == crate::sem::binop_vals_s(*op, a@, b@),
        r matches Ok(v) ==> (v@ is Bool || v@ is Str || v@ is Int || v@ is Float),
{
    match op {
        crate::ast::BinOp::Equal => Ok(LuaValue::Boolean(crate::types::lua_equals(a, b))),
        crate::ast::BinOp::NotEqual => Ok(LuaValue::Boolean(!crate::types::lua_equals(a, b))),
        crate::ast::BinOp::Lt | crate::ast::BinOp::Leq | crate::ast::BinOp::Gt
            | crate::ast::BinOp::Geq => eval_cmp(op, a, b),
        crate::ast::BinOp::Concat => {
            let ca = crate::expression::num_coercion(crate::types::dup_value(a));
            let cb = crate::expression::num_coercion(crate::types::dup_value(b));
            concatenation_operator(&ca, &cb)
        },
        crate::ast::BinOp::BoolAnd | crate::ast::BinOp::BoolOr => Err(
            LuaError::OtherError("short-circuit operators are evaluated by the caller"),
        ),
        _ => {
            let ca = crate::expression::num_coercion(crate::types::dup_value(a));
            let cb = crate::expression::num_coercion(crate::types::dup_value(b));
            eval_arithmetic(op, &ca, &cb)
        },
    }
}

/// Evaluates a binary expression: `and`/`or` evaluate the left operand
/// first and skip the right one when the left decides; every other
/// operator evaluates both operands left to right and applies the
/// operator. Proved equal to `eval_binexp_s`.
pub fn eval_binary_expr(
    left_op: &Box<crate::ast::Exp>,
    right_op: &Box<crate::ast::Exp>,
    operator: &crate::ast::BinOp,
    ctx: &mut crate::types::LuaState,
    fuel: u64,
) -> (r: Result<LuaValue, LuaError>)
    requires
        old(ctx).wf(),
    ensures
        final(ctx).wf(),
        crate::types::res_view(r) == crate::sem::eval_binexp_s(
            **left_op,
            *operator,
            **right_op,
            old(ctx)@,
            fuel as nat,
        ).0,
        final(ctx)@ == crate::sem::eval_binexp_s(
            **left_op,
            *operator,
            **right_op,
            old(ctx)@,
            fuel as nat,
        ).1,
        r matches Ok(v) ==> crate::types::val_wf(v@, final(ctx)@.tables.len() as int),
        old(ctx)@.tables.len() <= final(ctx)@.tables.len(),
        final(ctx)@.scopes == old(ctx)@.scopes,
    decreases fuel,
{
    if fuel == 0 {
        return Err(LuaError::OtherError("evaluation fuel exhausted"));
    }
    let f = fuel - 1;
    match operator {
        crate::ast::BinOp::BoolAnd => {
            match crate::expression::eval_expr(left_op, ctx, f) {
                Err(e) => Err(e),
                Ok(v1) => {
                    if !crate::expression::boolean_coercion(&v1) {
                        Ok(v1)
                    } else {
                        crate::expression::eval_expr(right_op, ctx, f)
                    }
                },
            }
        },
        crate::ast::BinOp::BoolOr => {
            match crate::expression::eval_expr(left_op, ctx, f) {
                Err(e) => Err(e),
                Ok(v1) => {
                    if !crate::expression::boolean_coercion(&v1) {
                        crate::expression::eval_expr(right_op, ctx, f)
                    } else {
                        Ok(v1)
                    }
                },
            }
        },
        _ => {
            match crate::expression::eval_expr(left_op, ctx, f) {
                Err(e) => Err(e),
                Ok(v1) => match crate::expression::eval_expr(right_op, ctx, f) {
                    Err(e) => Err(e),
                    Ok(v2) => binop_vals(operator, &v1, &v2),
                },
            }
        },
    }
}

} // verus!

verus! {

/// Law: `and` short-circuits. When the left operand evaluates to a falsy
/// value, the result is that value and the state is exactly the state
/// after the left operand: the right operand is never evaluated, so
/// exchanging it for any other expression changes nothing.
pub proof fn lemma_short_circuit_and(
    l: crate::ast::Exp,
    r1: crate::ast::Exp,
    r2: crate::ast::Exp,
    st: crate::types::StateM,
    fuel: nat,
)
    requires
        fuel > 0,
        crate::sem::eval_exp_s(l, st, (fuel - 1) as nat).0 matches Ok(v) && !crate::sem::truthy(v),
    ensures
        crate::sem::eval_binexp_s(l, crate::ast::BinOp::BoolAnd, r1, st, fuel)
            == crate::sem::eval_binexp_s(l, crate::ast::BinOp::BoolAnd, r2, st, fuel),
        crate::sem::eval_binexp_s(l, crate::ast::BinOp::BoolAnd, r1, st, fuel).0
            == crate::sem::eval_exp_s(l, st, (fuel - 1) as nat).0,
        crate::sem::eval_binexp_s(l, crate::ast::BinOp::BoolAnd, r1, st, fuel).1
            == crate::sem::eval_exp_s(l, st, (fuel - 1) as nat).1,
{
}

/// Law: `or` short-circuits. When the left operand evaluates to a truthy
/// value, the result is that value and the state is exactly the state
/// after the left operand: the right operand is never evaluated.
pub proof fn lemma_short_circuit_or(
    l: crate::ast::Exp,
    r1: crate::ast::Exp,
    r2: crate::ast::Exp,
    st: crate::types::StateM,
    fuel: nat,
)
    requires
        fuel > 0,
        crate::sem::eval_exp_s(l, st, (fuel - 1) as nat).0 matches Ok(v) && crate::sem::truthy(v),
    ensures
        crate::sem::eval_binexp_s(l, crate::ast::BinOp::BoolOr, r1, st, fuel)
            == crate::sem::eval_binexp_s(l, crate::ast::BinOp::BoolOr, r2, st, fuel),
        crate::sem::eval_binexp_s(l, crate::ast::BinOp::BoolOr, r1, st, fuel).0
            == crate::sem::eval_exp_s(l, st, (fuel - 1) as nat).0,
        crate::sem::eval_binexp_s(l, crate::ast::BinOp::BoolOr, r1, st, fuel).1
            == crate::sem::eval_exp_s(l, st, (fuel - 1) as nat).1,
{
}

} // verus!
