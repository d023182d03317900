//! Binary operator behaviour, exercised through `eval_binary_expr` on a
//! fresh interpreter state.

use seo2::ast::{BinOp, Exp, Numeral};
use seo2::binop::eval_binary_expr;
use seo2::types::{LuaState, LuaValue, Number};
use seo2::LuaError;

const FUEL: u64 = 1_000_000;

fn ilit(i: i64) -> Box<Exp> {
    Box::new(Exp::Num(Numeral::Int(i)))
}

fn flt(x: f64) -> Box<Exp> {
    Box::new(Exp::Num(Numeral::Float(x.to_bits())))
}

fn strv(s: &[u8]) -> Box<Exp> {
    Box::new(Exp::Str(s.to_vec()))
}

fn num_f(x: f64) -> LuaValue {
    LuaValue::Number(Number::Float(x.to_bits()))
}

fn num_i(i: i64) -> LuaValue {
    LuaValue::Number(Number::Int(i))
}

#[test]
fn test_addition() {
    let mut ctx = LuaState::new();
    // 1. + -1. == 0.
    let res = eval_binary_expr(&flt(1.0), &flt(-1.0), &BinOp::Plus, &mut ctx, FUEL).unwrap();
    assert_eq!(res, num_f(0.0));

    let res = eval_binary_expr(&strv(b"1.0"), &flt(-1.0), &BinOp::Plus, &mut ctx, FUEL).unwrap();
    assert_eq!(res, num_f(0.0));

    // 1 + -1. == 0.
    let res = eval_binary_expr(&ilit(1), &flt(-1.0), &BinOp::Plus, &mut ctx, FUEL).unwrap();
    assert_eq!(res, num_f(0.0));

    // "1" + 3 == 4
    let res = eval_binary_expr(&strv(b"1"), &ilit(3), &BinOp::Plus, &mut ctx, FUEL).unwrap();
    assert_eq!(res, num_i(4));

    // 1 + 3 == 4
    let res = eval_binary_expr(&ilit(1), &ilit(3), &BinOp::Plus, &mut ctx, FUEL).unwrap();
    assert_eq!(res, num_i(4));
}

#[test]
fn test_arithmetic_types() {
    let mut ctx = LuaState::new();
    eval_binary_expr(&ilit(1), &flt(-1.0), &BinOp::Plus, &mut ctx, FUEL).unwrap();

    eval_binary_expr(&flt(1.0), &ilit(-1), &BinOp::Plus, &mut ctx, FUEL).unwrap();

    eval_binary_expr(&flt(1.0), &strv(b"-1"), &BinOp::Plus, &mut ctx, FUEL).unwrap();

    let res = eval_binary_expr(
        &Box::new(Exp::Bool(true)),
        &ilit(-1),
        &BinOp::Plus,
        &mut ctx,
        FUEL,
    )
    .unwrap_err();
    assert!(match res {
        LuaError::TypeError(_) => true,
        _ => false,
    })
}

#[test]
fn test_substraction() {
    let mut ctx = LuaState::new();
    // 1. - -1. == 2.
    let res = eval_binary_expr(&flt(1.0), &flt(-1.0), &BinOp::Minus, &mut ctx, FUEL).unwrap();
    assert_eq!(res, num_f(2.0));

    // 1 - -1. == 2.
    let res = eval_binary_expr(&ilit(1), &flt(-1.0), &BinOp::Minus, &mut ctx, FUEL).unwrap();
    assert_eq!(res, num_f(2.0));

    // 1 - 3 == -2
    let res = eval_binary_expr(&ilit(1), &ilit(3), &BinOp::Minus, &mut ctx, FUEL).unwrap();
    assert_eq!(res, num_i(-2));
}

#[test]
fn test_multiplication() {
    let mut ctx = LuaState::new();
    // 1.5 * 2.5 == 3.75
    let res = eval_binary_expr(&flt(1.5), &flt(2.5), &BinOp::Mul, &mut ctx, FUEL).unwrap();
    assert_eq!(res, num_f(3.75));

    // -2 * 1.25 == -2.5
    let res = eval_binary_expr(&ilit(-2), &flt(1.25), &BinOp::Mul, &mut ctx, FUEL).unwrap();
    assert_eq!(res, num_f(-2.5));

    // 10 * 3 == 30
    let res = eval_binary_expr(&ilit(10), &ilit(3), &BinOp::Mul, &mut ctx, FUEL).unwrap();
    assert_eq!(res, num_i(30));
}

#[test]
fn test_division() {
    let mut ctx = LuaState::new();
    // 1.5 / 0.5 == 3.0
    let res = eval_binary_expr(&flt(1.5), &flt(0.5), &BinOp::Div, &mut ctx, FUEL).unwrap();
    assert_eq!(res, num_f(3.0));

    // 3 / -2. == -1.5
    let res = eval_binary_expr(&ilit(3), &flt(-2.0), &BinOp::Div, &mut ctx, FUEL).unwrap();
    assert_eq!(res, num_f(-1.5));

    // 3 / 2 == 1.5
    let res = eval_binary_expr(&ilit(3), &ilit(2), &BinOp::Div, &mut ctx, FUEL).unwrap();
    assert_eq!(res, num_f(1.5));
}

#[test]
fn test_intdiv() {
    let mut ctx = LuaState::new();
    // 1.5 // 0.5 == 3
    let res = eval_binary_expr(&flt(1.5), &flt(0.5), &BinOp::IntDiv, &mut ctx, FUEL).unwrap();
    assert_eq!(res, num_i(3));

    // 3 // -2. == -2
    let res = eval_binary_expr(&ilit(3), &flt(-2.0), &BinOp::IntDiv, &mut ctx, FUEL).unwrap();
    assert_eq!(res, num_i(-2));

    // 3 // 2 == 1
    let res = eval_binary_expr(&ilit(3), &ilit(2), &BinOp::IntDiv, &mut ctx, FUEL).unwrap();
    assert_eq!(res, num_i(1));
}

#[test]
fn test_mod() {
    let mut ctx = LuaState::new();
    // 1.5 % 0.5 == 0.
    let res = eval_binary_expr(&flt(1.5), &flt(0.5), &BinOp::Mod, &mut ctx, FUEL).unwrap();
    assert_eq!(res, num_f(0.0));

    // -3.5 % 2. == 0.5
    let res = eval_binary_expr(&flt(-3.5), &flt(2.0), &BinOp::Mod, &mut ctx, FUEL).unwrap();
    assert_eq!(res, num_f(0.5));

    // -4 % 3 == 2
    let res = eval_binary_expr(&ilit(-4), &ilit(3), &BinOp::Mod, &mut ctx, FUEL).unwrap();
    assert_eq!(res, num_i(2));
}

#[test]
fn test_divisions_null_error() {
    let mut ctx = LuaState::new();
    let res = eval_binary_expr(&ilit(1), &ilit(0), &BinOp::Div, &mut ctx, FUEL).unwrap_err();
    assert!(match res {
        LuaError::ArithmeticError(_) => true,
        _ => false,
    });

    let res = eval_binary_expr(&flt(1.0), &flt(0.0), &BinOp::Div, &mut ctx, FUEL).unwrap_err();
    assert!(match res {
        LuaError::ArithmeticError(_) => true,
        _ => false,
    });

    let res = eval_binary_expr(&ilit(1), &ilit(0), &BinOp::IntDiv, &mut ctx, FUEL).unwrap_err();
    assert!(match res {
        LuaError::ArithmeticError(_) => true,
        _ => false,
    });

    let res = eval_binary_expr(&flt(1.0), &flt(0.0), &BinOp::IntDiv, &mut ctx, FUEL).unwrap_err();
    assert!(match res {
        LuaError::ArithmeticError(_) => true,
        _ => false,
    });

    let res = eval_binary_expr(&ilit(1), &ilit(0), &BinOp::Mod, &mut ctx, FUEL).unwrap_err();
    assert!(match res {
        LuaError::ArithmeticError(_) => true,
        _ => false,
    });

    let res = eval_binary_expr(&flt(1.0), &flt(0.0), &BinOp::Mod, &mut ctx, FUEL).unwrap_err();
    assert!(match res {
        LuaError::ArithmeticError(_) => true,
        _ => false,
    });
}

#[test]
fn test_bitwise_and() {
    let mut ctx = LuaState::new();
    // 1.5 & 0.5 == 0
    let res = eval_binary_expr(&flt(1.5), &flt(0.5), &BinOp::BitAnd, &mut ctx, FUEL).unwrap();
    assert_eq!(res, num_i(0));

    // 3.5 & 10 == 2
    let res = eval_binary_expr(&flt(3.5), &ilit(10), &BinOp::BitAnd, &mut ctx, FUEL).unwrap();
    assert_eq!(res, num_i(2));

    // IMAX & 42 == 42
    let res = eval_binary_expr(&ilit(i64::MAX), &ilit(42), &BinOp::BitAnd, &mut ctx, FUEL).unwrap();
    assert_eq!(res, num_i(42));
}

#[test]
fn test_bitwise_or() {
    let mut ctx = LuaState::new();
    // 1.5 | 0.5 == 1
    let res = eval_binary_expr(&flt(1.5), &flt(0.5), &BinOp::BitOr, &mut ctx, FUEL).unwrap();
    assert_eq!(res, num_i(1));

    // 3.5 | 10 == 11
    let res = eval_binary_expr(&flt(3.5), &ilit(10), &BinOp::BitOr, &mut ctx, FUEL).unwrap();
    assert_eq!(res, num_i(11));

    // IMAX | 42 == IMAX
    let res = eval_binary_expr(&ilit(i64::MAX), &ilit(42), &BinOp::BitOr, &mut ctx, FUEL).unwrap();
    assert_eq!(res, num_i(i64::MAX));
}

#[test]
fn test_bitwise_xor() {
    let mut ctx = LuaState::new();
    // 5.5 ^ 1.5 == 4
    let res = eval_binary_expr(&flt(5.5), &flt(1.5), &BinOp::BitXor, &mut ctx, FUEL).unwrap();
    assert_eq!(res, num_i(4));

    // 3.5 ^ 10 == 9
    let res = eval_binary_expr(&flt(3.5), &ilit(10), &BinOp::BitXor, &mut ctx, FUEL).unwrap();
    assert_eq!(res, num_i(9));

    // IMAX ^ 42 == IMAX - 42
    let res = eval_binary_expr(&ilit(i64::MAX), &ilit(42), &BinOp::BitXor, &mut ctx, FUEL).unwrap();
    assert_eq!(res, num_i(i64::MAX - 42));
}

#[test]
fn test_bitwise_shl() {
    let mut ctx = LuaState::new();
    // 5.5 << 1.5 == 10
    let res = eval_binary_expr(&flt(5.5), &flt(1.5), &BinOp::BitShl, &mut ctx, FUEL).unwrap();
    assert_eq!(res, num_i(10));

    // 3.5 << 10 == 3072
    let res = eval_binary_expr(&flt(3.5), &ilit(10), &BinOp::BitShl, &mut ctx, FUEL).unwrap();
    assert_eq!(res, num_i(3072));

    // 1124 << -10 == 1
    let res = eval_binary_expr(&ilit(1124), &ilit(-10), &BinOp::BitShl, &mut ctx, FUEL).unwrap();
    assert_eq!(res, num_i(1));

    // 1124 << 1024 == 0: the safe shift clamps instead of overflowing
    let res = eval_binary_expr(&ilit(1124), &ilit(1024), &BinOp::BitShl, &mut ctx, FUEL).unwrap();
    assert_eq!(res, num_i(0));
}

#[test]
fn test_cmp_leq() {
    let mut ctx = LuaState::new();
    // 5.5 <= 1.5 == false
    let res = eval_binary_expr(&flt(5.5), &flt(1.5), &BinOp::Leq, &mut ctx, FUEL).unwrap();
    assert_eq!(res, LuaValue::Boolean(false));

    // 3.5 <= 10 == true
    let res = eval_binary_expr(&flt(3.5), &ilit(10), &BinOp::Leq, &mut ctx, FUEL).unwrap();
    assert_eq!(res, LuaValue::Boolean(true));

    // "abc" <= "bcd" == true
    let res = eval_binary_expr(&strv(b"abc"), &strv(b"bcd"), &BinOp::Leq, &mut ctx, FUEL).unwrap();
    assert_eq!(res, LuaValue::Boolean(true));

    // "abc" <= 1.0 is a type error
    let res = eval_binary_expr(&strv(b"abc"), &flt(1.0), &BinOp::Leq, &mut ctx, FUEL).unwrap_err();
    assert!(match res {
        LuaError::TypeError(_) => true,
        _ => false,
    });
}

#[test]
fn test_bool_and() {
    let mut ctx = LuaState::new();
    // nil and 1.5 == nil
    let res = eval_binary_expr(&Box::new(Exp::Nil), &flt(1.5), &BinOp::BoolAnd, &mut ctx, FUEL)
        .unwrap();
    assert_eq!(res, LuaValue::Nil);

    // 3.5 and 10 == 10
    let res = eval_binary_expr(&flt(3.5), &ilit(10), &BinOp::BoolAnd, &mut ctx, FUEL).unwrap();
    assert_eq!(res, num_i(10));
}

#[test]
fn test_bool_or() {
    let mut ctx = LuaState::new();
    // nil or 1.5 == 1.5
    let res = eval_binary_expr(&Box::new(Exp::Nil), &flt(1.5), &BinOp::BoolOr, &mut ctx, FUEL)
        .unwrap();
    assert_eq!(res, num_f(1.5));

    // 3.5 or 10 == 3.5
    let res = eval_binary_expr(&flt(3.5), &ilit(10), &BinOp::BoolOr, &mut ctx, FUEL).unwrap();
    assert_eq!(res, num_f(3.5));
}
