//! Unary operator behaviour and boolean coercion.

use seo2::ast::{Exp, Numeral, UnOp};
use seo2::expression::boolean_coercion;
use seo2::types::{LuaState, LuaValue, Number};
use seo2::unop::eval_unary_expr;
use seo2::LuaError;

const FUEL: u64 = 1_000_000;

fn ilit(i: i64) -> Box<Exp> {
    Box::new(Exp::Num(Numeral::Int(i)))
}

fn flt(x: f64) -> Box<Exp> {
    Box::new(Exp::Num(Numeral::Float(x.to_bits())))
}

fn strv(s: &[u8]) -> Box<Exp> {
    Box::new(Exp::Str(s.to_vec()))
}

fn num_f(x: f64) -> LuaValue {
    LuaValue::Number(Number::Float(x.to_bits()))
}

fn num_i(i: i64) -> LuaValue {
    LuaValue::Number(Number::Int(i))
}

#[test]
fn test_math_negation() {
    let mut ctx = LuaState::new();
    let res = eval_unary_expr(&flt(1.0), &UnOp::Minus, &mut ctx, FUEL).unwrap();
    assert_eq!(res, num_f(-1.0));

    let res = eval_unary_expr(&ilit(0), &UnOp::Minus, &mut ctx, FUEL).unwrap();
    assert_eq!(res, num_i(0));

    let res = eval_unary_expr(&ilit(-4), &UnOp::Minus, &mut ctx, FUEL).unwrap();
    assert_eq!(res, num_i(4));

    let res = eval_unary_expr(&strv(b"5.5"), &UnOp::Minus, &mut ctx, FUEL).unwrap();
    assert_eq!(res, num_f(-5.5));

    let res = eval_unary_expr(&Box::new(Exp::Bool(true)), &UnOp::Minus, &mut ctx, FUEL)
        .unwrap_err();
    assert!(match res {
        LuaError::TypeError(_) => true,
        _ => false,
    });
}

#[test]
fn test_bool_negation() {
    let mut ctx = LuaState::new();
    let res = eval_unary_expr(&flt(1.0), &UnOp::BoolNot, &mut ctx, FUEL).unwrap();
    assert_eq!(res, LuaValue::Boolean(false));

    let res = eval_unary_expr(&ilit(0), &UnOp::BoolNot, &mut ctx, FUEL).unwrap();
    assert_eq!(res, LuaValue::Boolean(false));

    let res = eval_unary_expr(&strv(b""), &UnOp::BoolNot, &mut ctx, FUEL).unwrap();
    assert_eq!(res, LuaValue::Boolean(false));

    let res = eval_unary_expr(&Box::new(Exp::Nil), &UnOp::BoolNot, &mut ctx, FUEL).unwrap();
    assert_eq!(res, LuaValue::Boolean(true));
}

#[test]
fn test_bool_length() {
    let mut ctx = LuaState::new();
    let res = eval_unary_expr(&strv(b"1234"), &UnOp::Length, &mut ctx, FUEL).unwrap();
    assert_eq!(res, num_i(4));

    let res = eval_unary_expr(&Box::new(Exp::Bool(true)), &UnOp::Length, &mut ctx, FUEL)
        .unwrap_err();
    assert!(match res {
        LuaError::TypeError(_) => true,
        _ => false,
    });
}

#[test]
fn test_bitwise_inversion() {
    let mut ctx = LuaState::new();
    let res = eval_unary_expr(&ilit(0), &UnOp::BitNot, &mut ctx, FUEL).unwrap();
    assert_eq!(res, num_i(-1));

    let res = eval_unary_expr(&Box::new(Exp::Bool(true)), &UnOp::BitNot, &mut ctx, FUEL)
        .unwrap_err();
    assert!(match res {
        LuaError::TypeError(_) => true,
        _ => false,
    });
}

#[test]
fn test_boolean_coercion() {
    assert!(boolean_coercion(&LuaValue::Str(b"".to_vec())));
    assert!(boolean_coercion(&LuaValue::Number(Number::Int(0))));
    assert!(boolean_coercion(&LuaValue::Number(Number::Int(2))));
    assert!(!boolean_coercion(&LuaValue::Nil));
    assert!(!boolean_coercion(&LuaValue::Boolean(false)));
    assert!(boolean_coercion(&LuaValue::Boolean(true)));
}
