//! Table semantics: keyed set/get, key normalization, sequence border,
//! and the key invariants.

use seo2::types::{LuaTable, LuaValue, Number};
use seo2::LuaError;

fn num_i(i: i64) -> LuaValue {
    LuaValue::Number(Number::Int(i))
}

fn num_f(x: f64) -> LuaValue {
    LuaValue::Number(Number::Float(x.to_bits()))
}

#[test]
fn set_then_get_returns_value() {
    // the set/get round trip for keys of every kind
    let mut t = LuaTable::new(7);
    t.set(&num_i(1), &num_i(10)).unwrap();
    t.set(&LuaValue::Str(b"x".to_vec()), &num_i(30)).unwrap();
    t.set(&LuaValue::Boolean(true), &LuaValue::Str(b"yes".to_vec())).unwrap();
    t.set(&num_f(2.5), &num_i(25)).unwrap();
    assert_eq!(t.get(&num_i(1)), num_i(10));
    assert_eq!(t.get(&LuaValue::Str(b"x".to_vec())), num_i(30));
    assert_eq!(t.get(&LuaValue::Boolean(true)), LuaValue::Str(b"yes".to_vec()));
    assert_eq!(t.get(&num_f(2.5)), num_i(25));
}

#[test]
fn set_first_slot_extends_border() {
    // writing key 1 gives the table a sequence border of at least 1
    let mut t = LuaTable::new(0);
    assert_eq!(t.sequence_border(), 0);
    t.set(&num_i(1), &num_i(99)).unwrap();
    assert!(t.sequence_border() >= 1);
    t.set(&num_i(2), &num_i(98)).unwrap();
    assert_eq!(t.sequence_border(), 2);
}

#[test]
fn float_key_normalizes_to_integer() {
    // a float key with an integral value addresses the integer slot
    let mut t = LuaTable::new(0);
    t.set(&num_f(1.0), &num_i(42)).unwrap();
    assert_eq!(t.get(&num_i(1)), num_i(42));
    assert_eq!(t.sequence_border(), 1);
    t.set(&num_i(2), &num_i(5)).unwrap();
    assert_eq!(t.get(&num_f(2.0)), num_i(5));
}

#[test]
fn nil_and_nan_keys_are_rejected() {
    let mut t = LuaTable::new(0);
    let r = t.set(&LuaValue::Nil, &num_i(1));
    assert!(match r {
        Err(LuaError::IndexError(_)) => true,
        _ => false,
    });
    let nan = f64::NAN.to_bits();
    let r = t.set(&LuaValue::Number(Number::Float(nan)), &num_i(1));
    assert!(match r {
        Err(LuaError::IndexError(_)) => true,
        _ => false,
    });
    // reads with those keys give nil instead of failing
    assert_eq!(t.get(&LuaValue::Nil), LuaValue::Nil);
    assert_eq!(t.get(&LuaValue::Number(Number::Float(nan))), LuaValue::Nil);
}

#[test]
fn nil_assignment_removes_map_entry() {
    let mut t = LuaTable::new(0);
    t.set_string(b"k".to_vec(), &num_i(1));
    assert!(t.contains_key(&b"k".to_vec()));
    t.set_string(b"k".to_vec(), &LuaValue::Nil);
    assert!(!t.contains_key(&b"k".to_vec()));
    assert_eq!(t.get_string(b"k".to_vec()), LuaValue::Nil);
}

#[test]
fn sparse_integer_keys_go_to_map() {
    // an integer key outside [1, len + 1] lands in the map, and comes back
    let mut t = LuaTable::new(0);
    t.set(&num_i(10), &num_i(7)).unwrap();
    assert_eq!(t.sequence_border(), 0);
    assert_eq!(t.get(&num_i(10)), num_i(7));
    assert_eq!(t.get(&num_i(1)), LuaValue::Nil);
    // negative and zero keys too
    t.set(&num_i(0), &num_i(70)).unwrap();
    t.set(&num_i(-3), &num_i(71)).unwrap();
    assert_eq!(t.get(&num_i(0)), num_i(70));
    assert_eq!(t.get(&num_i(-3)), num_i(71));
}

#[test]
fn nil_on_sequence_slot_keeps_border() {
    // setting a sequence slot to nil occupies it without truncating
    let mut t = LuaTable::new(0);
    t.set(&num_i(1), &num_i(1)).unwrap();
    t.set(&num_i(2), &num_i(2)).unwrap();
    t.set(&num_i(1), &LuaValue::Nil).unwrap();
    assert_eq!(t.sequence_border(), 2);
    assert_eq!(t.get(&num_i(1)), LuaValue::Nil);
    assert_eq!(t.get(&num_i(2)), num_i(2));
}

#[test]
fn overwrite_sequence_slot() {
    let mut t = LuaTable::with_capacity(3, 2);
    t.set(&num_i(1), &num_i(10)).unwrap();
    t.set(&num_i(2), &num_i(20)).unwrap();
    t.set(&num_i(1), &num_i(99)).unwrap();
    assert_eq!(t.get(&num_i(1)), num_i(99));
    assert_eq!(t.get(&num_i(2)), num_i(20));
    assert_eq!(t.sequence_border(), 2);
}

#[test]
fn non_integral_float_key_stays_in_map() {
    let mut t = LuaTable::new(0);
    t.set(&num_f(0.5), &num_i(5)).unwrap();
    assert_eq!(t.sequence_border(), 0);
    assert_eq!(t.get(&num_f(0.5)), num_i(5));
    // a different float key misses
    assert_eq!(t.get(&num_f(0.25)), LuaValue::Nil);
}
