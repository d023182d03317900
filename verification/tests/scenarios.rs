//! End-to-end scenarios at the abstract-syntax level: statements and
//! blocks run against a fresh state, with the top of the state inspected
//! afterwards.

use seo2::ast::{
    BinOp, Block, Exp, ExpOrVarName, ExpSuffix, Field, IfThenElse, LAssignment, MultiAssign,
    Numeral, PrefixExp, RepeatBlock, Statement, WhileBlock,
};
use seo2::control_flow::{exec_statement, exec_block, eval_program, FlowControl};
use seo2::expression::{eval_expr, num_coercion};
use seo2::types::{LuaState, LuaValue, Number};
use seo2::LuaError;

const FUEL: u64 = 1_000_000;

fn ilit(i: i64) -> Exp {
    Exp::Num(Numeral::Int(i))
}

fn flt(x: f64) -> Exp {
    Exp::Num(Numeral::Float(x.to_bits()))
}

fn num_i(i: i64) -> LuaValue {
    LuaValue::Number(Number::Int(i))
}

fn num_f(x: f64) -> LuaValue {
    LuaValue::Number(Number::Float(x.to_bits()))
}

fn bin(l: Exp, op: BinOp, r: Exp) -> Exp {
    Exp::BinExp(Box::new(l), op, Box::new(r))
}

fn local(name: &[u8], e: Exp) -> Statement {
    Statement::LVarAssign(LAssignment { vars: vec![name.to_vec()], vals: Some(vec![e]) })
}

fn var(name: &[u8]) -> Exp {
    Exp::PrefixExp(Box::new(PrefixExp {
        prefix: ExpOrVarName::VarName(name.to_vec()),
        suffix_chain: vec![],
    }))
}

fn index(name: &[u8], k: Exp) -> Exp {
    Exp::PrefixExp(Box::new(PrefixExp {
        prefix: ExpOrVarName::VarName(name.to_vec()),
        suffix_chain: vec![ExpSuffix::TableIdx(k)],
    }))
}

fn assign_index(name: &[u8], k: Exp, v: Exp) -> Statement {
    Statement::Assignment(MultiAssign {
        vars: vec![PrefixExp {
            prefix: ExpOrVarName::VarName(name.to_vec()),
            suffix_chain: vec![ExpSuffix::TableIdx(k)],
        }],
        vals: vec![v],
    })
}

fn assign_var(name: &[u8], v: Exp) -> Statement {
    Statement::Assignment(MultiAssign {
        vars: vec![PrefixExp {
            prefix: ExpOrVarName::VarName(name.to_vec()),
            suffix_chain: vec![],
        }],
        vals: vec![v],
    })
}

/// The value bound to `name` in the innermost scope.
fn local_value(ctx: &LuaState, name: &[u8]) -> LuaValue {
    ctx.get_local_scope().unwrap().get_string(name.to_vec())
}

#[test]
fn scenario_arithmetic_locals() {
    // local x = 1 + 3; local y = 1 + -1.0; local z = "1" + 3
    let mut ctx = LuaState::new();
    exec_statement(&local(b"x", bin(ilit(1), BinOp::Plus, ilit(3))), &mut ctx, FUEL).unwrap();
    exec_statement(&local(b"y", bin(ilit(1), BinOp::Plus, flt(-1.0))), &mut ctx, FUEL).unwrap();
    exec_statement(
        &local(b"z", bin(Exp::Str(b"1".to_vec()), BinOp::Plus, ilit(3))),
        &mut ctx,
        FUEL,
    )
    .unwrap();
    assert_eq!(local_value(&ctx, b"x"), num_i(4));
    assert_eq!(local_value(&ctx, b"y"), num_f(0.0));
    assert_eq!(local_value(&ctx, b"z"), num_i(4));
}

#[test]
fn scenario_modulo_sign() {
    // local a = -4 % 3 == Int(2); local b = -3.5 % 2.0 == Float(0.5)
    let mut ctx = LuaState::new();
    exec_statement(&local(b"a", bin(ilit(-4), BinOp::Mod, ilit(3))), &mut ctx, FUEL).unwrap();
    exec_statement(&local(b"b", bin(flt(-3.5), BinOp::Mod, flt(2.0))), &mut ctx, FUEL).unwrap();
    assert_eq!(local_value(&ctx, b"a"), num_i(2));
    assert_eq!(local_value(&ctx, b"b"), num_f(0.5));
}

#[test]
fn scenario_division_by_zero() {
    let mut ctx = LuaState::new();
    for op in [BinOp::Div, BinOp::IntDiv, BinOp::Mod] {
        let r = eval_expr(&bin(ilit(1), op, ilit(0)), &mut ctx, FUEL).unwrap_err();
        assert!(match r {
            LuaError::ArithmeticError(_) => true,
            _ => false,
        });
    }
}

#[test]
fn scenario_short_circuit_coercion() {
    // nil and 1.5 -> Nil; 3.5 and 10 -> Int(10);
    // nil or 1.5 -> Float(1.5); 3.5 or 10 -> Float(3.5)
    let mut ctx = LuaState::new();
    let r = eval_expr(&bin(Exp::Nil, BinOp::BoolAnd, flt(1.5)), &mut ctx, FUEL).unwrap();
    assert_eq!(r, LuaValue::Nil);
    let r = eval_expr(&bin(flt(3.5), BinOp::BoolAnd, ilit(10)), &mut ctx, FUEL).unwrap();
    assert_eq!(r, num_i(10));
    let r = eval_expr(&bin(Exp::Nil, BinOp::BoolOr, flt(1.5)), &mut ctx, FUEL).unwrap();
    assert_eq!(r, num_f(1.5));
    let r = eval_expr(&bin(flt(3.5), BinOp::BoolOr, ilit(10)), &mut ctx, FUEL).unwrap();
    assert_eq!(r, num_f(3.5));
}

#[test]
fn scenario_short_circuit_skips_right() {
    // false and f() never evaluates f (a call would raise NotImplemented);
    // true or f() never evaluates f
    let mut ctx = LuaState::new();
    let r = eval_expr(&bin(Exp::Bool(false), BinOp::BoolAnd, Exp::FuncCall), &mut ctx, FUEL)
        .unwrap();
    assert_eq!(r, LuaValue::Boolean(false));
    let r = eval_expr(&bin(Exp::Bool(true), BinOp::BoolOr, Exp::FuncCall), &mut ctx, FUEL)
        .unwrap();
    assert_eq!(r, LuaValue::Boolean(true));
    // and the other way round the call is reached and refused
    let r = eval_expr(&bin(Exp::Bool(true), BinOp::BoolAnd, Exp::FuncCall), &mut ctx, FUEL)
        .unwrap_err();
    assert_eq!(r, LuaError::NotImplementedError);
}

#[test]
fn scenario_comparisons_and_type_errors() {
    // "abc" <= "bcd" -> true; "abc" <= 1.0 -> TypeError
    let mut ctx = LuaState::new();
    let r = eval_expr(
        &bin(Exp::Str(b"abc".to_vec()), BinOp::Leq, Exp::Str(b"bcd".to_vec())),
        &mut ctx,
        FUEL,
    )
    .unwrap();
    assert_eq!(r, LuaValue::Boolean(true));
    let r = eval_expr(&bin(Exp::Str(b"abc".to_vec()), BinOp::Leq, flt(1.0)), &mut ctx, FUEL)
        .unwrap_err();
    assert!(match r {
        LuaError::TypeError(_) => true,
        _ => false,
    });
}

#[test]
fn scenario_table_and_control_flow() {
    // local t = {10, 20, x=30}
    // if t[1] < t[2] then t[1] = 99 else t[1] = 0 end
    // while t[1] > 50 do t[1] = t[1] - 50; break end
    let mut ctx = LuaState::new();
    let table_lit = Exp::Table(vec![
        Field::PosAssign(ilit(10)),
        Field::PosAssign(ilit(20)),
        Field::NameAssign(b"x".to_vec(), ilit(30)),
    ]);
    exec_statement(&local(b"t", table_lit), &mut ctx, FUEL).unwrap();

    let ite = Statement::Ite(IfThenElse {
        cond: bin(index(b"t", ilit(1)), BinOp::Lt, index(b"t", ilit(2))),
        then_blk: Block { stmts: vec![assign_index(b"t", ilit(1), ilit(99))], ret_stmt: None },
        elseifs: vec![],
        else_blk: Some(Block { stmts: vec![assign_index(b"t", ilit(1), ilit(0))], ret_stmt: None }),
    });
    exec_statement(&ite, &mut ctx, FUEL).unwrap();

    let wh = Statement::While(WhileBlock {
        cond: bin(index(b"t", ilit(1)), BinOp::Gt, ilit(50)),
        block: Block {
            stmts: vec![
                assign_index(b"t", ilit(1), bin(index(b"t", ilit(1)), BinOp::Minus, ilit(50))),
                Statement::Break,
            ],
            ret_stmt: None,
        },
    });
    exec_statement(&wh, &mut ctx, FUEL).unwrap();

    let t = match local_value(&ctx, b"t") {
        LuaValue::Table(id) => id,
        other => panic!("expected a table, got {:?}", other),
    };
    assert_eq!(ctx.table_get_at(t, &num_i(1)), num_i(49));
    assert_eq!(ctx.table_get_at(t, &num_i(2)), num_i(20));
    assert_eq!(ctx.table_get_at(t, &LuaValue::Str(b"x".to_vec())), num_i(30));
    assert_eq!(ctx.sequence_border_at(t), 2);
}

#[test]
fn scenario_repeat_until_scope_visibility() {
    // local i = 0
    // repeat local j = i + 1; i = j until j >= 3
    // afterwards: i == Int(3), j not visible at the outer scope
    let mut ctx = LuaState::new();
    exec_statement(&local(b"i", ilit(0)), &mut ctx, FUEL).unwrap();
    let rep = Statement::Repeat(RepeatBlock {
        block: Block {
            stmts: vec![
                local(b"j", bin(var(b"i"), BinOp::Plus, ilit(1))),
                assign_var(b"i", var(b"j")),
            ],
            ret_stmt: None,
        },
        cond: bin(var(b"j"), BinOp::Geq, ilit(3)),
    });
    exec_statement(&rep, &mut ctx, FUEL).unwrap();
    assert_eq!(local_value(&ctx, b"i"), num_i(3));
    assert_eq!(local_value(&ctx, b"j"), LuaValue::Nil);
    assert!(ctx.resolve_name(&b"j".to_vec()).is_none());
}

#[test]
fn scope_depth_preserved_on_error() {
    // a block whose statement raises an error still pops its scope
    let mut ctx = LuaState::new();
    let depth = ctx.scope_depth();
    let blk = Block {
        stmts: vec![
            local(b"x", ilit(1)),
            local(b"boom", bin(ilit(1), BinOp::Div, ilit(0))),
            local(b"y", ilit(2)),
        ],
        ret_stmt: None,
    };
    let r = exec_block(&blk, &mut ctx, FUEL);
    assert!(match r {
        Err(LuaError::ArithmeticError(_)) => true,
        _ => false,
    });
    assert_eq!(ctx.scope_depth(), depth);
    // nested: the error unwinds through an if-block too
    let nested = Statement::Ite(IfThenElse {
        cond: Exp::Bool(true),
        then_blk: Block {
            stmts: vec![local(b"boom", bin(ilit(1), BinOp::Mod, ilit(0)))],
            ret_stmt: None,
        },
        elseifs: vec![],
        else_blk: None,
    });
    let r = exec_statement(&nested, &mut ctx, FUEL);
    assert!(r.is_err());
    assert_eq!(ctx.scope_depth(), depth);
}

#[test]
fn globals_through_env() {
    // an unbound name assigns through the environment table
    let mut ctx = LuaState::new();
    exec_statement(&assign_var(b"g", ilit(11)), &mut ctx, FUEL).unwrap();
    // a read of the same name goes through _ENV as well
    let r = eval_expr(&var(b"g"), &mut ctx, FUEL).unwrap();
    assert_eq!(r, num_i(11));
    // the global table (identity 0) holds the binding
    assert_eq!(ctx.table_get_at(0, &LuaValue::Str(b"g".to_vec())), num_i(11));
}

#[test]
fn concat_formats_numbers() {
    // 12 .. 34 == "1234"; "v=" .. -5 == "v=-5"
    let mut ctx = LuaState::new();
    let r = eval_expr(&bin(ilit(12), BinOp::Concat, ilit(34)), &mut ctx, FUEL).unwrap();
    assert_eq!(r, LuaValue::Str(b"1234".to_vec()));
    let r = eval_expr(&bin(Exp::Str(b"v=".to_vec()), BinOp::Concat, ilit(-5)), &mut ctx, FUEL)
        .unwrap();
    assert_eq!(r, LuaValue::Str(b"v=-5".to_vec()));
    let r = eval_expr(
        &bin(Exp::Nil, BinOp::Concat, ilit(1)),
        &mut ctx,
        FUEL,
    )
    .unwrap_err();
    assert!(match r {
        LuaError::TypeError(_) => true,
        _ => false,
    });
}

#[test]
fn float_text_round_trips() {
    // the decimal text of a float parses back to the same float
    let mut ctx = LuaState::new();
    let r = eval_expr(
        &bin(Exp::Str(b"".to_vec()), BinOp::Concat, flt(1.5)),
        &mut ctx,
        FUEL,
    )
    .unwrap();
    let text = match r {
        LuaValue::Str(s) => s,
        other => panic!("expected text, got {:?}", other),
    };
    assert!(!text.is_empty());
    match num_coercion(LuaValue::Str(text)) {
        LuaValue::Number(Number::Float(b)) => assert_eq!(b, (1.5f64).to_bits()),
        other => panic!("expected the float back, got {:?}", other),
    }
}

#[test]
fn num_coercion_tries_integer_first() {
    assert_eq!(num_coercion(LuaValue::Str(b"10".to_vec())), num_i(10));
    assert_eq!(num_coercion(LuaValue::Str(b"+7".to_vec())), num_i(7));
    assert_eq!(num_coercion(LuaValue::Str(b"2.5".to_vec())), num_f(2.5));
    assert_eq!(
        num_coercion(LuaValue::Str(b"pear".to_vec())),
        LuaValue::Str(b"pear".to_vec())
    );
    assert_eq!(num_coercion(LuaValue::Boolean(true)), LuaValue::Boolean(true));
}

#[test]
fn power_of_integral_exponent() {
    let mut ctx = LuaState::new();
    let r = eval_expr(&bin(ilit(2), BinOp::Pow, ilit(10)), &mut ctx, FUEL).unwrap();
    assert_eq!(r, num_f(1024.0));
    let r = eval_expr(&bin(flt(2.0), BinOp::Pow, flt(-1.0)), &mut ctx, FUEL).unwrap();
    assert_eq!(r, num_f(0.5));
}

#[test]
fn power_of_unsupported_exponent_is_not_implemented() {
    // the core computes no transcendental power: a fractional exponent,
    // and one beyond the i32 range, are deliberately unimplemented
    let mut ctx = LuaState::new();
    let r = eval_expr(&bin(ilit(2), BinOp::Pow, flt(0.5)), &mut ctx, FUEL).unwrap_err();
    assert_eq!(r, LuaError::NotImplementedError);
    let r = eval_expr(&bin(ilit(2), BinOp::Pow, ilit(1_i64 << 40)), &mut ctx, FUEL).unwrap_err();
    assert_eq!(r, LuaError::NotImplementedError);
}

#[test]
fn equality_across_number_carriers() {
    // 1 == 1.0 is true by mathematical value; 1 == "1" is false (no coercion)
    let mut ctx = LuaState::new();
    let r = eval_expr(&bin(ilit(1), BinOp::Equal, flt(1.0)), &mut ctx, FUEL).unwrap();
    assert_eq!(r, LuaValue::Boolean(true));
    let r = eval_expr(&bin(ilit(1), BinOp::Equal, Exp::Str(b"1".to_vec())), &mut ctx, FUEL)
        .unwrap();
    assert_eq!(r, LuaValue::Boolean(false));
    let r = eval_expr(&bin(flt(0.5), BinOp::NotEqual, flt(0.5)), &mut ctx, FUEL).unwrap();
    assert_eq!(r, LuaValue::Boolean(false));
}

#[test]
fn local_missing_values_become_nil() {
    // local x, y = 1 fills the second name with nil; extra values drop
    let mut ctx = LuaState::new();
    let stmt = Statement::LVarAssign(LAssignment {
        vars: vec![b"x".to_vec(), b"y".to_vec()],
        vals: Some(vec![ilit(1)]),
    });
    exec_statement(&stmt, &mut ctx, FUEL).unwrap();
    assert_eq!(local_value(&ctx, b"x"), num_i(1));
    assert_eq!(local_value(&ctx, b"y"), LuaValue::Nil);
    let stmt = Statement::LVarAssign(LAssignment {
        vars: vec![b"z".to_vec()],
        vals: Some(vec![ilit(5), bin(ilit(1), BinOp::Div, ilit(0))]),
    });
    // excess right-hand sides are still evaluated, so the error surfaces
    let r = exec_statement(&stmt, &mut ctx, FUEL);
    assert!(r.is_err());
}

#[test]
fn assignment_to_bare_expression_is_rejected() {
    // (1) = 2 has no suffix to assign through: an internal error
    let mut ctx = LuaState::new();
    let stmt = Statement::Assignment(MultiAssign {
        vars: vec![PrefixExp { prefix: ExpOrVarName::Exp(Box::new(ilit(1))), suffix_chain: vec![] }],
        vals: vec![ilit(2)],
    });
    let r = exec_statement(&stmt, &mut ctx, FUEL).unwrap_err();
    assert!(match r {
        LuaError::OtherError(_) => true,
        _ => false,
    });
}

#[test]
fn indexing_non_table_is_type_error() {
    let mut ctx = LuaState::new();
    exec_statement(&local(b"n", ilit(3)), &mut ctx, FUEL).unwrap();
    let r = eval_expr(&index(b"n", ilit(1)), &mut ctx, FUEL).unwrap_err();
    assert!(match r {
        LuaError::TypeError(_) => true,
        _ => false,
    });
}

#[test]
fn table_write_with_nil_key_is_index_error() {
    let mut ctx = LuaState::new();
    exec_statement(&local(b"t", Exp::Table(vec![])), &mut ctx, FUEL).unwrap();
    let r = exec_statement(&assign_index(b"t", Exp::Nil, ilit(1)), &mut ctx, FUEL).unwrap_err();
    assert!(match r {
        LuaError::IndexError(_) => true,
        _ => false,
    });
}

#[test]
fn program_return_clause() {
    // a top-level block with a return clause hands the values back
    let blk = Block {
        stmts: vec![local(b"x", bin(ilit(20), BinOp::Mul, ilit(2)))],
        ret_stmt: Some(vec![var(b"x"), ilit(7)]),
    };
    let (r, ctx) = eval_program(&blk, FUEL);
    match r.unwrap() {
        FlowControl::Return(vs) => {
            assert_eq!(vs, vec![num_i(40), num_i(7)]);
        },
        other => panic!("expected a return, got {:?}", other),
    }
    assert_eq!(ctx.scope_depth(), 1);
}

#[test]
fn elseif_arms_select_first_truthy() {
    let mut ctx = LuaState::new();
    exec_statement(&local(b"r", ilit(0)), &mut ctx, FUEL).unwrap();
    let ite = Statement::Ite(IfThenElse {
        cond: Exp::Bool(false),
        then_blk: Block { stmts: vec![assign_var(b"r", ilit(1))], ret_stmt: None },
        elseifs: vec![
            (Exp::Bool(false), Block { stmts: vec![assign_var(b"r", ilit(2))], ret_stmt: None }),
            (Exp::Bool(true), Block { stmts: vec![assign_var(b"r", ilit(3))], ret_stmt: None }),
            (Exp::Bool(true), Block { stmts: vec![assign_var(b"r", ilit(4))], ret_stmt: None }),
        ],
        else_blk: Some(Block { stmts: vec![assign_var(b"r", ilit(5))], ret_stmt: None }),
    });
    exec_statement(&ite, &mut ctx, FUEL).unwrap();
    assert_eq!(local_value(&ctx, b"r"), num_i(3));
}

#[test]
fn shared_table_handles_observe_mutation() {
    // two bindings to one table observe each other's writes
    let mut ctx = LuaState::new();
    exec_statement(&local(b"a", Exp::Table(vec![Field::PosAssign(ilit(1))])), &mut ctx, FUEL)
        .unwrap();
    exec_statement(&local(b"b", var(b"a")), &mut ctx, FUEL).unwrap();
    exec_statement(&assign_index(b"b", ilit(1), ilit(77)), &mut ctx, FUEL).unwrap();
    let r = eval_expr(&index(b"a", ilit(1)), &mut ctx, FUEL).unwrap();
    assert_eq!(r, num_i(77));
}

#[test]
fn modulo_stays_in_divisor_range() {
    // the true modulo lands in [0, j) for j > 0 and (j, 0] for j < 0,
    // and i == (i // j) * j + (i % j) holds when the signs agree
    let mut ctx = LuaState::new();
    let r = eval_expr(&bin(ilit(5), BinOp::Mod, ilit(-3)), &mut ctx, FUEL).unwrap();
    assert_eq!(r, num_i(-1));
    let r = eval_expr(&bin(ilit(-5), BinOp::Mod, ilit(-3)), &mut ctx, FUEL).unwrap();
    assert_eq!(r, num_i(-2));
    let q = eval_expr(&bin(ilit(7), BinOp::IntDiv, ilit(2)), &mut ctx, FUEL).unwrap();
    let m = eval_expr(&bin(ilit(7), BinOp::Mod, ilit(2)), &mut ctx, FUEL).unwrap();
    assert_eq!(q, num_i(3));
    assert_eq!(m, num_i(1));
    // the identity fails when the remainder's sign disagrees: -4 // 3 is
    // -1 (truncating) while -4 % 3 is 2 (true modulo)
    let q = eval_expr(&bin(ilit(-4), BinOp::IntDiv, ilit(3)), &mut ctx, FUEL).unwrap();
    assert_eq!(q, num_i(-1));
}

#[test]
fn integer_parse_bounds() {
    // the full i64 range parses as integers; one past it falls to floats
    assert_eq!(
        num_coercion(LuaValue::Str(b"-9223372036854775808".to_vec())),
        num_i(i64::MIN)
    );
    assert_eq!(
        num_coercion(LuaValue::Str(b"9223372036854775807".to_vec())),
        num_i(i64::MAX)
    );
    match num_coercion(LuaValue::Str(b"9223372036854775808".to_vec())) {
        LuaValue::Number(Number::Float(b)) => {
            assert_eq!(b, (9223372036854775808.0f64).to_bits());
        }
        other => panic!("expected a float, got {:?}", other),
    }
    // a bare sign and a hex-prefixed numeral stay strings
    assert_eq!(num_coercion(LuaValue::Str(b"+".to_vec())), LuaValue::Str(b"+".to_vec()));
    assert_eq!(
        num_coercion(LuaValue::Str(b"0x10".to_vec())),
        LuaValue::Str(b"0x10".to_vec())
    );
}

#[test]
fn state_accessors() {
    let mut ctx = LuaState::new();
    assert_eq!(ctx.scope_depth(), 1);
    // identities are monotonic and zero-based: the global table took 0,
    // the base scope 1, so the next table gets 2
    let next = ctx.get_ref_id();
    assert_eq!(next, 2);
    let t = ctx.alloc_table(4);
    assert_eq!(t, next);
    assert_eq!(ctx.get_ref_id(), next + 1);
    // writes through the mutable local scope land in the arena
    let sc = ctx.get_mutable_local_scope();
    sc.set_string(b"k".to_vec(), &num_i(12));
    assert_eq!(local_value(&ctx, b"k"), num_i(12));
    let found = ctx.resolve_name(&b"k".to_vec());
    assert!(found.is_some());
    let found_mut = ctx.resolve_name_mut(&b"k".to_vec());
    assert_eq!(found, found_mut);
    assert!(ctx.resolve_name(&b"absent".to_vec()).is_none());
}
