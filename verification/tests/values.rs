use resolver::{
    compare_values, eval_fn_expr, format_value, parse_value, CmpOp, EvalCtx, FnExpr, FnOp,
    FnOperand, ResolverError, Value, VariableKind,
};

fn ctx() -> EvalCtx {
    EvalCtx { block_height: 7, block_time: 99 }
}

fn arith(op: FnOp, a: Value, b: Value) -> Result<Value, ResolverError> {
    eval_fn_expr(
        ctx(),
        &FnExpr { op, args: vec![FnOperand::Lit(a), FnOperand::Lit(b)] },
        &Vec::new(),
    )
}

#[test]
fn parse_uint_accepts_digits() {
    let v = parse_value("42", VariableKind::Uint).unwrap();
    assert!(matches!(v, Value::Uint(42)));
    assert_eq!(format_value(&v), "42");
}

#[test]
fn parse_uint_canonicalizes_leading_zeros() {
    let v = parse_value("007", VariableKind::Uint).unwrap();
    assert_eq!(format_value(&v), "7");
}

#[test]
fn parse_uint_rejects_sign_and_junk() {
    assert!(parse_value("-1", VariableKind::Uint).is_err());
    assert!(parse_value("", VariableKind::Uint).is_err());
    assert!(parse_value("1a", VariableKind::Uint).is_err());
}

#[test]
fn parse_uint_rejects_overflow() {
    // one past u128::MAX
    let r = parse_value("340282366920938463463374607431768211456", VariableKind::Uint);
    assert_eq!(r.err(), Some(ResolverError::TypeConversionFailed));
    let ok = parse_value("340282366920938463463374607431768211455", VariableKind::Uint);
    assert!(matches!(ok.unwrap(), Value::Uint(u128::MAX)));
}

#[test]
fn parse_int_handles_signs() {
    let v = parse_value("-17", VariableKind::Int).unwrap();
    assert!(matches!(v, Value::Int(-17)));
    assert_eq!(format_value(&v), "-17");
    assert!(parse_value("-", VariableKind::Int).is_err());
}

#[test]
fn parse_decimal_fixed_point() {
    let v = parse_value("1.5", VariableKind::Decimal).unwrap();
    assert!(matches!(v, Value::Dec(1_500_000_000_000_000_000)));
    assert_eq!(format_value(&v), "1.5");
}

#[test]
fn decimal_format_trims_trailing_zeros() {
    let v = parse_value("2.500", VariableKind::Decimal).unwrap();
    assert_eq!(format_value(&v), "2.5");
    let w = parse_value("3.000", VariableKind::Decimal).unwrap();
    assert_eq!(format_value(&w), "3");
}

#[test]
fn parse_decimal_rejects_malformed() {
    assert!(parse_value(".5", VariableKind::Decimal).is_err());
    assert!(parse_value("5.", VariableKind::Decimal).is_err());
    assert!(parse_value("1.2.3", VariableKind::Decimal).is_err());
    // more fractional digits than the precision carries
    assert!(parse_value("1.0000000000000000001", VariableKind::Decimal).is_err());
}

#[test]
fn parse_bool_literals_only() {
    assert!(matches!(
        parse_value("true", VariableKind::Bool).unwrap(),
        Value::Bool(true)
    ));
    assert!(matches!(
        parse_value("false", VariableKind::Bool).unwrap(),
        Value::Bool(false)
    ));
    assert!(parse_value("True", VariableKind::Bool).is_err());
}

#[test]
fn string_kind_keeps_text() {
    let v = parse_value("anything at all", VariableKind::String).unwrap();
    assert_eq!(format_value(&v), "anything at all");
}

#[test]
fn compare_same_kinds() {
    assert_eq!(
        compare_values(&Value::Uint(3), &Value::Uint(5), CmpOp::Lt),
        Ok(true)
    );
    assert_eq!(
        compare_values(&Value::Int(-1), &Value::Int(-1), CmpOp::Gte),
        Ok(true)
    );
    assert_eq!(
        compare_values(
            &Value::Text("a".to_string()),
            &Value::Text("b".to_string()),
            CmpOp::Neq
        ),
        Ok(true)
    );
}

#[test]
fn compare_mismatched_kinds_fails() {
    assert_eq!(
        compare_values(&Value::Uint(3), &Value::Int(3), CmpOp::Eq),
        Err(ResolverError::TypeMismatch)
    );
    // text carries no order
    assert_eq!(
        compare_values(
            &Value::Text("a".to_string()),
            &Value::Text("b".to_string()),
            CmpOp::Lt
        ),
        Err(ResolverError::TypeMismatch)
    );
}

#[test]
fn arithmetic_explicit_failures() {
    assert_eq!(
        arith(FnOp::Div, Value::Uint(1), Value::Uint(0)).err(),
        Some(ResolverError::DivisionByZero)
    );
    assert_eq!(
        arith(FnOp::Add, Value::Uint(u128::MAX), Value::Uint(1)).err(),
        Some(ResolverError::Overflow)
    );
    assert_eq!(
        arith(FnOp::Sub, Value::Uint(0), Value::Uint(1)).err(),
        Some(ResolverError::Overflow)
    );
    assert_eq!(
        arith(FnOp::Add, Value::Uint(1), Value::Int(1)).err(),
        Some(ResolverError::TypeMismatch)
    );
    assert_eq!(
        arith(
            FnOp::Add,
            Value::Text("a".to_string()),
            Value::Text("b".to_string())
        )
        .err(),
        Some(ResolverError::UnsupportedFunction)
    );
}

#[test]
fn arithmetic_computes() {
    assert!(matches!(
        arith(FnOp::Add, Value::Uint(2), Value::Uint(3)).unwrap(),
        Value::Uint(5)
    ));
    assert!(matches!(
        arith(FnOp::Mul, Value::Int(-4), Value::Int(5)).unwrap(),
        Value::Int(-20)
    ));
    assert!(matches!(
        arith(FnOp::Div, Value::Uint(7), Value::Uint(2)).unwrap(),
        Value::Uint(3)
    ));
}

#[test]
fn decimal_arithmetic_scales() {
    let two = parse_value("2", VariableKind::Decimal).unwrap();
    let three_half = parse_value("3.5", VariableKind::Decimal).unwrap();
    let product = arith(FnOp::Mul, two, three_half).unwrap();
    assert_eq!(format_value(&product), "7");
    let a = parse_value("1", VariableKind::Decimal).unwrap();
    let b = parse_value("8", VariableKind::Decimal).unwrap();
    let q = arith(FnOp::Div, a, b).unwrap();
    assert_eq!(format_value(&q), "0.125");
}

#[test]
fn concat_joins_text() {
    let r = arith(
        FnOp::Concat,
        Value::Text("foo".to_string()),
        Value::Text("bar".to_string()),
    )
    .unwrap();
    assert_eq!(format_value(&r), "foobar");
}

#[test]
fn context_accessors_read_ambient_values() {
    let h = eval_fn_expr(
        ctx(),
        &FnExpr { op: FnOp::BlockHeight, args: vec![] },
        &Vec::new(),
    )
    .unwrap();
    assert!(matches!(h, Value::Uint(7)));
    let t = eval_fn_expr(
        ctx(),
        &FnExpr { op: FnOp::Timestamp, args: vec![] },
        &Vec::new(),
    )
    .unwrap();
    assert!(matches!(t, Value::Uint(99)));
}

#[test]
fn wrong_arity_is_unsupported() {
    let r = eval_fn_expr(
        ctx(),
        &FnExpr { op: FnOp::Add, args: vec![FnOperand::Lit(Value::Uint(1))] },
        &Vec::new(),
    );
    assert_eq!(r.err(), Some(ResolverError::UnsupportedFunction));
}

#[test]
fn canonical_text_round_trips() {
    // what resolution stores, evaluation parses back unchanged
    for (text, kind) in [
        ("123456789012345678901234567890", VariableKind::Uint),
        ("-99", VariableKind::Int),
        ("0.000000000000000001", VariableKind::Decimal),
        ("1000000.25", VariableKind::Decimal),
        ("true", VariableKind::Bool),
    ] {
        let v = parse_value(text, kind).unwrap();
        let canonical = format_value(&v);
        let w = parse_value(&canonical, kind).unwrap();
        assert_eq!(format_value(&w), canonical);
    }
}
