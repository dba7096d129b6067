use resolver::{
    apply_var_fn, hydrate_msgs, hydrate_vars, json_to_value, resolve_cond, select_path,
    validate_job_creation, CmpOp, CondOperand, Condition, EvalCtx, ExternalExpr, ExternalInput,
    ExternalVariable, FnExpr, FnOp, FnOperand, FnValue, JobStatus, Json, QueryExpr, QueryResponse,
    QueryVariable, ResolverError, StaticVariable, UpdateFn, Value, Variable, VariableKind,
};

fn ctx() -> EvalCtx {
    EvalCtx { block_height: 1000, block_time: 1_700_000_000 }
}

fn static_var(name: &str, kind: VariableKind, init: &str) -> Variable {
    Variable::Static(StaticVariable {
        kind,
        name: name.to_string(),
        encode: false,
        init_fn: FnValue::Simple(init.to_string()),
        reinitialize: false,
        value: None,
        update_fn: None,
    })
}

fn value_of(v: &Variable) -> Option<String> {
    v.value().clone()
}

#[test]
fn static_uint_condition_holds() {
    // a price of 100 satisfies "price > 50"
    let vars = vec![static_var("price", VariableKind::Uint, "100")];
    let resolved = hydrate_vars(ctx(), vars, None, Vec::new()).unwrap();
    assert_eq!(value_of(&resolved[0]), Some("100".to_string()));
    let cond = Condition::Cmp(
        CmpOp::Gt,
        CondOperand::Ref("price".to_string()),
        CondOperand::Lit(Value::Uint(50)),
    );
    assert_eq!(resolve_cond(ctx(), &cond, &resolved), Ok(true));
}

#[test]
fn query_variable_resolves_from_response() {
    // selector "balance.amount" against {"balance":{"amount":"42","denom":"uatom"}}
    let response = Json::Obj(vec![(
        "balance".to_string(),
        Json::Obj(vec![
            ("amount".to_string(), Json::Str("42".to_string())),
            ("denom".to_string(), Json::Str("uatom".to_string())),
        ]),
    )]);
    let var = Variable::Query(QueryVariable {
        kind: VariableKind::Uint,
        name: "bal".to_string(),
        encode: false,
        init_fn: QueryExpr {
            selector: "balance.amount".to_string(),
            query: "{}".to_string(),
        },
        reinitialize: false,
        value: None,
        update_fn: None,
    });
    let responses = vec![QueryResponse { name: "bal".to_string(), response }];
    let resolved = hydrate_vars(ctx(), vec![var], None, responses).unwrap();
    assert_eq!(value_of(&resolved[0]), Some("42".to_string()));
}

#[test]
fn selector_walks_nested_objects() {
    let response = Json::Obj(vec![(
        "balance".to_string(),
        Json::Obj(vec![
            ("amount".to_string(), Json::Str("42".to_string())),
            ("denom".to_string(), Json::Str("uatom".to_string())),
        ]),
    )]);
    let leaf = select_path(&response, "balance.amount").unwrap();
    let v = json_to_value(leaf, VariableKind::Uint).unwrap();
    assert!(matches!(v, Value::Uint(42)));
}

#[test]
fn selector_steps_into_arrays() {
    let response = Json::Obj(vec![(
        "coins".to_string(),
        Json::Arr(vec![
            Json::Obj(vec![("amount".to_string(), Json::Num("7".to_string()))]),
            Json::Obj(vec![("amount".to_string(), Json::Num("9".to_string()))]),
        ]),
    )]);
    let leaf = select_path(&response, "coins.1.amount").unwrap();
    let v = json_to_value(leaf, VariableKind::Uint).unwrap();
    assert!(matches!(v, Value::Uint(9)));
}

#[test]
fn selector_miss_reports_not_found() {
    let response = Json::Obj(vec![("a".to_string(), Json::Null)]);
    assert_eq!(
        select_path(&response, "a.b").err(),
        Some(ResolverError::SelectorNotFound)
    );
}

#[test]
fn missing_response_is_query_failure() {
    let var = Variable::Query(QueryVariable {
        kind: VariableKind::Uint,
        name: "bal".to_string(),
        encode: false,
        init_fn: QueryExpr { selector: "x".to_string(), query: "{}".to_string() },
        reinitialize: false,
        value: None,
        update_fn: None,
    });
    let r = hydrate_vars(ctx(), vec![var], None, Vec::new());
    assert_eq!(r.err(), Some(ResolverError::QueryFailed));
}

#[test]
fn update_fn_increments_value() {
    // increment-by-one applied to "5" yields "6"
    let var = Variable::Static(StaticVariable {
        kind: VariableKind::Uint,
        name: "counter".to_string(),
        encode: false,
        init_fn: FnValue::Simple("5".to_string()),
        reinitialize: false,
        value: Some("5".to_string()),
        update_fn: Some(UpdateFn {
            on_success: Some(FnExpr {
                op: FnOp::Add,
                args: vec![
                    FnOperand::Ref("counter".to_string()),
                    FnOperand::Lit(Value::Uint(1)),
                ],
            }),
            on_error: None,
        }),
    });
    let updated = apply_var_fn(ctx(), vec![var], JobStatus::Executed).unwrap();
    assert_eq!(value_of(&updated[0]), Some("6".to_string()));
}

#[test]
fn update_under_non_terminal_status_fails() {
    let var = Variable::Static(StaticVariable {
        kind: VariableKind::Uint,
        name: "c".to_string(),
        encode: false,
        init_fn: FnValue::Simple("5".to_string()),
        reinitialize: false,
        value: Some("5".to_string()),
        update_fn: Some(UpdateFn { on_success: None, on_error: None }),
    });
    let r = apply_var_fn(ctx(), vec![var], JobStatus::Pending);
    assert_eq!(r.err(), Some(ResolverError::NoUpdateForStatus));
}

#[test]
fn undeclared_reference_fails_not_false() {
    // bypassing validation must surface UnknownVariable, never false
    let cond = Condition::Cmp(
        CmpOp::Gt,
        CondOperand::Ref("missing".to_string()),
        CondOperand::Lit(Value::Uint(1)),
    );
    let r = resolve_cond(ctx(), &cond, &Vec::new());
    assert_eq!(r, Err(ResolverError::UnknownVariable));
}

#[test]
fn external_input_fills_external_variable() {
    let var = Variable::External(ExternalVariable {
        kind: VariableKind::Int,
        name: "delta".to_string(),
        encode: false,
        init_fn: ExternalExpr { name: "delta_in".to_string() },
        reinitialize: false,
        value: None,
        update_fn: None,
    });
    let inputs = vec![ExternalInput {
        name: "delta_in".to_string(),
        input: "-3".to_string(),
    }];
    let resolved = hydrate_vars(ctx(), vec![var], Some(inputs), Vec::new()).unwrap();
    assert_eq!(value_of(&resolved[0]), Some("-3".to_string()));
}

#[test]
fn missing_external_input_fails() {
    let var = Variable::External(ExternalVariable {
        kind: VariableKind::Int,
        name: "delta".to_string(),
        encode: false,
        init_fn: ExternalExpr { name: "delta_in".to_string() },
        reinitialize: false,
        value: None,
        update_fn: None,
    });
    let r = hydrate_vars(ctx(), vec![var], None, Vec::new());
    assert_eq!(r.err(), Some(ResolverError::ExternalInputMissing));
}

#[test]
fn bad_literal_is_type_conversion_failure() {
    let var = static_var("n", VariableKind::Uint, "abc");
    let r = hydrate_vars(ctx(), vec![var], None, Vec::new());
    assert_eq!(r.err(), Some(ResolverError::TypeConversionFailed));
}

#[test]
fn static_resolution_is_idempotent() {
    // resolving twice yields byte-identical text
    let vars = vec![static_var("price", VariableKind::Uint, "0100")];
    let once = hydrate_vars(ctx(), vars, None, Vec::new()).unwrap();
    let first = value_of(&once[0]);
    let later = EvalCtx { block_height: 2000, block_time: 1_800_000_000 };
    let twice = hydrate_vars(later, once, None, Vec::new()).unwrap();
    assert_eq!(first, value_of(&twice[0]));
    assert_eq!(first, Some("100".to_string()));
}

#[test]
fn fn_expr_initializer_uses_context() {
    let var = Variable::Static(StaticVariable {
        kind: VariableKind::Uint,
        name: "h".to_string(),
        encode: false,
        init_fn: FnValue::Expr(FnExpr { op: FnOp::BlockHeight, args: vec![] }),
        reinitialize: false,
        value: None,
        update_fn: None,
    });
    let resolved = hydrate_vars(ctx(), vec![var], None, Vec::new()).unwrap();
    assert_eq!(value_of(&resolved[0]), Some("1000".to_string()));
}

#[test]
fn hydrate_msgs_substitutes_and_clears_placeholders() {
    let mut v = static_var("amt", VariableKind::Uint, "100");
    if let Variable::Static(ref mut s) = v {
        s.value = Some("100".to_string());
    }
    let msgs = r#"[{"send":{"amount":"$warp.variable.amt"}}]"#;
    let out = hydrate_msgs(msgs, &vec![v]).unwrap();
    assert_eq!(out, r#"[{"send":{"amount":"100"}}]"#);
    assert!(!out.contains("$warp.variable."));
}

#[test]
fn hydrate_msgs_encodes_when_asked() {
    // base64 of "5" is "NQ=="
    let mut v = static_var("amt", VariableKind::Uint, "5");
    if let Variable::Static(ref mut s) = v {
        s.value = Some("5".to_string());
        s.encode = true;
    }
    let out = hydrate_msgs("x=$warp.variable.amt;", &vec![v]).unwrap();
    assert_eq!(out, "x=NQ==;");
}

#[test]
fn hydrate_msgs_unresolved_variable_fails() {
    let v = static_var("amt", VariableKind::Uint, "100");
    let r = hydrate_msgs("$warp.variable.amt", &vec![v]);
    assert_eq!(r.err(), Some(ResolverError::UnresolvedVariable));
}

#[test]
fn hydrate_msgs_residual_token_fails() {
    // an undeclared placeholder survives substitution and is rejected
    let r = hydrate_msgs("$warp.variable.ghost", &Vec::new());
    assert_eq!(r.err(), Some(ResolverError::TemplateError));
}

#[test]
fn condition_connectives_short_circuit() {
    let t = Condition::BoolLit(true);
    let bad = Condition::Cmp(
        CmpOp::Eq,
        CondOperand::Ref("nope".to_string()),
        CondOperand::Lit(Value::Uint(1)),
    );
    // Or stops at the true left arm and never sees the bad right arm
    let or = Condition::Or(Box::new(t), Box::new(bad));
    assert_eq!(resolve_cond(ctx(), &or, &Vec::new()), Ok(true));
    // And stops at the false left arm likewise
    let bad2 = Condition::Cmp(
        CmpOp::Eq,
        CondOperand::Ref("nope".to_string()),
        CondOperand::Lit(Value::Uint(1)),
    );
    let and = Condition::And(Box::new(Condition::BoolLit(false)), Box::new(bad2));
    assert_eq!(resolve_cond(ctx(), &and, &Vec::new()), Ok(false));
}

#[test]
fn expired_compares_against_block_time() {
    let past = Condition::Expired(CondOperand::Lit(Value::Uint(1_600_000_000)));
    let future = Condition::Expired(CondOperand::Lit(Value::Uint(1_800_000_000)));
    assert_eq!(resolve_cond(ctx(), &past, &Vec::new()), Ok(true));
    assert_eq!(resolve_cond(ctx(), &future, &Vec::new()), Ok(false));
}

#[test]
fn has_value_reports_resolution_state() {
    let unresolved = static_var("a", VariableKind::Uint, "1");
    let vars = vec![unresolved];
    let c = Condition::HasValue("a".to_string());
    assert_eq!(resolve_cond(ctx(), &c, &vars), Ok(false));
    let resolved = hydrate_vars(ctx(), vars, None, Vec::new()).unwrap();
    assert_eq!(resolve_cond(ctx(), &c, &resolved), Ok(true));
}

fn bank_template() -> String {
    let mut t = String::from(r#"[{"bank":{"send":{"to_address":"$warp.variable.addr","#);
    t.push_str(r#""amount":[{"denom":"uatom","amount":"$warp.variable.amt"}]}}}]"#);
    t
}

#[test]
fn validation_accepts_consistent_job() {
    let vars = vec![
        static_var("addr", VariableKind::String, "terra1"),
        static_var("amt", VariableKind::Uint, "100"),
    ];
    let cond = r#"{"cmp":"$warp.variable.amt"}"#;
    let r = validate_job_creation(cond, &None, &vars, &bank_template());
    assert_eq!(r, Ok(()));
}

#[test]
fn validation_rejects_duplicate_names() {
    let vars = vec![
        static_var("amt", VariableKind::Uint, "1"),
        static_var("amt", VariableKind::Uint, "2"),
    ];
    let r = validate_job_creation("$warp.variable.amt", &None, &vars, "[]");
    assert_eq!(r.err(), Some(ResolverError::VariablesContainDuplicates));
}

#[test]
fn validation_rejects_undeclared_placeholder() {
    let vars = vec![static_var("amt", VariableKind::Uint, "1")];
    let r = validate_job_creation(
        "$warp.variable.amt and $warp.variable.other",
        &None,
        &vars,
        "[]",
    );
    assert_eq!(r.err(), Some(ResolverError::VariablesMissingFromTemplates));
}

#[test]
fn validation_rejects_unreferenced_variable() {
    let vars = vec![
        static_var("amt", VariableKind::Uint, "1"),
        static_var("dead", VariableKind::Uint, "2"),
    ];
    let r = validate_job_creation("$warp.variable.amt", &None, &vars, "[]");
    assert_eq!(r.err(), Some(ResolverError::ExcessVariablesInTemplates));
}

#[test]
fn validation_rejects_bad_name() {
    let vars = vec![static_var("", VariableKind::Uint, "1")];
    let r = validate_job_creation("", &None, &vars, "[]");
    assert_eq!(r.err(), Some(ResolverError::InvalidVariables));
}

#[test]
fn validation_rejects_malformed_instructions() {
    let vars = vec![static_var("amt", VariableKind::Uint, "1")];
    let r = validate_job_creation("", &None, &vars, "$warp.variable.amt not instructions");
    assert_eq!(r.err(), Some(ResolverError::InvalidInstructions));
}

#[test]
fn validation_checks_terminate_condition_placeholders() {
    let vars = vec![
        static_var("addr", VariableKind::String, "terra1"),
        static_var("amt", VariableKind::Uint, "100"),
        static_var("stop", VariableKind::Uint, "9"),
    ];
    let tc = Some("$warp.variable.stop".to_string());
    let r = validate_job_creation("$warp.variable.amt", &tc, &vars, &bank_template());
    assert_eq!(r, Ok(()));
}

#[test]
fn variables_resolve_in_declaration_order() {
    // the second variable's expression reads the first one
    let base = static_var("base", VariableKind::Uint, "10");
    let derived = Variable::Static(StaticVariable {
        kind: VariableKind::Uint,
        name: "double".to_string(),
        encode: false,
        init_fn: FnValue::Expr(FnExpr {
            op: FnOp::Add,
            args: vec![
                FnOperand::Ref("base".to_string()),
                FnOperand::Ref("base".to_string()),
            ],
        }),
        reinitialize: false,
        value: None,
        update_fn: None,
    });
    let resolved = hydrate_vars(ctx(), vec![base, derived], None, Vec::new()).unwrap();
    assert_eq!(value_of(&resolved[1]), Some("20".to_string()));
}

#[test]
fn validation_helpers_are_exact() {
    let vars = vec![
        static_var("amt", VariableKind::Uint, "1"),
        static_var("addr", VariableKind::String, "x"),
    ];
    assert!(resolver::vars_valid(&vars));
    assert!(!resolver::has_duplicates(&vars));
    // "amt" is declared, "ghost" is not
    assert!(resolver::string_vars_in_vector(&vars, "pay $warp.variable.amt now"));
    assert!(!resolver::string_vars_in_vector(&vars, "pay $warp.variable.ghost now"));
    // a name is the whole run of name characters: "amtx" is not "amt"
    assert!(!resolver::string_vars_in_vector(&vars, "$warp.variable.amtx"));
    assert!(resolver::all_vector_vars_present(
        &vars,
        "$warp.variable.amt $warp.variable.addr"
    ));
    assert!(!resolver::all_vector_vars_present(&vars, "$warp.variable.amt only"));
}

#[test]
fn msgs_valid_checks_instruction_shape() {
    let vars = vec![
        static_var("addr", VariableKind::String, "terra1"),
        static_var("amt", VariableKind::Uint, "100"),
    ];
    assert_eq!(resolver::msgs_valid(&bank_template(), &vars), Ok(true));
    assert_eq!(resolver::msgs_valid("plainly not a message", &vars), Ok(false));
}
