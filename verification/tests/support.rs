use resolver::{
    apply_config_update, find_funding_account, first_free_funding_account, migrate_job,
    migrate_variable, migrate_variables, to_accounts, withdraw_cw20_decision,
    withdraw_cw721_decision, withdraw_native_decision, Config, ConfigError, FnValue,
    FundingAccount, JobStatus, OldJobRecord, OldStaticVariable, OldVariable, UpdateConfigMsg,
    Variable, VariableKind, WithdrawMsg,
};

fn base_config() -> Config {
    Config {
        owner: "owner".to_string(),
        fee_collector: "collector".to_string(),
        minimum_reward: 100,
        creation_fee_percentage: 5,
        cancellation_fee_percentage: 5,
        a_max: 1000,
        a_min: 10,
        t_max: 100,
        t_min: 1,
        q_max: 20,
    }
}

fn empty_update() -> UpdateConfigMsg {
    UpdateConfigMsg {
        owner: None,
        fee_collector: None,
        minimum_reward: None,
        creation_fee_percentage: None,
        cancellation_fee_percentage: None,
        a_max: None,
        a_min: None,
        t_max: None,
        t_min: None,
        q_max: None,
    }
}

#[test]
fn config_update_keeps_absent_fields() {
    let out = apply_config_update(base_config(), empty_update()).unwrap();
    assert_eq!(out.owner, "owner");
    assert_eq!(out.minimum_reward, 100);
    assert_eq!(out.q_max, 20);
}

#[test]
fn config_update_applies_present_fields() {
    let mut msg = empty_update();
    msg.owner = Some("newowner".to_string());
    msg.q_max = Some(50);
    let out = apply_config_update(base_config(), msg).unwrap();
    assert_eq!(out.owner, "newowner");
    assert_eq!(out.q_max, 50);
}

#[test]
fn config_update_rejects_crossed_fee_bounds() {
    let mut msg = empty_update();
    msg.a_max = Some(5);
    let r = apply_config_update(base_config(), msg);
    assert_eq!(r.err(), Some(ConfigError::MaxFeeUnderMinFee));
}

#[test]
fn config_update_rejects_crossed_time_bounds() {
    let mut msg = empty_update();
    msg.t_min = Some(200);
    let r = apply_config_update(base_config(), msg);
    assert_eq!(r.err(), Some(ConfigError::MaxTimeUnderMinTime));
}

#[test]
fn config_update_rejects_reward_below_fee() {
    let mut msg = empty_update();
    msg.minimum_reward = Some(5);
    let r = apply_config_update(base_config(), msg);
    assert_eq!(r.err(), Some(ConfigError::RewardSmallerThanFee));
}

#[test]
fn config_update_caps_percentages() {
    let mut msg = empty_update();
    msg.creation_fee_percentage = Some(101);
    assert_eq!(
        apply_config_update(base_config(), msg).err(),
        Some(ConfigError::CreationFeeTooHigh)
    );
    let mut msg2 = empty_update();
    msg2.cancellation_fee_percentage = Some(101);
    assert_eq!(
        apply_config_update(base_config(), msg2).err(),
        Some(ConfigError::CancellationFeeTooHigh)
    );
}

#[test]
fn migrate_static_variable_seeds_initializer() {
    let old = OldVariable::Static(OldStaticVariable {
        kind: VariableKind::Uint,
        name: "price".to_string(),
        value: "100".to_string(),
        update_fn: None,
        encode: false,
    });
    let new = migrate_variable(old);
    match new {
        Variable::Static(s) => {
            assert_eq!(s.name, "price");
            assert_eq!(s.value, Some("100".to_string()));
            assert!(!s.reinitialize);
            match s.init_fn {
                FnValue::Simple(t) => assert_eq!(t, "100"),
                _ => panic!("expected a literal initializer"),
            }
        },
        _ => panic!("expected a static variable"),
    }
}

#[test]
fn migrate_variables_keeps_order() {
    let olds = vec![
        OldVariable::Static(OldStaticVariable {
            kind: VariableKind::Uint,
            name: "a".to_string(),
            value: "1".to_string(),
            update_fn: None,
            encode: false,
        }),
        OldVariable::Static(OldStaticVariable {
            kind: VariableKind::Uint,
            name: "b".to_string(),
            value: "2".to_string(),
            update_fn: None,
            encode: true,
        }),
    ];
    let news = migrate_variables(olds);
    assert_eq!(news.len(), 2);
    assert_eq!(news[0].name().as_str(), "a");
    assert_eq!(news[1].name().as_str(), "b");
}

#[test]
fn migrate_job_wraps_single_execution() {
    let old = OldJobRecord {
        id: 9,
        owner: "terra1owner".to_string(),
        last_update_time: 123,
        name: "job".to_string(),
        description: "d".to_string(),
        labels: vec!["l1".to_string()],
        status: JobStatus::Pending,
        terminate_condition: Some("tc".to_string()),
        condition: "cond".to_string(),
        msgs: "msgs".to_string(),
        vars: "oldvars".to_string(),
        recurring: true,
        requeue_on_evict: false,
        reward: 55,
        assets_to_withdraw: vec![],
    };
    let new = migrate_job(old, "terra1account".to_string(), "newvars".to_string());
    assert_eq!(new.id, 9);
    assert_eq!(new.prev_id, None);
    assert_eq!(new.account, "terra1account");
    assert_eq!(new.executions.len(), 1);
    assert_eq!(new.executions[0].condition, "cond");
    assert_eq!(new.executions[0].msgs, "msgs");
    assert_eq!(new.vars, "newvars");
    assert_eq!(new.terminate_condition, None);
}

fn funding(addr: &str, jobs: Vec<u64>) -> FundingAccount {
    FundingAccount { account_addr: addr.to_string(), taken_by_job_ids: jobs }
}

#[test]
fn first_free_funding_account_skips_taken() {
    let accounts = vec![
        funding("a1", vec![1]),
        funding("a2", vec![]),
        funding("a3", vec![]),
    ];
    assert_eq!(first_free_funding_account(&accounts), Some(1));
    let taken = vec![funding("a1", vec![1])];
    assert_eq!(first_free_funding_account(&taken), None);
}

#[test]
fn find_funding_account_matches_address() {
    let accounts = vec![funding("a1", vec![]), funding("a2", vec![7])];
    assert_eq!(find_funding_account(&accounts, &"a2".to_string()), Some(1));
    assert_eq!(find_funding_account(&accounts, &"zz".to_string()), None);
}

#[test]
fn to_accounts_maps_pairs() {
    let page = to_accounts(vec![("x".to_string(), 4), ("y".to_string(), 5)]);
    assert_eq!(page.len(), 2);
    assert_eq!(page[0].addr, "x");
    assert_eq!(page[0].taken_by_job_id, Some(4));
    assert_eq!(page[1].addr, "y");
}

#[test]
fn withdraw_decisions_follow_balances() {
    assert!(withdraw_native_decision(0, "o".to_string(), "uatom".to_string()).is_none());
    match withdraw_native_decision(5, "o".to_string(), "uatom".to_string()) {
        Some(WithdrawMsg::NativeSend { to, denom, amount }) => {
            assert_eq!(to, "o");
            assert_eq!(denom, "uatom");
            assert_eq!(amount, 5);
        },
        _ => panic!("expected a native send"),
    }
    assert!(withdraw_cw20_decision(0, "o".to_string(), "t".to_string()).is_none());
    assert!(withdraw_cw20_decision(1, "o".to_string(), "t".to_string()).is_some());
    let held = withdraw_cw721_decision(
        &"o".to_string(),
        "o".to_string(),
        "t".to_string(),
        "id".to_string(),
    );
    assert!(held.is_some());
    let lost = withdraw_cw721_decision(
        &"other".to_string(),
        "o".to_string(),
        "t".to_string(),
        "id".to_string(),
    );
    assert!(lost.is_none());
}
