//! A variable resolution and condition evaluation engine for automated
//! jobs. A job declares typed variables drawn from literals, caller
//! inputs or state queries, a boolean trigger condition over them, and
//! instruction templates carrying placeholders; this crate validates a
//! definition's internal consistency, resolves the variables, evaluates
//! the condition, substitutes resolved values into the templates, and
//! computes next-cycle values after a run. Every function carries a
//! contract stating exactly what it returns, and the engine is pure:
//! results depend only on the arguments.

use vstd::prelude::*;

mod accounts;
mod condition;
mod config;
mod errors;
mod fns;
mod hydrate;
mod json;
mod laws;
mod migrate;
mod msgs;
mod template;
mod text;
mod value;
mod variable;

pub use accounts::{
    find_funding_account, first_free_funding_account, to_accounts, withdraw_cw20_decision,
    withdraw_cw721_decision, withdraw_native_decision, Account, FundingAccount, WithdrawMsg,
};
pub use condition::{resolve_cond, CondOperand, Condition};
pub use config::{apply_config_update, Config, ConfigError, UpdateConfigMsg};
pub use errors::ResolverError;
pub use fns::{clone_value, eval_fn_expr, FnExpr, FnOp, FnOperand};
pub use hydrate::{apply_var_fn, hydrate_one, hydrate_vars};
pub use json::{json_to_value, resolve_query_expr, select_path, Json};
pub use laws::{
    lemma_canonical_text_parses_back, lemma_static_resolution_idempotent, lemma_undeclared_reference_rejected,
    lemma_validation_accepts, lemma_validation_rejects_duplicates,
    lemma_validation_rejects_undeclared_placeholder, lemma_validation_rejects_unreferenced_variable,
};
pub use migrate::{
    migrate_job, migrate_variable, migrate_variables, AssetInfo, Execution, JobRecord,
    OldExternalVariable, OldJobRecord, OldQueryVariable, OldStaticVariable, OldVariable,
};
pub use msgs::{
    ExecuteMsg, ExecuteSimulateQueryMsg, InstantiateMsg, MigrateMsg, QueryApplyVarFnMsg,
    QueryHydrateMsgsMsg, QueryHydrateVarsMsg, QueryMsg, QueryResolveConditionMsg,
    QueryValidateJobCreationMsg, ResolveResponse, SimulateQueryMsg, SimulateResponse,
};
pub use template::{
    all_vector_vars_present, has_duplicates, hydrate_msgs, msgs_valid, string_vars_in_vector,
    validate_job_creation, vars_valid,
};
pub use value::{compare_values, format_value, parse_value, CmpOp, Value, VariableKind};
pub use variable::{
    EvalCtx, ExternalExpr, ExternalInput, ExternalVariable, FnValue, JobStatus, QueryExpr,
    QueryResponse, QueryVariable, StaticVariable, UpdateFn, Variable,
};

verus! {

} // verus!
