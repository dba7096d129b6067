use vstd::prelude::*;

use crate::variable::{ExternalInput, JobStatus};

verus! {

#[derive(Debug)]
pub struct InstantiateMsg {}

#[derive(Debug)]
pub struct MigrateMsg {}

/// The one mutating entry point: simulate a query and record its
/// response as an attribute.
#[derive(Debug)]
pub enum ExecuteMsg {
    ExecuteSimulateQuery(ExecuteSimulateQueryMsg),
}

/// Carries the serialized query request to simulate.
#[derive(Debug)]
pub struct ExecuteSimulateQueryMsg {
    pub query: String,
}

/// Carries the serialized query request to simulate.
#[derive(Debug)]
pub struct SimulateQueryMsg {
    pub query: String,
}

/// The read-only entry points, each wrapping one evaluation operation.
#[derive(Debug)]
pub enum QueryMsg {
    SimulateQuery(SimulateQueryMsg),
    QueryValidateJobCreation(QueryValidateJobCreationMsg),
    QueryHydrateVars(QueryHydrateVarsMsg),
    QueryResolveCondition(QueryResolveConditionMsg),
    QueryApplyVarFn(QueryApplyVarFnMsg),
    QueryHydrateMsgs(QueryHydrateMsgsMsg),
}

#[derive(Debug)]
pub struct QueryValidateJobCreationMsg {
    pub condition: String,
    pub terminate_condition: Option<String>,
    pub vars: String,
    pub msgs: String,
}

#[derive(Debug)]
pub struct QueryHydrateMsgsMsg {
    pub msgs: String,
    pub vars: String,
}

#[derive(Debug)]
pub struct QueryHydrateVarsMsg {
    pub vars: String,
    pub external_inputs: Option<Vec<ExternalInput>>,
}

#[derive(Debug)]
pub struct QueryResolveConditionMsg {
    pub condition: String,
    pub vars: String,
}

#[derive(Debug)]
pub struct QueryApplyVarFnMsg {
    pub vars: String,
    pub status: JobStatus,
}

/// The raw response text a simulated query produced.
#[derive(Debug)]
pub struct SimulateResponse {
    pub response: String,
}

#[derive(Debug)]
pub struct ResolveResponse {}

} // verus!
