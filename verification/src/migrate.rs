use vstd::prelude::*;

use crate::value::VariableKind;
use crate::variable::{
    ExternalExpr, ExternalVariable, FnValue, JobStatus, QueryExpr, QueryVariable, StaticVariable,
    UpdateFn, Variable,
};

verus! {

/// A variable in the historical schema: static variables carried a
/// plain value instead of an initializer.
#[derive(Debug)]
pub enum OldVariable {
    Static(OldStaticVariable),
    External(OldExternalVariable),
    Query(OldQueryVariable),
}

#[derive(Debug)]
pub struct OldStaticVariable {
    pub kind: VariableKind,
    pub name: String,
    pub value: String,
    pub update_fn: Option<UpdateFn>,
    pub encode: bool,
}

#[derive(Debug)]
pub struct OldExternalVariable {
    pub kind: VariableKind,
    pub name: String,
    pub encode: bool,
    pub init_fn: ExternalExpr,
    pub reinitialize: bool,
    pub value: Option<String>,
    pub update_fn: Option<UpdateFn>,
}

#[derive(Debug)]
pub struct OldQueryVariable {
    pub kind: VariableKind,
    pub name: String,
    pub encode: bool,
    pub init_fn: QueryExpr,
    pub reinitialize: bool,
    pub value: Option<String>,
    pub update_fn: Option<UpdateFn>,
}

/// The current shape a historical variable converts to: a static
/// variable becomes a resolved, non-reinitializing literal whose
/// initializer repeats its value; the other shapes carry over field
/// for field.
pub open spec fn spec_migrated(old: OldVariable, new: Variable) -> bool {
    match (old, new) {
        (OldVariable::Static(o), Variable::Static(n)) => {
            &&& n.kind == o.kind
            &&& n.name@ == o.name@
            &&& n.encode == o.encode
            &&& n.init_fn matches FnValue::Simple(t) && t@ == o.value@
            &&& n.reinitialize == false
            &&& n.value matches Some(v) && v@ == o.value@
            &&& n.update_fn == o.update_fn
        },
        (OldVariable::External(o), Variable::External(n)) => {
            &&& n.kind == o.kind
            &&& n.name@ == o.name@
            &&& n.encode == o.encode
            &&& n.init_fn == o.init_fn
            &&& n.reinitialize == o.reinitialize
            &&& n.value == o.value
            &&& n.update_fn == o.update_fn
        },
        (OldVariable::Query(o), Variable::Query(n)) => {
            &&& n.kind == o.kind
            &&& n.name@ == o.name@
            &&& n.encode == o.encode
            &&& n.init_fn == o.init_fn
            &&& n.reinitialize == o.reinitialize
            &&& n.value == o.value
            &&& n.update_fn == o.update_fn
        },
        _ => false,
    }
}

/// Convert one historical variable to the current schema.
pub fn migrate_variable(old: OldVariable) -> (r: Variable)
    ensures
        spec_migrated(old, r),
{
    match old {
        OldVariable::Static(o) => {
            let init = o.value.clone();
            Variable::Static(
                StaticVariable {
                    kind: o.kind,
                    name: o.name,
                    encode: o.encode,
                    init_fn: FnValue::Simple(init),
                    reinitialize: false,
                    value: Some(o.value),
                    update_fn: o.update_fn,
                },
            )
        },
        OldVariable::External(o) => Variable::External(
            ExternalVariable {
                kind: o.kind,
                name: o.name,
                encode: o.encode,
                init_fn: o.init_fn,
                reinitialize: o.reinitialize,
                value: o.value,
                update_fn: o.update_fn,
            },
        ),
        OldVariable::Query(o) => Variable::Query(
            QueryVariable {
                kind: o.kind,
                name: o.name,
                encode: o.encode,
                init_fn: o.init_fn,
                reinitialize: o.reinitialize,
                value: o.value,
                update_fn: o.update_fn,
            },
        ),
    }
}

/// Convert a historical variable list in order.
pub fn migrate_variables(olds: Vec<OldVariable>) -> (r: Vec<Variable>)
    ensures
        r@.len() == olds@.len(),
        forall|i: int| 0 <= i < olds@.len() ==> spec_migrated(olds@[i], #[trigger] r@[i]),
{
    let ghost orig = olds@;
    let mut rem = olds;
    let mut out: Vec<Variable> = Vec::new();
    loop
        invariant
            orig == olds@,
            out@.len() + rem@.len() == orig.len(),
            rem@ == orig.subrange(out@.len() as int, orig.len() as int),
            forall|i: int| 0 <= i < out@.len() ==> spec_migrated(orig[i], #[trigger] out@[i]),
        decreases rem@.len(),
    {
        if rem.len() == 0 {
            return out;
        }
        let ghost i = out@.len() as int;
        let o = rem.remove(0);
        proof {
            assert(o == orig[i]);
            assert(rem@ =~= orig.subrange(i + 1, orig.len() as int));
        }
        let nv = migrate_variable(o);
        out.push(nv);
    }
}

/// One execution step of a job: a condition and the instruction
/// templates it guards.
#[derive(Debug)]
pub struct Execution {
    pub condition: String,
    pub msgs: String,
}

/// A held asset, as plain values: a native denomination, a token
/// contract address, or a token contract address with a token id.
#[derive(Debug)]
pub enum AssetInfo {
    Native(String),
    Cw20(String),
    Cw721(String, String),
}

/// A stored job record in the current schema, over plain values.
#[derive(Debug)]
pub struct JobRecord {
    pub id: u64,
    pub prev_id: Option<u64>,
    pub owner: String,
    pub account: String,
    pub last_update_time: u64,
    pub name: String,
    pub description: String,
    pub labels: Vec<String>,
    pub status: JobStatus,
    pub terminate_condition: Option<String>,
    pub executions: Vec<Execution>,
    pub vars: String,
    pub recurring: bool,
    pub requeue_on_evict: bool,
    pub reward: u128,
    pub assets_to_withdraw: Vec<AssetInfo>,
}

/// A stored job record in the historical schema.
#[derive(Debug)]
pub struct OldJobRecord {
    pub id: u64,
    pub owner: String,
    pub last_update_time: u64,
    pub name: String,
    pub description: String,
    pub labels: Vec<String>,
    pub status: JobStatus,
    pub terminate_condition: Option<String>,
    pub condition: String,
    pub msgs: String,
    pub vars: String,
    pub recurring: bool,
    pub requeue_on_evict: bool,
    pub reward: u128,
    pub assets_to_withdraw: Vec<AssetInfo>,
}

/// Convert a historical job record: its single condition and template
/// set become the one execution step, the terminate condition is
/// dropped, and the already-converted variable text is stored.
pub fn migrate_job(old: OldJobRecord, account: String, new_vars: String) -> (r: JobRecord)
    ensures
        r.id == old.id,
        r.prev_id is None,
        r.owner == old.owner,
        r.account == account,
        r.last_update_time == old.last_update_time,
        r.name == old.name,
        r.description == old.description,
        r.labels == old.labels,
        r.status == old.status,
        r.terminate_condition is None,
        r.executions@.len() == 1,
        r.executions@[0].condition == old.condition,
        r.executions@[0].msgs == old.msgs,
        r.vars == new_vars,
        r.recurring == old.recurring,
        r.requeue_on_evict == old.requeue_on_evict,
        r.reward == old.reward,
        r.assets_to_withdraw == old.assets_to_withdraw,
{
    let mut executions: Vec<Execution> = Vec::new();
    executions.push(Execution { condition: old.condition, msgs: old.msgs });
    JobRecord {
        id: old.id,
        prev_id: None,
        owner: old.owner,
        account,
        last_update_time: old.last_update_time,
        name: old.name,
        description: old.description,
        labels: old.labels,
        status: old.status,
        terminate_condition: None,
        executions,
        vars: new_vars,
        recurring: old.recurring,
        requeue_on_evict: old.requeue_on_evict,
        reward: old.reward,
        assets_to_withdraw: old.assets_to_withdraw,
    }
}

} // verus!
