use vstd::prelude::*;

use crate::errors::ResolverError;
use crate::fns::{eval_fn_expr, spec_eval_fn, FnExpr};
use crate::json::{json_to_value, select_chars, spec_json_value, spec_select, Json};
use crate::text::to_chars;
use crate::value::{
    format_value, parse_kind_chars, spec_format, spec_parse_kind, Value, ValueModel, VariableKind,
};
use crate::variable::{
    same_decl, var_kind, var_name, var_reinit, var_update_fn, var_value, EvalCtx, ExternalInput,
    ExternalVariable, FnValue, JobStatus, QueryResponse, QueryVariable, StaticVariable, Variable,
};

verus! {

/// Whether a typed value belongs to a declared kind.
pub open spec fn kind_matches(k: VariableKind, v: ValueModel) -> bool {
    match (k, v) {
        (VariableKind::String, ValueModel::Text(_)) => true,
        (VariableKind::Asset, ValueModel::Text(_)) => true,
        (VariableKind::Uint, ValueModel::Uint(_)) => true,
        (VariableKind::Amount, ValueModel::Uint(_)) => true,
        (VariableKind::Timestamp, ValueModel::Uint(_)) => true,
        (VariableKind::Int, ValueModel::Int(_)) => true,
        (VariableKind::Decimal, ValueModel::Dec(_)) => true,
        (VariableKind::Bool, ValueModel::Bool(_)) => true,
        _ => false,
    }
}

fn kind_matches_exec(k: VariableKind, v: &Value) -> (r: bool)
    ensures
        r == kind_matches(k, v@),
{
    match (k, v) {
        (VariableKind::String, Value::Text(_)) => true,
        (VariableKind::Asset, Value::Text(_)) => true,
        (VariableKind::Uint, Value::Uint(_)) => true,
        (VariableKind::Amount, Value::Uint(_)) => true,
        (VariableKind::Timestamp, Value::Uint(_)) => true,
        (VariableKind::Int, Value::Int(_)) => true,
        (VariableKind::Decimal, Value::Dec(_)) => true,
        (VariableKind::Bool, Value::Bool(_)) => true,
        _ => false,
    }
}

/// The first caller-supplied input with the given key, scanning from `i`.
pub open spec fn lookup_input_from(inputs: Seq<ExternalInput>, name: Seq<char>, i: int) -> Option<
    Seq<char>,
>
    decreases inputs.len() - i,
{
    if i < 0 || i >= inputs.len() {
        None
    } else if inputs[i].name@ == name {
        Some(inputs[i].input@)
    } else {
        lookup_input_from(inputs, name, i + 1)
    }
}

pub open spec fn lookup_input(inputs: Seq<ExternalInput>, name: Seq<char>) -> Option<Seq<char>> {
    lookup_input_from(inputs, name, 0)
}

/// The first query response recorded for the given variable name.
pub open spec fn lookup_response_from(rs: Seq<QueryResponse>, name: Seq<char>, i: int) -> Option<
    Json,
>
    decreases rs.len() - i,
{
    if i < 0 || i >= rs.len() {
        None
    } else if rs[i].name@ == name {
        Some(rs[i].response)
    } else {
        lookup_response_from(rs, name, i + 1)
    }
}

pub open spec fn lookup_response(rs: Seq<QueryResponse>, name: Seq<char>) -> Option<Json> {
    lookup_response_from(rs, name, 0)
}

/// The text a variable resolves to against the variables already
/// resolved before it. A resolved, non-reinitializing variable keeps its
/// cached text; a static variable parses its literal or evaluates its
/// expression at its declared kind; an external variable reads the
/// caller input under its key; a query variable walks its selector into
/// the response recorded under the variable's name. Every resolved
/// value is stored in canonical text form.
pub open spec fn spec_resolve_var_text(
    ctx: EvalCtx,
    v: Variable,
    acc: Seq<Variable>,
    inputs: Seq<ExternalInput>,
    responses: Seq<QueryResponse>,
) -> Result<Seq<char>, ResolverError> {
    match v {
        Variable::Static(s) => if s.value is Some && !s.reinitialize {
            Ok(s.value->Some_0@)
        } else {
            match s.init_fn {
                FnValue::Simple(text) => match spec_parse_kind(text@, s.kind) {
                    Err(e) => Err(e),
                    Ok(val) => Ok(spec_format(val)),
                },
                FnValue::Expr(f) => match spec_eval_fn(ctx, f, acc) {
                    Err(e) => Err(e),
                    Ok(val) => if kind_matches(s.kind, val) {
                        Ok(spec_format(val))
                    } else {
                        Err(ResolverError::TypeConversionFailed)
                    },
                },
            }
        },
        Variable::External(e) => if e.value is Some && !e.reinitialize {
            Ok(e.value->Some_0@)
        } else {
            match lookup_input(inputs, e.init_fn.name@) {
                None => Err(ResolverError::ExternalInputMissing),
                Some(text) => match spec_parse_kind(text, e.kind) {
                    Err(er) => Err(er),
                    Ok(val) => Ok(spec_format(val)),
                },
            }
        },
        Variable::Query(q) => if q.value is Some && !q.reinitialize {
            Ok(q.value->Some_0@)
        } else {
            match lookup_response(responses, q.name@) {
                None => Err(ResolverError::QueryFailed),
                Some(resp) => match spec_select(resp, q.init_fn.selector@) {
                    Err(er) => Err(er),
                    Ok(leaf) => match spec_json_value(leaf, q.kind) {
                        Err(er) => Err(er),
                        Ok(val) => Ok(spec_format(val)),
                    },
                },
            }
        },
    }
}

fn find_input(inputs: &Vec<ExternalInput>, name: &String) -> (r: Option<usize>)
    ensures
        match r {
            Some(i) => i < inputs@.len() && lookup_input(inputs@, name@) == Some(
                inputs@[i as int].input@,
            ),
            None => lookup_input(inputs@, name@) == None::<Seq<char>>,
        },
{
    let n = inputs.len();
    let mut i: usize = 0;
    while i < n
        invariant
            0 <= i <= n,
            n == inputs@.len(),
            lookup_input(inputs@, name@) == lookup_input_from(inputs@, name@, i as int),
        decreases n - i,
    {
        if inputs[i].name.eq(name) {
            return Some(i);
        }
        i += 1;
    }
    None
}

fn find_response<'a>(rs: &'a Vec<QueryResponse>, name: &String) -> (r: Option<&'a Json>)
    ensures
        match r {
            Some(j) => lookup_response(rs@, name@) == Some(*j),
            None => lookup_response(rs@, name@) == None::<Json>,
        },
{
    let n = rs.len();
    let mut i: usize = 0;
    while i < n
        invariant
            0 <= i <= n,
            n == rs@.len(),
            lookup_response(rs@, name@) == lookup_response_from(rs@, name@, i as int),
        decreases n - i,
    {
        if rs[i].name.eq(name) {
            return Some(&rs[i].response);
        }
        i += 1;
    }
    None
}

/// Resolve one variable against the already-resolved prefix.
pub fn hydrate_one(
    ctx: EvalCtx,
    v: Variable,
    acc: &Vec<Variable>,
    inputs: &Vec<ExternalInput>,
    responses: &Vec<QueryResponse>,
) -> (r: Result<Variable, ResolverError>)
    ensures
        match r {
            Ok(out) => {
                &&& spec_resolve_var_text(ctx, v, acc@, inputs@, responses@) matches Ok(text)
                &&& same_decl(v, out)
                &&& var_value(out) == Some(
                    spec_resolve_var_text(ctx, v, acc@, inputs@, responses@)->Ok_0,
                )
            },
            Err(e) => spec_resolve_var_text(ctx, v, acc@, inputs@, responses@) == Err::<
                Seq<char>,
                ResolverError,
            >(e),
        },
{
    match v {
        Variable::Static(s) => {
            if s.value.is_some() && !s.reinitialize {
                return Ok(Variable::Static(s));
            }
            let val: Value = match &s.init_fn {
                FnValue::Simple(text) => {
                    let t = to_chars(text.as_str());
                    match parse_kind_chars(&t, s.kind) {
                        Ok(v) => v,
                        Err(e) => {
                            return Err(e);
                        },
                    }
                },
                FnValue::Expr(f) => {
                    match eval_fn_expr(ctx, f, acc) {
                        Ok(v) => {
                            if !kind_matches_exec(s.kind, &v) {
                                return Err(ResolverError::TypeConversionFailed);
                            }
                            v
                        },
                        Err(e) => {
                            return Err(e);
                        },
                    }
                },
            };
            let text = format_value(&val);
            Ok(
                Variable::Static(
                    StaticVariable {
                        kind: s.kind,
                        name: s.name,
                        encode: s.encode,
                        init_fn: s.init_fn,
                        reinitialize: s.reinitialize,
                        value: Some(text),
                        update_fn: s.update_fn,
                    },
                ),
            )
        },
        Variable::External(e) => {
            if e.value.is_some() && !e.reinitialize {
                return Ok(Variable::External(e));
            }
            let val: Value = match find_input(inputs, &e.init_fn.name) {
                None => {
                    return Err(ResolverError::ExternalInputMissing);
                },
                Some(i) => {
                    let t = to_chars(inputs[i].input.as_str());
                    match parse_kind_chars(&t, e.kind) {
                        Ok(v) => v,
                        Err(er) => {
                            return Err(er);
                        },
                    }
                },
            };
            let text = format_value(&val);
            Ok(
                Variable::External(
                    ExternalVariable {
                        kind: e.kind,
                        name: e.name,
                        encode: e.encode,
                        init_fn: e.init_fn,
                        reinitialize: e.reinitialize,
                        value: Some(text),
                        update_fn: e.update_fn,
                    },
                ),
            )
        },
        Variable::Query(q) => {
            if q.value.is_some() && !q.reinitialize {
                return Ok(Variable::Query(q));
            }
            let val: Value = match find_response(responses, &q.name) {
                None => {
                    return Err(ResolverError::QueryFailed);
                },
                Some(resp) => {
                    let sel = to_chars(q.init_fn.selector.as_str());
                    match select_chars(resp, &sel) {
                        Err(er) => {
                            return Err(er);
                        },
                        Ok(leaf) => match json_to_value(leaf, q.kind) {
                            Ok(v) => v,
                            Err(er) => {
                                return Err(er);
                            },
                        },
                    }
                },
            };
            let text = format_value(&val);
            Ok(
                Variable::Query(
                    QueryVariable {
                        kind: q.kind,
                        name: q.name,
                        encode: q.encode,
                        init_fn: q.init_fn,
                        reinitialize: q.reinitialize,
                        value: Some(text),
                        update_fn: q.update_fn,
                    },
                ),
            )
        },
    }
}

/// The resolved list is the input list resolved left to right, each
/// variable against the ones before it.
pub open spec fn hydrated_ok(
    ctx: EvalCtx,
    vars: Seq<Variable>,
    inputs: Seq<ExternalInput>,
    responses: Seq<QueryResponse>,
    out: Seq<Variable>,
) -> bool {
    &&& out.len() == vars.len()
    &&& forall|i: int|
        0 <= i < vars.len() ==> {
            &&& spec_resolve_var_text(ctx, vars[i], out.subrange(0, i), inputs, responses)
                matches Ok(text)
            &&& same_decl(vars[i], #[trigger] out[i])
            &&& var_value(out[i]) == Some(
                spec_resolve_var_text(ctx, vars[i], out.subrange(0, i), inputs, responses)->Ok_0,
            )
        }
}

/// The caller-supplied inputs as a sequence; none means no inputs.
pub open spec fn inputs_view(external_inputs: Option<Vec<ExternalInput>>) -> Seq<ExternalInput> {
    match external_inputs {
        Some(inp) => inp@,
        None => Seq::empty(),
    }
}

/// Resolve every variable in declaration order; each variable may
/// reference the variables declared before it. The first failure aborts
/// the cycle: it is the failure of resolving some variable against a
/// correctly resolved prefix.
pub fn hydrate_vars(
    ctx: EvalCtx,
    vars: Vec<Variable>,
    external_inputs: Option<Vec<ExternalInput>>,
    query_responses: Vec<QueryResponse>,
) -> (r: Result<Vec<Variable>, ResolverError>)
    ensures
        match r {
            Ok(out) => hydrated_ok(
                ctx,
                vars@,
                inputs_view(external_inputs),
                query_responses@,
                out@,
            ),
            Err(e) => exists|i: int, ws: Seq<Variable>|
                {
                    &&& 0 <= i < vars@.len()
                    &&& #[trigger] hydrated_ok(
                        ctx,
                        vars@.subrange(0, i),
                        inputs_view(external_inputs),
                        query_responses@,
                        ws,
                    )
                    &&& spec_resolve_var_text(
                        ctx,
                        vars@[i],
                        ws,
                        inputs_view(external_inputs),
                        query_responses@,
                    ) == Err::<Seq<char>, ResolverError>(e)
                },
        },
{
    let ghost orig = vars@;
    let empty_inputs: Vec<ExternalInput> = Vec::new();
    let inputs: &Vec<ExternalInput> = match &external_inputs {
        Some(inp) => inp,
        None => &empty_inputs,
    };
    let mut rem = vars;
    let mut out: Vec<Variable> = Vec::new();
    loop
        invariant
            orig == vars@,
            out@.len() + rem@.len() == orig.len(),
            rem@ == orig.subrange(out@.len() as int, orig.len() as int),
            inputs@ == inputs_view(external_inputs),
            hydrated_ok(ctx, orig.subrange(0, out@.len() as int), inputs@, query_responses@, out@),
        decreases rem@.len(),
    {
        if rem.len() == 0 {
            proof {
                assert(orig.subrange(0, out@.len() as int) =~= orig);
            }
            return Ok(out);
        }
        let ghost i = out@.len() as int;
        let v = rem.remove(0);
        proof {
            assert(v == orig[i]);
            assert(rem@ =~= orig.subrange(i + 1, orig.len() as int));
        }
        match hydrate_one(ctx, v, &out, inputs, &query_responses) {
            Ok(nv) => {
                let ghost out_old = out@;
                out.push(nv);
                proof {
                    assert(out_old =~= out@.subrange(0, i));
                    assert forall|j: int| 0 <= j <= i implies out@.subrange(0, j)
                        == out_old.subrange(0, j) by {
                        assert(out@.subrange(0, j) =~= out_old.subrange(0, j));
                    }
                }
            },
            Err(e) => {
                proof {
                    assert(hydrated_ok(
                        ctx,
                        orig.subrange(0, i),
                        inputs_view(external_inputs),
                        query_responses@,
                        out@,
                    ));
                }
                return Err(e);
            },
        }
    }
}

/// The value carried into the next cycle for one variable: its update
/// expression under the job's terminal status evaluated against the
/// prior values, the prior value unchanged when no expression applies,
/// or cleared for a reinitializing external or query variable without
/// an update expression. A non-terminal status selects nothing and
/// fails with `NoUpdateForStatus`.
pub open spec fn spec_update_var_value(
    ctx: EvalCtx,
    v: Variable,
    all_vars: Seq<Variable>,
    status: JobStatus,
) -> Result<Option<Seq<char>>, ResolverError> {
    match var_update_fn(v) {
        Some(uf) => {
            if status == JobStatus::Executed || status == JobStatus::Failed {
                let expr_opt = if status == JobStatus::Executed {
                    uf.on_success
                } else {
                    uf.on_error
                };
                match expr_opt {
                    None => Ok(var_value(v)),
                    Some(f) => match spec_eval_fn(ctx, f, all_vars) {
                        Err(e) => Err(e),
                        Ok(val) => if kind_matches(var_kind(v), val) {
                            Ok(Some(spec_format(val)))
                        } else {
                            Err(ResolverError::TypeConversionFailed)
                        },
                    },
                }
            } else {
                Err(ResolverError::NoUpdateForStatus)
            }
        },
        None => if var_reinit(v) && !(v is Static) {
            Ok(None)
        } else {
            Ok(var_value(v))
        },
    }
}

/// Each output variable keeps its declaration and carries the updated
/// value; every update expression reads the prior values.
pub open spec fn updated_ok(
    ctx: EvalCtx,
    vars: Seq<Variable>,
    status: JobStatus,
    out: Seq<Variable>,
) -> bool {
    &&& out.len() == vars.len()
    &&& forall|i: int|
        0 <= i < vars.len() ==> {
            &&& spec_update_var_value(ctx, vars[i], vars, status) matches Ok(val)
            &&& same_decl(vars[i], #[trigger] out[i])
            &&& var_value(out[i]) == spec_update_var_value(ctx, vars[i], vars, status)->Ok_0
        }
}

fn set_var_value(v: Variable, value: Option<String>) -> (r: Variable)
    ensures
        same_decl(v, r),
        var_value(r) == match value {
            Some(s) => Some(s@),
            None => None::<Seq<char>>,
        },
{
    match v {
        Variable::Static(s) => Variable::Static(
            StaticVariable {
                kind: s.kind,
                name: s.name,
                encode: s.encode,
                init_fn: s.init_fn,
                reinitialize: s.reinitialize,
                value,
                update_fn: s.update_fn,
            },
        ),
        Variable::External(e) => Variable::External(
            ExternalVariable {
                kind: e.kind,
                name: e.name,
                encode: e.encode,
                init_fn: e.init_fn,
                reinitialize: e.reinitialize,
                value,
                update_fn: e.update_fn,
            },
        ),
        Variable::Query(q) => Variable::Query(
            QueryVariable {
                kind: q.kind,
                name: q.name,
                encode: q.encode,
                init_fn: q.init_fn,
                reinitialize: q.reinitialize,
                value,
                update_fn: q.update_fn,
            },
        ),
    }
}

/// Compute the next value of one variable, without changing it.
fn update_value_for(ctx: EvalCtx, v: &Variable, all_vars: &Vec<Variable>, status: JobStatus) -> (r:
    Result<Option<String>, ResolverError>)
    ensures
        match r {
            Ok(val) => spec_update_var_value(ctx, *v, all_vars@, status) == Ok::<
                Option<Seq<char>>,
                ResolverError,
            >(
                match val {
                    Some(s) => Some(s@),
                    None => None,
                },
            ),
            Err(e) => spec_update_var_value(ctx, *v, all_vars@, status) == Err::<
                Option<Seq<char>>,
                ResolverError,
            >(e),
        },
{
    let uf = match v {
        Variable::Static(s) => &s.update_fn,
        Variable::External(e) => &e.update_fn,
        Variable::Query(q) => &q.update_fn,
    };
    match uf {
        Some(u) => {
            if !(matches!(status, JobStatus::Executed) || matches!(status, JobStatus::Failed)) {
                return Err(ResolverError::NoUpdateForStatus);
            }
            let expr_opt: &Option<FnExpr> = if matches!(status, JobStatus::Executed) {
                &u.on_success
            } else {
                &u.on_error
            };
            match expr_opt {
                None => {
                    let cur = v.value();
                    match cur {
                        Some(s) => Ok(Some(s.clone())),
                        None => Ok(None),
                    }
                },
                Some(f) => match eval_fn_expr(ctx, f, all_vars) {
                    Err(e) => Err(e),
                    Ok(val) => {
                        if kind_matches_exec(v.kind(), &val) {
                            Ok(Some(format_value(&val)))
                        } else {
                            Err(ResolverError::TypeConversionFailed)
                        }
                    },
                },
            }
        },
        None => {
            let reinit = match v {
                Variable::Static(s) => s.reinitialize,
                Variable::External(e) => e.reinitialize,
                Variable::Query(q) => q.reinitialize,
            };
            let is_static = matches!(v, Variable::Static(_));
            if reinit && !is_static {
                Ok(None)
            } else {
                let cur = v.value();
                match cur {
                    Some(s) => Ok(Some(s.clone())),
                    None => Ok(None),
                }
            }
        },
    }
}

/// Apply every variable's update expression for the job's terminal
/// status, producing the variable list for the next cycle. All update
/// expressions read the prior values; the first failure aborts.
pub fn apply_var_fn(ctx: EvalCtx, vars: Vec<Variable>, status: JobStatus) -> (r: Result<
    Vec<Variable>,
    ResolverError,
>)
    ensures
        match r {
            Ok(out) => updated_ok(ctx, vars@, status, out@),
            Err(e) => exists|i: int|
                0 <= i < vars@.len() && spec_update_var_value(ctx, vars@[i], vars@, status) == Err::<
                    Option<Seq<char>>,
                    ResolverError,
                >(e),
        },
{
    let n = vars.len();
    let mut newvals: Vec<Option<String>> = Vec::new();
    let mut i: usize = 0;
    while i < n
        invariant
            0 <= i <= n,
            n == vars@.len(),
            newvals@.len() == i,
            forall|j: int|
                0 <= j < i ==> spec_update_var_value(ctx, vars@[j], vars@, status) == Ok::<
                    Option<Seq<char>>,
                    ResolverError,
                >(
                    match #[trigger] newvals@[j] {
                        Some(s) => Some(s@),
                        None => None,
                    },
                ),
        decreases n - i,
    {
        match update_value_for(ctx, &vars[i], &vars, status) {
            Ok(val) => {
                newvals.push(val);
            },
            Err(e) => {
                return Err(e);
            },
        }
        i += 1;
    }
    let ghost origvars = vars@;
    let ghost nvorig = newvals@;
    let mut rem = vars;
    let mut nvrem = newvals;
    let mut out: Vec<Variable> = Vec::new();
    loop
        invariant
            origvars == vars@,
            out@.len() + rem@.len() == origvars.len(),
            out@.len() + nvrem@.len() == origvars.len(),
            origvars.len() == n == nvorig.len(),
            rem@ == origvars.subrange(out@.len() as int, origvars.len() as int),
            nvrem@ == nvorig.subrange(out@.len() as int, nvorig.len() as int),
            forall|j: int|
                0 <= j < n ==> spec_update_var_value(ctx, origvars[j], origvars, status) == Ok::<
                    Option<Seq<char>>,
                    ResolverError,
                >(
                    match #[trigger] nvorig[j] {
                        Some(s) => Some(s@),
                        None => None,
                    },
                ),
            forall|j: int|
                0 <= j < out@.len() ==> same_decl(origvars[j], #[trigger] out@[j]) && var_value(
                    out@[j],
                ) == (match nvorig[j] {
                    Some(s) => Some(s@),
                    None => None::<Seq<char>>,
                }),
        decreases rem@.len(),
    {
        if rem.len() == 0 {
            return Ok(out);
        }
        let ghost i2 = out@.len() as int;
        let v = rem.remove(0);
        let val = nvrem.remove(0);
        proof {
            assert(v == origvars[i2]);
            assert(val == nvorig[i2]);
            assert(rem@ =~= origvars.subrange(i2 + 1, origvars.len() as int));
            assert(nvrem@ =~= nvorig.subrange(i2 + 1, nvorig.len() as int));
        }
        let nv = set_var_value(v, val);
        out.push(nv);
    }
}

} // verus!
