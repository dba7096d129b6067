use vstd::prelude::*;

use crate::errors::ResolverError;
use crate::fns::FnExpr;
use crate::json::Json;
use crate::value::{spec_parse_kind, ValueModel, VariableKind};

verus! {

/// Ambient execution context a caller passes into every evaluation:
/// the current block height and the current block time in seconds.
#[derive(Clone, Copy, Debug, PartialEq, Eq, Structural)]
pub struct EvalCtx {
    pub block_height: u64,
    pub block_time: u64,
}

/// How a static variable's initial value is written: a plain literal or
/// a function expression.
#[derive(Debug)]
pub enum FnValue {
    Simple(String),
    Expr(FnExpr),
}

/// References a caller-supplied input by key.
#[derive(Debug)]
pub struct ExternalExpr {
    pub name: String,
}

/// A state query: an opaque request handed to the query capability, and
/// a selector path walked into its response.
#[derive(Debug)]
pub struct QueryExpr {
    pub selector: String,
    pub query: String,
}

/// One caller-supplied input for an external variable.
#[derive(Debug)]
pub struct ExternalInput {
    pub name: String,
    pub input: String,
}

/// The response the query capability returned for one query variable,
/// keyed by the variable's name.
#[derive(Debug)]
pub struct QueryResponse {
    pub name: String,
    pub response: Json,
}

/// The expressions recomputing a variable after a run, chosen by the
/// job's terminal status.
#[derive(Debug)]
pub struct UpdateFn {
    pub on_success: Option<FnExpr>,
    pub on_error: Option<FnExpr>,
}

#[derive(Debug)]
pub struct StaticVariable {
    pub kind: VariableKind,
    pub name: String,
    pub encode: bool,
    pub init_fn: FnValue,
    pub reinitialize: bool,
    pub value: Option<String>,
    pub update_fn: Option<UpdateFn>,
}

#[derive(Debug)]
pub struct ExternalVariable {
    pub kind: VariableKind,
    pub name: String,
    pub encode: bool,
    pub init_fn: ExternalExpr,
    pub reinitialize: bool,
    pub value: Option<String>,
    pub update_fn: Option<UpdateFn>,
}

#[derive(Debug)]
pub struct QueryVariable {
    pub kind: VariableKind,
    pub name: String,
    pub encode: bool,
    pub init_fn: QueryExpr,
    pub reinitialize: bool,
    pub value: Option<String>,
    pub update_fn: Option<UpdateFn>,
}

/// A job variable: a named, typed value resolved from a literal, a
/// caller-supplied input, or a state query.
#[derive(Debug)]
pub enum Variable {
    Static(StaticVariable),
    External(ExternalVariable),
    Query(QueryVariable),
}

pub open spec fn var_name(v: Variable) -> Seq<char> {
    match v {
        Variable::Static(s) => s.name@,
        Variable::External(e) => e.name@,
        Variable::Query(q) => q.name@,
    }
}

pub open spec fn var_kind(v: Variable) -> VariableKind {
    match v {
        Variable::Static(s) => s.kind,
        Variable::External(e) => e.kind,
        Variable::Query(q) => q.kind,
    }
}

pub open spec fn var_encode(v: Variable) -> bool {
    match v {
        Variable::Static(s) => s.encode,
        Variable::External(e) => e.encode,
        Variable::Query(q) => q.encode,
    }
}

pub open spec fn var_reinit(v: Variable) -> bool {
    match v {
        Variable::Static(s) => s.reinitialize,
        Variable::External(e) => e.reinitialize,
        Variable::Query(q) => q.reinitialize,
    }
}

/// The cached value text, when the variable is resolved.
pub open spec fn var_value(v: Variable) -> Option<Seq<char>> {
    match v {
        Variable::Static(s) => match s.value {
            Some(t) => Some(t@),
            None => None,
        },
        Variable::External(e) => match e.value {
            Some(t) => Some(t@),
            None => None,
        },
        Variable::Query(q) => match q.value {
            Some(t) => Some(t@),
            None => None,
        },
    }
}

pub open spec fn var_update_fn(v: Variable) -> Option<UpdateFn> {
    match v {
        Variable::Static(s) => s.update_fn,
        Variable::External(e) => e.update_fn,
        Variable::Query(q) => q.update_fn,
    }
}

/// The first declared variable with the given name, scanning from `i`.
pub open spec fn lookup_var_from(vars: Seq<Variable>, name: Seq<char>, i: int) -> Option<Variable>
    decreases vars.len() - i,
{
    if i < 0 || i >= vars.len() {
        None
    } else if var_name(vars[i]) == name {
        Some(vars[i])
    } else {
        lookup_var_from(vars, name, i + 1)
    }
}

/// The first declared variable with the given name.
pub open spec fn lookup_var(vars: Seq<Variable>, name: Seq<char>) -> Option<Variable> {
    lookup_var_from(vars, name, 0)
}

/// The typed value of a resolved variable: its cached text parsed at its
/// declared kind.
pub open spec fn spec_var_value(v: Variable) -> Result<ValueModel, ResolverError> {
    match var_value(v) {
        None => Err(ResolverError::UnresolvedVariable),
        Some(text) => spec_parse_kind(text, var_kind(v)),
    }
}

impl Variable {
    /// The variable's name.
    pub fn name(&self) -> (r: &String)
        ensures
            r@ == var_name(*self),
    {
        match self {
            Variable::Static(s) => &s.name,
            Variable::External(e) => &e.name,
            Variable::Query(q) => &q.name,
        }
    }

    /// The variable's declared kind.
    pub fn kind(&self) -> (r: VariableKind)
        ensures
            r == var_kind(*self),
    {
        match self {
            Variable::Static(s) => s.kind,
            Variable::External(e) => e.kind,
            Variable::Query(q) => q.kind,
        }
    }

    /// The variable's cached value text, if resolved.
    pub fn value(&self) -> (r: &Option<String>)
        ensures
            var_value(*self) == match r {
                Some(t) => Some(t@),
                None => None::<Seq<char>>,
            },
    {
        match self {
            Variable::Static(s) => &s.value,
            Variable::External(e) => &e.value,
            Variable::Query(q) => &q.value,
        }
    }

    /// Whether the resolved value is wrapped when substituted into text.
    pub fn encode(&self) -> (r: bool)
        ensures
            r == var_encode(*self),
    {
        match self {
            Variable::Static(s) => s.encode,
            Variable::External(e) => e.encode,
            Variable::Query(q) => q.encode,
        }
    }
}

/// A job's status when update expressions are applied; only the two
/// terminal outcomes select an update expression.
#[derive(Clone, Copy, Debug, PartialEq, Eq, Structural)]
pub enum JobStatus {
    Pending,
    Executed,
    Failed,
    Cancelled,
    Evicted,
}

/// Declarations equal field for field, the cached value aside.
pub open spec fn same_decl(a: Variable, b: Variable) -> bool {
    match (a, b) {
        (Variable::Static(x), Variable::Static(y)) => {
            &&& x.kind == y.kind
            &&& x.name == y.name
            &&& x.encode == y.encode
            &&& x.init_fn == y.init_fn
            &&& x.reinitialize == y.reinitialize
            &&& x.update_fn == y.update_fn
        },
        (Variable::External(x), Variable::External(y)) => {
            &&& x.kind == y.kind
            &&& x.name == y.name
            &&& x.encode == y.encode
            &&& x.init_fn == y.init_fn
            &&& x.reinitialize == y.reinitialize
            &&& x.update_fn == y.update_fn
        },
        (Variable::Query(x), Variable::Query(y)) => {
            &&& x.kind == y.kind
            &&& x.name == y.name
            &&& x.encode == y.encode
            &&& x.init_fn == y.init_fn
            &&& x.reinitialize == y.reinitialize
            &&& x.update_fn == y.update_fn
        },
        _ => false,
    }
}

/// Index of the first variable with the given name.
pub(crate) fn find_var(vars: &Vec<Variable>, name: &String) -> (r: Option<usize>)
    ensures
        match r {
            Some(i) => i < vars@.len() && lookup_var(vars@, name@) == Some(vars@[i as int]),
            None => lookup_var(vars@, name@) == None::<Variable>,
        },
{
    let n = vars.len();
    let mut i: usize = 0;
    while i < n
        invariant
            0 <= i <= n,
            n == vars@.len(),
            lookup_var(vars@, name@) == lookup_var_from(vars@, name@, i as int),
        decreases n - i,
    {
        if vars[i].name().eq(name) {
            return Some(i);
        }
        i += 1;
    }
    None
}

} // verus!
