use vstd::prelude::*;

use crate::errors::ResolverError;
use crate::text::{chars_eq_str, to_chars};
use crate::value::{spec_parse_kind, spec_parse_uint, Value, ValueModel, VariableKind};
use crate::variable::QueryExpr;

verus! {

/// A structured query response: the JSON-like data a state query hands
/// back, with numbers kept as their literal text.
#[derive(Debug)]
pub enum Json {
    Null,
    Bool(bool),
    Num(String),
    Str(String),
    Arr(Vec<Json>),
    Obj(Vec<(String, Json)>),
}

/// The value under the first pair with the given key, scanning from `i`.
pub open spec fn obj_lookup_from(ps: Seq<(String, Json)>, key: Seq<char>, i: int) -> Option<Json>
    decreases ps.len() - i,
{
    if i < 0 || i >= ps.len() {
        None
    } else if ps[i].0@ == key {
        Some(ps[i].1)
    } else {
        obj_lookup_from(ps, key, i + 1)
    }
}

/// One selector step: a key into an object, or a numeric index into an
/// array; anything else misses.
pub open spec fn spec_step(j: Json, seg: Seq<char>) -> Result<Json, ResolverError> {
    match j {
        Json::Obj(ps) => match obj_lookup_from(ps@, seg, 0) {
            Some(v) => Ok(v),
            None => Err(ResolverError::SelectorNotFound),
        },
        Json::Arr(items) => match spec_parse_uint(seg) {
            Some(n) => if n < items@.len() {
                Ok(items@[n as int])
            } else {
                Err(ResolverError::SelectorNotFound)
            },
            None => Err(ResolverError::SelectorNotFound),
        },
        _ => Err(ResolverError::SelectorNotFound),
    }
}

/// Walk the selector from position `i`, with `seg` the segment text read
/// since the last dot.
pub open spec fn spec_select_acc(j: Json, sel: Seq<char>, i: int, seg: Seq<char>) -> Result<
    Json,
    ResolverError,
>
    decreases sel.len() - i,
{
    if i < 0 || i >= sel.len() {
        spec_step(j, seg)
    } else if sel[i] == '.' {
        match spec_step(j, seg) {
            Ok(j2) => spec_select_acc(j2, sel, i + 1, Seq::empty()),
            Err(e) => Err(e),
        }
    } else {
        spec_select_acc(j, sel, i + 1, seg.push(sel[i]))
    }
}

/// The value a dot-separated selector extracts from a response; the
/// empty selector selects the whole response.
pub open spec fn spec_select(j: Json, sel: Seq<char>) -> Result<Json, ResolverError> {
    if sel.len() == 0 {
        Ok(j)
    } else {
        spec_select_acc(j, sel, 0, Seq::empty())
    }
}

/// A `Result` around a borrowed response, with the reference dropped.
pub open spec fn json_result_model(r: Result<&Json, ResolverError>) -> Result<Json, ResolverError> {
    match r {
        Ok(j) => Ok(*j),
        Err(e) => Err(e),
    }
}

fn exec_step<'a>(j: &'a Json, seg: &Vec<char>) -> (r: Result<&'a Json, ResolverError>)
    ensures
        json_result_model(r) == spec_step(*j, seg@),
{
    match j {
        Json::Obj(ps) => {
            let n = ps.len();
            let mut i: usize = 0;
            while i < n
                invariant
                    0 <= i <= n,
                    n == ps@.len(),
                    *j == Json::Obj(*ps),
                    obj_lookup_from(ps@, seg@, 0) == obj_lookup_from(ps@, seg@, i as int),
                decreases n - i,
            {
                if chars_eq_str(&ps[i].0, seg) {
                    assert(obj_lookup_from(ps@, seg@, i as int) == Some(ps@[i as int].1));
                    return Ok(&ps[i].1);
                }
                i += 1;
            }
            Err(ResolverError::SelectorNotFound)
        },
        Json::Arr(items) => match crate::value::parse_uint_chars(seg) {
            Some(n) => {
                if n < items.len() as u128 {
                    Ok(&items[n as usize])
                } else {
                    Err(ResolverError::SelectorNotFound)
                }
            },
            None => Err(ResolverError::SelectorNotFound),
        },
        _ => Err(ResolverError::SelectorNotFound),
    }
}

pub(crate) fn select_chars<'a>(j: &'a Json, sel: &Vec<char>) -> (r: Result<&'a Json, ResolverError>)
    ensures
        json_result_model(r) == spec_select(*j, sel@),
{
    let n = sel.len();
    if n == 0 {
        return Ok(j);
    }
    let mut cur: &Json = j;
    let mut seg: Vec<char> = Vec::new();
    let mut i: usize = 0;
    while i < n
        invariant
            0 <= i <= n,
            n == sel@.len(),
            spec_select(*j, sel@) == spec_select_acc(*cur, sel@, i as int, seg@),
        decreases n - i,
    {
        let c = sel[i];
        if c == '.' {
            match exec_step(cur, &seg) {
                Ok(j2) => {
                    cur = j2;
                    seg = Vec::new();
                },
                Err(e) => {
                    return Err(e);
                },
            }
        } else {
            seg.push(c);
        }
        i += 1;
    }
    exec_step(cur, &seg)
}

/// Extract the value a selector path names inside a query response.
/// The path is dot-separated: a field name steps into an object and a
/// number steps into an array; the first missing segment fails with
/// `SelectorNotFound`.
pub fn select_path<'a>(response: &'a Json, selector: &str) -> (r: Result<&'a Json, ResolverError>)
    ensures
        json_result_model(r) == spec_select(*response, selector@),
{
    let sel = to_chars(selector);
    select_chars(response, &sel)
}

/// Evaluate a query expression against the response its query produced:
/// walk the expression's selector into the response.
pub fn resolve_query_expr<'a>(expr: &QueryExpr, response: &'a Json) -> (r: Result<
    &'a Json,
    ResolverError,
>)
    ensures
        json_result_model(r) == spec_select(*response, expr.selector@),
{
    select_path(response, expr.selector.as_str())
}

/// How a scalar response leaf converts into a variable's kind: text and
/// number leaves go through the kind's grammar, boolean leaves fill only
/// boolean variables, and structured leaves convert to nothing.
pub open spec fn spec_json_value(j: Json, k: VariableKind) -> Result<ValueModel, ResolverError> {
    match j {
        Json::Str(s) => spec_parse_kind(s@, k),
        Json::Num(s) => spec_parse_kind(s@, k),
        Json::Bool(b) => match k {
            VariableKind::Bool => Ok(ValueModel::Bool(b)),
            _ => Err(ResolverError::TypeConversionFailed),
        },
        _ => Err(ResolverError::TypeConversionFailed),
    }
}

/// Convert a scalar response leaf into a typed value of kind `k`.
pub fn json_to_value(j: &Json, k: VariableKind) -> (r: Result<Value, ResolverError>)
    ensures
        crate::value::result_model(r) == spec_json_value(*j, k),
{
    match j {
        Json::Str(s) => {
            let t = to_chars(s.as_str());
            crate::value::parse_kind_chars(&t, k)
        },
        Json::Num(s) => {
            let t = to_chars(s.as_str());
            crate::value::parse_kind_chars(&t, k)
        },
        Json::Bool(b) => match k {
            VariableKind::Bool => Ok(Value::Bool(*b)),
            _ => Err(ResolverError::TypeConversionFailed),
        },
        _ => Err(ResolverError::TypeConversionFailed),
    }
}

} // verus!
