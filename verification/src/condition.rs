use vstd::prelude::*;

use crate::errors::ResolverError;
use crate::fns::{eval_fn_expr, eval_operand, spec_eval_fn, spec_eval_operand, FnExpr, FnOperand};
use crate::value::{compare_values, spec_compare, CmpOp, Value, ValueModel};
use crate::variable::{find_var, lookup_var, var_value, EvalCtx, Variable};

verus! {

/// An operand of a comparison: a literal, a variable reference, a
/// function expression, or one of the two ambient context readings.
#[derive(Debug)]
pub enum CondOperand {
    Lit(Value),
    Ref(String),
    Fn(FnExpr),
    BlockHeight,
    Timestamp,
}

/// A boolean expression tree over variables, literals and ambient
/// context. Connectives short-circuit on the left operand.
#[derive(Debug)]
pub enum Condition {
    BoolLit(bool),
    Cmp(CmpOp, CondOperand, CondOperand),
    And(Box<Condition>, Box<Condition>),
    Or(Box<Condition>, Box<Condition>),
    Not(Box<Condition>),
    Expired(CondOperand),
    HasValue(String),
}

/// The value a comparison operand denotes.
pub open spec fn spec_eval_cond_operand(ctx: EvalCtx, o: CondOperand, vars: Seq<Variable>) -> Result<
    ValueModel,
    ResolverError,
> {
    match o {
        CondOperand::Lit(v) => Ok(v@),
        CondOperand::Ref(name) => spec_eval_operand(FnOperand::Ref(name), vars),
        CondOperand::Fn(f) => spec_eval_fn(ctx, f, vars),
        CondOperand::BlockHeight => Ok(ValueModel::Uint(ctx.block_height as u128)),
        CondOperand::Timestamp => Ok(ValueModel::Uint(ctx.block_time as u128)),
    }
}

/// The truth value of a condition under a context and a resolved
/// variable list. `And` and `Or` evaluate the left operand first and
/// skip the right when the left already decides; a reference to an
/// undeclared name fails with `UnknownVariable`; an expiration check
/// holds when its timestamp lies strictly before the current time.
pub open spec fn spec_resolve_cond(ctx: EvalCtx, c: Condition, vars: Seq<Variable>) -> Result<
    bool,
    ResolverError,
>
    decreases c,
{
    match c {
        Condition::BoolLit(b) => Ok(b),
        Condition::Cmp(op, l, r) => match spec_eval_cond_operand(ctx, l, vars) {
            Err(e) => Err(e),
            Ok(a) => match spec_eval_cond_operand(ctx, r, vars) {
                Err(e) => Err(e),
                Ok(b) => spec_compare(a, b, op),
            },
        },
        Condition::And(l, r) => match spec_resolve_cond(ctx, *l, vars) {
            Err(e) => Err(e),
            Ok(false) => Ok(false),
            Ok(true) => spec_resolve_cond(ctx, *r, vars),
        },
        Condition::Or(l, r) => match spec_resolve_cond(ctx, *l, vars) {
            Err(e) => Err(e),
            Ok(true) => Ok(true),
            Ok(false) => spec_resolve_cond(ctx, *r, vars),
        },
        Condition::Not(inner) => match spec_resolve_cond(ctx, *inner, vars) {
            Err(e) => Err(e),
            Ok(b) => Ok(!b),
        },
        Condition::Expired(o) => match spec_eval_cond_operand(ctx, o, vars) {
            Err(e) => Err(e),
            Ok(ValueModel::Uint(t)) => Ok(t < ctx.block_time),
            Ok(_) => Err(ResolverError::TypeMismatch),
        },
        Condition::HasValue(name) => match lookup_var(vars, name@) {
            None => Err(ResolverError::UnknownVariable),
            Some(var) => Ok(var_value(var) is Some),
        },
    }
}

fn eval_cond_operand(ctx: EvalCtx, o: &CondOperand, vars: &Vec<Variable>) -> (r: Result<
    Value,
    ResolverError,
>)
    ensures
        crate::value::result_model(r) == spec_eval_cond_operand(ctx, *o, vars@),
{
    match o {
        CondOperand::Lit(v) => Ok(crate::fns::clone_value(v)),
        CondOperand::Ref(name) => match find_var(vars, name) {
            None => Err(ResolverError::UnknownVariable),
            Some(i) => {
                let var = &vars[i];
                match var.value() {
                    None => Err(ResolverError::UnresolvedVariable),
                    Some(text) => {
                        let t = crate::text::to_chars(text.as_str());
                        crate::value::parse_kind_chars(&t, var.kind())
                    },
                }
            },
        },
        CondOperand::Fn(f) => eval_fn_expr(ctx, f, vars),
        CondOperand::BlockHeight => Ok(Value::Uint(ctx.block_height as u128)),
        CondOperand::Timestamp => Ok(Value::Uint(ctx.block_time as u128)),
    }
}

/// Evaluate a condition to a single boolean. Pure: the result depends
/// only on the condition, the context, and the resolved variable list.
pub fn resolve_cond(ctx: EvalCtx, cond: &Condition, vars: &Vec<Variable>) -> (r: Result<
    bool,
    ResolverError,
>)
    ensures
        r == spec_resolve_cond(ctx, *cond, vars@),
    decreases *cond,
{
    match cond {
        Condition::BoolLit(b) => Ok(*b),
        Condition::Cmp(op, l, r) => {
            let a = match eval_cond_operand(ctx, l, vars) {
                Ok(v) => v,
                Err(e) => {
                    return Err(e);
                },
            };
            let b = match eval_cond_operand(ctx, r, vars) {
                Ok(v) => v,
                Err(e) => {
                    return Err(e);
                },
            };
            compare_values(&a, &b, *op)
        },
        Condition::And(l, r) => match resolve_cond(ctx, l, vars) {
            Err(e) => Err(e),
            Ok(false) => Ok(false),
            Ok(true) => resolve_cond(ctx, r, vars),
        },
        Condition::Or(l, r) => match resolve_cond(ctx, l, vars) {
            Err(e) => Err(e),
            Ok(true) => Ok(true),
            Ok(false) => resolve_cond(ctx, r, vars),
        },
        Condition::Not(inner) => match resolve_cond(ctx, inner, vars) {
            Err(e) => Err(e),
            Ok(b) => Ok(!b),
        },
        Condition::Expired(o) => match eval_cond_operand(ctx, o, vars) {
            Err(e) => Err(e),
            Ok(Value::Uint(t)) => Ok(t < ctx.block_time as u128),
            Ok(_) => Err(ResolverError::TypeMismatch),
        },
        Condition::HasValue(name) => match find_var(vars, name) {
            None => Err(ResolverError::UnknownVariable),
            Some(i) => Ok(vars[i].value().is_some()),
        },
    }
}

} // verus!
