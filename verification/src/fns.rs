use vstd::prelude::*;

use crate::errors::ResolverError;
use crate::value::{result_model, Value, ValueModel, DEC_ONE};
use crate::variable::{find_var, lookup_var, spec_var_value, EvalCtx, Variable};

verus! {

/// An operand of a function expression: a literal value or a reference
/// to a declared variable by name.
#[derive(Debug)]
pub enum FnOperand {
    Lit(Value),
    Ref(String),
}

/// The closed set of operations a function expression can apply.
/// Arithmetic takes two operands, concatenation takes two text operands,
/// and the context accessors take none.
#[derive(Clone, Copy, Debug, PartialEq, Eq, Structural)]
pub enum FnOp {
    Add,
    Sub,
    Mul,
    Div,
    Concat,
    BlockHeight,
    Timestamp,
}

/// A pure function over values: an operation applied to an ordered list
/// of operands.
#[derive(Debug)]
pub struct FnExpr {
    pub op: FnOp,
    pub args: Vec<FnOperand>,
}

/// The value an operand denotes: a literal itself, or the looked-up
/// variable's resolved value.
pub open spec fn spec_eval_operand(o: FnOperand, vars: Seq<Variable>) -> Result<
    ValueModel,
    ResolverError,
> {
    match o {
        FnOperand::Lit(v) => Ok(v@),
        FnOperand::Ref(name) => match lookup_var(vars, name@) {
            None => Err(ResolverError::UnknownVariable),
            Some(var) => spec_var_value(var),
        },
    }
}

/// Arithmetic over two same-kind numeric values, with explicit overflow
/// and zero-division failure. Decimal multiplication and division scale
/// through atomics and fail with `Overflow` when the scaled product
/// leaves 128 bits. Mixed kinds fail with `TypeMismatch`; kinds without
/// the operation fail with `UnsupportedFunction`.
pub open spec fn spec_arith(op: FnOp, a: ValueModel, b: ValueModel) -> Result<
    ValueModel,
    ResolverError,
> {
    match (a, b) {
        (ValueModel::Uint(x), ValueModel::Uint(y)) => match op {
            FnOp::Add => if x + y <= u128::MAX {
                Ok(ValueModel::Uint((x + y) as u128))
            } else {
                Err(ResolverError::Overflow)
            },
            FnOp::Sub => if x >= y {
                Ok(ValueModel::Uint((x - y) as u128))
            } else {
                Err(ResolverError::Overflow)
            },
            FnOp::Mul => if x * y <= u128::MAX {
                Ok(ValueModel::Uint((x * y) as u128))
            } else {
                Err(ResolverError::Overflow)
            },
            FnOp::Div => if y == 0 {
                Err(ResolverError::DivisionByZero)
            } else {
                Ok(ValueModel::Uint((x as int / y as int) as u128))
            },
            _ => Err(ResolverError::UnsupportedFunction),
        },
        (ValueModel::Int(x), ValueModel::Int(y)) => match op {
            FnOp::Add => if i128::MIN <= x + y <= i128::MAX {
                Ok(ValueModel::Int((x + y) as i128))
            } else {
                Err(ResolverError::Overflow)
            },
            FnOp::Sub => if i128::MIN <= x - y <= i128::MAX {
                Ok(ValueModel::Int((x - y) as i128))
            } else {
                Err(ResolverError::Overflow)
            },
            FnOp::Mul => if i128::MIN <= x * y <= i128::MAX {
                Ok(ValueModel::Int((x * y) as i128))
            } else {
                Err(ResolverError::Overflow)
            },
            FnOp::Div => if y == 0 {
                Err(ResolverError::DivisionByZero)
            } else if !(i128::MIN <= truncated_div(x as int, y as int) <= i128::MAX) {
                Err(ResolverError::Overflow)
            } else {
                Ok(ValueModel::Int(truncated_div(x as int, y as int) as i128))
            },
            _ => Err(ResolverError::UnsupportedFunction),
        },
        (ValueModel::Dec(x), ValueModel::Dec(y)) => match op {
            FnOp::Add => if x + y <= u128::MAX {
                Ok(ValueModel::Dec((x + y) as u128))
            } else {
                Err(ResolverError::Overflow)
            },
            FnOp::Sub => if x >= y {
                Ok(ValueModel::Dec((x - y) as u128))
            } else {
                Err(ResolverError::Overflow)
            },
            FnOp::Mul => if x * y <= u128::MAX {
                Ok(ValueModel::Dec(((x * y) / (DEC_ONE as int)) as u128))
            } else {
                Err(ResolverError::Overflow)
            },
            FnOp::Div => if y == 0 {
                Err(ResolverError::DivisionByZero)
            } else if x * DEC_ONE <= u128::MAX {
                Ok(ValueModel::Dec(((x * DEC_ONE) / (y as int)) as u128))
            } else {
                Err(ResolverError::Overflow)
            },
            _ => Err(ResolverError::UnsupportedFunction),
        },
        (ValueModel::Text(_), ValueModel::Text(_)) => Err(ResolverError::UnsupportedFunction),
        (ValueModel::Bool(_), ValueModel::Bool(_)) => Err(ResolverError::UnsupportedFunction),
        _ => Err(ResolverError::TypeMismatch),
    }
}

/// Division of signed integers truncating toward zero, as `/` behaves
/// on machine integers.
pub open spec fn truncated_div(x: int, d: int) -> int {
    if x == 0 {
        0
    } else if x > 0 && d > 0 {
        x / d
    } else if x < 0 && d < 0 {
        (x * -1) / (d * -1)
    } else if x < 0 {
        ((x * -1) / d) * -1
    } else {
        (x / (d * -1)) * -1
    }
}

/// The value of a function expression under a context and a resolved
/// variable list.
pub open spec fn spec_eval_fn(ctx: EvalCtx, f: FnExpr, vars: Seq<Variable>) -> Result<
    ValueModel,
    ResolverError,
> {
    match f.op {
        FnOp::BlockHeight => if f.args@.len() == 0 {
            Ok(ValueModel::Uint(ctx.block_height as u128))
        } else {
            Err(ResolverError::UnsupportedFunction)
        },
        FnOp::Timestamp => if f.args@.len() == 0 {
            Ok(ValueModel::Uint(ctx.block_time as u128))
        } else {
            Err(ResolverError::UnsupportedFunction)
        },
        FnOp::Concat => if f.args@.len() == 2 {
            match spec_eval_operand(f.args@[0], vars) {
                Err(e) => Err(e),
                Ok(a) => match spec_eval_operand(f.args@[1], vars) {
                    Err(e) => Err(e),
                    Ok(b) => match (a, b) {
                        (ValueModel::Text(x), ValueModel::Text(y)) => Ok(ValueModel::Text(x + y)),
                        _ => Err(ResolverError::UnsupportedFunction),
                    },
                },
            }
        } else {
            Err(ResolverError::UnsupportedFunction)
        },
        _ => if f.args@.len() == 2 {
            match spec_eval_operand(f.args@[0], vars) {
                Err(e) => Err(e),
                Ok(a) => match spec_eval_operand(f.args@[1], vars) {
                    Err(e) => Err(e),
                    Ok(b) => spec_arith(f.op, a, b),
                },
            }
        } else {
            Err(ResolverError::UnsupportedFunction)
        },
    }
}

/// The value an operand denotes.
pub(crate) fn eval_operand(o: &FnOperand, vars: &Vec<Variable>) -> (r: Result<
    Value,
    ResolverError,
>)
    ensures
        result_model(r) == spec_eval_operand(*o, vars@),
{
    match o {
        FnOperand::Lit(v) => Ok(clone_value(v)),
        FnOperand::Ref(name) => match find_var(vars, name) {
            None => Err(ResolverError::UnknownVariable),
            Some(i) => {
                let var = &vars[i];
                match var.value() {
                    None => Err(ResolverError::UnresolvedVariable),
                    Some(text) => {
                        let t = crate::text::to_chars(text.as_str());
                        crate::value::parse_kind_chars(&t, var.kind())
                    },
                }
            },
        },
    }
}

/// A copy of a value, equal to the original in its model.
pub fn clone_value(v: &Value) -> (r: Value)
    ensures
        r@ == v@,
{
    match v {
        Value::Text(s) => Value::Text(s.clone()),
        Value::Uint(n) => Value::Uint(*n),
        Value::Int(n) => Value::Int(*n),
        Value::Dec(n) => Value::Dec(*n),
        Value::Bool(b) => Value::Bool(*b),
    }
}

fn exec_arith(op: FnOp, a: &Value, b: &Value) -> (r: Result<Value, ResolverError>)
    ensures
        result_model(r) == spec_arith(op, a@, b@),
{
    match (a, b) {
        (Value::Uint(xr), Value::Uint(yr)) => {
            let x = *xr;
            let y = *yr;
            match op {
                FnOp::Add => match x.checked_add(y) {
                    Some(z) => Ok(Value::Uint(z)),
                    None => Err(ResolverError::Overflow),
                },
                FnOp::Sub => match x.checked_sub(y) {
                    Some(z) => Ok(Value::Uint(z)),
                    None => Err(ResolverError::Overflow),
                },
                FnOp::Mul => match x.checked_mul(y) {
                    Some(z) => Ok(Value::Uint(z)),
                    None => Err(ResolverError::Overflow),
                },
                FnOp::Div => {
                    if y == 0 {
                        Err(ResolverError::DivisionByZero)
                    } else {
                        Ok(Value::Uint(x / y))
                    }
                },
                _ => Err(ResolverError::UnsupportedFunction),
            }
        },
        (Value::Int(xr), Value::Int(yr)) => {
            let x = *xr;
            let y = *yr;
            match op {
                FnOp::Add => match x.checked_add(y) {
                    Some(z) => Ok(Value::Int(z)),
                    None => Err(ResolverError::Overflow),
                },
                FnOp::Sub => match x.checked_sub(y) {
                    Some(z) => Ok(Value::Int(z)),
                    None => Err(ResolverError::Overflow),
                },
                FnOp::Mul => match x.checked_mul(y) {
                    Some(z) => Ok(Value::Int(z)),
                    None => Err(ResolverError::Overflow),
                },
                FnOp::Div => {
                    if y == 0 {
                        Err(ResolverError::DivisionByZero)
                    } else {
                        match x.checked_div(y) {
                            Some(z) => Ok(Value::Int(z)),
                            None => Err(ResolverError::Overflow),
                        }
                    }
                },
                _ => Err(ResolverError::UnsupportedFunction),
            }
        },
        (Value::Dec(xr), Value::Dec(yr)) => {
            let x = *xr;
            let y = *yr;
            match op {
                FnOp::Add => match x.checked_add(y) {
                    Some(z) => Ok(Value::Dec(z)),
                    None => Err(ResolverError::Overflow),
                },
                FnOp::Sub => match x.checked_sub(y) {
                    Some(z) => Ok(Value::Dec(z)),
                    None => Err(ResolverError::Overflow),
                },
                FnOp::Mul => match x.checked_mul(y) {
                    Some(z) => Ok(Value::Dec(z / DEC_ONE)),
                    None => Err(ResolverError::Overflow),
                },
                FnOp::Div => {
                    if y == 0 {
                        Err(ResolverError::DivisionByZero)
                    } else {
                        match x.checked_mul(DEC_ONE) {
                            Some(z) => Ok(Value::Dec(z / y)),
                            None => Err(ResolverError::Overflow),
                        }
                    }
                },
                _ => Err(ResolverError::UnsupportedFunction),
            }
        },
        (Value::Text(_), Value::Text(_)) => Err(ResolverError::UnsupportedFunction),
        (Value::Bool(_), Value::Bool(_)) => Err(ResolverError::UnsupportedFunction),
        _ => Err(ResolverError::TypeMismatch),
    }
}

/// Evaluate a function expression: a pure function of its operands and
/// the ambient context.
pub fn eval_fn_expr(ctx: EvalCtx, f: &FnExpr, vars: &Vec<Variable>) -> (r: Result<
    Value,
    ResolverError,
>)
    ensures
        result_model(r) == spec_eval_fn(ctx, *f, vars@),
{
    match f.op {
        FnOp::BlockHeight => {
            if f.args.len() == 0 {
                Ok(Value::Uint(ctx.block_height as u128))
            } else {
                Err(ResolverError::UnsupportedFunction)
            }
        },
        FnOp::Timestamp => {
            if f.args.len() == 0 {
                Ok(Value::Uint(ctx.block_time as u128))
            } else {
                Err(ResolverError::UnsupportedFunction)
            }
        },
        FnOp::Concat => {
            if f.args.len() == 2 {
                let a = match eval_operand(&f.args[0], vars) {
                    Ok(v) => v,
                    Err(e) => {
                        return Err(e);
                    },
                };
                let b = match eval_operand(&f.args[1], vars) {
                    Ok(v) => v,
                    Err(e) => {
                        return Err(e);
                    },
                };
                match (a, b) {
                    (Value::Text(x), Value::Text(y)) => Ok(Value::Text(x.concat(y.as_str()))),
                    _ => Err(ResolverError::UnsupportedFunction),
                }
            } else {
                Err(ResolverError::UnsupportedFunction)
            }
        },
        _ => {
            if f.args.len() == 2 {
                let a = match eval_operand(&f.args[0], vars) {
                    Ok(v) => v,
                    Err(e) => {
                        return Err(e);
                    },
                };
                let b = match eval_operand(&f.args[1], vars) {
                    Ok(v) => v,
                    Err(e) => {
                        return Err(e);
                    },
                };
                exec_arith(f.op, &a, &b)
            } else {
                Err(ResolverError::UnsupportedFunction)
            }
        },
    }
}

} // verus!
