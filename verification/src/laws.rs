use vstd::prelude::*;

use crate::condition::{spec_resolve_cond, CondOperand, Condition};
use crate::errors::ResolverError;
use crate::hydrate::{kind_matches, spec_resolve_var_text};
use crate::template::{
    cosmos_msgs_wf, spec_all_vars_referenced, spec_has_duplicates, spec_placeholders_declared,
    spec_subst, spec_validate_job_creation, spec_vars_valid,
};
use crate::value::{
    all_digits, dec_split_at, dec_split_val, dec_text, digits_val, is_digit, lemma_uint_text_val,
    pow10, spec_format, spec_parse_dec, spec_parse_kind, trim_trailing_zeros, uint_text, zeros,
    CmpOp, ValueModel, VariableKind, DEC_ONE, DEC_PLACES,
};
use crate::variable::{
    lookup_var, same_decl, var_reinit, var_value, EvalCtx, ExternalInput, QueryResponse, Variable,
};

verus! {

/// A job definition with well-formed unique variable names, every
/// template placeholder declared, every declared variable referenced,
/// and instruction templates well-formed under test substitution is
/// accepted by validation.
pub proof fn lemma_validation_accepts(
    cond: Seq<char>,
    tct: Seq<char>,
    vars: Seq<Variable>,
    msgs: Seq<char>,
)
    requires
        spec_vars_valid(vars),
        !spec_has_duplicates(vars),
        spec_placeholders_declared(vars, cond),
        spec_placeholders_declared(vars, tct),
        spec_placeholders_declared(vars, msgs),
        spec_all_vars_referenced(vars, cond + tct + msgs),
        match spec_subst(msgs, vars, true) {
            Ok(s) => cosmos_msgs_wf(s),
            Err(_) => false,
        },
    ensures
        spec_validate_job_creation(cond, tct, vars, msgs) == Ok::<(), ResolverError>(()),
{
}

/// A declaration list with a repeated name is rejected as containing
/// duplicates, whatever the templates hold.
pub proof fn lemma_validation_rejects_duplicates(
    cond: Seq<char>,
    tct: Seq<char>,
    vars: Seq<Variable>,
    msgs: Seq<char>,
)
    requires
        spec_vars_valid(vars),
        spec_has_duplicates(vars),
    ensures
        spec_validate_job_creation(cond, tct, vars, msgs) == Err::<(), ResolverError>(
            ResolverError::VariablesContainDuplicates,
        ),
{
}

/// A template placeholder naming no declared variable is rejected as a
/// missing variable.
pub proof fn lemma_validation_rejects_undeclared_placeholder(
    cond: Seq<char>,
    tct: Seq<char>,
    vars: Seq<Variable>,
    msgs: Seq<char>,
)
    requires
        spec_vars_valid(vars),
        !spec_has_duplicates(vars),
        !(spec_placeholders_declared(vars, cond) && spec_placeholders_declared(vars, tct)
            && spec_placeholders_declared(vars, msgs)),
    ensures
        spec_validate_job_creation(cond, tct, vars, msgs) == Err::<(), ResolverError>(
            ResolverError::VariablesMissingFromTemplates,
        ),
{
}

/// A declared variable that no template references is rejected as an
/// excess variable.
pub proof fn lemma_validation_rejects_unreferenced_variable(
    cond: Seq<char>,
    tct: Seq<char>,
    vars: Seq<Variable>,
    msgs: Seq<char>,
)
    requires
        spec_vars_valid(vars),
        !spec_has_duplicates(vars),
        spec_placeholders_declared(vars, cond),
        spec_placeholders_declared(vars, tct),
        spec_placeholders_declared(vars, msgs),
        !spec_all_vars_referenced(vars, cond + tct + msgs),
    ensures
        spec_validate_job_creation(cond, tct, vars, msgs) == Err::<(), ResolverError>(
            ResolverError::ExcessVariablesInTemplates,
        ),
{
}

/// Resolving a static, non-reinitializing variable a second time
/// returns the first resolution's text unchanged, whatever context,
/// variables, inputs or responses the later cycle offers.
pub proof fn lemma_static_resolution_idempotent(
    ctx: EvalCtx,
    v: Variable,
    acc: Seq<Variable>,
    inputs: Seq<ExternalInput>,
    responses: Seq<QueryResponse>,
    out: Variable,
    ctx2: EvalCtx,
    acc2: Seq<Variable>,
    inputs2: Seq<ExternalInput>,
    responses2: Seq<QueryResponse>,
)
    requires
        v is Static,
        !var_reinit(v),
        spec_resolve_var_text(ctx, v, acc, inputs, responses) matches Ok(text),
        same_decl(v, out),
        var_value(out) == Some(spec_resolve_var_text(ctx, v, acc, inputs, responses)->Ok_0),
    ensures
        spec_resolve_var_text(ctx2, out, acc2, inputs2, responses2) == spec_resolve_var_text(
            ctx,
            v,
            acc,
            inputs,
            responses,
        ),
{
    assert(out is Static);
}

/// The canonical text of a value parses back to that value at any kind
/// the value belongs to: what resolution stores, later evaluation reads
/// unchanged. The one value without a canonical text is the most
/// negative signed integer, whose magnitude the signed grammar cannot
/// carry.
pub proof fn lemma_canonical_text_parses_back(v: ValueModel, k: VariableKind)
    requires
        kind_matches(k, v),
        v matches ValueModel::Int(n) ==> n > i128::MIN,
    ensures
        spec_parse_kind(spec_format(v), k) == Ok::<ValueModel, ResolverError>(v),
{
    match v {
        ValueModel::Text(_) => {},
        ValueModel::Uint(n) => {
            lemma_uint_text_val(n as nat);
        },
        ValueModel::Int(n) => {
            let s = spec_format(v);
            if n >= 0 {
                lemma_uint_text_val(n as nat);
                assert(is_digit(s[0]));
                assert(s[0] != '-');
            } else {
                let mag = (-(n as int)) as nat;
                lemma_uint_text_val(mag);
                assert(s[0] == '-');
                assert(s.subrange(1, s.len() as int) =~= uint_text(mag));
            }
        },
        ValueModel::Dec(a) => {
            lemma_dec_text_parses_back(a);
        },
        ValueModel::Bool(b) => {
            reveal_strlit("true");
            reveal_strlit("false");
            assert("true"@.len() != "false"@.len());
        },
    }
}

proof fn lemma_dec_text_parses_back(a: u128)
    ensures
        spec_parse_dec(dec_text(a)) == Some(a),
{
    crate::value::lemma_pow10_18();
    let ip = (a / DEC_ONE) as nat;
    let fp = (a % DEC_ONE) as nat;
    lemma_uint_text_val(ip);
    if a % DEC_ONE == 0 {
        let s = dec_text(a);
        assert(s == uint_text(ip));
        assert forall|d: int| !dec_split_at(s, d) by {
            if 0 <= d < s.len() {
                assert(is_digit(s[d]));
            }
        }
        assert(digits_val(s) * pow10(DEC_PLACES as nat) == ip * (DEC_ONE as nat));
        assert(ip * (DEC_ONE as nat) == a) by (nonlinear_arith)
            requires
                ip == a / DEC_ONE,
                a % DEC_ONE == 0,
                DEC_ONE > 0,
        ;
    } else {
        lemma_uint_text_val(fp);
        crate::value::lemma_uint_text_len(fp, DEC_PLACES as nat);
        let ipt = uint_text(ip);
        let pad = (DEC_PLACES - uint_text(fp).len()) as nat;
        let full = zeros(pad) + uint_text(fp);
        let ft = trim_trailing_zeros(full);
        let s = dec_text(a);
        assert(s == ipt + seq!['.'] + ft);
        crate::value::lemma_digits_val_zeros(pad);
        crate::value::lemma_digits_val_leading_zeros(pad, uint_text(fp));
        assert(full.len() == DEC_PLACES);
        assert(digits_val(full) == fp);
        assert forall|i: int| 0 <= i < full.len() implies is_digit(#[trigger] full[i]) by {
            if i < pad {
                assert(full[i] == zeros(pad)[i]);
            } else {
                assert(full[i] == uint_text(fp)[i - pad]);
            }
        }
        crate::value::lemma_digits_val_trim(full);
        assert(digits_val(ft) * pow10((full.len() - ft.len()) as nat) == fp);
        if ft.len() == 0 {
            assert(digits_val(ft) == 0);
            assert(fp == 0) by (nonlinear_arith)
                requires
                    digits_val(ft) == 0,
                    digits_val(ft) * pow10((full.len() - ft.len()) as nat) == fp,
            ;
        }
        assert(ft.len() >= 1);
        let d = ipt.len() as int;
        assert(s[d] == '.');
        assert(s.subrange(0, d) =~= ipt);
        assert(s.subrange(d + 1, s.len() as int) =~= ft);
        assert(s.len() - (d + 1) == ft.len() <= DEC_PLACES);
        assert(dec_split_at(s, d));
        assert(dec_split_val(s, d) == ip * (DEC_ONE as nat) + digits_val(ft) * pow10(
            (DEC_PLACES - ft.len()) as nat,
        ));
        assert(digits_val(ft) * pow10((DEC_PLACES - ft.len()) as nat) == fp);
        assert(ip * (DEC_ONE as nat) + fp == a) by (nonlinear_arith)
            requires
                ip == a / DEC_ONE,
                fp == a % DEC_ONE,
                DEC_ONE > 0,
        ;
        let dw = choose|d2: int| dec_split_at(s, d2);
        assert(dec_split_at(s, dw));
        crate::value::lemma_dec_split_unique(s, d, dw);
    }
}

/// A condition comparing through a reference to an undeclared name
/// fails with `UnknownVariable`: it never silently evaluates.
pub proof fn lemma_undeclared_reference_rejected(
    ctx: EvalCtx,
    op: CmpOp,
    nm: String,
    rhs: CondOperand,
    vars: Seq<Variable>,
)
    requires
        lookup_var(vars, nm@) is None,
    ensures
        spec_resolve_cond(ctx, Condition::Cmp(op, CondOperand::Ref(nm), rhs), vars) == Err::<
            bool,
            ResolverError,
        >(ResolverError::UnknownVariable),
{
}

} // verus!
