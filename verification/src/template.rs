use vstd::prelude::*;

use crate::errors::ResolverError;
use crate::text::{check_occurs_at, contains_seq, contains_sub, from_chars, occurs_at, to_chars};
use crate::value::VariableKind;
use crate::variable::{lookup_var, var_encode, var_kind, var_name, var_value, Variable};

verus! {

/// The reserved token that opens a placeholder; the variable's name
/// follows it directly.
pub open spec fn ph_prefix() -> Seq<char> {
    seq!['$', 'w', 'a', 'r', 'p', '.', 'v', 'a', 'r', 'i', 'a', 'b', 'l', 'e', '.']
}

/// Characters a variable name may consist of.
pub open spec fn ident_char(c: char) -> bool {
    ('a' <= c && c <= 'z') || ('A' <= c && c <= 'Z') || ('0' <= c && c <= '9') || c == '_'
}

/// End of the maximal run of name characters starting at `j`.
pub open spec fn ph_end(t: Seq<char>, j: int) -> int
    decreases t.len() - j,
{
    if 0 <= j < t.len() && ident_char(t[j]) {
        ph_end(t, j + 1)
    } else {
        j
    }
}

/// A placeholder stands at `i`: the prefix occurs there and a nonempty
/// name follows.
pub open spec fn placeholder_at(t: Seq<char>, i: int) -> bool {
    &&& occurs_at(t, ph_prefix(), i)
    &&& i + ph_prefix().len() < ph_end(t, i + ph_prefix().len())
    &&& ph_end(t, i + ph_prefix().len()) <= t.len()
}

/// The name a placeholder at `i` carries.
pub open spec fn ph_name(t: Seq<char>, i: int) -> Seq<char> {
    t.subrange(i + ph_prefix().len(), ph_end(t, i + ph_prefix().len()))
}

/// Every placeholder in the text names a declared variable.
pub open spec fn spec_placeholders_declared(vars: Seq<Variable>, t: Seq<char>) -> bool {
    forall|i: int| #[trigger] placeholder_at(t, i) ==> lookup_var(vars, ph_name(t, i)) is Some
}

/// The given variable is referenced by some placeholder in the text.
pub open spec fn spec_referenced(v: Variable, t: Seq<char>) -> bool {
    exists|i: int| #[trigger] placeholder_at(t, i) && ph_name(t, i) == var_name(v)
}

/// Every declared variable is referenced somewhere in the text.
pub open spec fn spec_all_vars_referenced(vars: Seq<Variable>, t: Seq<char>) -> bool {
    forall|k: int| 0 <= k < vars.len() ==> spec_referenced(#[trigger] vars[k], t)
}

/// A well-formed variable name: nonempty, name characters only.
pub open spec fn valid_name(s: Seq<char>) -> bool {
    s.len() > 0 && (forall|i: int| 0 <= i < s.len() ==> ident_char(#[trigger] s[i]))
}

/// Every declared variable carries a well-formed name.
pub open spec fn spec_vars_valid(vars: Seq<Variable>) -> bool {
    forall|k: int| 0 <= k < vars.len() ==> valid_name(var_name(#[trigger] vars[k]))
}

/// Two declared variables share a name.
pub open spec fn spec_has_duplicates(vars: Seq<Variable>) -> bool {
    exists|i: int, j: int|
        0 <= i < j < vars.len() && var_name(vars[i]) == var_name(vars[j])
}

/// What stands in for a base64-encoded value: standard base64 of the
/// text's UTF-8 bytes.
pub uninterp spec fn b64_of(s: Seq<char>) -> Seq<char>;

/// Relies on cosmwasm_std::Binary::to_base64: normalized, padded base64
/// of the given bytes, a function of the text alone.
#[verifier::external_body]
fn base64_encode(s: &String) -> (r: String)
    ensures
        r@ == b64_of(s@),
{
    cosmwasm_std::Binary::from(s.as_bytes()).to_base64()
}

/// Whether text parses as a JSON array of instruction messages.
pub uninterp spec fn cosmos_msgs_wf(s: Seq<char>) -> bool;

/// Relies on serde_json_wasm::from_str::<Vec<CosmosMsg>>: whether the
/// text is a JSON array of well-formed instruction messages, a function
/// of the text alone.
#[verifier::external_body]
fn cosmos_msgs_ok(s: &String) -> (r: bool)
    ensures
        r == cosmos_msgs_wf(s@),
{
    serde_json_wasm::from_str::<Vec<cosmwasm_std::CosmosMsg>>(s.as_str()).is_ok()
}

/// The test value substituted while validating instruction templates:
/// a small literal of the variable's kind.
pub open spec fn dummy_text(k: VariableKind) -> Seq<char> {
    match k {
        VariableKind::Bool => seq!['t', 'r', 'u', 'e'],
        VariableKind::String => seq!['a'],
        VariableKind::Asset => seq!['a'],
        _ => seq!['0'],
    }
}

/// What replaces a placeholder for variable `v`: the resolved value (or
/// the kind's test value while validating), base64-wrapped when the
/// variable asks for encoding.
pub open spec fn spec_sub_text(v: Variable, dummy: bool) -> Seq<char> {
    let raw = if dummy {
        dummy_text(var_kind(v))
    } else {
        match var_value(v) {
            Some(t) => t,
            None => Seq::empty(),
        }
    };
    if var_encode(v) {
        b64_of(raw)
    } else {
        raw
    }
}

/// Left-to-right substitution from position `i`: a placeholder naming a
/// declared variable is replaced by its text and skipped whole; every
/// other character is copied. Outside validation (`dummy == false`) a
/// declared but unresolved variable fails with `UnresolvedVariable`.
pub open spec fn spec_subst_from(
    t: Seq<char>,
    i: int,
    vars: Seq<Variable>,
    dummy: bool,
) -> Result<Seq<char>, ResolverError>
    decreases t.len() - i,
{
    if i < 0 || i >= t.len() {
        Ok(Seq::empty())
    } else if placeholder_at(t, i) && lookup_var(vars, ph_name(t, i)) is Some {
        let v = match lookup_var(vars, ph_name(t, i)) {
            Some(v) => v,
            None => vars[0],  // never taken: the branch condition has the lookup succeed
        };
        if !dummy && var_value(v) is None {
            Err(ResolverError::UnresolvedVariable)
        } else {
            match spec_subst_from(t, ph_end(t, i + ph_prefix().len()), vars, dummy) {
                Err(e) => Err(e),
                Ok(rest) => Ok(spec_sub_text(v, dummy) + rest),
            }
        }
    } else {
        match spec_subst_from(t, i + 1, vars, dummy) {
            Err(e) => Err(e),
            Ok(rest) => Ok(seq![t[i]] + rest),
        }
    }
}

/// Substitution over a whole template.
pub open spec fn spec_subst(t: Seq<char>, vars: Seq<Variable>, dummy: bool) -> Result<
    Seq<char>,
    ResolverError,
> {
    spec_subst_from(t, 0, vars, dummy)
}

/// Hydrated instruction text: substitution must resolve every
/// placeholder and leave no prefix token behind.
pub open spec fn spec_hydrate_msgs(t: Seq<char>, vars: Seq<Variable>) -> Result<
    Seq<char>,
    ResolverError,
> {
    match spec_subst(t, vars, false) {
        Err(e) => Err(e),
        Ok(s) => if contains_seq(s, ph_prefix()) {
            Err(ResolverError::TemplateError)
        } else {
            Ok(s)
        },
    }
}

/// Every failure `ValidateJobCreation` can report, in check order: badly
/// named variables, duplicate names, placeholders without a declaration,
/// declarations without a reference, and instruction templates that are
/// not well-formed after test substitution.
pub open spec fn spec_validate_job_creation(
    cond: Seq<char>,
    tct: Seq<char>,
    vars: Seq<Variable>,
    msgs: Seq<char>,
) -> Result<(), ResolverError> {
    if !spec_vars_valid(vars) {
        Err(ResolverError::InvalidVariables)
    } else if spec_has_duplicates(vars) {
        Err(ResolverError::VariablesContainDuplicates)
    } else if !(spec_placeholders_declared(vars, cond) && spec_placeholders_declared(vars, tct)
        && spec_placeholders_declared(vars, msgs)) {
        Err(ResolverError::VariablesMissingFromTemplates)
    } else if !spec_all_vars_referenced(vars, cond + tct + msgs) {
        Err(ResolverError::ExcessVariablesInTemplates)
    } else {
        match spec_subst(msgs, vars, true) {
            Err(e) => Err(e),
            Ok(s) => if cosmos_msgs_wf(s) {
                Ok(())
            } else {
                Err(ResolverError::InvalidInstructions)
            },
        }
    }
}

fn prefix_chars() -> (r: Vec<char>)
    ensures
        r@ == ph_prefix(),
{
    let v = to_chars("$warp.variable.");
    proof {
        reveal_strlit("$warp.variable.");
        assert(v@ =~= ph_prefix());
    }
    v
}

fn ident_char_exec(c: char) -> (r: bool)
    ensures
        r == ident_char(c),
{
    ('a' <= c && c <= 'z') || ('A' <= c && c <= 'Z') || ('0' <= c && c <= '9') || c == '_'
}

/// The placeholder name at position `i`, when one stands there.
fn ph_at(t: &Vec<char>, i: usize, prefix: &Vec<char>) -> (r: Option<(Vec<char>, usize)>)
    requires
        prefix@ == ph_prefix(),
        i <= t@.len(),
    ensures
        match r {
            Some(p) => placeholder_at(t@, i as int) && p.0@ == ph_name(t@, i as int) && p.1
                == ph_end(t@, i + ph_prefix().len()) && i < p.1 <= t@.len(),
            None => !placeholder_at(t@, i as int),
        },
{
    let n = t.len();
    if n - i < 15 {
        assert(!occurs_at(t@, ph_prefix(), i as int));
        return None;
    }
    if !check_occurs_at(t, prefix, i) {
        return None;
    }
    let start = i + 15;
    let mut j = start;
    while j < n && ident_char_exec(t[j])
        invariant
            start <= j <= n,
            n == t@.len(),
            ph_end(t@, start as int) == ph_end(t@, j as int),
        decreases n - j,
    {
        j += 1;
    }
    proof {
        assert(ph_end(t@, j as int) == j);
    }
    if j == start {
        assert(!placeholder_at(t@, i as int));
        return None;
    }
    let mut name: Vec<char> = Vec::new();
    let mut k = start;
    while k < j
        invariant
            start <= k <= j <= n,
            n == t@.len(),
            name@ == t@.subrange(start as int, k as int),
        decreases j - k,
    {
        name.push(t[k]);
        proof {
            assert(name@ =~= t@.subrange(start as int, k + 1));
        }
        k += 1;
    }
    Some((name, j))
}

/// Index of the first variable whose name equals the given text.
fn find_var_chars(vars: &Vec<Variable>, name: &Vec<char>) -> (r: Option<usize>)
    ensures
        match r {
            Some(i) => i < vars@.len() && lookup_var(vars@, name@) == Some(vars@[i as int]),
            None => lookup_var(vars@, name@) == None::<Variable>,
        },
{
    let n = vars.len();
    let mut i: usize = 0;
    while i < n
        invariant
            0 <= i <= n,
            n == vars@.len(),
            crate::variable::lookup_var_from(vars@, name@, 0) == crate::variable::lookup_var_from(
                vars@,
                name@,
                i as int,
            ),
        decreases n - i,
    {
        if crate::text::chars_eq_str(vars[i].name(), name) {
            return Some(i);
        }
        i += 1;
    }
    None
}

/// Whether every placeholder in `text` names a declared variable; its
/// failure is the `VariablesMissingFromTemplates` validation error.
pub fn string_vars_in_vector(vars: &Vec<Variable>, text: &str) -> (r: bool)
    ensures
        r == spec_placeholders_declared(vars@, text@),
{
    let t = to_chars(text);
    string_vars_in_chars(vars, &t)
}

fn string_vars_in_chars(vars: &Vec<Variable>, t: &Vec<char>) -> (r: bool)
    ensures
        r == spec_placeholders_declared(vars@, t@),
{
    let prefix = prefix_chars();
    let n = t.len();
    let mut i: usize = 0;
    while i < n
        invariant
            0 <= i <= n,
            n == t@.len(),
            prefix@ == ph_prefix(),
            forall|j: int|
                j < i && #[trigger] placeholder_at(t@, j) ==> lookup_var(vars@, ph_name(t@, j))
                    is Some,
        decreases n - i,
    {
        match ph_at(t, i, &prefix) {
            Some(p) => {
                if find_var_chars(vars, &p.0).is_none() {
                    return false;
                }
            },
            None => {},
        }
        i += 1;
    }
    proof {
        assert(forall|j: int| #[trigger] placeholder_at(t@, j) ==> 0 <= j < t@.len());
    }
    true
}

/// Whether the named variable is referenced by a placeholder in `t`.
fn referenced_in(v: &Variable, name: &Vec<char>, t: &Vec<char>, prefix: &Vec<char>) -> (r: bool)
    requires
        prefix@ == ph_prefix(),
        name@ == var_name(*v),
    ensures
        r == spec_referenced(*v, t@),
{
    let n = t.len();
    let mut i: usize = 0;
    while i < n
        invariant
            0 <= i <= n,
            n == t@.len(),
            prefix@ == ph_prefix(),
            name@ == var_name(*v),
            forall|j: int|
                j < i && #[trigger] placeholder_at(t@, j) ==> ph_name(t@, j) != var_name(*v),
        decreases n - i,
    {
        match ph_at(t, i, &prefix) {
            Some(p) => {
                if crate::value::chars_eq(&p.0, name) {
                    return true;
                }
            },
            None => {},
        }
        i += 1;
    }
    proof {
        assert(forall|j: int| #[trigger] placeholder_at(t@, j) ==> 0 <= j < t@.len());
    }
    false
}

/// Whether every declared variable is referenced in the given text; its
/// failure is the `ExcessVariablesInTemplates` validation error.
pub fn all_vector_vars_present(vars: &Vec<Variable>, text: &str) -> (r: bool)
    ensures
        r == spec_all_vars_referenced(vars@, text@),
{
    let t = to_chars(text);
    all_vars_referenced_chars(vars, &t)
}

fn all_vars_referenced_chars(vars: &Vec<Variable>, t: &Vec<char>) -> (r: bool)
    ensures
        r == spec_all_vars_referenced(vars@, t@),
{
    let prefix = prefix_chars();
    let n = vars.len();
    let mut k: usize = 0;
    while k < n
        invariant
            0 <= k <= n,
            n == vars@.len(),
            prefix@ == ph_prefix(),
            forall|j: int| 0 <= j < k ==> spec_referenced(#[trigger] vars@[j], t@),
        decreases n - k,
    {
        let name = to_chars(vars[k].name().as_str());
        if !referenced_in(&vars[k], &name, t, &prefix) {
            return false;
        }
        k += 1;
    }
    true
}

/// Whether every declared variable carries a well-formed name; its
/// failure is the `InvalidVariables` validation error.
pub fn vars_valid(vars: &Vec<Variable>) -> (r: bool)
    ensures
        r == spec_vars_valid(vars@),
{
    let n = vars.len();
    let mut k: usize = 0;
    while k < n
        invariant
            0 <= k <= n,
            n == vars@.len(),
            forall|j: int| 0 <= j < k ==> valid_name(var_name(#[trigger] vars@[j])),
        decreases n - k,
    {
        let name = to_chars(vars[k].name().as_str());
        let m = name.len();
        if m == 0 {
            return false;
        }
        let mut i: usize = 0;
        while i < m
            invariant
                0 <= i <= m,
                m == name@.len(),
                name@ == var_name(vars@[k as int]),
                k < n == vars@.len(),
                forall|j: int| 0 <= j < i ==> ident_char(#[trigger] name@[j]),
            decreases m - i,
        {
            if !ident_char_exec(name[i]) {
                return false;
            }
            i += 1;
        }
        k += 1;
    }
    true
}

/// Whether two declared variables share a name; a duplicate is the
/// `VariablesContainDuplicates` validation error.
pub fn has_duplicates(vars: &Vec<Variable>) -> (r: bool)
    ensures
        r == spec_has_duplicates(vars@),
{
    let n = vars.len();
    let mut i: usize = 0;
    while i < n
        invariant
            0 <= i <= n,
            n == vars@.len(),
            forall|a: int, b: int|
                0 <= a < b < vars@.len() && a < i ==> var_name(vars@[a]) != var_name(vars@[b]),
        decreases n - i,
    {
        let name = to_chars(vars[i].name().as_str());
        let mut j: usize = i + 1;
        while j < n
            invariant
                0 <= i < j <= n,
                n == vars@.len(),
                name@ == var_name(vars@[i as int]),
                forall|b: int| i < b < j ==> var_name(vars@[i as int]) != var_name(vars@[b]),
            decreases n - j,
        {
            if crate::text::chars_eq_str(vars[j].name(), &name) {
                return true;
            }
            j += 1;
        }
        i += 1;
    }
    false
}

/// Substitute resolved (or test) values into a template.
fn subst_chars(t: &Vec<char>, vars: &Vec<Variable>, dummy: bool) -> (r: Result<
    Vec<char>,
    ResolverError,
>)
    ensures
        match r {
            Ok(s) => spec_subst(t@, vars@, dummy) == Ok::<Seq<char>, ResolverError>(s@),
            Err(e) => spec_subst(t@, vars@, dummy) == Err::<Seq<char>, ResolverError>(e),
        },
{
    let prefix = prefix_chars();
    let n = t.len();
    let mut out: Vec<char> = Vec::new();
    let mut i: usize = 0;
    while i < n
        invariant
            0 <= i <= n,
            n == t@.len(),
            prefix@ == ph_prefix(),
            spec_subst(t@, vars@, dummy) == match spec_subst_from(t@, i as int, vars@, dummy) {
                Ok(rest) => Ok::<Seq<char>, ResolverError>(out@ + rest),
                Err(e) => Err::<Seq<char>, ResolverError>(e),
            },
        decreases n - i,
    {
        let ghost out0 = out@;
        let mut matched = false;
        match ph_at(t, i, &prefix) {
            Some(p) => {
                match find_var_chars(vars, &p.0) {
                    Some(vi) => {
                        let var = &vars[vi];
                        let raw: String = if dummy {
                            dummy_text_exec(var.kind())
                        } else {
                            match var.value() {
                                None => {
                                    return Err(ResolverError::UnresolvedVariable);
                                },
                                Some(val) => val.clone(),
                            }
                        };
                        let sub = if var.encode() {
                            base64_encode(&raw)
                        } else {
                            raw
                        };
                        let mut sc = to_chars(sub.as_str());
                        out.append(&mut sc);
                        i = p.1;
                        matched = true;
                        proof {
                            assert(sub@ == spec_sub_text(vars@[vi as int], dummy));
                            let r2 = spec_subst_from(t@, i as int, vars@, dummy);
                            if r2 is Ok {
                                assert(out0 + (sub@ + r2->Ok_0) =~= (out0 + sub@) + r2->Ok_0);
                            }
                        }
                    },
                    None => {},
                }
            },
            None => {},
        }
        if !matched {
            let c = t[i];
            out.push(c);
            i += 1;
            proof {
                let r2 = spec_subst_from(t@, i as int, vars@, dummy);
                if r2 is Ok {
                    assert(out0 + (seq![c] + r2->Ok_0) =~= (out0 + seq![c]) + r2->Ok_0);
                    assert(out@ =~= out0 + seq![c]);
                }
            }
        }
    }
    proof {
        assert(out@ + Seq::<char>::empty() =~= out@);
    }
    Ok(out)
}

/// The test value for a kind, as text.
fn dummy_text_exec(k: VariableKind) -> (r: String)
    ensures
        r@ == dummy_text(k),
{
    match k {
        VariableKind::Bool => {
            let s = to_chars("true");
            proof {
                reveal_strlit("true");
                assert(s@ =~= dummy_text(VariableKind::Bool));
            }
            from_chars(&s)
        },
        VariableKind::String | VariableKind::Asset => {
            let s = to_chars("a");
            proof {
                reveal_strlit("a");
                assert(s@ =~= seq!['a']);
            }
            from_chars(&s)
        },
        _ => {
            let s = to_chars("0");
            proof {
                reveal_strlit("0");
                assert(s@ =~= seq!['0']);
            }
            from_chars(&s)
        },
    }
}

/// Substitute every resolved value into the instruction templates and
/// demand that no placeholder token survives: the result is concrete
/// instruction text. An unresolved declared variable fails with
/// `UnresolvedVariable`; a surviving prefix token fails with
/// `TemplateError`, so successful output never contains it.
pub fn hydrate_msgs(msgs: &str, vars: &Vec<Variable>) -> (r: Result<String, ResolverError>)
    ensures
        match r {
            Ok(s) => spec_hydrate_msgs(msgs@, vars@) == Ok::<Seq<char>, ResolverError>(s@),
            Err(e) => spec_hydrate_msgs(msgs@, vars@) == Err::<Seq<char>, ResolverError>(e),
        },
        r matches Ok(s) ==> !contains_seq(s@, ph_prefix()),
{
    let t = to_chars(msgs);
    let out = match subst_chars(&t, vars, false) {
        Ok(o) => o,
        Err(e) => {
            return Err(e);
        },
    };
    let prefix = prefix_chars();
    if contains_sub(&out, &prefix) {
        return Err(ResolverError::TemplateError);
    }
    Ok(from_chars(&out))
}

/// Whether the instruction templates are well-formed once test values
/// stand in for every placeholder.
pub fn msgs_valid(msgs: &str, vars: &Vec<Variable>) -> (r: Result<bool, ResolverError>)
    ensures
        match r {
            Ok(b) => (match spec_subst(msgs@, vars@, true) {
                Ok(s) => b == cosmos_msgs_wf(s),
                Err(_) => false,
            }),
            Err(e) => spec_subst(msgs@, vars@, true) == Err::<Seq<char>, ResolverError>(e),
        },
{
    let t = to_chars(msgs);
    let out = match subst_chars(&t, vars, true) {
        Ok(o) => o,
        Err(e) => {
            return Err(e);
        },
    };
    let s = from_chars(&out);
    Ok(cosmos_msgs_ok(&s))
}

/// Validate a job definition: well-formed unique variable names, both
/// placeholder directions, and instruction templates that are
/// well-formed under test substitution. Nothing is partially applied:
/// the first failing check decides the error.
pub fn validate_job_creation(
    condition: &str,
    terminate_condition: &Option<String>,
    vars: &Vec<Variable>,
    msgs: &str,
) -> (r: Result<(), ResolverError>)
    ensures
        r == spec_validate_job_creation(
            condition@,
            match terminate_condition {
                Some(s) => s@,
                None => Seq::empty(),
            },
            vars@,
            msgs@,
        ),
{
    let cond = to_chars(condition);
    let tct: Vec<char> = match terminate_condition {
        Some(s) => to_chars(s.as_str()),
        None => Vec::new(),
    };
    let mt = to_chars(msgs);
    if !vars_valid(vars) {
        return Err(ResolverError::InvalidVariables);
    }
    if has_duplicates(vars) {
        return Err(ResolverError::VariablesContainDuplicates);
    }
    if !(string_vars_in_chars(vars, &cond) && string_vars_in_chars(vars, &tct)
        && string_vars_in_chars(vars, &mt)) {
        return Err(ResolverError::VariablesMissingFromTemplates);
    }
    let mut combined: Vec<char> = Vec::new();
    let mut c1 = to_chars(condition);
    combined.append(&mut c1);
    let mut c2: Vec<char> = match terminate_condition {
        Some(s) => to_chars(s.as_str()),
        None => Vec::new(),
    };
    combined.append(&mut c2);
    let mut c3 = to_chars(msgs);
    combined.append(&mut c3);
    if !all_vars_referenced_chars(vars, &combined) {
        return Err(ResolverError::ExcessVariablesInTemplates);
    }
    match msgs_valid(msgs, vars) {
        Err(e) => Err(e),
        Ok(true) => Ok(()),
        Ok(false) => Err(ResolverError::InvalidInstructions),
    }
}

} // verus!
