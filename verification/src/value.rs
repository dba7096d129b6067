use vstd::prelude::*;

use crate::errors::ResolverError;
use crate::text::{from_chars, to_chars};

verus! {

/// The kinds a variable can declare; each fixes how value text is
/// parsed and compared.
#[derive(Clone, Copy, Debug, PartialEq, Eq, Structural)]
pub enum VariableKind {
    String,
    Uint,
    Int,
    Decimal,
    Timestamp,
    Bool,
    Amount,
    Asset,
}

/// A typed value. Decimals carry fixed-point atomics: the represented
/// number is `atomics / 10^18`.
#[derive(Debug)]
pub enum Value {
    Text(String),
    Uint(u128),
    Int(i128),
    Dec(u128),
    Bool(bool),
}

/// The mathematical content of a [`Value`]: text as a character sequence.
pub enum ValueModel {
    Text(Seq<char>),
    Uint(u128),
    Int(i128),
    Dec(u128),
    Bool(bool),
}

impl View for Value {
    type V = ValueModel;

    open spec fn view(&self) -> ValueModel {
        match self {
            Value::Text(s) => ValueModel::Text(s@),
            Value::Uint(n) => ValueModel::Uint(*n),
            Value::Int(n) => ValueModel::Int(*n),
            Value::Dec(n) => ValueModel::Dec(*n),
            Value::Bool(b) => ValueModel::Bool(*b),
        }
    }
}

/// A relational comparison operator.
#[derive(Clone, Copy, Debug, PartialEq, Eq, Structural)]
pub enum CmpOp {
    Lt,
    Lte,
    Gt,
    Gte,
    Eq,
    Neq,
}

/// Scale of decimal atomics: one whole unit.
pub const DEC_ONE: u128 = 1_000_000_000_000_000_000;

/// Number of fractional digits a decimal carries.
pub const DEC_PLACES: usize = 18;

pub open spec fn is_digit(c: char) -> bool {
    48 <= c as int <= 57
}

pub open spec fn digit_val(c: char) -> nat {
    (c as int - 48) as nat
}

pub open spec fn all_digits(s: Seq<char>) -> bool {
    forall|i: int| 0 <= i < s.len() ==> is_digit(#[trigger] s[i])
}

/// The base-10 value of a digit string.
pub open spec fn digits_val(s: Seq<char>) -> nat
    decreases s.len(),
{
    if s.len() == 0 {
        0
    } else {
        digits_val(s.drop_last()) * 10 + digit_val(s.last())
    }
}

pub open spec fn pow10(k: nat) -> nat
    decreases k,
{
    if k == 0 {
        1
    } else {
        10 * pow10((k - 1) as nat)
    }
}

/// The character for one decimal digit.
pub open spec fn digit_char(d: nat) -> char {
    if d == 0 { '0' }
    else if d == 1 { '1' }
    else if d == 2 { '2' }
    else if d == 3 { '3' }
    else if d == 4 { '4' }
    else if d == 5 { '5' }
    else if d == 6 { '6' }
    else if d == 7 { '7' }
    else if d == 8 { '8' }
    else { '9' }
}

/// Canonical text of an unsigned number: base-10 digits, no leading zero.
pub open spec fn uint_text(n: nat) -> Seq<char>
    decreases n,
{
    if n < 10 {
        seq![digit_char(n)]
    } else {
        uint_text(n / 10).push(digit_char(n % 10))
    }
}

/// Canonical text of a signed number.
pub open spec fn int_text(n: int) -> Seq<char> {
    if n < 0 {
        seq!['-'] + uint_text((-n) as nat)
    } else {
        uint_text(n as nat)
    }
}

pub open spec fn spec_parse_uint(s: Seq<char>) -> Option<u128> {
    if s.len() > 0 && all_digits(s) && digits_val(s) <= u128::MAX {
        Some(digits_val(s) as u128)
    } else {
        None
    }
}

pub open spec fn spec_parse_int(s: Seq<char>) -> Option<i128> {
    if s.len() > 0 && s[0] == '-' {
        let m = s.subrange(1, s.len() as int);
        if m.len() > 0 && all_digits(m) && digits_val(m) <= i128::MAX {
            Some((-(digits_val(m) as int)) as i128)
        } else {
            None
        }
    } else {
        if s.len() > 0 && all_digits(s) && digits_val(s) <= i128::MAX {
            Some(digits_val(s) as i128)
        } else {
            None
        }
    }
}

/// A well-formed decimal split: a dot at `d` with nonempty digit text on
/// both sides and at most [`DEC_PLACES`] fractional digits.
pub open spec fn dec_split_at(s: Seq<char>, d: int) -> bool {
    &&& 0 < d < s.len() - 1
    &&& s[d] == '.'
    &&& all_digits(s.subrange(0, d))
    &&& all_digits(s.subrange(d + 1, s.len() as int))
    &&& s.len() - (d + 1) <= DEC_PLACES
}

/// The atomics denoted by a decimal split at `d`.
pub open spec fn dec_split_val(s: Seq<char>, d: int) -> nat {
    digits_val(s.subrange(0, d)) * pow10(DEC_PLACES as nat) + digits_val(
        s.subrange(d + 1, s.len() as int),
    ) * pow10((DEC_PLACES - (s.len() - (d + 1))) as nat)
}

pub open spec fn spec_parse_dec(s: Seq<char>) -> Option<u128> {
    if exists|d: int| dec_split_at(s, d) {
        let d = choose|d: int| dec_split_at(s, d);
        if dec_split_val(s, d) <= u128::MAX {
            Some(dec_split_val(s, d) as u128)
        } else {
            None
        }
    } else if s.len() > 0 && all_digits(s) && digits_val(s) * pow10(DEC_PLACES as nat)
        <= u128::MAX {
        Some((digits_val(s) * pow10(DEC_PLACES as nat)) as u128)
    } else {
        None
    }
}

/// Fractional digits of a decimal, zero-padded to [`DEC_PLACES`] and then
/// stripped of trailing zeros.
pub open spec fn zeros(k: nat) -> Seq<char>
    decreases k,
{
    if k == 0 {
        Seq::empty()
    } else {
        zeros((k - 1) as nat).push('0')
    }
}

pub open spec fn trim_trailing_zeros(s: Seq<char>) -> Seq<char>
    decreases s.len(),
{
    if s.len() > 0 && s.last() == '0' {
        trim_trailing_zeros(s.drop_last())
    } else {
        s
    }
}

/// Canonical text of decimal atomics: whole part, and a fractional part
/// only when it is nonzero, with trailing zeros removed.
pub open spec fn dec_text(a: u128) -> Seq<char> {
    if a % DEC_ONE == 0 {
        uint_text((a / DEC_ONE) as nat)
    } else {
        uint_text((a / DEC_ONE) as nat) + seq!['.'] + trim_trailing_zeros(
            zeros((DEC_PLACES - uint_text((a % DEC_ONE) as nat).len()) as nat) + uint_text(
                (a % DEC_ONE) as nat,
            ),
        )
    }
}

/// Canonical text of a value.
pub open spec fn spec_format(v: ValueModel) -> Seq<char> {
    match v {
        ValueModel::Text(s) => s,
        ValueModel::Uint(n) => uint_text(n as nat),
        ValueModel::Int(n) => int_text(n as int),
        ValueModel::Dec(a) => dec_text(a),
        ValueModel::Bool(b) => if b {
            "true"@
        } else {
            "false"@
        },
    }
}

pub open spec fn spec_parse_bool(s: Seq<char>) -> Option<bool> {
    if s == "true"@ {
        Some(true)
    } else if s == "false"@ {
        Some(false)
    } else {
        None
    }
}

/// How text parses into a given kind. Text-like kinds accept any text;
/// numeric kinds go through the canonical number grammars.
pub open spec fn spec_parse_kind(s: Seq<char>, k: VariableKind) -> Result<ValueModel, ResolverError> {
    match k {
        VariableKind::String => Ok(ValueModel::Text(s)),
        VariableKind::Asset => Ok(ValueModel::Text(s)),
        VariableKind::Uint => match spec_parse_uint(s) {
            Some(n) => Ok(ValueModel::Uint(n)),
            None => Err(ResolverError::TypeConversionFailed),
        },
        VariableKind::Amount => match spec_parse_uint(s) {
            Some(n) => Ok(ValueModel::Uint(n)),
            None => Err(ResolverError::TypeConversionFailed),
        },
        VariableKind::Timestamp => match spec_parse_uint(s) {
            Some(n) => Ok(ValueModel::Uint(n)),
            None => Err(ResolverError::TypeConversionFailed),
        },
        VariableKind::Int => match spec_parse_int(s) {
            Some(n) => Ok(ValueModel::Int(n)),
            None => Err(ResolverError::TypeConversionFailed),
        },
        VariableKind::Decimal => match spec_parse_dec(s) {
            Some(a) => Ok(ValueModel::Dec(a)),
            None => Err(ResolverError::TypeConversionFailed),
        },
        VariableKind::Bool => match spec_parse_bool(s) {
            Some(b) => Ok(ValueModel::Bool(b)),
            None => Err(ResolverError::TypeConversionFailed),
        },
    }
}

pub open spec fn cmp_holds(a: int, b: int, op: CmpOp) -> bool {
    match op {
        CmpOp::Lt => a < b,
        CmpOp::Lte => a <= b,
        CmpOp::Gt => a > b,
        CmpOp::Gte => a >= b,
        CmpOp::Eq => a == b,
        CmpOp::Neq => a != b,
    }
}

/// Comparison of two values: numeric kinds order numerically, text and
/// booleans support equality and inequality only, and values of different
/// kinds never compare.
pub open spec fn spec_compare(a: ValueModel, b: ValueModel, op: CmpOp) -> Result<
    bool,
    ResolverError,
> {
    match (a, b) {
        (ValueModel::Uint(x), ValueModel::Uint(y)) => Ok(cmp_holds(x as int, y as int, op)),
        (ValueModel::Int(x), ValueModel::Int(y)) => Ok(cmp_holds(x as int, y as int, op)),
        (ValueModel::Dec(x), ValueModel::Dec(y)) => Ok(cmp_holds(x as int, y as int, op)),
        (ValueModel::Text(x), ValueModel::Text(y)) => match op {
            CmpOp::Eq => Ok(x == y),
            CmpOp::Neq => Ok(x != y),
            _ => Err(ResolverError::TypeMismatch),
        },
        (ValueModel::Bool(x), ValueModel::Bool(y)) => match op {
            CmpOp::Eq => Ok(x == y),
            CmpOp::Neq => Ok(x != y),
            _ => Err(ResolverError::TypeMismatch),
        },
        _ => Err(ResolverError::TypeMismatch),
    }
}

/// A `Result` around a value, with the value abstracted to its model.
pub open spec fn result_model(r: Result<Value, ResolverError>) -> Result<
    ValueModel,
    ResolverError,
> {
    match r {
        Ok(v) => Ok(v@),
        Err(e) => Err(e),
    }
}

proof fn lemma_digits_val_prefix_grows(s: Seq<char>, i: int)
    requires
        0 <= i <= s.len(),
    ensures
        digits_val(s.subrange(0, i)) <= digits_val(s),
    decreases s.len() - i,
{
    if i == s.len() {
        assert(s.subrange(0, i) =~= s);
    } else {
        assert(s.subrange(0, i + 1).drop_last() =~= s.subrange(0, i));
        assert(digits_val(s.subrange(0, i + 1)) == digits_val(s.subrange(0, i)) * 10 + digit_val(
            s.subrange(0, i + 1).last(),
        ));
        lemma_digits_val_prefix_grows(s, i + 1);
    }
}

/// Parse the range `[from, to)` of `t` as a nonempty digit string; `None`
/// when that range is not all digits, is empty, or denotes a number above
/// `u128::MAX`.
pub(crate) fn parse_digits(t: &Vec<char>, from: usize, to: usize) -> (r: Option<u128>)
    requires
        from <= to <= t@.len(),
    ensures
        r == spec_parse_uint(t@.subrange(from as int, to as int)),
{
    let ghost s = t@.subrange(from as int, to as int);
    if from == to {
        return None;
    }
    let mut acc: u128 = 0;
    let mut i: usize = from;
    while i < to
        invariant
            from <= i <= to <= t@.len(),
            s == t@.subrange(from as int, to as int),
            all_digits(s.subrange(0, i - from)),
            acc == digits_val(s.subrange(0, i - from)),
        decreases to - i,
    {
        let c = t[i];
        proof {
            assert(s[i - from] == t@[i as int]);
        }
        if !('0' <= c && c <= '9') {
            assert(!is_digit(s[i - from]));
            return None;
        }
        let d = ((c as u32) - 48) as u128;
        assert(d == digit_val(s[i - from]));
        proof {
            assert(s.subrange(0, i + 1 - from).drop_last() =~= s.subrange(0, i - from));
            assert(s.subrange(0, i + 1 - from).last() == s[i - from]);
        }
        let acc10 = match acc.checked_mul(10) {
            Some(x) => x,
            None => {
                proof {
                    lemma_digits_val_prefix_grows(s, i + 1 - from);
                }
                return None;
            },
        };
        acc = match acc10.checked_add(d) {
            Some(x) => x,
            None => {
                proof {
                    lemma_digits_val_prefix_grows(s, i + 1 - from);
                }
                return None;
            },
        };
        i += 1;
    }
    proof {
        assert(s.subrange(0, i - from) =~= s);
    }
    Some(acc)
}

/// Parse a whole vector as an unsigned number.
pub(crate) fn parse_uint_chars(t: &Vec<char>) -> (r: Option<u128>)
    ensures
        r == spec_parse_uint(t@),
{
    let n = t.len();
    let r = parse_digits(t, 0, n);
    proof {
        assert(t@.subrange(0, n as int) =~= t@);
    }
    r
}

pub(crate) proof fn lemma_pow10_pos(k: nat)
    ensures
        pow10(k) >= 1,
    decreases k,
{
    if k > 0 {
        lemma_pow10_pos((k - 1) as nat);
    }
}

pub(crate) proof fn lemma_pow10_mono(a: nat, b: nat)
    requires
        a <= b,
    ensures
        pow10(a) <= pow10(b),
        pow10(a) >= 1,
    decreases b - a,
{
    lemma_pow10_pos(a);
    if a < b {
        lemma_pow10_mono(a, (b - 1) as nat);
        lemma_pow10_pos((b - 1) as nat);
    }
}

pub(crate) proof fn lemma_pow10_18()
    ensures
        pow10(DEC_PLACES as nat) == DEC_ONE,
{
    assert(pow10(0) == 1);
    assert(pow10(1) == 10);
    assert(pow10(2) == 100);
    assert(pow10(3) == 1000);
    assert(pow10(4) == 10000);
    assert(pow10(5) == 100000);
    assert(pow10(6) == 1000000);
    assert(pow10(7) == 10000000);
    assert(pow10(8) == 100000000);
    assert(pow10(9) == 1000000000);
    assert(pow10(10) == 10000000000);
    assert(pow10(11) == 100000000000);
    assert(pow10(12) == 1000000000000);
    assert(pow10(13) == 10000000000000);
    assert(pow10(14) == 100000000000000);
    assert(pow10(15) == 1000000000000000);
    assert(pow10(16) == 10000000000000000);
    assert(pow10(17) == 100000000000000000);
    assert(pow10(18) == 1000000000000000000);
}

pub(crate) proof fn lemma_digits_val_bound(s: Seq<char>)
    requires
        all_digits(s),
    ensures
        digits_val(s) < pow10(s.len()),
    decreases s.len(),
{
    if s.len() > 0 {
        lemma_digits_val_bound(s.drop_last());
        assert(is_digit(s[s.len() - 1]));
        assert(digit_val(s.last()) <= 9);
        assert(digits_val(s.drop_last()) <= pow10((s.len() - 1) as nat) - 1);
        assert(digits_val(s.drop_last()) * 10 + digit_val(s.last()) < pow10((s.len() - 1) as nat)
            * 10) by (nonlinear_arith)
            requires
                digits_val(s.drop_last()) <= pow10((s.len() - 1) as nat) - 1,
                digit_val(s.last()) <= 9,
        ;
    }
}

pub(crate) proof fn lemma_uint_text_len(n: nat, k: nat)
    requires
        n < pow10(k),
        k >= 1,
    ensures
        1 <= uint_text(n).len() <= k,
    decreases n,
{
    if n < 10 {
    } else {
        assert(pow10(k) == 10 * pow10((k - 1) as nat));
        assert(n / 10 < pow10((k - 1) as nat)) by (nonlinear_arith)
            requires
                n >= 10,
                n < 10 * pow10((k - 1) as nat),
        ;
        assert(k >= 2) by {
            if k == 1 {
                assert(pow10(1) == 10);
            }
        }
        lemma_uint_text_len(n / 10, (k - 1) as nat);
    }
}

/// Canonical digits really are digits and denote the number formatted.
pub proof fn lemma_uint_text_val(n: nat)
    ensures
        uint_text(n).len() >= 1,
        all_digits(uint_text(n)),
        digits_val(uint_text(n)) == n,
    decreases n,
{
    if n < 10 {
        assert(is_digit(digit_char(n)));
        assert(digit_val(digit_char(n)) == n);
        let s = uint_text(n);
        assert(s.drop_last() =~= Seq::<char>::empty());
        assert(digits_val(Seq::<char>::empty()) == 0);
        assert(s.last() == digit_char(n));
        assert(digits_val(s) == digits_val(s.drop_last()) * 10 + digit_val(s.last()));
    } else {
        lemma_uint_text_val(n / 10);
        let s = uint_text(n);
        assert(s.drop_last() =~= uint_text(n / 10));
        assert(is_digit(digit_char(n % 10)));
        assert(digit_val(digit_char(n % 10)) == n % 10);
        assert(digits_val(s) == (n / 10) * 10 + n % 10);
        assert forall|i: int| 0 <= i < s.len() implies is_digit(#[trigger] s[i]) by {
            if i < s.len() - 1 {
                assert(s[i] == uint_text(n / 10)[i]);
            } else {
                assert(s[i] == digit_char(n % 10));
            }
        }
    }
}

/// Zeros in front of a digit string change nothing of its value.
pub(crate) proof fn lemma_digits_val_leading_zeros(k: nat, t: Seq<char>)
    ensures
        digits_val(zeros(k) + t) == digits_val(t),
        (zeros(k) + t).len() == k + t.len(),
    decreases t.len(),
{
    if t.len() == 0 {
        assert(zeros(k) + t =~= zeros(k));
        lemma_digits_val_zeros(k);
    } else {
        lemma_digits_val_leading_zeros(k, t.drop_last());
        assert((zeros(k) + t).drop_last() =~= zeros(k) + t.drop_last());
        assert((zeros(k) + t).last() == t.last());
    }
}

pub(crate) proof fn lemma_digits_val_zeros(k: nat)
    ensures
        digits_val(zeros(k)) == 0,
        zeros(k).len() == k,
        all_digits(zeros(k)),
    decreases k,
{
    if k > 0 {
        lemma_digits_val_zeros((k - 1) as nat);
        assert(zeros(k).drop_last() =~= zeros((k - 1) as nat));
        assert(zeros(k).last() == '0');
        assert(digit_val('0') == 0);
        assert(is_digit('0'));
        assert forall|i: int| 0 <= i < zeros(k).len() implies is_digit(#[trigger] zeros(k)[i]) by {
            if i < k - 1 {
                assert(zeros(k)[i] == zeros((k - 1) as nat)[i]);
            }
        }
    }
}

/// Trimming trailing zeros divides the value by the power of ten
/// trimmed away: the trimmed digits still denote the same fraction.
pub(crate) proof fn lemma_digits_val_trim(s: Seq<char>)
    ensures
        trim_trailing_zeros(s).len() <= s.len(),
        digits_val(s) == digits_val(trim_trailing_zeros(s)) * pow10(
            (s.len() - trim_trailing_zeros(s).len()) as nat,
        ),
        all_digits(s) ==> all_digits(trim_trailing_zeros(s)),
    decreases s.len(),
{
    if s.len() > 0 && s.last() == '0' {
        let d = s.drop_last();
        if all_digits(s) {
            assert forall|i: int| 0 <= i < d.len() implies is_digit(#[trigger] d[i]) by {
                assert(d[i] == s[i]);
            }
        }
        lemma_digits_val_trim(d);
        let t = trim_trailing_zeros(s);
        assert(t == trim_trailing_zeros(d));
        let k = (d.len() - t.len()) as nat;
        assert(digit_val('0') == 0);
        assert(digits_val(s) == digits_val(d) * 10);
        assert(digits_val(d) == digits_val(t) * pow10(k));
        assert(pow10(k + 1) == 10 * pow10(k));
        assert(digits_val(t) * pow10(k) * 10 == digits_val(t) * (10 * pow10(k)))
            by (nonlinear_arith);
        assert(digits_val(s) == digits_val(t) * pow10(k + 1));
        assert(s.len() - t.len() == k + 1);
    } else {
        assert(pow10(0) == 1);
        assert(digits_val(s) == digits_val(s) * 1);
    }
}

/// Multiply by a power of ten, reporting overflow.
fn scale_pow10(v: u128, k: usize) -> (r: Option<u128>)
    ensures
        r == if v * pow10(k as nat) <= u128::MAX {
            Some((v * pow10(k as nat)) as u128)
        } else {
            None::<u128>
        },
{
    let mut acc = v;
    let mut j: usize = 0;
    proof {
        assert(pow10(0) == 1);
    }
    while j < k
        invariant
            0 <= j <= k,
            acc == v * pow10(j as nat),
        decreases k - j,
    {
        proof {
            assert(pow10((j + 1) as nat) == 10 * pow10(j as nat));
            assert((v * pow10(j as nat)) * 10 == v * pow10((j + 1) as nat)) by (nonlinear_arith)
                requires
                    pow10((j + 1) as nat) == 10 * pow10(j as nat),
            ;
        }
        acc = match acc.checked_mul(10) {
            Some(x) => x,
            None => {
                proof {
                    lemma_pow10_mono((j + 1) as nat, k as nat);
                    assert(v * pow10((j + 1) as nat) <= v * pow10(k as nat)) by (nonlinear_arith)
                        requires
                            pow10((j + 1) as nat) <= pow10(k as nat),
                            v >= 0,
                    ;
                }
                return None;
            },
        };
        j += 1;
    }
    Some(acc)
}

fn digit_char_exec(d: u128) -> (c: char)
    requires
        d < 10,
    ensures
        c == digit_char(d as nat),
{
    if d == 0 { '0' }
    else if d == 1 { '1' }
    else if d == 2 { '2' }
    else if d == 3 { '3' }
    else if d == 4 { '4' }
    else if d == 5 { '5' }
    else if d == 6 { '6' }
    else if d == 7 { '7' }
    else if d == 8 { '8' }
    else { '9' }
}

/// Canonical digits of `n`, most significant first.
pub(crate) fn format_uint_chars(n: u128) -> (r: Vec<char>)
    ensures
        r@ == uint_text(n as nat),
    decreases n,
{
    if n < 10 {
        let mut v: Vec<char> = Vec::new();
        v.push(digit_char_exec(n));
        assert(v@ =~= seq![digit_char(n as nat)]);
        v
    } else {
        let mut v = format_uint_chars(n / 10);
        v.push(digit_char_exec(n % 10));
        assert(v@ =~= uint_text((n / 10) as nat).push(digit_char((n % 10) as nat)));
        v
    }
}

/// Parse an optionally `-`-signed number; the magnitude must stay within
/// `i128::MAX`, so the most negative `i128` has no text form.
pub(crate) fn parse_int_chars(t: &Vec<char>) -> (r: Option<i128>)
    ensures
        r == spec_parse_int(t@),
{
    let n = t.len();
    if n > 0 && t[0] == '-' {
        match parse_digits(t, 1, n) {
            Some(m) => {
                if m <= i128::MAX as u128 {
                    Some(-(m as i128))
                } else {
                    None
                }
            },
            None => None,
        }
    } else {
        proof {
            assert(t@.subrange(0, n as int) =~= t@);
        }
        match parse_digits(t, 0, n) {
            Some(m) => {
                if m <= i128::MAX as u128 {
                    Some(m as i128)
                } else {
                    None
                }
            },
            None => None,
        }
    }
}

pub(crate) fn format_int_chars(n: i128) -> (r: Vec<char>)
    ensures
        r@ == int_text(n as int),
{
    if n >= 0 {
        format_uint_chars(n as u128)
    } else {
        let mag: u128 = if n == i128::MIN {
            i128::MAX as u128 + 1
        } else {
            (-n) as u128
        };
        assert(mag as int == -(n as int));
        let mut v: Vec<char> = Vec::new();
        v.push('-');
        let mut d = format_uint_chars(mag);
        v.append(&mut d);
        assert(v@ =~= seq!['-'] + uint_text((-(n as int)) as nat));
        v
    }
}

pub(crate) proof fn lemma_dec_split_unique(s: Seq<char>, d1: int, d2: int)
    requires
        dec_split_at(s, d1),
        dec_split_at(s, d2),
    ensures
        d1 == d2,
{
    if d1 < d2 {
        assert(is_digit(s.subrange(d1 + 1, s.len() as int)[d2 - (d1 + 1)]));
        assert(s[d2] == '.');
    } else if d2 < d1 {
        assert(is_digit(s.subrange(d2 + 1, s.len() as int)[d1 - (d2 + 1)]));
        assert(s[d1] == '.');
    }
}

/// The position of the first dot, or the length when there is none.
fn find_dot(t: &Vec<char>) -> (r: usize)
    ensures
        0 <= r <= t@.len(),
        r < t@.len() ==> t@[r as int] == '.',
        forall|j: int| 0 <= j < r ==> t@[j] != '.',
{
    let n = t.len();
    let mut i: usize = 0;
    while i < n
        invariant
            0 <= i <= n,
            n == t@.len(),
            forall|j: int| 0 <= j < i ==> t@[j] != '.',
        decreases n - i,
    {
        if t[i] == '.' {
            return i;
        }
        i += 1;
    }
    n
}

/// Parse decimal text into atomics: digits, an optional dot, and at most
/// [`DEC_PLACES`] fractional digits.
pub(crate) fn parse_dec_chars(t: &Vec<char>) -> (r: Option<u128>)
    ensures
        r == spec_parse_dec(t@),
{
    let n = t.len();
    let dot = find_dot(t);
    if dot == n {
        // no dot: whole-number decimal
        proof {
            assert(forall|d: int| dec_split_at(t@, d) ==> t@[d] == '.' && 0 <= d < t@.len());
            assert(forall|d: int| !dec_split_at(t@, d));
            assert(t@.subrange(0, n as int) =~= t@);
        }
        match parse_digits(t, 0, n) {
            Some(m) => {
                let r = scale_pow10(m, DEC_PLACES);
                proof {
                    if r is None {
                        assert(digits_val(t@) * pow10(DEC_PLACES as nat) > u128::MAX);
                    }
                }
                r
            },
            None => {
                proof {
                    if t@.len() > 0 && all_digits(t@) {
                        // the magnitude alone is already too large
                        lemma_pow10_mono(0, DEC_PLACES as nat);
                        assert(digits_val(t@) * 1 <= digits_val(t@) * pow10(DEC_PLACES as nat))
                            by (nonlinear_arith)
                            requires
                                1 <= pow10(DEC_PLACES as nat),
                                digits_val(t@) >= 0,
                        ;
                    }
                }
                None
            },
        }
    } else {
        let d = dot;
        assert(t@[d as int] == '.');
        proof {
            // only the first dot can head a well-formed split
            assert forall|d2: int| dec_split_at(t@, d2) implies d2 == d as int by {
                if d2 < d {
                    assert(t@[d2] == '.');
                } else if d2 > d {
                    assert(is_digit(t@.subrange(0, d2)[d as int]));
                }
            }
            assert(forall|j: int| 0 <= j < t@.len() && t@[j] == '.' ==> !all_digits(t@));
        }
        if d == 0 || d + 1 == n {
            assert(!dec_split_at(t@, d as int));
            return None;
        }
        let flen = n - (d + 1);
        if flen > DEC_PLACES {
            assert(!dec_split_at(t@, d as int));
            return None;
        }
        let ip = match parse_digits(t, 0, d) {
            Some(m) => m,
            None => {
                proof {
                    let ghost ipart = t@.subrange(0, d as int);
                    if ipart.len() > 0 && all_digits(ipart) {
                        // integer part fits no u128: the atomics cannot either
                        lemma_pow10_mono(0, DEC_PLACES as nat);
                        assert(digits_val(ipart) * 1 <= digits_val(ipart) * pow10(
                            DEC_PLACES as nat,
                        )) by (nonlinear_arith)
                            requires
                                1 <= pow10(DEC_PLACES as nat),
                                digits_val(ipart) >= 0,
                        ;
                        assert(dec_split_at(t@, d as int) ==> dec_split_val(t@, d as int)
                            > u128::MAX);
                    } else {
                        assert(!dec_split_at(t@, d as int));
                    }
                }
                return None;
            },
        };
        let fp = match parse_digits(t, d + 1, n) {
            Some(m) => m,
            None => {
                proof {
                    let ghost fpart = t@.subrange(d + 1, n as int);
                    if fpart.len() > 0 && all_digits(fpart) {
                        lemma_digits_val_bound(fpart);
                        lemma_pow10_mono(fpart.len(), DEC_PLACES as nat);
                        lemma_pow10_18();
                    } else {
                        assert(!dec_split_at(t@, d as int));
                    }
                }
                return None;
            },
        };
        let scaled_i = match scale_pow10(ip, DEC_PLACES) {
            Some(x) => x,
            None => {
                proof {
                    overflow_means_none(t@, d as int);
                }
                return None;
            },
        };
        let scaled_f = match scale_pow10(fp, DEC_PLACES - flen) {
            Some(x) => x,
            None => {
                proof {
                    overflow_means_none(t@, d as int);
                }
                return None;
            },
        };
        let total = match scaled_i.checked_add(scaled_f) {
            Some(x) => x,
            None => {
                proof {
                    overflow_means_none(t@, d as int);
                }
                return None;
            },
        };
        assert(dec_split_at(t@, d as int));
        assert(total == dec_split_val(t@, d as int));
        proof {
            let ghost dw = choose|d2: int| dec_split_at(t@, d2);
            assert(dec_split_at(t@, dw));
            assert(dw == d as int);
        }
        Some(total)
    }
}

/// When part of the atomics sum leaves `u128`, the whole sum does.
proof fn overflow_means_none(s: Seq<char>, d: int)
    requires
        0 < d < s.len() - 1,
    ensures
        dec_split_at(s, d) && dec_split_val(s, d) > u128::MAX ==> spec_parse_dec(s) == None::<
            u128,
        >,
{
    if dec_split_at(s, d) && dec_split_val(s, d) > u128::MAX {
        let dw = choose|d2: int| dec_split_at(s, d2);
        assert(dec_split_at(s, dw));
        lemma_dec_split_unique(s, d, dw);
    }
}

/// Remove trailing `'0'` characters.
fn trim_trailing(w: &mut Vec<char>)
    ensures
        final(w)@ == trim_trailing_zeros(old(w)@),
{
    loop
        invariant
            trim_trailing_zeros(old(w)@) == trim_trailing_zeros(w@),
        decreases w@.len(),
    {
        let l = w.len();
        if l == 0 {
            return ;
        }
        if w[l - 1] != '0' {
            assert(w@.last() != '0');
            return ;
        }
        proof {
            assert(w@.last() == '0');
        }
        w.pop();
    }
}

pub(crate) fn format_dec_chars(a: u128) -> (r: Vec<char>)
    ensures
        r@ == dec_text(a),
{
    let ip = a / DEC_ONE;
    let fp = a % DEC_ONE;
    let mut v = format_uint_chars(ip);
    if fp != 0 {
        v.push('.');
        let mut fd = format_uint_chars(fp);
        proof {
            lemma_pow10_18();
            lemma_uint_text_len(fp as nat, DEC_PLACES as nat);
        }
        let pad = DEC_PLACES - fd.len();
        let mut w: Vec<char> = Vec::new();
        let mut j: usize = 0;
        while j < pad
            invariant
                0 <= j <= pad,
                w@ == zeros(j as nat),
            decreases pad - j,
        {
            w.push('0');
            assert(w@ =~= zeros((j + 1) as nat));
            j += 1;
        }
        w.append(&mut fd);
        assert(w@ == zeros(pad as nat) + uint_text((a % DEC_ONE) as nat));
        trim_trailing(&mut w);
        v.append(&mut w);
        assert(v@ =~= uint_text((a / DEC_ONE) as nat) + seq!['.'] + trim_trailing_zeros(
            zeros((DEC_PLACES - uint_text((a % DEC_ONE) as nat).len()) as nat) + uint_text(
                (a % DEC_ONE) as nat,
            ),
        ));
        v
    } else {
        v
    }
}

/// Whether two character vectors hold the same text.
pub(crate) fn chars_eq(a: &Vec<char>, b: &Vec<char>) -> (r: bool)
    ensures
        r == (a@ == b@),
{
    let n = a.len();
    if n != b.len() {
        return false;
    }
    let mut i: usize = 0;
    while i < n
        invariant
            0 <= i <= n,
            n == a@.len() == b@.len(),
            forall|j: int| 0 <= j < i ==> a@[j] == b@[j],
        decreases n - i,
    {
        if a[i] != b[i] {
            return false;
        }
        i += 1;
    }
    proof {
        assert(a@ =~= b@);
    }
    true
}

pub(crate) fn parse_bool_chars(t: &Vec<char>) -> (r: Option<bool>)
    ensures
        r == spec_parse_bool(t@),
{
    let tt = to_chars("true");
    let ft = to_chars("false");
    if chars_eq(t, &tt) {
        Some(true)
    } else if chars_eq(t, &ft) {
        Some(false)
    } else {
        None
    }
}

/// Parse text into a typed value for the given kind.
pub(crate) fn parse_kind_chars(t: &Vec<char>, k: VariableKind) -> (r: Result<Value, ResolverError>)
    ensures
        result_model(r) == spec_parse_kind(t@, k),
{
    match k {
        VariableKind::String | VariableKind::Asset => Ok(Value::Text(from_chars(t))),
        VariableKind::Uint | VariableKind::Amount | VariableKind::Timestamp => {
            match parse_uint_chars(t) {
                Some(n) => Ok(Value::Uint(n)),
                None => Err(ResolverError::TypeConversionFailed),
            }
        },
        VariableKind::Int => match parse_int_chars(t) {
            Some(n) => Ok(Value::Int(n)),
            None => Err(ResolverError::TypeConversionFailed),
        },
        VariableKind::Decimal => match parse_dec_chars(t) {
            Some(n) => Ok(Value::Dec(n)),
            None => Err(ResolverError::TypeConversionFailed),
        },
        VariableKind::Bool => match parse_bool_chars(t) {
            Some(b) => Ok(Value::Bool(b)),
            None => Err(ResolverError::TypeConversionFailed),
        },
    }
}

/// Parse `text` into a typed value of kind `kind`; fails with
/// `TypeConversionFailed` exactly when the text does not belong to the
/// kind's canonical grammar.
pub fn parse_value(text: &str, kind: VariableKind) -> (r: Result<Value, ResolverError>)
    ensures
        result_model(r) == spec_parse_kind(text@, kind),
{
    let t = to_chars(text);
    parse_kind_chars(&t, kind)
}

pub(crate) fn format_value_chars(v: &Value) -> (r: Vec<char>)
    ensures
        r@ == spec_format(v@),
{
    match v {
        Value::Text(s) => to_chars(s.as_str()),
        Value::Uint(n) => format_uint_chars(*n),
        Value::Int(n) => format_int_chars(*n),
        Value::Dec(a) => format_dec_chars(*a),
        Value::Bool(b) => {
            if *b {
                to_chars("true")
            } else {
                to_chars("false")
            }
        },
    }
}

/// The canonical text of a value.
pub fn format_value(v: &Value) -> (r: String)
    ensures
        r@ == spec_format(v@),
{
    let t = format_value_chars(v);
    from_chars(&t)
}

/// Compare two values under `op`; values of different kinds fail with
/// `TypeMismatch`, as do order comparisons on text or booleans.
pub fn compare_values(a: &Value, b: &Value, op: CmpOp) -> (r: Result<bool, ResolverError>)
    ensures
        r == spec_compare(a@, b@, op),
{
    match (a, b) {
        (Value::Uint(x), Value::Uint(y)) => Ok(cmp_u128(*x, *y, op)),
        (Value::Int(x), Value::Int(y)) => Ok(cmp_i128(*x, *y, op)),
        (Value::Dec(x), Value::Dec(y)) => Ok(cmp_u128(*x, *y, op)),
        (Value::Text(x), Value::Text(y)) => match op {
            CmpOp::Eq => Ok(x.eq(y)),
            CmpOp::Neq => Ok(!x.eq(y)),
            _ => Err(ResolverError::TypeMismatch),
        },
        (Value::Bool(x), Value::Bool(y)) => match op {
            CmpOp::Eq => Ok(*x == *y),
            CmpOp::Neq => Ok(*x != *y),
            _ => Err(ResolverError::TypeMismatch),
        },
        _ => Err(ResolverError::TypeMismatch),
    }
}

fn cmp_u128(x: u128, y: u128, op: CmpOp) -> (r: bool)
    ensures
        r == cmp_holds(x as int, y as int, op),
{
    match op {
        CmpOp::Lt => x < y,
        CmpOp::Lte => x <= y,
        CmpOp::Gt => x > y,
        CmpOp::Gte => x >= y,
        CmpOp::Eq => x == y,
        CmpOp::Neq => x != y,
    }
}

fn cmp_i128(x: i128, y: i128, op: CmpOp) -> (r: bool)
    ensures
        r == cmp_holds(x as int, y as int, op),
{
    match op {
        CmpOp::Lt => x < y,
        CmpOp::Lte => x <= y,
        CmpOp::Gt => x > y,
        CmpOp::Gte => x >= y,
        CmpOp::Eq => x == y,
        CmpOp::Neq => x != y,
    }
}

} // verus!
