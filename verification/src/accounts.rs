use vstd::prelude::*;

verus! {

/// A funding account and the pending jobs currently drawing on it.
#[derive(Debug)]
pub struct FundingAccount {
    pub account_addr: String,
    pub taken_by_job_ids: Vec<u64>,
}

/// An execution account as reported to callers.
#[derive(Debug)]
pub struct Account {
    pub addr: String,
    pub taken_by_job_id: Option<u64>,
}

/// The first funding account no job draws on.
pub fn first_free_funding_account(accounts: &Vec<FundingAccount>) -> (r: Option<usize>)
    ensures
        match r {
            Some(i) => i < accounts@.len() && accounts@[i as int].taken_by_job_ids@.len() == 0
                && (forall|j: int|
                0 <= j < i ==> #[trigger] accounts@[j].taken_by_job_ids@.len() > 0),
            None => forall|j: int|
                0 <= j < accounts@.len() ==> #[trigger] accounts@[j].taken_by_job_ids@.len() > 0,
        },
{
    let n = accounts.len();
    let mut i: usize = 0;
    while i < n
        invariant
            0 <= i <= n,
            n == accounts@.len(),
            forall|j: int| 0 <= j < i ==> #[trigger] accounts@[j].taken_by_job_ids@.len() > 0,
        decreases n - i,
    {
        if accounts[i].taken_by_job_ids.len() == 0 {
            return Some(i);
        }
        i += 1;
    }
    None
}

/// The first funding account with the given address.
pub fn find_funding_account(accounts: &Vec<FundingAccount>, addr: &String) -> (r: Option<usize>)
    ensures
        match r {
            Some(i) => i < accounts@.len() && accounts@[i as int].account_addr@ == addr@ && (
            forall|j: int| 0 <= j < i ==> #[trigger] accounts@[j].account_addr@ != addr@),
            None => forall|j: int|
                0 <= j < accounts@.len() ==> #[trigger] accounts@[j].account_addr@ != addr@,
        },
{
    let n = accounts.len();
    let mut i: usize = 0;
    while i < n
        invariant
            0 <= i <= n,
            n == accounts@.len(),
            forall|j: int| 0 <= j < i ==> #[trigger] accounts@[j].account_addr@ != addr@,
        decreases n - i,
    {
        if accounts[i].account_addr.eq(addr) {
            return Some(i);
        }
        i += 1;
    }
    None
}

/// Shape a page of stored (address, job id) pairs into account records.
pub fn to_accounts(pairs: Vec<(String, u64)>) -> (r: Vec<Account>)
    ensures
        r@.len() == pairs@.len(),
        forall|i: int|
            0 <= i < pairs@.len() ==> (#[trigger] r@[i]).addr == pairs@[i].0 && r@[i].taken_by_job_id
                == Some(pairs@[i].1),
{
    let ghost orig = pairs@;
    let mut rem = pairs;
    let mut out: Vec<Account> = Vec::new();
    loop
        invariant
            orig == pairs@,
            out@.len() + rem@.len() == orig.len(),
            rem@ == orig.subrange(out@.len() as int, orig.len() as int),
            forall|i: int|
                0 <= i < out@.len() ==> (#[trigger] out@[i]).addr == orig[i].0 && out@[
                    i
                ].taken_by_job_id == Some(orig[i].1),
        decreases rem@.len(),
    {
        if rem.len() == 0 {
            return out;
        }
        let ghost i = out@.len() as int;
        let p = rem.remove(0);
        proof {
            assert(p == orig[i]);
            assert(rem@ =~= orig.subrange(i + 1, orig.len() as int));
        }
        out.push(Account { addr: p.0, taken_by_job_id: Some(p.1) });
    }
}

/// A withdrawal instruction over plain values; the caller turns it into
/// the chain's message type.
#[derive(Debug)]
pub enum WithdrawMsg {
    NativeSend { to: String, denom: String, amount: u128 },
    Cw20Transfer { token: String, recipient: String, amount: u128 },
    Cw721Transfer { token: String, recipient: String, token_id: String },
}

/// Send the whole native balance to the owner, when any is held.
pub fn withdraw_native_decision(balance: u128, owner: String, denom: String) -> (r: Option<
    WithdrawMsg,
>)
    ensures
        balance > 0 <==> r is Some,
        match r {
            Some(m) => m matches WithdrawMsg::NativeSend { to, denom: d, amount } && to == owner
                && d == denom && amount == balance,
            None => balance == 0,
        },
{
    if balance > 0 {
        Some(WithdrawMsg::NativeSend { to: owner, denom, amount: balance })
    } else {
        None
    }
}

/// Transfer the whole token balance to the owner, when any is held.
pub fn withdraw_cw20_decision(balance: u128, owner: String, token: String) -> (r: Option<
    WithdrawMsg,
>)
    ensures
        balance > 0 <==> r is Some,
        match r {
            Some(m) => m matches WithdrawMsg::Cw20Transfer { token: t, recipient, amount } && t
                == token && recipient == owner && amount == balance,
            None => balance == 0,
        },
{
    if balance > 0 {
        Some(WithdrawMsg::Cw20Transfer { token, recipient: owner, amount: balance })
    } else {
        None
    }
}

/// Transfer the token to the owner exactly when the account still
/// holds it.
pub fn withdraw_cw721_decision(
    current_owner: &String,
    owner: String,
    token: String,
    token_id: String,
) -> (r: Option<WithdrawMsg>)
    ensures
        current_owner@ == owner@ <==> r is Some,
        match r {
            Some(m) => m matches WithdrawMsg::Cw721Transfer { token: t, recipient, token_id: id }
                && t == token && recipient == owner && id == token_id,
            None => current_owner@ != owner@,
        },
{
    if current_owner.eq(&owner) {
        Some(WithdrawMsg::Cw721Transfer { token, recipient: owner, token_id })
    } else {
        None
    }
}

} // verus!
