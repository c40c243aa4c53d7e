//! Approval: a signer approves what is queued, and the approval that reaches the threshold
//! pays out every queued transfer whose accounts were handed in.

use crate::account::{
    balances_of, find_account, find_key, keys_of, lemma_position, position, transfer_fund,
    transfer_lamports, Account, AccountInfo, AccountView,
};
use crate::error::{Error, Failure};
use crate::pubkey::Pubkey;
use crate::state::{
    approvals, count_signed, fund_verdict, lemma_approvals_bound, no_flags, State, StateView,
};
use crate::transfer::Transfer;
use vstd::prelude::*;

verus! {

/// What the instruction [`approve`] is handed.
#[derive(Clone, Debug, PartialEq, Eq)]
pub struct Approve {
    /// The signer who approves. The host has checked its signature.
    pub signer: Pubkey,
    /// The multisig account.
    pub state: Account<State>,
    /// The fund account of the multisig account.
    pub fund: AccountInfo,
    /// The accounts of the transfers to pay out and of their recipients, in any order. An
    /// address stands for its first entry here, and the fund's own address for the fund.
    pub remaining_accounts: Vec<AccountInfo>,
}

/// One transfer that is ready to be paid: the places of the balances of its record and of
/// its recipient, and the amount. A place is that of an account among the remaining
/// accounts, or their number for the fund.
#[derive(Clone, Copy, Debug, PartialEq, Eq, Structural)]
pub struct Payout {
    pub transfer: usize,
    pub recipient: usize,
    pub lamports: u64,
}

/// What becomes of one queued transfer in an approval that has reached the threshold.
#[derive(Clone, Copy, Debug, PartialEq, Eq, Structural)]
pub enum Lookup {
    /// Its account was not handed in: it stays queued.
    Deferred,
    /// Its account and that of its recipient were handed in: it is paid.
    Ready(Payout),
    /// Its account was handed in and cannot be paid: the instruction fails.
    Failed(Failure),
}

/// The balances that an approval works on: those of the remaining accounts, then the fund's.
pub open spec fn cells(fund: AccountView, remaining: Seq<AccountView>) -> Seq<u64> {
    balances_of(remaining).push(fund.lamports)
}

/// The place of the balance of the account at `key`, which is the fund's or among `keys`.
pub open spec fn cell(fund_key: Pubkey, keys: Seq<Pubkey>, key: Pubkey) -> usize
    recommends
        key == fund_key || position(keys, key) is Some,
{
    if key == fund_key {
        keys.len() as usize
    } else {
        position(keys, key).unwrap() as usize
    }
}

/// What becomes of the queued transfer at `address`. It is deferred where no remaining account
/// lives at `address`. Else the data of that account has to hold a transfer record, and the
/// recipient of the record has to be among the remaining accounts too.
pub open spec fn lookup(fund_key: Pubkey, remaining: Seq<AccountView>, address: Pubkey) -> Lookup {
    let keys = keys_of(remaining);
    match position(keys, address) {
        None => Lookup::Deferred,
        Some(at) => match Transfer::decode(remaining[at].data) {
            Err(failure) => Lookup::Failed(failure),
            Ok(record) => match position(keys, record.recipient) {
                None => Lookup::Failed(Failure::Program(Error::MissingRecipientAccountInfo)),
                Some(_) => Lookup::Ready(
                    Payout {
                        transfer: cell(fund_key, keys, address),
                        recipient: cell(fund_key, keys, record.recipient),
                        lamports: record.lamports,
                    },
                ),
            },
        },
    }
}

/// The failure of the first transfer of `queue` that cannot be paid, if there is one.
pub open spec fn first_failure(fund_key: Pubkey, remaining: Seq<AccountView>, queue: Seq<Pubkey>) -> Option<
    Failure,
>
    decreases queue.len(),
{
    if queue.len() == 0 {
        None
    } else {
        match first_failure(fund_key, remaining, queue.drop_last()) {
            Some(failure) => Some(failure),
            None => match lookup(fund_key, remaining, queue.last()) {
                Lookup::Failed(failure) => Some(failure),
                _ => None,
            },
        }
    }
}

/// Whether no remaining account lives at an address.
pub open spec fn is_deferred(remaining: Seq<AccountView>) -> spec_fn(Pubkey) -> bool {
    |address: Pubkey| position(keys_of(remaining), address) is None
}

/// The payout of the transfer at an address, where it is ready.
pub open spec fn payout_at(fund_key: Pubkey, remaining: Seq<AccountView>) -> spec_fn(Pubkey) -> Option<
    Payout,
> {
    |address: Pubkey|
        match lookup(fund_key, remaining, address) {
            Lookup::Ready(payout) => Some(payout),
            _ => None,
        }
}

/// The transfers of `queue` that stay queued, in their order.
pub open spec fn deferred(remaining: Seq<AccountView>, queue: Seq<Pubkey>) -> Seq<Pubkey> {
    queue.filter(is_deferred(remaining))
}

/// The payouts of the transfers of `queue` that are ready, in their order.
pub open spec fn payouts(fund_key: Pubkey, remaining: Seq<AccountView>, queue: Seq<Pubkey>) -> Seq<
    Payout,
> {
    queue.filter_map(payout_at(fund_key, remaining))
}

/// The balances after one payout: the amount moves from the fund to the recipient, then all
/// that the account of the record holds moves to the fund.
pub open spec fn pay(balances: Seq<u64>, payout: Payout) -> Result<Seq<u64>, Failure> {
    let fund = balances.len() - 1;
    match transfer_lamports(balances, fund, payout.recipient as int, payout.lamports) {
        Err(failure) => Err(failure),
        Ok(paid) => transfer_lamports(paid, payout.transfer as int, fund, paid[payout.transfer as int]),
    }
}

/// The balances after the payouts `due`, made one after the other, or the first failure.
pub open spec fn pay_all(balances: Seq<u64>, due: Seq<Payout>) -> Result<Seq<u64>, Failure>
    decreases due.len(),
{
    if due.len() == 0 {
        Ok(balances)
    } else {
        match pay_all(balances, due.drop_last()) {
            Err(failure) => Err(failure),
            Ok(paid) => pay(paid, due.last()),
        }
    }
}

/// `accounts`, each with the balance that `balances` holds at its place.
pub open spec fn with_balances(accounts: Seq<AccountView>, balances: Seq<u64>) -> Seq<AccountView> {
    Seq::new(
        accounts.len(),
        |i: int|
            AccountView {
                key: accounts[i].key,
                lamports: balances[i],
                is_writable: accounts[i].is_writable,
                data: accounts[i].data,
            },
    )
}

/// What an approval that lands leaves behind: the record of the multisig account, and the
/// balances of the remaining accounts and, last, of the fund.
pub struct Approved {
    pub state: StateView,
    pub balances: Seq<u64>,
}

/// What [`approve`] does, where `guard` is what the guard said of the fund account.
///
/// It fails on a fund account that the guard refuses, on an empty queue, and for a signer that
/// is not one of the signers. Else it sets the flag of the signer. Below the threshold that is
/// all. From the threshold on it fails where a queued transfer cannot be paid, and else pays
/// the transfers that are ready, keeps the others queued, and clears the flags once
/// nothing is queued any more.
pub open spec fn approve_outcome(
    guard: Result<(), Error>,
    signer: Pubkey,
    state: StateView,
    fund: AccountView,
    remaining: Seq<AccountView>,
) -> Result<Approved, Failure> {
    match guard {
        Err(error) => Err(Failure::Program(error)),
        Ok(_) => if state.queue.len() == 0 {
            Err(Failure::Program(Error::AccountEmpty))
        } else {
            match position(state.signers, signer) {
                None => Err(Failure::Program(Error::InvalidSigner)),
                Some(index) => {
                    let signed = state.signed.update(index, true);
                    let marked = StateView { signed, ..state };
                    let before = cells(fund, remaining);
                    let due = payouts(fund.key, remaining, state.queue);
                    if approvals(signed) < state.m {
                        Ok(Approved { state: marked, balances: before })
                    } else {
                        match first_failure(fund.key, remaining, state.queue) {
                            Some(failure) => Err(failure),
                            None => if due.len() == 0 {
                                Ok(Approved { state: marked, balances: before })
                            } else {
                                match pay_all(before, due) {
                                    Err(failure) => Err(failure),
                                    Ok(after) => {
                                        let queue = deferred(remaining, state.queue);
                                        Ok(
                                            Approved {
                                                state: StateView {
                                                    signed: if queue.len() == 0 {
                                                        Seq::new(signed.len(), |i: int| false)
                                                    } else {
                                                        signed
                                                    },
                                                    queue,
                                                    ..state
                                                },
                                                balances: after,
                                            },
                                        )
                                    },
                                }
                            },
                        }
                    }
                },
            }
        },
    }
}

impl Approve {
    /// Whether these accounts are `before` after an approval that left `done`: the record
    /// of the multisig account is the one that was left, the fund and the remaining accounts
    /// hold the balances that were left, and all else is as it was.
    pub open spec fn is_after(&self, before: &Approve, done: Approved) -> bool {
        &&& self.signer == before.signer
        &&& self.state.key == before.state.key
        &&& self.state.lamports == before.state.lamports
        &&& self.state.data@ == done.state
        &&& self.fund@ == (AccountView { lamports: done.balances.last(), ..before.fund@ })
        &&& self.remaining_accounts.len() == before.remaining_accounts.len()
        &&& self.remaining_accounts.deep_view() == with_balances(
            before.remaining_accounts.deep_view(),
            done.balances,
        )
    }

    /// What [`approve`] does with these accounts: see [`approve_outcome`].
    pub open spec fn outcome(&self, fund_bump: u8) -> Result<Approved, Failure> {
        approve_outcome(
            fund_verdict(self.state.key, self.fund@, fund_bump),
            self.signer,
            self.state.data@,
            self.fund@,
            self.remaining_accounts.deep_view(),
        )
    }
}

/// Finds out what becomes of the queued transfer at `address`.
pub fn resolve(fund_key: &Pubkey, remaining: &Vec<AccountInfo>, address: &Pubkey) -> (r: Lookup)
    ensures
        r == lookup(*fund_key, remaining.deep_view(), *address),
        r matches Lookup::Ready(payout) ==> payout.transfer <= remaining.len() && payout.recipient
            <= remaining.len(),
{
    let ghost keys = keys_of(remaining.deep_view());
    let at = match find_account(remaining, address) {
        None => {
            return Lookup::Deferred;
        },
        Some(at) => at,
    };
    proof {
        lemma_position(keys, *address);
    }
    assert(remaining.deep_view()[at as int].data == remaining[at as int].data@);
    let record = match Transfer::try_deserialize(remaining[at].data.as_slice()) {
        Err(failure) => {
            return Lookup::Failed(failure);
        },
        Ok(record) => record,
    };
    let to = match find_account(remaining, &record.recipient) {
        None => {
            return Lookup::Failed(Failure::Program(Error::MissingRecipientAccountInfo));
        },
        Some(to) => to,
    };
    proof {
        lemma_position(keys, record.recipient);
    }
    let fund = remaining.len();
    Lookup::Ready(
        Payout {
            transfer: if *address == *fund_key {
                fund
            } else {
                at
            },
            recipient: if record.recipient == *fund_key {
                fund
            } else {
                to
            },
            lamports: record.lamports,
        },
    )
}

/// A failure among the first `n` transfers of `queue` is the failure of `queue`.
pub proof fn lemma_first_failure_stays(
    fund_key: Pubkey,
    remaining: Seq<AccountView>,
    queue: Seq<Pubkey>,
    n: int,
)
    requires
        0 <= n <= queue.len(),
        first_failure(fund_key, remaining, queue.take(n)) is Some,
    ensures
        first_failure(fund_key, remaining, queue) == first_failure(fund_key, remaining, queue.take(n)),
    decreases queue.len() - n,
{
    if n < queue.len() {
        assert(queue.take(n + 1).drop_last() == queue.take(n));
        lemma_first_failure_stays(fund_key, remaining, queue, n + 1);
    } else {
        assert(queue.take(n) == queue);
    }
}

/// A failure among the first `n` payouts of `due` is the failure of `due`.
pub proof fn lemma_pay_all_stays(balances: Seq<u64>, due: Seq<Payout>, n: int)
    requires
        0 <= n <= due.len(),
        pay_all(balances, due.take(n)) is Err,
    ensures
        pay_all(balances, due) == pay_all(balances, due.take(n)),
    decreases due.len() - n,
{
    if n < due.len() {
        assert(due.take(n + 1).drop_last() == due.take(n));
        lemma_pay_all_stays(balances, due, n + 1);
    } else {
        assert(due.take(n) == due);
    }
}

/// Sorts `queue` into the payouts that are due and the transfers that stay queued, or
/// fails with the failure of the first transfer that cannot be paid.
pub fn plan(fund_key: &Pubkey, remaining: &Vec<AccountInfo>, queue: &Vec<Pubkey>) -> (r: Result<
    (Vec<Payout>, Vec<Pubkey>),
    Failure,
>)
    ensures
        match first_failure(*fund_key, remaining.deep_view(), queue@) {
            Some(failure) => r matches Err(found) && found == failure,
            None => r matches Ok((due, rest)) && due@ == payouts(
                *fund_key,
                remaining.deep_view(),
                queue@,
            ) && rest@ == deferred(remaining.deep_view(), queue@) && forall|k: int|
                0 <= k < due.len() ==> due[k].transfer <= remaining.len() && due[k].recipient
                    <= remaining.len(),
        },
{
    let ghost accounts = remaining.deep_view();
    let mut due: Vec<Payout> = Vec::new();
    let mut rest: Vec<Pubkey> = Vec::new();
    let mut i: usize = 0;
    proof {
        reveal(Seq::filter);
    }
    while i < queue.len()
        invariant
            i <= queue.len(),
            accounts == remaining.deep_view(),
            first_failure(*fund_key, accounts, queue@.take(i as int)) is None,
            due@ == payouts(*fund_key, accounts, queue@.take(i as int)),
            rest@ == deferred(accounts, queue@.take(i as int)),
            forall|k: int|
                0 <= k < due.len() ==> due[k].transfer <= remaining.len() && due[k].recipient
                    <= remaining.len(),
        decreases queue.len() - i,
    {
        let ghost head = queue@.take(i as int);
        let ghost next = queue@.take(i + 1);
        proof {
            assert(next.drop_last() == head);
            assert(next =~= head.push(queue@[i as int]));
            head.lemma_filter_push(queue@[i as int], is_deferred(accounts));
            queue@.lemma_filter_map_take_succ(payout_at(*fund_key, accounts), i as int);
        }
        match resolve(fund_key, remaining, &queue[i]) {
            Lookup::Deferred => {
                rest.push(queue[i]);
            },
            Lookup::Ready(payout) => {
                due.push(payout);
            },
            Lookup::Failed(failure) => {
                proof {
                    lemma_first_failure_stays(*fund_key, accounts, queue@, i + 1);
                }
                return Err(failure);
            },
        }
        i += 1;
    }
    assert(queue@.take(i as int) == queue@);
    Ok((due, rest))
}

/// The balances that an approval works on.
pub(crate) fn collect_cells(fund: &AccountInfo, remaining: &Vec<AccountInfo>) -> (r: Vec<u64>)
    ensures
        r@ == cells(fund@, remaining.deep_view()),
{
    let mut r: Vec<u64> = Vec::new();
    let mut i: usize = 0;
    while i < remaining.len()
        invariant
            i <= remaining.len(),
            r.len() == i,
            forall|j: int| 0 <= j < i ==> r[j] == remaining[j].lamports,
        decreases remaining.len() - i,
    {
        r.push(remaining[i].lamports);
        i += 1;
    }
    r.push(fund.lamports);
    assert(r@ =~= cells(fund@, remaining.deep_view()));
    r
}

/// Makes the payouts `due` on the balances `start`, one after the other, or fails with the
/// first failure.
pub fn pay_out(start: &Vec<u64>, due: &Vec<Payout>) -> (r: Result<Vec<u64>, Failure>)
    requires
        start.len() >= 1,
        forall|k: int|
            0 <= k < due.len() ==> due[k].transfer < start.len() && due[k].recipient < start.len(),
    ensures
        match pay_all(start@, due@) {
            Ok(after) => r matches Ok(paid) && paid@ == after && paid.len() == start.len(),
            Err(failure) => r matches Err(found) && found == failure,
        },
{
    let mut balances = copy_balances(start);
    let fund = balances.len() - 1;
    let mut i: usize = 0;
    while i < due.len()
        invariant
            i <= due.len(),
            balances.len() == fund + 1 == start.len(),
            forall|k: int|
                0 <= k < due.len() ==> due[k].transfer < start.len() && due[k].recipient
                    < start.len(),
            pay_all(start@, due@.take(i as int)) == Ok::<Seq<u64>, Failure>(balances@),
        decreases due.len() - i,
    {
        let payout = due[i];
        proof {
            let next = due@.take(i + 1);
            assert(next.drop_last() == due@.take(i as int));
            assert(next.last() == payout);
            assert(pay_all(start@, next) == pay(balances@, payout));
            if pay(balances@, payout) is Err {
                lemma_pay_all_stays(start@, due@, i + 1);
            }
        }
        match transfer_fund(&mut balances, fund, payout.recipient, payout.lamports) {
            Err(failure) => {
                return Err(failure);
            },
            Ok(()) => {},
        }
        let rent = balances[payout.transfer];
        match transfer_fund(&mut balances, payout.transfer, fund, rent) {
            Err(failure) => {
                return Err(failure);
            },
            Ok(()) => {},
        }
        i += 1;
    }
    assert(due@.take(i as int) == due@);
    Ok(balances)
}

/// A copy of `balances`.
pub(crate) fn copy_balances(balances: &Vec<u64>) -> (r: Vec<u64>)
    ensures
        r@ == balances@,
{
    let mut r: Vec<u64> = Vec::new();
    let mut i: usize = 0;
    while i < balances.len()
        invariant
            i <= balances.len(),
            r@ == balances@.take(i as int),
        decreases balances.len() - i,
    {
        r.push(balances[i]);
        assert(r@ =~= balances@.take(i + 1));
        i += 1;
    }
    assert(balances@.take(i as int) == balances@);
    r
}

/// Gives each of `accounts` the balance that `balances` holds at its place.
pub(crate) fn set_balances(accounts: &mut Vec<AccountInfo>, balances: &Vec<u64>)
    requires
        old(accounts).len() <= balances.len(),
    ensures
        final(accounts).len() == old(accounts).len(),
        final(accounts).deep_view() == with_balances(old(accounts).deep_view(), balances@),
{
    let n = accounts.len();
    let mut i: usize = 0;
    while i < n
        invariant
            i <= n == accounts.len() == old(accounts).len() <= balances.len(),
            forall|j: int|
                0 <= j < i ==> accounts[j]@ == with_balances(old(accounts).deep_view(), balances@)[j],
            forall|j: int| i <= j < n ==> accounts[j] == old(accounts)[j],
        decreases n - i,
    {
        accounts[i].lamports = balances[i];
        i += 1;
    }
    assert(accounts.deep_view() =~= with_balances(old(accounts).deep_view(), balances@));
}

/// Approves what is queued, in the name of the signer, and pays out once the threshold is
/// reached, where `guard` is what the guard said of the fund account: see
/// [`approve_outcome`]. An approval that fails changes nothing.
pub fn approve_guarded(ctx: &mut Approve, guard: Result<(), Error>) -> (r: Result<(), Failure>)
    requires
        old(ctx).state.data@.has_flags(),
    ensures
        match approve_outcome(
            guard,
            old(ctx).signer,
            old(ctx).state.data@,
            old(ctx).fund@,
            old(ctx).remaining_accounts.deep_view(),
        ) {
            Err(failure) => r == Err::<(), Failure>(failure) && *final(ctx) == *old(ctx),
            Ok(done) => {
                &&& r is Ok
                &&& final(ctx).is_after(old(ctx), done)
                &&& final(ctx).state.data@.has_flags()
                &&& old(ctx).state.data.wf() ==> final(ctx).state.data.wf()
            },
        },
{
    let ghost accounts = ctx.remaining_accounts.deep_view();
    match guard {
        Err(error) => {
            return Err(Failure::Program(error));
        },
        Ok(()) => {},
    }
    if ctx.state.data.is_queue_empty() {
        return Err(Failure::Program(Error::AccountEmpty));
    }
    let index = match find_key(&ctx.state.data.signers, &ctx.signer) {
        None => {
            return Err(Failure::Program(Error::InvalidSigner));
        },
        Some(index) => index,
    };
    proof {
        lemma_position(ctx.state.data.signers@, ctx.signer);
    }
    let mut signed = copy_flags(&ctx.state.data.signed);
    signed[index] = true;
    proof {
        lemma_approvals_bound(signed@);
        assert(with_balances(accounts, cells(ctx.fund@, accounts)) =~= accounts);
    }
    if count_signed(&signed) < ctx.state.data.m as usize {
        ctx.state.data.signed = signed;
        return Ok(());
    }
    let (due, rest) = match plan(&ctx.fund.key, &ctx.remaining_accounts, &ctx.state.data.queue) {
        Err(failure) => {
            return Err(failure);
        },
        Ok(sorted) => sorted,
    };
    if due.len() == 0 {
        ctx.state.data.signed = signed;
        return Ok(());
    }
    let before = collect_cells(&ctx.fund, &ctx.remaining_accounts);
    let balances = match pay_out(&before, &due) {
        Err(failure) => {
            return Err(failure);
        },
        Ok(balances) => balances,
    };
    proof {
        ctx.state.data.queue@.lemma_filter_len(is_deferred(accounts));
    }
    ctx.fund.lamports = balances[ctx.remaining_accounts.len()];
    set_balances(&mut ctx.remaining_accounts, &balances);
    if rest.len() == 0 {
        signed = no_flags(signed.len());
    }
    ctx.state.data.signed = signed;
    ctx.state.data.queue = rest;
    Ok(())
}

/// Approves what is queued, in the name of the signer, and pays out once the threshold is
/// reached: see [`approve_outcome`]. An approval that fails changes nothing.
pub fn approve(ctx: &mut Approve, fund_bump: u8) -> (r: Result<(), Failure>)
    requires
        old(ctx).state.data@.has_flags(),
    ensures
        match old(ctx).outcome(fund_bump) {
            Err(failure) => r == Err::<(), Failure>(failure) && *final(ctx) == *old(ctx),
            Ok(done) => {
                &&& r is Ok
                &&& final(ctx).is_after(old(ctx), done)
                &&& final(ctx).state.data@.has_flags()
                &&& old(ctx).state.data.wf() ==> final(ctx).state.data.wf()
            },
        },
{
    let guard = State::validate_fund(&ctx.state, &ctx.fund, fund_bump);
    approve_guarded(ctx, guard)
}

/// A copy of `flags`.
pub(crate) fn copy_flags(flags: &Vec<bool>) -> (r: Vec<bool>)
    ensures
        r@ == flags@,
{
    let mut r: Vec<bool> = Vec::new();
    let mut i: usize = 0;
    while i < flags.len()
        invariant
            i <= flags.len(),
            r@ == flags@.take(i as int),
        decreases flags.len() - i,
    {
        r.push(flags[i]);
        assert(r@ =~= flags@.take(i + 1));
        i += 1;
    }
    assert(flags@.take(i as int) == flags@);
    r
}

} // verus!
