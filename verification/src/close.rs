//! Closing: the funder takes back what the fund holds.

use crate::account::{
    find_account, keys_of, lemma_position, position, transfer_fund, transfer_lamports, Account,
    AccountInfo, AccountView,
};
use crate::approve::{cell, cells, collect_cells, set_balances, with_balances};
use crate::error::{Error, Failure};
use crate::pubkey::Pubkey;
use crate::state::{fund_verdict, State};
use vstd::prelude::*;

verus! {

/// What the instruction [`close`] is handed.
#[derive(Clone, Debug, PartialEq, Eq)]
pub struct Close {
    /// The funder of the multisig account, who takes the lamports. The host has checked its
    /// signature, and that the multisig account is the one derived from it.
    pub funder: AccountInfo,
    /// The multisig account. The host destroys it once the instruction has landed, and hands
    /// its own lamports to the funder.
    pub state: Account<State>,
    /// The fund account of the multisig account.
    pub fund: AccountInfo,
    /// The accounts of the transfers that are still queued, as far as the caller hands them
    /// in. An address stands for its first entry here, and the fund's own address for the fund.
    pub remaining_accounts: Vec<AccountInfo>,
}

/// The place of the balance of the queued transfer at an address, where its account is
/// among the remaining accounts.
pub open spec fn reclaimed_at(fund_key: Pubkey, remaining: Seq<AccountView>) -> spec_fn(
    Pubkey,
) -> Option<usize> {
    |address: Pubkey|
        if position(keys_of(remaining), address) is Some {
            Some(cell(fund_key, keys_of(remaining), address))
        } else {
            None
        }
}

/// The places of the balances of the transfers of `queue` whose accounts were handed in, in
/// the order of `queue`.
pub open spec fn reclaimed(fund_key: Pubkey, remaining: Seq<AccountView>, queue: Seq<Pubkey>) -> Seq<
    usize,
> {
    queue.filter_map(reclaimed_at(fund_key, remaining))
}

/// The balances after all that the balance at `from` holds has moved to the fund's, which
/// is the last.
pub open spec fn reclaim(balances: Seq<u64>, from: usize) -> Result<Seq<u64>, Failure> {
    transfer_lamports(balances, from as int, balances.len() - 1, balances[from as int])
}

/// The balances after all that the balances at `from` hold has moved to the fund's, one after
/// the other, or the first failure.
pub open spec fn reclaim_all(balances: Seq<u64>, from: Seq<usize>) -> Result<Seq<u64>, Failure>
    decreases from.len(),
{
    if from.len() == 0 {
        Ok(balances)
    } else {
        match reclaim_all(balances, from.drop_last()) {
            Err(failure) => Err(failure),
            Ok(moved) => reclaim(moved, from.last()),
        }
    }
}

/// What a closing that lands leaves behind: the balances of the remaining accounts and,
/// last, of the fund, and the balance of the funder.
pub struct Closed {
    pub balances: Seq<u64>,
    pub funder: u64,
}

/// What [`close`] does, where `guard` is what the guard said of the fund account.
///
/// It fails on a fund account that the guard refuses. Else all that the handed-in accounts
/// of queued transfers hold moves to the fund, and then all that the fund holds moves to
/// the funder.
pub open spec fn close_outcome(
    guard: Result<(), Error>,
    queue: Seq<Pubkey>,
    funder: AccountView,
    fund: AccountView,
    remaining: Seq<AccountView>,
) -> Result<Closed, Failure> {
    match guard {
        Err(error) => Err(Failure::Program(error)),
        Ok(_) => match reclaim_all(cells(fund, remaining), reclaimed(fund.key, remaining, queue)) {
            Err(failure) => Err(failure),
            Ok(gathered) => if funder.lamports + gathered.last() > u64::MAX {
                Err(Failure::ArithmeticOverflow)
            } else {
                Ok(
                    Closed {
                        balances: gathered.update(gathered.len() - 1, 0),
                        funder: (funder.lamports + gathered.last()) as u64,
                    },
                )
            },
        },
    }
}

impl Close {
    /// Whether these accounts are `before` after a closing that left `done`: the funder and
    /// the remaining accounts hold the balances that were left, the fund holds nothing, and
    /// all else is as it was.
    pub open spec fn is_after(&self, before: &Close, done: Closed) -> bool {
        &&& self.state == before.state
        &&& self.funder@ == (AccountView { lamports: done.funder, ..before.funder@ })
        &&& self.fund@ == (AccountView { lamports: 0, ..before.fund@ })
        &&& self.remaining_accounts.len() == before.remaining_accounts.len()
        &&& self.remaining_accounts.deep_view() == with_balances(
            before.remaining_accounts.deep_view(),
            done.balances,
        )
    }

    /// What [`close`] does with these accounts: see [`close_outcome`].
    pub open spec fn outcome(&self, fund_bump: u8) -> Result<Closed, Failure> {
        close_outcome(
            fund_verdict(self.state.key, self.fund@, fund_bump),
            self.state.data@.queue,
            self.funder@,
            self.fund@,
            self.remaining_accounts.deep_view(),
        )
    }
}

/// A failure among the first `n` of the moves is the failure of them all.
pub proof fn lemma_reclaim_all_stays(balances: Seq<u64>, from: Seq<usize>, n: int)
    requires
        0 <= n <= from.len(),
        reclaim_all(balances, from.take(n)) is Err,
    ensures
        reclaim_all(balances, from) == reclaim_all(balances, from.take(n)),
    decreases from.len() - n,
{
    if n < from.len() {
        assert(from.take(n + 1).drop_last() == from.take(n));
        lemma_reclaim_all_stays(balances, from, n + 1);
    } else {
        assert(from.take(n) == from);
    }
}

/// Moves to the fund all that the handed-in accounts of the transfers of `queue` hold.
pub fn gather(fund: &AccountInfo, remaining: &Vec<AccountInfo>, queue: &Vec<Pubkey>) -> (r: Result<
    Vec<u64>,
    Failure,
>)
    ensures
        match reclaim_all(
            cells(fund@, remaining.deep_view()),
            reclaimed(fund.key, remaining.deep_view(), queue@),
        ) {
            Ok(gathered) => r matches Ok(balances) && balances@ == gathered && balances.len()
                == remaining.len() + 1,
            Err(failure) => r matches Err(found) && found == failure,
        },
{
    let ghost accounts = remaining.deep_view();
    let ghost start = cells(fund@, accounts);
    let ghost places = reclaimed(fund.key, accounts, queue@);
    let mut balances = collect_cells(fund, remaining);
    let last = remaining.len();
    let mut i: usize = 0;
    while i < queue.len()
        invariant
            i <= queue.len(),
            accounts == remaining.deep_view(),
            start == cells(fund@, accounts),
            places == reclaimed(fund.key, accounts, queue@),
            last == remaining.len(),
            balances.len() == last + 1,
            reclaim_all(start, reclaimed(fund.key, accounts, queue@.take(i as int))) == Ok::<
                Seq<u64>,
                Failure,
            >(balances@),
        decreases queue.len() - i,
    {
        let ghost head = reclaimed(fund.key, accounts, queue@.take(i as int));
        let ghost next = reclaimed(fund.key, accounts, queue@.take(i + 1));
        proof {
            queue@.lemma_filter_map_take_succ(reclaimed_at(fund.key, accounts), i as int);
            lemma_position(keys_of(accounts), queue@[i as int]);
        }
        match find_account(remaining, &queue[i]) {
            None => {
                assert(next == head);
            },
            Some(at) => {
                let from = if queue[i] == fund.key {
                    last
                } else {
                    at
                };
                proof {
                    assert(next == head.push(from));
                    assert(next.drop_last() == head);
                    if reclaim(balances@, from) is Err {
                        lemma_reclaimed_prefix(fund.key, accounts, queue@, i + 1);
                        lemma_reclaim_all_stays(start, places, next.len() as int);
                    }
                }
                let rent = balances[from];
                match transfer_fund(&mut balances, from, last, rent) {
                    Err(failure) => {
                        return Err(failure);
                    },
                    Ok(()) => {},
                }
            },
        }
        i += 1;
    }
    assert(queue@.take(i as int) == queue@);
    Ok(balances)
}

/// The places found for the first `n` transfers of `queue` are the first places found for
/// `queue`.
pub proof fn lemma_reclaimed_prefix(
    fund_key: Pubkey,
    remaining: Seq<AccountView>,
    queue: Seq<Pubkey>,
    n: int,
)
    requires
        0 <= n <= queue.len(),
    ensures
        reclaimed(fund_key, remaining, queue.take(n)).len() <= reclaimed(
            fund_key,
            remaining,
            queue,
        ).len(),
        reclaimed(fund_key, remaining, queue).take(
            reclaimed(fund_key, remaining, queue.take(n)).len() as int,
        ) == reclaimed(fund_key, remaining, queue.take(n)),
    decreases queue.len() - n,
{
    if n < queue.len() {
        queue.lemma_filter_map_take_succ(reclaimed_at(fund_key, remaining), n);
        lemma_reclaimed_prefix(fund_key, remaining, queue, n + 1);
        let short = reclaimed(fund_key, remaining, queue.take(n));
        let long = reclaimed(fund_key, remaining, queue.take(n + 1));
        let all = reclaimed(fund_key, remaining, queue);
        assert(all.take(short.len() as int) =~= all.take(long.len() as int).take(short.len() as int));
        assert(long.take(short.len() as int) =~= short);
    } else {
        assert(queue.take(n) == queue);
        let all = reclaimed(fund_key, remaining, queue);
        assert(all.take(all.len() as int) == all);
    }
}

/// Closes the multisig account, where `guard` is what the guard said of the fund account:
/// see [`close_outcome`]. A closing that fails changes nothing.
pub fn close_guarded(ctx: &mut Close, guard: Result<(), Error>) -> (r: Result<(), Failure>)
    ensures
        match close_outcome(
            guard,
            old(ctx).state.data@.queue,
            old(ctx).funder@,
            old(ctx).fund@,
            old(ctx).remaining_accounts.deep_view(),
        ) {
            Err(failure) => r == Err::<(), Failure>(failure) && *final(ctx) == *old(ctx),
            Ok(done) => r is Ok && final(ctx).is_after(old(ctx), done),
        },
{
    match guard {
        Err(error) => {
            return Err(Failure::Program(error));
        },
        Ok(()) => {},
    }
    let balances = match gather(&ctx.fund, &ctx.remaining_accounts, &ctx.state.data.queue) {
        Err(failure) => {
            return Err(failure);
        },
        Ok(balances) => balances,
    };
    let total = balances[ctx.remaining_accounts.len()];
    if total > u64::MAX - ctx.funder.lamports {
        return Err(Failure::ArithmeticOverflow);
    }
    proof {
        let accounts = ctx.remaining_accounts.deep_view();
        assert(with_balances(accounts, balances@) =~= with_balances(
            accounts,
            balances@.update(balances@.len() - 1, 0),
        ));
    }
    ctx.funder.lamports = ctx.funder.lamports + total;
    ctx.fund.lamports = 0;
    set_balances(&mut ctx.remaining_accounts, &balances);
    Ok(())
}

/// Closes the multisig account: see [`close_outcome`]. A closing that fails changes nothing.
pub fn close(ctx: &mut Close, _state_bump: u8, fund_bump: u8) -> (r: Result<(), Failure>)
    ensures
        match old(ctx).outcome(fund_bump) {
            Err(failure) => r == Err::<(), Failure>(failure) && *final(ctx) == *old(ctx),
            Ok(done) => r is Ok && final(ctx).is_after(old(ctx), done),
        },
{
    let guard = State::validate_fund(&ctx.state, &ctx.fund, fund_bump);
    close_guarded(ctx, guard)
}

} // verus!
