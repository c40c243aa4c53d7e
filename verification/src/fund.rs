//! Funding: the funder adds lamports to the fund.

use crate::account::{Account, AccountInfo};
use crate::error::{Error, Failure};
use crate::pubkey::Pubkey;
use crate::state::{fund_verdict, State, StateView};
use vstd::prelude::*;

verus! {

/// What the instruction [`fund`] is handed.
#[derive(Clone, Debug, PartialEq, Eq)]
pub struct Fund {
    /// The funder, who adds the lamports. The host has checked its signature, and that the
    /// multisig account is the one derived from it.
    pub funder: Pubkey,
    /// The multisig account.
    pub state: Account<State>,
    /// The fund account of the multisig account. The host moves the lamports to it, on the
    /// funder's signature, once the instruction has landed.
    pub fund: AccountInfo,
}

/// What [`fund`] writes, where `guard` is what the guard said of the fund account.
///
/// It fails on a fund account that the guard refuses, and where the balance would pass
/// `u64::MAX`. Else the balance of the record grows by `lamports`.
pub open spec fn fund_outcome(guard: Result<(), Error>, state: StateView, lamports: u64) -> Result<
    StateView,
    Failure,
> {
    match guard {
        Err(error) => Err(Failure::Program(error)),
        Ok(_) => if state.balance + lamports > u64::MAX {
            Err(Failure::ArithmeticOverflow)
        } else {
            Ok(StateView { balance: (state.balance + lamports) as u64, ..state })
        },
    }
}

impl Fund {
    /// Whether these accounts are `before` after a funding that wrote `state`: the record of
    /// the multisig account is `state`, and all else is as it was.
    pub open spec fn is_after(&self, before: &Fund, state: StateView) -> bool {
        &&& self.funder == before.funder
        &&& self.fund == before.fund
        &&& self.state.key == before.state.key
        &&& self.state.lamports == before.state.lamports
        &&& self.state.data@ == state
    }

    /// What [`fund`] writes for these accounts: see [`fund_outcome`].
    pub open spec fn outcome(&self, lamports: u64, fund_bump: u8) -> Result<StateView, Failure> {
        fund_outcome(
            fund_verdict(self.state.key, self.fund@, fund_bump),
            self.state.data@,
            lamports,
        )
    }
}

/// Records that the funder adds `lamports` to the fund, where `guard` is what the guard said
/// of the fund account: see [`fund_outcome`]. A funding that fails changes nothing.
pub fn fund_guarded(ctx: &mut Fund, guard: Result<(), Error>, lamports: u64) -> (r: Result<(), Failure>)
    ensures
        match fund_outcome(guard, old(ctx).state.data@, lamports) {
            Err(failure) => r == Err::<(), Failure>(failure) && *final(ctx) == *old(ctx),
            Ok(state) => {
                &&& r is Ok
                &&& final(ctx).is_after(old(ctx), state)
                &&& old(ctx).state.data.wf() ==> final(ctx).state.data.wf()
            },
        },
{
    match guard {
        Err(error) => {
            return Err(Failure::Program(error));
        },
        Ok(()) => {},
    }
    if lamports > u64::MAX - ctx.state.data.balance {
        return Err(Failure::ArithmeticOverflow);
    }
    ctx.state.data.balance = ctx.state.data.balance + lamports;
    Ok(())
}

/// Records that the funder adds `lamports` to the fund: see [`fund_outcome`]. A funding that
/// fails changes nothing.
pub fn fund(ctx: &mut Fund, lamports: u64, _state_bump: u8, fund_bump: u8) -> (r: Result<(), Failure>)
    ensures
        match old(ctx).outcome(lamports, fund_bump) {
            Err(failure) => r == Err::<(), Failure>(failure) && *final(ctx) == *old(ctx),
            Ok(state) => {
                &&& r is Ok
                &&& final(ctx).is_after(old(ctx), state)
                &&& old(ctx).state.data.wf() ==> final(ctx).state.data.wf()
            },
        },
{
    let guard = State::validate_fund(&ctx.state, &ctx.fund, fund_bump);
    fund_guarded(ctx, guard, lamports)
}

} // verus!
