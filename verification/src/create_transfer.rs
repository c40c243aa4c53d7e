//! Queueing: a signer asks for a transfer from the fund.

use crate::account::{
    find_key, position, transfer_fund, transfer_lamports, Account, AccountInfo, AccountView,
};
use crate::error::{Error, Failure};
use crate::pubkey::Pubkey;
use crate::state::{fund_verdict, State, StateView};
use crate::transfer::Transfer;
use vstd::prelude::*;

verus! {

/// What the instruction [`create_transfer`] is handed.
#[derive(Clone, Debug, PartialEq, Eq)]
pub struct CreateTransfer {
    /// The signer who asks for the transfer, and who has paid for the account of its
    /// record. The host has checked its signature.
    pub creator: AccountInfo,
    /// The multisig account.
    pub state: Account<State>,
    /// The fund account of the multisig account.
    pub fund: AccountInfo,
    /// The account of the record, which the host has allocated. Its lamports are what the
    /// creator has paid for it.
    pub transfer: Account<Transfer>,
}

/// What a queueing that lands leaves behind: the record of the multisig account, the
/// balances of the fund and of the creator, and the record of the transfer.
pub struct Queued {
    pub state: StateView,
    pub fund: u64,
    pub creator: u64,
    pub record: Transfer,
}

/// What [`create_transfer`] does, where `guard` is what the guard said of the fund account
/// and `rent` is what the account of the transfer holds.
///
/// It fails, in this order: on a locked account; on a fund account that the guard refuses;
/// for a creator that is not one of the signers; on a full queue; where the balance of the
/// record is less than `lamports`; and where what the creator has paid for the account of the
/// transfer cannot move from the fund to the creator. Else that amount has moved, the
/// record of the transfer is written, its address is the last of the queue, and the balance
/// of the record is less by `lamports`.
pub open spec fn create_transfer_outcome(
    guard: Result<(), Error>,
    creator: AccountView,
    state: StateView,
    fund: AccountView,
    transfer_key: Pubkey,
    rent: u64,
    recipient: Pubkey,
    lamports: u64,
) -> Result<Queued, Failure> {
    if state.is_locked() {
        Err(Failure::Program(Error::AccountLocked))
    } else {
        match guard {
            Err(error) => Err(Failure::Program(error)),
            Ok(_) => if position(state.signers, creator.key) is None {
                Err(Failure::Program(Error::InvalidSigner))
            } else if state.is_queue_full() {
                Err(Failure::Program(Error::AccountFull))
            } else if state.balance < lamports {
                Err(Failure::Program(Error::NotEnoughFundBalance))
            } else {
                match transfer_lamports(seq![fund.lamports, creator.lamports], 0, 1, rent) {
                    Err(failure) => Err(failure),
                    Ok(balances) => Ok(
                        Queued {
                            state: StateView {
                                balance: (state.balance - lamports) as u64,
                                queue: state.queue.push(transfer_key),
                                ..state
                            },
                            fund: balances[0],
                            creator: balances[1],
                            record: Transfer { creator: creator.key, recipient, lamports },
                        },
                    ),
                }
            },
        }
    }
}

impl CreateTransfer {
    /// Whether these accounts are `before` after a queueing that left `done`: the records of
    /// the multisig account and of the transfer are the ones that were left, the fund and
    /// the creator hold the balances that were left, and all else is as it was.
    pub open spec fn is_after(&self, before: &CreateTransfer, done: Queued) -> bool {
        &&& self.state.key == before.state.key
        &&& self.state.lamports == before.state.lamports
        &&& self.state.data@ == done.state
        &&& self.fund@ == (AccountView { lamports: done.fund, ..before.fund@ })
        &&& self.creator@ == (AccountView { lamports: done.creator, ..before.creator@ })
        &&& self.transfer.key == before.transfer.key
        &&& self.transfer.lamports == before.transfer.lamports
        &&& self.transfer.data == done.record
    }

    /// What [`create_transfer`] does with these accounts: see [`create_transfer_outcome`].
    pub open spec fn outcome(&self, recipient: Pubkey, lamports: u64, fund_bump: u8) -> Result<
        Queued,
        Failure,
    > {
        create_transfer_outcome(
            fund_verdict(self.state.key, self.fund@, fund_bump),
            self.creator@,
            self.state.data@,
            self.fund@,
            self.transfer.key,
            self.transfer.lamports,
            recipient,
            lamports,
        )
    }
}

/// Queues a transfer of `lamports` to `recipient`, where `guard` is what the guard said of
/// the fund account: see [`create_transfer_outcome`]. A queueing that fails changes nothing.
pub fn create_transfer_guarded(
    ctx: &mut CreateTransfer,
    guard: Result<(), Error>,
    recipient: Pubkey,
    lamports: u64,
) -> (r: Result<(), Failure>)
    ensures
        match create_transfer_outcome(
            guard,
            old(ctx).creator@,
            old(ctx).state.data@,
            old(ctx).fund@,
            old(ctx).transfer.key,
            old(ctx).transfer.lamports,
            recipient,
            lamports,
        ) {
            Err(failure) => r == Err::<(), Failure>(failure) && *final(ctx) == *old(ctx),
            Ok(done) => {
                &&& r is Ok
                &&& final(ctx).is_after(old(ctx), done)
                &&& old(ctx).state.data.wf() ==> final(ctx).state.data.wf()
            },
        },
{
    if ctx.state.data.is_locked() {
        return Err(Failure::Program(Error::AccountLocked));
    }
    match guard {
        Err(error) => {
            return Err(Failure::Program(error));
        },
        Ok(()) => {},
    }
    if find_key(&ctx.state.data.signers, &ctx.creator.key).is_none() {
        return Err(Failure::Program(Error::InvalidSigner));
    }
    match ctx.state.data.validate_queue() {
        Err(error) => {
            return Err(Failure::Program(error));
        },
        Ok(()) => {},
    }
    if ctx.state.data.balance < lamports {
        return Err(Failure::Program(Error::NotEnoughFundBalance));
    }
    let mut balances: Vec<u64> = Vec::new();
    balances.push(ctx.fund.lamports);
    balances.push(ctx.creator.lamports);
    assert(balances@ =~= seq![ctx.fund.lamports, ctx.creator.lamports]);
    match transfer_fund(&mut balances, 0, 1, ctx.transfer.lamports) {
        Err(failure) => {
            return Err(failure);
        },
        Ok(()) => {},
    }
    ctx.fund.lamports = balances[0];
    ctx.creator.lamports = balances[1];
    ctx.transfer.data = Transfer { creator: ctx.creator.key, recipient, lamports };
    ctx.state.data.balance = ctx.state.data.balance - lamports;
    ctx.state.data.queue.push(ctx.transfer.key);
    Ok(())
}

/// Queues a transfer of `lamports` to `recipient`: see [`create_transfer_outcome`]. A
/// queueing that fails changes nothing.
pub fn create_transfer(ctx: &mut CreateTransfer, recipient: Pubkey, lamports: u64, fund_bump: u8) -> (r:
    Result<(), Failure>)
    ensures
        match old(ctx).outcome(recipient, lamports, fund_bump) {
            Err(failure) => r == Err::<(), Failure>(failure) && *final(ctx) == *old(ctx),
            Ok(done) => {
                &&& r is Ok
                &&& final(ctx).is_after(old(ctx), done)
                &&& old(ctx).state.data.wf() ==> final(ctx).state.data.wf()
            },
        },
{
    let guard = State::validate_fund(&ctx.state, &ctx.fund, fund_bump);
    create_transfer_guarded(ctx, guard, recipient, lamports)
}

} // verus!
