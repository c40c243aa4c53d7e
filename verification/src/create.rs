//! Creation: a funder sets up a multisig account for a set of signers.

use crate::account::{find_key, lemma_position, Account, AccountInfo};
use crate::error::{Error, Failure};
use crate::pubkey::Pubkey;
use crate::state::{clamped, fund_verdict, no_flags, State, StateView};
use vstd::prelude::*;

verus! {

/// What the instruction [`create`] is handed.
#[derive(Clone, Debug, PartialEq, Eq)]
pub struct Create {
    /// The funder, who pays for the accounts. The host has checked its signature.
    pub funder: Pubkey,
    /// The account of the new multisig account, which the host has allocated at the address
    /// derived from the funder.
    pub state: Account<State>,
    /// The fund account of the new multisig account. The host allocates it once the
    /// instruction has landed.
    pub fund: AccountInfo,
}

/// `keys` without the keys that stand there for the second time or later.
pub open spec fn distinct(keys: Seq<Pubkey>) -> Seq<Pubkey>
    decreases keys.len(),
{
    if keys.len() == 0 {
        keys
    } else {
        let front = distinct(keys.drop_last());
        if front.contains(keys.last()) {
            front
        } else {
            front.push(keys.last())
        }
    }
}

/// [`distinct`] holds a key exactly where the keys that it was given hold it.
pub proof fn lemma_distinct_contains(keys: Seq<Pubkey>, key: Pubkey)
    ensures
        distinct(keys).contains(key) <==> keys.contains(key),
    decreases keys.len(),
{
    if keys.len() > 0 {
        let front = keys.drop_last();
        let kept = distinct(front);
        lemma_distinct_contains(front, key);
        if keys.contains(key) {
            let i = choose|i: int| 0 <= i < keys.len() && keys[i] == key;
            if i < front.len() {
                assert(front[i] == key);
            }
            if kept.contains(key) {
                let j = choose|j: int| 0 <= j < kept.len() && kept[j] == key;
                assert(distinct(keys)[j] == key);
            } else {
                assert(keys.last() == key);
                assert(distinct(keys)[kept.len() as int] == key);
            }
        }
        if distinct(keys).contains(key) {
            let j = choose|j: int| 0 <= j < distinct(keys).len() && distinct(keys)[j] == key;
            if j < kept.len() {
                assert(kept[j] == key);
                let i = choose|i: int| 0 <= i < front.len() && front[i] == key;
                assert(keys[i] == key);
            } else {
                assert(keys[keys.len() - 1] == key);
            }
        }
    }
}

/// [`distinct`] holds no key twice, and no more keys than it was given.
pub proof fn lemma_distinct(keys: Seq<Pubkey>)
    ensures
        distinct(keys).no_duplicates(),
        distinct(keys).len() <= keys.len(),
    decreases keys.len(),
{
    if keys.len() > 0 {
        lemma_distinct(keys.drop_last());
    }
}

/// What [`create`] writes, where `guard` is what the guard said of the fund account, which
/// lives at `fund`.
///
/// It fails on a threshold of zero, then on a fund account that the guard refuses. The
/// signers are taken once each, in the order in which they first stand in `signers`; it fails
/// where none is left, where more than 255 are left, and where fewer are left than the
/// threshold asks for. Else the record holds the threshold, those signers with no flag set,
/// the address of the fund, no balance, the limit of the queue, and an empty queue.
pub open spec fn create_outcome(
    guard: Result<(), Error>,
    fund: Pubkey,
    m: u8,
    signers: Seq<Pubkey>,
    q: u8,
) -> Result<StateView, Failure> {
    let unique = distinct(signers);
    if m < 1 {
        Err(Failure::Program(Error::NoSigners))
    } else {
        match guard {
            Err(error) => Err(Failure::Program(error)),
            Ok(_) => if unique.len() < 1 {
                Err(Failure::Program(Error::NoSigners))
            } else if unique.len() > 255 {
                Err(Failure::Program(Error::TooManySigners))
            } else if unique.len() < m {
                Err(Failure::Program(Error::ThresholdTooHigh))
            } else {
                Ok(
                    StateView {
                        m,
                        signers: unique,
                        signed: Seq::new(unique.len(), |i: int| false),
                        fund,
                        balance: 0,
                        q: clamped(q as int) as u8,
                        queue: Seq::empty(),
                    },
                )
            },
        }
    }
}

impl Create {
    /// Whether these accounts are `before` after a creation that wrote `state`: the record of
    /// the multisig account is `state`, and all else is as it was.
    pub open spec fn is_after(&self, before: &Create, state: StateView) -> bool {
        &&& self.funder == before.funder
        &&& self.fund == before.fund
        &&& self.state.key == before.state.key
        &&& self.state.lamports == before.state.lamports
        &&& self.state.data@ == state
    }

    /// What [`create`] writes for these accounts: see [`create_outcome`].
    pub open spec fn outcome(&self, m: u8, signers: Seq<Pubkey>, q: u8, fund_bump: u8) -> Result<
        StateView,
        Failure,
    > {
        create_outcome(
            fund_verdict(self.state.key, self.fund@, fund_bump),
            self.fund.key,
            m,
            signers,
            q,
        )
    }
}

/// Takes each of `keys` once, in the order in which they first stand there.
pub fn dedup(keys: &Vec<Pubkey>) -> (r: Vec<Pubkey>)
    ensures
        r@ == distinct(keys@),
{
    let mut r: Vec<Pubkey> = Vec::new();
    let mut i: usize = 0;
    while i < keys.len()
        invariant
            i <= keys.len(),
            r@ == distinct(keys@.take(i as int)),
        decreases keys.len() - i,
    {
        proof {
            assert(keys@.take(i + 1).drop_last() == keys@.take(i as int));
            lemma_position(r@, keys@[i as int]);
        }
        if find_key(&r, &keys[i]).is_none() {
            r.push(keys[i]);
        }
        i += 1;
    }
    assert(keys@.take(i as int) == keys@);
    r
}

/// Sets up the multisig account, where `guard` is what the guard said of the fund account:
/// see [`create_outcome`]. A creation that fails changes nothing.
pub fn create_guarded(ctx: &mut Create, guard: Result<(), Error>, m: u8, signers: Vec<Pubkey>, q: u8) -> (r:
    Result<(), Failure>)
    ensures
        match create_outcome(guard, old(ctx).fund.key, m, signers@, q) {
            Err(failure) => r == Err::<(), Failure>(failure) && *final(ctx) == *old(ctx),
            Ok(state) => {
                &&& r is Ok
                &&& final(ctx).is_after(old(ctx), state)
                &&& final(ctx).state.data.wf()
            },
        },
{
    if m < State::MIN_SIGNERS {
        return Err(Failure::Program(Error::NoSigners));
    }
    match guard {
        Err(error) => {
            return Err(Failure::Program(error));
        },
        Ok(()) => {},
    }
    let unique = dedup(&signers);
    proof {
        lemma_distinct(signers@);
    }
    if unique.len() < State::MIN_SIGNERS as usize {
        return Err(Failure::Program(Error::NoSigners));
    }
    if unique.len() > State::MAX_SIGNERS as usize {
        return Err(Failure::Program(Error::TooManySigners));
    }
    if unique.len() < m as usize {
        return Err(Failure::Program(Error::ThresholdTooHigh));
    }
    ctx.state.data.m = m;
    ctx.state.data.signed = no_flags(unique.len());
    ctx.state.data.signers = unique;
    ctx.state.data.fund = ctx.fund.key;
    ctx.state.data.balance = 0;
    ctx.state.data.q = State::valid_q(q);
    ctx.state.data.queue = Vec::new();
    Ok(())
}

/// Sets up the multisig account: see [`create_outcome`]. A creation that fails changes
/// nothing.
pub fn create(ctx: &mut Create, m: u8, signers: Vec<Pubkey>, q: u8, _state_bump: u8, fund_bump: u8) -> (r:
    Result<(), Failure>)
    ensures
        match old(ctx).outcome(m, signers@, q, fund_bump) {
            Err(failure) => r == Err::<(), Failure>(failure) && *final(ctx) == *old(ctx),
            Ok(state) => {
                &&& r is Ok
                &&& final(ctx).is_after(old(ctx), state)
                &&& final(ctx).state.data.wf()
            },
        },
{
    let guard = State::validate_fund(&ctx.state, &ctx.fund, fund_bump);
    create_guarded(ctx, guard, m, signers, q)
}

} // verus!
