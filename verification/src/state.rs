//! The record of a multisig account, and the guards that every instruction goes through.

use crate::account::{find_key, lemma_position, Account, AccountInfo, AccountView};
use crate::error::Error;
use crate::pubkey::{create_program_address, id, program_address, program_id, Pubkey};
use anchor_lang::solana_program::pubkey::PubkeyError;
use vstd::prelude::*;

verus! {

/// The record of a multisig account.
#[derive(Clone, Debug, PartialEq, Eq)]
pub struct State {
    /// The threshold: how many signers have to approve.
    pub m: u8,
    /// The signers.
    pub signers: Vec<Pubkey>,
    /// For each signer, whether it has approved what is queued now.
    pub signed: Vec<bool>,
    /// The address of the fund account, which holds the lamports.
    pub fund: Pubkey,
    /// The lamports of the fund that no queued transfer has reserved.
    pub balance: u64,
    /// The largest number of pending transfers.
    pub q: u8,
    /// The addresses of the pending transfers, oldest first.
    pub queue: Vec<Pubkey>,
}

/// What a [`State`] holds.
pub struct StateView {
    pub m: u8,
    pub signers: Seq<Pubkey>,
    pub signed: Seq<bool>,
    pub fund: Pubkey,
    pub balance: u64,
    pub q: u8,
    pub queue: Seq<Pubkey>,
}

impl View for State {
    type V = StateView;

    open spec fn view(&self) -> StateView {
        StateView {
            m: self.m,
            signers: self.signers@,
            signed: self.signed@,
            fund: self.fund,
            balance: self.balance,
            q: self.q,
            queue: self.queue@,
        }
    }
}

/// A count brought into the range from 1 to 255.
pub open spec fn clamped(n: int) -> int {
    if n < 1 {
        1
    } else if n > 255 {
        255
    } else {
        n
    }
}

/// The number of bytes of a record with `n` signers and room for `q` pending transfers:
/// the tag, the threshold, the signers and their flags, each list behind its length, the
/// address of the fund, the balance, the limit, and the queue behind its length.
pub open spec fn space_of(n: int, q: int) -> int {
    8 + 1 + 4 + 32 * n + 4 + n + 32 + 8 + 1 + 4 + 32 * q
}

/// How many of the flags are set.
pub open spec fn approvals(signed: Seq<bool>) -> nat
    decreases signed.len(),
{
    if signed.len() == 0 {
        0
    } else {
        approvals(signed.drop_last()) + if signed.last() {
            1nat
        } else {
            0nat
        }
    }
}

/// No more flags are set than there are flags.
pub proof fn lemma_approvals_bound(signed: Seq<bool>)
    ensures
        approvals(signed) <= signed.len(),
    decreases signed.len(),
{
    if signed.len() > 0 {
        lemma_approvals_bound(signed.drop_last());
    }
}

/// The seeds from which the address of the fund of the multisig account at `state_key` is
/// derived: the word `fund`, that address, and the bump.
pub open spec fn fund_seeds(state_key: Pubkey, bump: u8) -> Seq<Seq<u8>> {
    seq![seq![102u8, 117, 110, 100], state_key@, seq![bump]]
}

/// What the guard on the fund account says of `fund`, where `derived` is the address that was
/// derived for the fund, if one was: the first of its four objections that applies, or none.
pub open spec fn fund_judged(fund: AccountView, derived: Option<Seq<u8>>) -> Result<(), Error> {
    if !fund.is_writable {
        Err(Error::FundAccountNotWritable)
    } else if fund.data.len() != 0 {
        Err(Error::FundAccountIsNotEmpty)
    } else {
        match derived {
            None => Err(Error::InvalidFundBumpSeed),
            Some(address) => if address == fund.key@ {
                Ok(())
            } else {
                Err(Error::InvalidFundAddress)
            },
        }
    }
}

/// What the guard on the fund account says of `fund`, handed in with `bump` as the fund of the
/// multisig account at `state_key`.
pub open spec fn fund_verdict(state_key: Pubkey, fund: AccountView, bump: u8) -> Result<(), Error> {
    fund_judged(fund, program_address(fund_seeds(state_key, bump), program_id()))
}

/// Counts the flags that are set.
pub fn count_signed(signed: &Vec<bool>) -> (r: usize)
    ensures
        r == approvals(signed@),
{
    let mut count: usize = 0;
    let mut i: usize = 0;
    while i < signed.len()
        invariant
            i <= signed.len(),
            count == approvals(signed@.take(i as int)),
            count <= i,
        decreases signed.len() - i,
    {
        assert(signed@.take(i + 1).drop_last() == signed@.take(i as int));
        if signed[i] {
            count += 1;
        }
        i += 1;
    }
    assert(signed@.take(i as int) == signed@);
    count
}

/// As many flags as `n`, none of them set.
pub(crate) fn no_flags(n: usize) -> (r: Vec<bool>)
    ensures
        r@ == Seq::new(n as nat, |i: int| false),
{
    let mut r: Vec<bool> = Vec::new();
    while r.len() < n
        invariant
            r.len() <= n,
            forall|i: int| 0 <= i < r.len() ==> !r[i],
        decreases n - r.len(),
    {
        r.push(false);
    }
    assert(r@ =~= Seq::new(n as nat, |i: int| false));
    r
}

impl StateView {
    /// What holds of every record that this program wrote: between one and 255 signers, none of
    /// them twice, a flag for each, a threshold that they can reach, and a queue within its
    /// limit.
    pub open spec fn wf(self) -> bool {
        &&& 1 <= self.m <= self.signers.len() <= 255
        &&& self.signers.no_duplicates()
        &&& self.signed.len() == self.signers.len()
        &&& 1 <= self.q
        &&& self.queue.len() <= self.q
    }

    /// Whether the record holds a flag for each of its signers, and no more than 255 of them.
    pub open spec fn has_flags(self) -> bool {
        self.signed.len() == self.signers.len() <= 255
    }

    /// Whether any signer has approved.
    pub open spec fn is_locked(self) -> bool {
        self.signed.contains(true)
    }

    /// Whether the queue has reached its limit.
    pub open spec fn is_queue_full(self) -> bool {
        self.queue.len() == self.q
    }
}

impl State {
    /// The smallest number of signers.
    pub const MIN_SIGNERS: u8 = 1;

    /// The largest number of signers.
    pub const MAX_SIGNERS: u8 = 255;

    /// The smallest limit of a queue.
    pub const MIN_QUEUE: u8 = 1;

    /// The largest limit of a queue.
    pub const MAX_QUEUE: u8 = 255;

    /// See [`StateView::wf`].
    pub open spec fn wf(&self) -> bool {
        self@.wf()
    }

    /// The number of bytes to allocate for the record of a multisig account with these
    /// signers and the limit `q`, both counts brought into the range from 1 to 255.
    pub fn space(signers: &[Pubkey], q: u8) -> (r: usize)
        ensures
            r == space_of(clamped(signers@.len() as int), clamped(q as int)),
    {
        let n: usize = if signers.len() > 255 {
            255
        } else {
            State::valid_n(signers.len() as u8) as usize
        };
        let q: usize = State::valid_q(q) as usize;
        8 + 1 + 4 + 32 * n + 4 + n + 32 + 8 + 1 + 4 + 32 * q
    }

    /// A number of signers, brought into the range from 1 to 255.
    pub fn valid_n(n: u8) -> (r: u8)
        ensures
            r == clamped(n as int),
    {
        if n < State::MIN_SIGNERS {
            State::MIN_SIGNERS
        } else {
            n
        }
    }

    /// A limit of the queue, brought into the range from 1 to 255.
    pub fn valid_q(q: u8) -> (r: u8)
        ensures
            r == clamped(q as int),
    {
        if q < State::MIN_QUEUE {
            State::MIN_QUEUE
        } else {
            q
        }
    }

    /// Whether no transfer is pending.
    pub fn is_queue_empty(&self) -> (r: bool)
        ensures
            r == (self@.queue.len() == 0),
    {
        self.queue.len() == 0
    }

    /// Whether the queue has reached its limit.
    pub fn is_queue_full(&self) -> (r: bool)
        ensures
            r == self@.is_queue_full(),
    {
        self.queue.len() == self.q as usize
    }

    /// Whether the account is locked: it is from the first approval on, until what is
    /// queued has been paid out.
    pub fn is_locked(&self) -> (r: bool)
        ensures
            r == self@.is_locked(),
    {
        let mut i: usize = 0;
        while i < self.signed.len()
            invariant
                i <= self.signed.len(),
                forall|j: int| 0 <= j < i ==> !self.signed[j],
            decreases self.signed.len() - i,
        {
            if self.signed[i] {
                assert(self@.signed[i as int]);
                return true;
            }
            i += 1;
        }
        false
    }

    /// Whether the record holds a flag for each of its signers, and no more than 255 of them.
    pub fn has_flags(&self) -> (r: bool)
        ensures
            r == self@.has_flags(),
    {
        self.signed.len() == self.signers.len() && self.signers.len() <= 255
    }

    /// Whether the record is one that this program could have written.
    pub fn is_valid(&self) -> (r: bool)
        ensures
            r == self.wf(),
    {
        let n = self.signers.len();
        if self.m < 1 || self.m as usize > n || n > 255 || self.signed.len() != n || self.q < 1
            || self.queue.len() > self.q as usize {
            return false;
        }
        let mut i: usize = 0;
        while i < n
            invariant
                i <= n == self.signers.len(),
                forall|a: int, b: int| 0 <= a < b < i ==> self.signers[a] != self.signers[b],
            decreases n - i,
        {
            proof {
                lemma_position(self.signers@, self.signers[i as int]);
            }
            match find_key(&self.signers, &self.signers[i]) {
                Some(first) => {
                    if first != i {
                        return false;
                    }
                },
                None => {
                    return false;
                },
            }
            i += 1;
        }
        true
    }

    /// Refuses a queue that is full.
    pub fn validate_queue(&self) -> (r: Result<(), Error>)
        ensures
            r == if self@.is_queue_full() {
                Err::<(), Error>(Error::AccountFull)
            } else {
                Ok::<(), Error>(())
            },
    {
        if self.is_queue_full() {
            return Err(Error::AccountFull);
        }
        Ok(())
    }

    /// Refuses a fund account that is not writable, that carries data, for which no address
    /// was derived, or that is not at the address that was derived.
    pub fn check_fund(fund: &AccountInfo, derived: Result<Pubkey, PubkeyError>) -> (r: Result<
        (),
        Error,
    >)
        ensures
            r == fund_judged(
                fund@,
                match derived {
                    Ok(address) => Some(address@),
                    Err(_) => None,
                },
            ),
    {
        if !fund.is_writable {
            return Err(Error::FundAccountNotWritable);
        }
        if fund.data.len() != 0 {
            return Err(Error::FundAccountIsNotEmpty);
        }
        match derived {
            Err(_) => Err(Error::InvalidFundBumpSeed),
            Ok(address) => {
                proof {
                    if address@ == fund.key@ {
                        Pubkey::lemma_view_injective(address, fund.key);
                    }
                }
                if address == fund.key {
                    Ok(())
                } else {
                    Err(Error::InvalidFundAddress)
                }
            },
        }
    }

    /// Refuses a fund account that is not writable, that carries data, whose bump derives no
    /// address, or that is not at the address derived for the fund of this multisig account.
    pub fn validate_fund(state: &Account<State>, fund: &AccountInfo, bump: u8) -> (r: Result<(), Error>)
        ensures
            r == fund_verdict(state.key, fund@, bump),
            r is Ok ==> program_address(fund_seeds(state.key, bump), program_id()) == Some(fund.key@),
    {
        let mut tag: Vec<u8> = Vec::new();
        tag.push(102);
        tag.push(117);
        tag.push(110);
        tag.push(100);
        let mut owner: Vec<u8> = Vec::new();
        let mut i: usize = 0;
        while i < 32
            invariant
                i <= 32,
                owner@ == state.key@.take(i as int),
            decreases 32 - i,
        {
            owner.push(state.key.0[i]);
            assert(owner@ =~= state.key@.take(i + 1));
            i += 1;
        }
        assert(state.key@.take(32) == state.key@);
        let mut last: Vec<u8> = Vec::new();
        last.push(bump);
        let mut seeds: Vec<Vec<u8>> = Vec::new();
        seeds.push(tag);
        seeds.push(owner);
        seeds.push(last);
        assert(seeds.deep_view() =~= fund_seeds(state.key, bump)) by {
            assert(seeds.deep_view()[0] =~= seq![102u8, 117, 110, 100]);
            assert(seeds.deep_view()[1] =~= state.key@);
            assert(seeds.deep_view()[2] =~= seq![bump]);
        }
        let program = id();
        State::check_fund(fund, create_program_address(&seeds, &program))
    }
}

} // verus!
