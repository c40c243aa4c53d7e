//! What holds of the instructions taken together.

use crate::account::{keys_of, lemma_position, position, transfer_lamports, AccountView};
use crate::approve::{
    approve_outcome, cells, deferred, first_failure, is_deferred, lookup, pay, pay_all, payout_at,
    payouts, with_balances, Lookup, Payout,
};
use crate::close::{close_outcome, reclaim_all, reclaimed, reclaimed_at};
use crate::create::create_outcome;
use crate::create_transfer::{create_transfer_outcome, Queued};
use crate::error::{Error, Failure};
use crate::fund::fund_outcome;
use crate::pubkey::Pubkey;
use crate::state::{approvals, StateView};
use crate::transfer::Transfer;
use vstd::prelude::*;

verus! {

/// The lamports that the transfers of `queue` are to pay, going by the records `book`.
pub open spec fn reserved(queue: Seq<Pubkey>, book: Map<Pubkey, Transfer>) -> int
    decreases queue.len(),
{
    if queue.len() == 0 {
        0
    } else {
        reserved(queue.drop_last(), book) + book[queue.last()].lamports
    }
}

/// The lamports that the payouts `due` pay.
pub open spec fn total_of(due: Seq<Payout>) -> int
    decreases due.len(),
{
    if due.len() == 0 {
        0
    } else {
        total_of(due.drop_last()) + due.last().lamports
    }
}

/// Whether the approval of `signer` brings the approvals of `state` to its threshold.
pub open spec fn reaches_threshold(state: StateView, signer: Pubkey) -> bool {
    match position(state.signers, signer) {
        None => false,
        Some(index) => approvals(state.signed.update(index, true)) >= state.m,
    }
}

/// The lamports that an approval pays to recipients: what its payouts pay, where it lands
/// and has reached the threshold.
pub open spec fn paid_out(
    guard: Result<(), Error>,
    signer: Pubkey,
    state: StateView,
    fund: AccountView,
    remaining: Seq<AccountView>,
) -> int {
    if approve_outcome(guard, signer, state, fund, remaining) is Ok
        && reaches_threshold(state, signer) {
        total_of(payouts(fund.key, remaining, state.queue))
    } else {
        0
    }
}

/// Whether the data of each handed-in account of a transfer of `queue` holds the record
/// that `book` has for it.
pub open spec fn book_agrees(
    book: Map<Pubkey, Transfer>,
    remaining: Seq<AccountView>,
    queue: Seq<Pubkey>,
) -> bool {
    forall|i: int|
        0 <= i < queue.len() ==> match #[trigger] position(keys_of(remaining), queue[i]) {
            Some(at) => Transfer::decode(remaining[at].data) == Ok::<Transfer, Failure>(
                book[queue[i]],
            ),
            None => true,
        }
}

/// Whether the books balance: what the record holds as its balance, what its queued
/// transfers are to pay and what has been paid out make up what was funded.
pub open spec fn conserved(
    state: StateView,
    book: Map<Pubkey, Transfer>,
    paid: int,
    funded: int,
) -> bool {
    state.balance + reserved(state.queue, book) + paid == funded
}

/// Conservation, at the start: a multisig account that was just created balances with
/// nothing funded and nothing paid out.
pub proof fn lemma_create_conserves(
    guard: Result<(), Error>,
    fund: Pubkey,
    m: u8,
    signers: Seq<Pubkey>,
    q: u8,
    book: Map<Pubkey, Transfer>,
)
    requires
        create_outcome(guard, fund, m, signers, q) is Ok,
    ensures
        conserved(create_outcome(guard, fund, m, signers, q).unwrap(), book, 0, 0),
{
}

/// Conservation, on funding: where the books balance, they balance after a funding that
/// lands, with what was funded grown by its amount.
pub proof fn lemma_fund_conserves(
    guard: Result<(), Error>,
    state: StateView,
    lamports: u64,
    book: Map<Pubkey, Transfer>,
    paid: int,
    funded: int,
)
    requires
        conserved(state, book, paid, funded),
        fund_outcome(guard, state, lamports) is Ok,
    ensures
        conserved(
            fund_outcome(guard, state, lamports).unwrap(),
            book,
            paid,
            funded + lamports,
        ),
{
}

/// The records of other addresses do not count for what a queue is to pay.
pub proof fn lemma_reserved_insert(
    queue: Seq<Pubkey>,
    book: Map<Pubkey, Transfer>,
    key: Pubkey,
    record: Transfer,
)
    requires
        !queue.contains(key),
    ensures
        reserved(queue, book.insert(key, record)) == reserved(queue, book),
    decreases queue.len(),
{
    if queue.len() > 0 {
        let front = queue.drop_last();
        assert(queue[queue.len() - 1] != key);
        assert forall|i: int| 0 <= i < front.len() implies front[i] != key by {
            assert(queue[i] == front[i]);
        }
        lemma_reserved_insert(front, book, key, record);
    }
}

/// Conservation, on queueing: where the books balance, they balance after a queueing that
/// lands at an address that was not queued before, with the new record entered.
pub proof fn lemma_create_transfer_conserves(
    guard: Result<(), Error>,
    creator: AccountView,
    state: StateView,
    fund: AccountView,
    transfer_key: Pubkey,
    rent: u64,
    recipient: Pubkey,
    lamports: u64,
    book: Map<Pubkey, Transfer>,
    paid: int,
    funded: int,
)
    requires
        conserved(state, book, paid, funded),
        !state.queue.contains(transfer_key),
        create_transfer_outcome(
            guard,
            creator,
            state,
            fund,
            transfer_key,
            rent,
            recipient,
            lamports,
        ) is Ok,
    ensures
        ({
            let done = create_transfer_outcome(
                guard,
                creator,
                state,
                fund,
                transfer_key,
                rent,
                recipient,
                lamports,
            ).unwrap();
            conserved(done.state, book.insert(transfer_key, done.record), paid, funded)
        }),
{
    let done = create_transfer_outcome(
        guard,
        creator,
        state,
        fund,
        transfer_key,
        rent,
        recipient,
        lamports,
    ).unwrap();
    lemma_reserved_insert(state.queue, book, transfer_key, done.record);
    assert(done.state.queue.drop_last() == state.queue);
}

/// Where no transfer of `queue` fails, what `queue` is to pay is what its deferred
/// transfers are to pay and what its payouts pay.
pub proof fn lemma_reserved_splits(
    fund_key: Pubkey,
    remaining: Seq<AccountView>,
    queue: Seq<Pubkey>,
    book: Map<Pubkey, Transfer>,
)
    requires
        book_agrees(book, remaining, queue),
        first_failure(fund_key, remaining, queue) is None,
    ensures
        reserved(queue, book) == reserved(deferred(remaining, queue), book) + total_of(
            payouts(fund_key, remaining, queue),
        ),
    decreases queue.len(),
{
    reveal(Seq::filter);
    if queue.len() > 0 {
        let front = queue.drop_last();
        let last = queue.last();
        assert forall|i: int| 0 <= i < front.len() implies match #[trigger] position(
            keys_of(remaining),
            front[i],
        ) {
            Some(at) => Transfer::decode(remaining[at].data) == Ok::<Transfer, Failure>(
                book[front[i]],
            ),
            None => true,
        } by {
            assert(front[i] == queue[i]);
        }
        lemma_reserved_splits(fund_key, remaining, front, book);
        assert(queue =~= front.push(last));
        front.lemma_filter_push(last, is_deferred(remaining));
        assert(queue.take(queue.len() - 1) == front);
        assert(queue.take(queue.len() as int) == queue);
        queue.lemma_filter_map_take_succ(payout_at(fund_key, remaining), queue.len() - 1);
        let held = deferred(remaining, front);
        let due = payouts(fund_key, remaining, front);
        assert(queue[queue.len() - 1] == last);
        match lookup(fund_key, remaining, last) {
            Lookup::Deferred => {
                assert(deferred(remaining, queue) == held.push(last));
                assert(deferred(remaining, queue).drop_last() == held);
                assert(payouts(fund_key, remaining, queue) == due);
            },
            Lookup::Ready(payout) => {
                assert(deferred(remaining, queue) == held);
                assert(payouts(fund_key, remaining, queue) == due.push(payout));
                assert(payouts(fund_key, remaining, queue).drop_last() == due);
                assert(payout.lamports == book[last].lamports);
            },
            Lookup::Failed(_) => {},
        }
    }
}

/// Conservation, on approval: where the books balance, they balance after an approval that
/// lands, with what was paid out grown by what the approval pays.
pub proof fn lemma_approve_conserves(
    guard: Result<(), Error>,
    signer: Pubkey,
    state: StateView,
    fund: AccountView,
    remaining: Seq<AccountView>,
    book: Map<Pubkey, Transfer>,
    paid: int,
    funded: int,
)
    requires
        conserved(state, book, paid, funded),
        book_agrees(book, remaining, state.queue),
        approve_outcome(guard, signer, state, fund, remaining) is Ok,
    ensures
        conserved(
            approve_outcome(guard, signer, state, fund, remaining).unwrap().state,
            book,
            paid + paid_out(guard, signer, state, fund, remaining),
            funded,
        ),
        paid_out(guard, signer, state, fund, remaining) >= 0,
{
    lemma_total_of_bound(payouts(fund.key, remaining, state.queue));
    if reaches_threshold(state, signer) {
        lemma_reserved_splits(fund.key, remaining, state.queue, book);
    }
}

/// Payouts pay no less than nothing.
pub proof fn lemma_total_of_bound(due: Seq<Payout>)
    ensures
        total_of(due) >= 0,
        due.len() == 0 ==> total_of(due) == 0,
    decreases due.len(),
{
    if due.len() > 0 {
        lemma_total_of_bound(due.drop_last());
    }
}

/// One call of an instruction that touches the balance or the queue of the record, with
/// what it is handed.
pub enum Call {
    /// A funding.
    Fund { guard: Result<(), Error>, lamports: u64 },
    /// A queueing.
    CreateTransfer {
        guard: Result<(), Error>,
        creator: AccountView,
        fund: AccountView,
        transfer_key: Pubkey,
        rent: u64,
        recipient: Pubkey,
        lamports: u64,
    },
    /// An approval.
    Approve {
        guard: Result<(), Error>,
        signer: Pubkey,
        fund: AccountView,
        remaining: Seq<AccountView>,
    },
}

/// The books of a multisig account: its record, the records of the transfers, what has
/// been paid out, and what has been funded.
pub struct Books {
    pub state: StateView,
    pub book: Map<Pubkey, Transfer>,
    pub paid: int,
    pub funded: int,
}

impl Books {
    /// Whether the books balance: see [`conserved`].
    pub open spec fn balance(self) -> bool {
        conserved(self.state, self.book, self.paid, self.funded)
    }

    /// Whether the host can hand `call` to the program: a transfer is queued at an address
    /// that is not queued, and the accounts that come with an approval hold the records that
    /// were written.
    pub open spec fn admits(self, call: Call) -> bool {
        match call {
            Call::Fund { .. } => true,
            Call::CreateTransfer { transfer_key, .. } => !self.state.queue.contains(transfer_key),
            Call::Approve { remaining, .. } => book_agrees(self.book, remaining, self.state.queue),
        }
    }

    /// The books after `call`: as they were where it fails, and else with what it did
    /// entered.
    pub open spec fn after(self, call: Call) -> Books {
        match call {
            Call::Fund { guard, lamports } => match fund_outcome(guard, self.state, lamports) {
                Err(_) => self,
                Ok(state) => Books { state, funded: self.funded + lamports, ..self },
            },
            Call::CreateTransfer {
                guard,
                creator,
                fund,
                transfer_key,
                rent,
                recipient,
                lamports,
            } => match create_transfer_outcome(
                guard,
                creator,
                self.state,
                fund,
                transfer_key,
                rent,
                recipient,
                lamports,
            ) {
                Err(_) => self,
                Ok(done) => Books {
                    state: done.state,
                    book: self.book.insert(transfer_key, done.record),
                    ..self
                },
            },
            Call::Approve { guard, signer, fund, remaining } => match approve_outcome(
                guard,
                signer,
                self.state,
                fund,
                remaining,
            ) {
                Err(_) => self,
                Ok(done) => Books {
                    state: done.state,
                    paid: self.paid + paid_out(guard, signer, self.state, fund, remaining),
                    ..self
                },
            },
        }
    }

    /// The books after `calls`, made one after the other.
    pub open spec fn after_all(self, calls: Seq<Call>) -> Books
        decreases calls.len(),
    {
        if calls.len() == 0 {
            self
        } else {
            self.after_all(calls.drop_last()).after(calls.last())
        }
    }

    /// Whether the host can hand each of `calls` to the program in its turn.
    pub open spec fn admits_all(self, calls: Seq<Call>) -> bool
        decreases calls.len(),
    {
        calls.len() == 0 || (self.admits_all(calls.drop_last()) && self.after_all(
            calls.drop_last(),
        ).admits(calls.last()))
    }
}

/// Conservation, call by call: books that balance balance after every call that the host
/// can hand to the program, whether the call lands or fails.
pub proof fn lemma_call_conserves(books: Books, call: Call)
    requires
        books.balance(),
        books.admits(call),
    ensures
        books.after(call).balance(),
{
    match call {
        Call::Fund { guard, lamports } => {
            if fund_outcome(guard, books.state, lamports) is Ok {
                lemma_fund_conserves(
                    guard,
                    books.state,
                    lamports,
                    books.book,
                    books.paid,
                    books.funded,
                );
            }
        },
        Call::CreateTransfer { guard, creator, fund, transfer_key, rent, recipient, lamports } => {
            if create_transfer_outcome(
                guard,
                creator,
                books.state,
                fund,
                transfer_key,
                rent,
                recipient,
                lamports,
            ) is Ok {
                lemma_create_transfer_conserves(
                    guard,
                    creator,
                    books.state,
                    fund,
                    transfer_key,
                    rent,
                    recipient,
                    lamports,
                    books.book,
                    books.paid,
                    books.funded,
                );
            }
        },
        Call::Approve { guard, signer, fund, remaining } => {
            if approve_outcome(guard, signer, books.state, fund, remaining) is Ok {
                lemma_approve_conserves(
                    guard,
                    signer,
                    books.state,
                    fund,
                    remaining,
                    books.book,
                    books.paid,
                    books.funded,
                );
            }
        },
    }
}

/// Conservation. From the creation of a multisig account on, and after every sequence of
/// fundings, queueings and approvals that the host can hand to the program, what the record
/// holds as its balance, what the queued transfers are to pay and what has been paid out
/// make up what was funded.
pub proof fn lemma_conservation(books: Books, calls: Seq<Call>)
    requires
        books.balance(),
        books.admits_all(calls),
    ensures
        books.after_all(calls).balance(),
    decreases calls.len(),
{
    if calls.len() > 0 {
        lemma_conservation(books, calls.drop_last());
        lemma_call_conserves(books.after_all(calls.drop_last()), calls.last());
    }
}

/// The settings of a multisig account stay as its creation wrote them: no funding, queueing
/// or approval changes the threshold, the signers, the address of the fund or the limit of
/// the queue, nor the number of flags.
pub proof fn lemma_settings_stay(books: Books, call: Call)
    requires
        books.state.signed.len() == books.state.signers.len(),
    ensures
        ({
            let before = books.state;
            let after = books.after(call).state;
            &&& after.m == before.m
            &&& after.signers == before.signers
            &&& after.fund == before.fund
            &&& after.q == before.q
            &&& after.signed.len() == before.signed.len()
        }),
{
    match call {
        Call::Approve { guard, signer, fund, remaining } => {
            lemma_position(books.state.signers, signer);
        },
        _ => {},
    }
}

/// Threshold gating. An approval that lands below the threshold sets the flag of its
/// signer and does nothing else: the queue and every balance stay as they were. One that
/// lands at or above the threshold leaves the deferred transfers queued, and the balances
/// that paying the others gives. The approval of a signer whose flag is set already
/// leaves the flags as they were, until the queue is empty and all are cleared.
pub proof fn lemma_threshold_gating(
    guard: Result<(), Error>,
    signer: Pubkey,
    state: StateView,
    fund: AccountView,
    remaining: Seq<AccountView>,
)
    requires
        approve_outcome(guard, signer, state, fund, remaining) is Ok,
        state.signed.len() == state.signers.len(),
    ensures
        ({
            let done = approve_outcome(guard, signer, state, fund, remaining).unwrap();
            let index = position(state.signers, signer).unwrap();
            let due = payouts(fund.key, remaining, state.queue);
            &&& done.state.balance == state.balance
            &&& !reaches_threshold(state, signer) ==> {
                &&& done.state.queue == state.queue
                &&& done.state.signed == state.signed.update(index, true)
                &&& done.balances == cells(fund, remaining)
                &&& with_balances(remaining, done.balances) == remaining
            }
            &&& reaches_threshold(state, signer) && due.len() > 0 ==> {
                &&& done.state.queue == deferred(remaining, state.queue)
                &&& pay_all(cells(fund, remaining), due) == Ok::<Seq<u64>, Failure>(done.balances)
            }
            &&& reaches_threshold(state, signer) && due.len() == 0 ==> {
                &&& done.state.queue == state.queue
                &&& done.balances == cells(fund, remaining)
            }
            &&& state.signed[index] ==> {
                ||| done.state.signed == state.signed
                ||| done.state.queue.len() == 0 && done.state.signed == Seq::new(
                    state.signed.len(),
                    |i: int| false,
                )
            }
        }),
{
    lemma_position(state.signers, signer);
    let index = position(state.signers, signer).unwrap();
    assert(with_balances(remaining, cells(fund, remaining)) =~= remaining);
    if state.signed[index] {
        assert(state.signed.update(index, true) =~= state.signed);
    }
}

/// Capacity. On a full queue no transfer is queued: the queueing fails, and with
/// `AccountFull` where the account is not locked, the guard accepts the fund account, and the
/// creator is one of the signers.
pub proof fn lemma_capacity(
    guard: Result<(), Error>,
    creator: AccountView,
    state: StateView,
    fund: AccountView,
    transfer_key: Pubkey,
    rent: u64,
    recipient: Pubkey,
    lamports: u64,
)
    requires
        state.queue.len() == state.q,
    ensures
        ({
            let outcome = create_transfer_outcome(
                guard,
                creator,
                state,
                fund,
                transfer_key,
                rent,
                recipient,
                lamports,
            );
            &&& outcome is Err
            &&& !state.is_locked() && guard is Ok && position(
                state.signers,
                creator.key,
            ) is Some ==> outcome == Err::<Queued, Failure>(
                Failure::Program(Error::AccountFull),
            )
        }),
{
}

/// Lock. On a locked account, one on which a flag is set, no transfer is queued: the
/// queueing fails with `AccountLocked`.
pub proof fn lemma_lock(
    guard: Result<(), Error>,
    creator: AccountView,
    state: StateView,
    fund: AccountView,
    transfer_key: Pubkey,
    rent: u64,
    recipient: Pubkey,
    lamports: u64,
    index: int,
)
    requires
        0 <= index < state.signed.len(),
        state.signed[index],
    ensures
        create_transfer_outcome(
            guard,
            creator,
            state,
            fund,
            transfer_key,
            rent,
            recipient,
            lamports,
        ) == Err::<Queued, Failure>(Failure::Program(Error::AccountLocked)),
{
}

/// Idempotent approval. Where an approval lands below the threshold, the same approval
/// made again lands too, and leaves the record and every balance as the first left them.
pub proof fn lemma_approve_twice(
    guard: Result<(), Error>,
    signer: Pubkey,
    state: StateView,
    fund: AccountView,
    remaining: Seq<AccountView>,
)
    requires
        state.signed.len() == state.signers.len(),
        approve_outcome(guard, signer, state, fund, remaining) is Ok,
        !reaches_threshold(state, signer),
    ensures
        ({
            let once = approve_outcome(guard, signer, state, fund, remaining).unwrap();
            let fund_after = AccountView { lamports: once.balances.last(), ..fund };
            let remaining_after = with_balances(remaining, once.balances);
            let again = approve_outcome(guard, signer, once.state, fund_after, remaining_after);
            &&& fund_after == fund
            &&& remaining_after == remaining
            &&& again is Ok
            &&& again.unwrap().state == once.state
            &&& again.unwrap().balances == once.balances
        }),
{
    lemma_position(state.signers, signer);
    let index = position(state.signers, signer).unwrap();
    let signed = state.signed.update(index, true);
    assert(with_balances(remaining, cells(fund, remaining)) =~= remaining);
    assert(signed.update(index, true) =~= signed);
}

/// All the lamports that `balances` hold.
pub open spec fn sum(balances: Seq<u64>) -> int
    decreases balances.len(),
{
    if balances.len() == 0 {
        0
    } else {
        sum(balances.drop_last()) + balances.last()
    }
}

/// A balance that changes changes the sum by as much.
pub proof fn lemma_sum_update(balances: Seq<u64>, at: int, lamports: u64)
    requires
        0 <= at < balances.len(),
    ensures
        sum(balances.update(at, lamports)) == sum(balances) - balances[at] + lamports,
    decreases balances.len(),
{
    let changed = balances.update(at, lamports);
    if at == balances.len() - 1 {
        assert(changed.drop_last() == balances.drop_last());
    } else {
        lemma_sum_update(balances.drop_last(), at, lamports);
        assert(changed.drop_last() == balances.drop_last().update(at, lamports));
    }
}

/// A move of lamports makes none and loses none.
pub proof fn lemma_transfer_keeps_sum(balances: Seq<u64>, from: int, to: int, lamports: u64)
    requires
        0 <= from < balances.len(),
        0 <= to < balances.len(),
        transfer_lamports(balances, from, to, lamports) is Ok,
    ensures
        sum(transfer_lamports(balances, from, to, lamports).unwrap()) == sum(balances),
        transfer_lamports(balances, from, to, lamports).unwrap().len() == balances.len(),
{
    let taken = balances.update(from, (balances[from] - lamports) as u64);
    lemma_sum_update(balances, from, (balances[from] - lamports) as u64);
    lemma_sum_update(taken, to, (taken[to] + lamports) as u64);
}

/// Payouts make no lamports and lose none.
pub proof fn lemma_pay_all_keeps_sum(balances: Seq<u64>, due: Seq<Payout>)
    requires
        balances.len() >= 1,
        forall|k: int|
            0 <= k < due.len() ==> due[k].transfer < balances.len() && due[k].recipient
                < balances.len(),
        pay_all(balances, due) is Ok,
    ensures
        sum(pay_all(balances, due).unwrap()) == sum(balances),
        pay_all(balances, due).unwrap().len() == balances.len(),
    decreases due.len(),
{
    if due.len() > 0 {
        let front = due.drop_last();
        let last = due.last();
        lemma_pay_all_keeps_sum(balances, front);
        let paid = pay_all(balances, front).unwrap();
        let fund = paid.len() - 1;
        lemma_transfer_keeps_sum(paid, fund, last.recipient as int, last.lamports);
        let given = transfer_lamports(paid, fund, last.recipient as int, last.lamports).unwrap();
        lemma_transfer_keeps_sum(given, last.transfer as int, fund, given[last.transfer as int]);
    }
}

/// The payouts of a queue stand within the balances that an approval works on.
pub proof fn lemma_payouts_in_range(
    fund_key: Pubkey,
    remaining: Seq<AccountView>,
    queue: Seq<Pubkey>,
)
    requires
        remaining.len() <= usize::MAX,
    ensures
        forall|k: int|
            0 <= k < payouts(fund_key, remaining, queue).len() ==> {
                let payout = #[trigger] payouts(fund_key, remaining, queue)[k];
                payout.transfer <= remaining.len() && payout.recipient <= remaining.len()
            },
    decreases queue.len(),
{
    if queue.len() > 0 {
        let front = queue.drop_last();
        let last = queue.last();
        lemma_payouts_in_range(fund_key, remaining, front);
        assert(queue.take(queue.len() - 1) == front);
        assert(queue.take(queue.len() as int) == queue);
        queue.lemma_filter_map_take_succ(payout_at(fund_key, remaining), queue.len() - 1);
        assert(queue[queue.len() - 1] == last);
        let due = payouts(fund_key, remaining, queue);
        let before = payouts(fund_key, remaining, front);
        let keys = keys_of(remaining);
        match lookup(fund_key, remaining, last) {
            Lookup::Ready(payout) => {
                lemma_position(keys, last);
                let record = Transfer::decode(
                    remaining[position(keys, last).unwrap()].data,
                ).unwrap();
                lemma_position(keys, record.recipient);
                assert(payout.transfer <= remaining.len());
                assert(payout.recipient <= remaining.len());
                assert(due == before.push(payout));
            },
            _ => {
                assert(due == before);
            },
        }
        assert forall|k: int| 0 <= k < due.len() implies {
            let payout = #[trigger] due[k];
            payout.transfer <= remaining.len() && payout.recipient <= remaining.len()
        } by {
            if k < before.len() {
                assert(due[k] == before[k]);
            }
        }
    }
}

/// An approval moves lamports among the fund and the remaining accounts. It makes none and
/// loses none.
pub proof fn lemma_approve_keeps_lamports(
    guard: Result<(), Error>,
    signer: Pubkey,
    state: StateView,
    fund: AccountView,
    remaining: Seq<AccountView>,
)
    requires
        remaining.len() <= usize::MAX,
        approve_outcome(guard, signer, state, fund, remaining) is Ok,
    ensures
        sum(approve_outcome(guard, signer, state, fund, remaining).unwrap().balances)
            == sum(cells(fund, remaining)),
{
    lemma_payouts_in_range(fund.key, remaining, state.queue);
    if reaches_threshold(state, signer) && payouts(fund.key, remaining, state.queue).len() > 0 {
        lemma_pay_all_keeps_sum(cells(fund, remaining), payouts(fund.key, remaining, state.queue));
    }
}

/// Reclaiming makes no lamports and loses none.
pub proof fn lemma_reclaim_all_keeps_sum(balances: Seq<u64>, from: Seq<usize>)
    requires
        balances.len() >= 1,
        forall|k: int| 0 <= k < from.len() ==> from[k] < balances.len(),
        reclaim_all(balances, from) is Ok,
    ensures
        sum(reclaim_all(balances, from).unwrap()) == sum(balances),
        reclaim_all(balances, from).unwrap().len() == balances.len(),
    decreases from.len(),
{
    if from.len() > 0 {
        let front = from.drop_last();
        lemma_reclaim_all_keeps_sum(balances, front);
        let moved = reclaim_all(balances, front).unwrap();
        lemma_transfer_keeps_sum(
            moved,
            from.last() as int,
            moved.len() - 1,
            moved[from.last() as int],
        );
    }
}

/// The balances that a closing reclaims stand within the balances that it works on.
pub proof fn lemma_reclaimed_in_range(
    fund_key: Pubkey,
    remaining: Seq<AccountView>,
    queue: Seq<Pubkey>,
)
    requires
        remaining.len() <= usize::MAX,
    ensures
        forall|k: int|
            0 <= k < reclaimed(fund_key, remaining, queue).len() ==> #[trigger] reclaimed(
                fund_key,
                remaining,
                queue,
            )[k] <= remaining.len(),
    decreases queue.len(),
{
    if queue.len() > 0 {
        let front = queue.drop_last();
        let last = queue.last();
        lemma_reclaimed_in_range(fund_key, remaining, front);
        assert(queue.take(queue.len() - 1) == front);
        assert(queue.take(queue.len() as int) == queue);
        queue.lemma_filter_map_take_succ(reclaimed_at(fund_key, remaining), queue.len() - 1);
        assert(queue[queue.len() - 1] == last);
        lemma_position(keys_of(remaining), last);
        let places = reclaimed(fund_key, remaining, queue);
        let before = reclaimed(fund_key, remaining, front);
        assert forall|k: int| 0 <= k < places.len() implies #[trigger] places[k]
            <= remaining.len() by {
            if k < before.len() {
                assert(places[k] == before[k]);
            }
        }
    }
}

/// A closing moves lamports among the funder, the fund and the remaining accounts. It
/// makes none and loses none, and it leaves the fund with nothing.
pub proof fn lemma_close_keeps_lamports(
    guard: Result<(), Error>,
    queue: Seq<Pubkey>,
    funder: AccountView,
    fund: AccountView,
    remaining: Seq<AccountView>,
)
    requires
        remaining.len() <= usize::MAX,
        close_outcome(guard, queue, funder, fund, remaining) is Ok,
    ensures
        ({
            let done = close_outcome(guard, queue, funder, fund, remaining).unwrap();
            &&& sum(done.balances) + done.funder == sum(cells(fund, remaining)) + funder.lamports
            &&& done.balances.last() == 0
        }),
{
    let places = reclaimed(fund.key, remaining, queue);
    lemma_reclaimed_in_range(fund.key, remaining, queue);
    lemma_reclaim_all_keeps_sum(cells(fund, remaining), places);
    let gathered = reclaim_all(cells(fund, remaining), places).unwrap();
    lemma_sum_update(gathered, gathered.len() - 1, 0);
}

/// A queueing moves lamports from the fund to the creator. It makes none and loses none.
pub proof fn lemma_create_transfer_keeps_lamports(
    guard: Result<(), Error>,
    creator: AccountView,
    state: StateView,
    fund: AccountView,
    transfer_key: Pubkey,
    rent: u64,
    recipient: Pubkey,
    lamports: u64,
)
    requires
        create_transfer_outcome(
            guard,
            creator,
            state,
            fund,
            transfer_key,
            rent,
            recipient,
            lamports,
        ) is Ok,
    ensures
        ({
            let done = create_transfer_outcome(
                guard,
                creator,
                state,
                fund,
                transfer_key,
                rent,
                recipient,
                lamports,
            ).unwrap();
            &&& done.fund + done.creator == fund.lamports + creator.lamports
            &&& done.fund == fund.lamports - rent
        }),
{
}

} // verus!
