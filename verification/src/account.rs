//! The accounts that an instruction is handed, and the one way in which lamports move.

use crate::error::Failure;
use crate::pubkey::Pubkey;
use vstd::prelude::*;

verus! {

/// An account as an instruction sees it: its address, its balance in lamports, whether the
/// instruction may write to it, and its data.
#[derive(Clone, Debug, PartialEq, Eq)]
pub struct AccountInfo {
    pub key: Pubkey,
    pub lamports: u64,
    pub is_writable: bool,
    pub data: Vec<u8>,
}

/// What an [`AccountInfo`] holds.
pub struct AccountView {
    pub key: Pubkey,
    pub lamports: u64,
    pub is_writable: bool,
    pub data: Seq<u8>,
}

impl View for AccountInfo {
    type V = AccountView;

    open spec fn view(&self) -> AccountView {
        AccountView {
            key: self.key,
            lamports: self.lamports,
            is_writable: self.is_writable,
            data: self.data@,
        }
    }
}

impl DeepView for AccountInfo {
    type V = AccountView;

    open spec fn deep_view(&self) -> AccountView {
        self@
    }
}

/// An account whose data is a record of this program.
#[derive(Clone, Debug, PartialEq, Eq)]
pub struct Account<T> {
    pub key: Pubkey,
    pub lamports: u64,
    pub data: T,
}

/// The addresses of `accounts`, in their order.
pub open spec fn keys_of(accounts: Seq<AccountView>) -> Seq<Pubkey> {
    accounts.map_values(|account: AccountView| account.key)
}

/// The balances of `accounts`, in their order.
pub open spec fn balances_of(accounts: Seq<AccountView>) -> Seq<u64> {
    accounts.map_values(|account: AccountView| account.lamports)
}

/// The first place at which `key` stands in `keys`, if it stands there at all.
pub open spec fn position(keys: Seq<Pubkey>, key: Pubkey) -> Option<int>
    decreases keys.len(),
{
    if keys.len() == 0 {
        None
    } else {
        match position(keys.drop_last(), key) {
            Some(i) => Some(i),
            None => if keys.last() == key {
                Some(keys.len() - 1)
            } else {
                None
            },
        }
    }
}

/// [`position`] finds `key` exactly where `keys` holds it, and then at its first place.
pub proof fn lemma_position(keys: Seq<Pubkey>, key: Pubkey)
    ensures
        match position(keys, key) {
            Some(i) => 0 <= i < keys.len() && keys[i] == key && forall|j: int|
                0 <= j < i ==> keys[j] != key,
            None => forall|j: int| 0 <= j < keys.len() ==> keys[j] != key,
        },
    decreases keys.len(),
{
    if keys.len() > 0 {
        let front = keys.drop_last();
        lemma_position(front, key);
        assert(forall|j: int| 0 <= j < front.len() ==> front[j] == keys[j]);
    }
}

/// Finds the first of `keys` that is `key`.
pub fn find_key(keys: &Vec<Pubkey>, key: &Pubkey) -> (r: Option<usize>)
    ensures
        match r {
            Some(i) => position(keys@, *key) == Some(i as int),
            None => position(keys@, *key) is None,
        },
{
    let mut i: usize = 0;
    while i < keys.len()
        invariant
            i <= keys.len(),
            position(keys@.take(i as int), *key) is None,
        decreases keys.len() - i,
    {
        assert(keys@.take(i + 1).drop_last() == keys@.take(i as int));
        if keys[i] == *key {
            proof {
                lemma_position_stays(keys@, *key, i + 1);
            }
            return Some(i);
        }
        i += 1;
    }
    assert(keys@.take(i as int) == keys@);
    None
}

/// Finds the first of `accounts` that lives at `key`.
pub fn find_account(accounts: &Vec<AccountInfo>, key: &Pubkey) -> (r: Option<usize>)
    ensures
        match r {
            Some(i) => position(keys_of(accounts.deep_view()), *key) == Some(i as int),
            None => position(keys_of(accounts.deep_view()), *key) is None,
        },
{
    let ghost keys = keys_of(accounts.deep_view());
    let mut i: usize = 0;
    while i < accounts.len()
        invariant
            i <= accounts.len(),
            keys == keys_of(accounts.deep_view()),
            keys.len() == accounts.len(),
            position(keys.take(i as int), *key) is None,
        decreases accounts.len() - i,
    {
        assert(keys.take(i + 1).drop_last() == keys.take(i as int));
        assert(keys[i as int] == accounts[i as int].key);
        if accounts[i].key == *key {
            proof {
                lemma_position_stays(keys, *key, i + 1);
            }
            return Some(i);
        }
        i += 1;
    }
    assert(keys.take(i as int) == keys);
    None
}

/// A key found among the first `n` of `keys` is found at the same place among all of them.
pub proof fn lemma_position_stays(keys: Seq<Pubkey>, key: Pubkey, n: int)
    requires
        0 <= n <= keys.len(),
        position(keys.take(n), key) is Some,
    ensures
        position(keys, key) == position(keys.take(n), key),
    decreases keys.len() - n,
{
    if n < keys.len() {
        assert(keys.take(n + 1).drop_last() == keys.take(n));
        lemma_position_stays(keys, key, n + 1);
    } else {
        assert(keys.take(n) == keys);
    }
}

/// The balances after `lamports` have moved from the balance at `from` to the one at `to`:
/// first taken from the one, then given to the other. The move fails, and is then no move
/// at all, where the source holds less, or where the target would pass `u64::MAX`.
pub open spec fn transfer_lamports(balances: Seq<u64>, from: int, to: int, lamports: u64) -> Result<
    Seq<u64>,
    Failure,
>
    recommends
        0 <= from < balances.len(),
        0 <= to < balances.len(),
{
    if balances[from] < lamports {
        Err(Failure::InsufficientFunds)
    } else {
        let taken = balances.update(from, (balances[from] - lamports) as u64);
        if taken[to] + lamports > u64::MAX {
            Err(Failure::ArithmeticOverflow)
        } else {
            Ok(taken.update(to, (taken[to] + lamports) as u64))
        }
    }
}

/// Moves `lamports` from the balance at `from` to the one at `to`, or fails and moves nothing.
pub fn transfer_fund(balances: &mut Vec<u64>, from: usize, to: usize, lamports: u64) -> (r: Result<
    (),
    Failure,
>)
    requires
        from < old(balances).len(),
        to < old(balances).len(),
    ensures
        match transfer_lamports(old(balances)@, from as int, to as int, lamports) {
            Ok(moved) => r is Ok && final(balances)@ == moved,
            Err(failure) => r == Err::<(), Failure>(failure) && final(balances)@ == old(balances)@,
        },
{
    let source = balances[from];
    if source < lamports {
        return Err(Failure::InsufficientFunds);
    }
    let target = if to == from {
        source - lamports
    } else {
        balances[to]
    };
    if target > u64::MAX - lamports {
        return Err(Failure::ArithmeticOverflow);
    }
    balances[from] = source - lamports;
    balances[to] = target + lamports;
    Ok(())
}

} // verus!
