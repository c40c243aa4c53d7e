//! The record of a queued transfer and its bytes, and the one way in which lamports move.

use multisig_lite::account::{find_account, find_key, transfer_fund};
use multisig_lite::{AccountInfo, Failure, Pubkey, Transfer};

fn key(n: u8) -> Pubkey {
    Pubkey::new_from_array([n; 32])
}

fn sample() -> Transfer {
    Transfer { creator: key(1), recipient: key(2), lamports: 0x0102_0304_0506_0708 }
}

#[test]
fn a_record_is_written_tag_first_and_amount_last() {
    let bytes = sample().try_serialize();
    assert_eq!(bytes.len(), Transfer::SPACE);
    assert_eq!(Transfer::SPACE, 80);
    assert_eq!(&bytes[..8], &[175, 196, 153, 160, 209, 90, 145, 151]);
    assert_eq!(&bytes[8..40], &[1u8; 32]);
    assert_eq!(&bytes[40..72], &[2u8; 32]);
    assert_eq!(&bytes[72..], &[8, 7, 6, 5, 4, 3, 2, 1]);
}

#[test]
fn the_tag_is_the_start_of_the_hash_of_the_name_of_the_record() {
    let hash = anchor_lang::solana_program::hash::hash(b"account:Transfer");
    assert_eq!(&sample().try_serialize()[..8], &hash.to_bytes()[..8]);
}

#[test]
fn a_record_is_read_back_as_it_was_written() {
    let written = sample();
    assert_eq!(Transfer::try_deserialize(&written.try_serialize()), Ok(written));
    let largest = Transfer { creator: key(255), recipient: key(0), lamports: u64::MAX };
    assert_eq!(Transfer::try_deserialize(&largest.try_serialize()), Ok(largest));
    let nothing = Transfer { creator: key(0), recipient: key(0), lamports: 0 };
    assert_eq!(Transfer::try_deserialize(&nothing.try_serialize()), Ok(nothing));
}

#[test]
fn bytes_behind_a_record_are_ignored() {
    let mut bytes = sample().try_serialize();
    bytes.extend_from_slice(&[9, 9, 9]);
    assert_eq!(Transfer::try_deserialize(&bytes), Ok(sample()));
}

#[test]
fn data_without_a_tag_is_no_record() {
    assert_eq!(Transfer::try_deserialize(&[]), Err(Failure::AccountDiscriminatorNotFound));
    assert_eq!(
        Transfer::try_deserialize(&[175, 196, 153, 160, 209, 90, 145]),
        Err(Failure::AccountDiscriminatorNotFound)
    );
}

#[test]
fn data_with_another_tag_is_no_record() {
    for at in 0..8 {
        let mut bytes = sample().try_serialize();
        bytes[at] ^= 1;
        assert_eq!(Transfer::try_deserialize(&bytes), Err(Failure::AccountDiscriminatorMismatch));
    }
    // The tag of the record of a multisig account.
    let mut bytes = sample().try_serialize();
    bytes[..8].copy_from_slice(&[216, 146, 107, 94, 104, 75, 182, 177]);
    assert_eq!(Transfer::try_deserialize(&bytes), Err(Failure::AccountDiscriminatorMismatch));
    assert_eq!(
        Transfer::try_deserialize(&[0, 0, 0, 0, 0, 0, 0, 0]),
        Err(Failure::AccountDiscriminatorMismatch)
    );
}

#[test]
fn a_record_cut_short_is_no_record() {
    let bytes = sample().try_serialize();
    assert_eq!(Transfer::try_deserialize(&bytes[..79]), Err(Failure::AccountDidNotDeserialize));
    assert_eq!(Transfer::try_deserialize(&bytes[..8]), Err(Failure::AccountDidNotDeserialize));
}

#[test]
fn lamports_move_from_one_balance_to_another() {
    let mut balances = vec![10, 20, 30];
    assert_eq!(transfer_fund(&mut balances, 0, 2, 4), Ok(()));
    assert_eq!(balances, vec![6, 20, 34]);
    assert_eq!(transfer_fund(&mut balances, 2, 1, 34), Ok(()));
    assert_eq!(balances, vec![6, 54, 0]);
    assert_eq!(transfer_fund(&mut balances, 1, 0, 0), Ok(()));
    assert_eq!(balances, vec![6, 54, 0]);
}

#[test]
fn a_balance_gives_no_more_than_it_holds() {
    let mut balances = vec![10, 20];
    assert_eq!(transfer_fund(&mut balances, 0, 1, 11), Err(Failure::InsufficientFunds));
    assert_eq!(balances, vec![10, 20]);
    assert_eq!(transfer_fund(&mut balances, 0, 0, 11), Err(Failure::InsufficientFunds));
    assert_eq!(balances, vec![10, 20]);
}

#[test]
fn a_balance_takes_no_more_than_can_be_written_down() {
    let mut balances = vec![10, u64::MAX - 9];
    assert_eq!(transfer_fund(&mut balances, 0, 1, 10), Err(Failure::ArithmeticOverflow));
    assert_eq!(balances, vec![10, u64::MAX - 9]);
    assert_eq!(transfer_fund(&mut balances, 0, 1, 9), Ok(()));
    assert_eq!(balances, vec![1, u64::MAX]);
}

#[test]
fn a_move_from_a_balance_to_itself_leaves_it_as_it_was() {
    let mut balances = vec![u64::MAX, 5];
    assert_eq!(transfer_fund(&mut balances, 0, 0, u64::MAX), Ok(()));
    assert_eq!(balances, vec![u64::MAX, 5]);
    assert_eq!(transfer_fund(&mut balances, 1, 1, 3), Ok(()));
    assert_eq!(balances, vec![u64::MAX, 5]);
}

#[test]
fn a_key_is_found_at_its_first_place() {
    let keys = vec![key(1), key(2), key(1), key(3)];
    assert_eq!(find_key(&keys, &key(1)), Some(0));
    assert_eq!(find_key(&keys, &key(2)), Some(1));
    assert_eq!(find_key(&keys, &key(3)), Some(3));
    assert_eq!(find_key(&keys, &key(4)), None);
    assert_eq!(find_key(&vec![], &key(1)), None);
    let accounts: Vec<AccountInfo> = keys
        .iter()
        .map(|key| AccountInfo { key: *key, lamports: 0, is_writable: true, data: vec![] })
        .collect();
    assert_eq!(find_account(&accounts, &key(1)), Some(0));
    assert_eq!(find_account(&accounts, &key(3)), Some(3));
    assert_eq!(find_account(&accounts, &key(4)), None);
}
