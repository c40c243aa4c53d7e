//! The reasons for which an instruction is refused.

use vstd::prelude::*;

verus! {

/// The reasons that are this program's own.
#[derive(Clone, Copy, Debug, PartialEq, Eq, Structural)]
pub enum Error {
    /// The queue of the multisig account is empty: there is nothing to approve.
    AccountEmpty,
    /// The queue of the multisig account is full: approve what is pending first.
    AccountFull,
    /// The multisig account is locked: an approval is outstanding.
    AccountLocked,
    /// The account of a transfer's recipient was not handed in with the transfer.
    MissingRecipientAccountInfo,
    /// The fund account is not writable.
    FundAccountNotWritable,
    /// The fund account carries data.
    FundAccountIsNotEmpty,
    /// The fund account is not at the address derived for it.
    InvalidFundAddress,
    /// The bump seed of the fund account derives no address.
    InvalidFundBumpSeed,
    /// No signers were given.
    NoSigners,
    /// Too many signers were given.
    TooManySigners,
    /// The threshold is higher than the number of signers.
    ThresholdTooHigh,
    /// The caller is not one of the signers.
    InvalidSigner,
    /// The fund holds less than the transfer asks for.
    NotEnoughFundBalance,
}

impl Error {
    /// The place of the reason in the list of this program's reasons, from 0.
    pub open spec fn index(self) -> int {
        match self {
            Error::AccountEmpty => 0,
            Error::AccountFull => 1,
            Error::AccountLocked => 2,
            Error::MissingRecipientAccountInfo => 3,
            Error::FundAccountNotWritable => 4,
            Error::FundAccountIsNotEmpty => 5,
            Error::InvalidFundAddress => 6,
            Error::InvalidFundBumpSeed => 7,
            Error::NoSigners => 8,
            Error::TooManySigners => 9,
            Error::ThresholdTooHigh => 10,
            Error::InvalidSigner => 11,
            Error::NotEnoughFundBalance => 12,
        }
    }

    /// The number under which the host reports the reason: the reasons of a program are
    /// numbered from 6000 on, in the order of their declaration.
    pub fn code(&self) -> (r: u32)
        ensures
            r == 6000 + self.index(),
    {
        match self {
            Error::AccountEmpty => 6000,
            Error::AccountFull => 6001,
            Error::AccountLocked => 6002,
            Error::MissingRecipientAccountInfo => 6003,
            Error::FundAccountNotWritable => 6004,
            Error::FundAccountIsNotEmpty => 6005,
            Error::InvalidFundAddress => 6006,
            Error::InvalidFundBumpSeed => 6007,
            Error::NoSigners => 6008,
            Error::TooManySigners => 6009,
            Error::ThresholdTooHigh => 6010,
            Error::InvalidSigner => 6011,
            Error::NotEnoughFundBalance => 6012,
        }
    }
}

/// Why an instruction did not land. Whatever the reason, nothing that the instruction was
/// handed has changed.
#[derive(Clone, Copy, Debug, PartialEq, Eq, Structural)]
pub enum Failure {
    /// One of this program's own reasons.
    Program(Error),
    /// The data of an account is too short to hold the tag of a record.
    AccountDiscriminatorNotFound,
    /// The data of an account starts with the tag of another kind of record.
    AccountDiscriminatorMismatch,
    /// The data of an account carries the right tag and too few bytes behind it.
    AccountDidNotDeserialize,
    /// A balance was asked for more than it holds.
    InsufficientFunds,
    /// A balance would have passed the largest amount that can be written down.
    ArithmeticOverflow,
}

} // verus!
