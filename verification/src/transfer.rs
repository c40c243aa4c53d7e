//! The record of a queued transfer, and the bytes under which it is kept.

use crate::error::Failure;
use crate::pubkey::Pubkey;
use vstd::bytes::{
    lemma_auto_spec_u64_to_from_le_bytes, spec_u64_from_le_bytes, spec_u64_to_le_bytes,
    u64_from_le_bytes, u64_to_le_bytes,
};
use vstd::prelude::*;
use vstd::slice::slice_subrange;

verus! {

/// A pending payout: who asked for it, who is paid, and how much.
#[derive(Clone, Copy, Debug, PartialEq, Eq)]
pub struct Transfer {
    /// The signer who queued the transfer.
    pub creator: Pubkey,
    /// Who is paid.
    pub recipient: Pubkey,
    /// The amount to pay.
    pub lamports: u64,
}

/// The tag with which the data of every transfer record starts.
pub open spec fn discriminator() -> Seq<u8> {
    seq![175u8, 196, 153, 160, 209, 90, 145, 151]
}

impl Transfer {
    /// The number of bytes of a transfer record: its tag, two addresses and an amount.
    pub const SPACE: usize = 8 + 32 + 32 + 8;

    /// The bytes of the record: the tag, the creator, the recipient, and the amount with
    /// its least significant byte first.
    pub open spec fn encode(self) -> Seq<u8> {
        discriminator() + self.creator@ + self.recipient@ + spec_u64_to_le_bytes(self.lamports)
    }

    /// The record that `data` starts with. Bytes behind the record are ignored.
    pub open spec fn decode(data: Seq<u8>) -> Result<Transfer, Failure> {
        if data.len() < 8 {
            Err(Failure::AccountDiscriminatorNotFound)
        } else if data.subrange(0, 8) != discriminator() {
            Err(Failure::AccountDiscriminatorMismatch)
        } else if data.len() < 80 {
            Err(Failure::AccountDidNotDeserialize)
        } else {
            Ok(
                Transfer {
                    creator: Pubkey::from_bytes(data.subrange(8, 40)),
                    recipient: Pubkey::from_bytes(data.subrange(40, 72)),
                    lamports: spec_u64_from_le_bytes(data.subrange(72, 80)),
                },
            )
        }
    }

    /// Writes the record down.
    pub fn try_serialize(&self) -> (r: Vec<u8>)
        ensures
            r@ == self.encode(),
            r@.len() == Transfer::SPACE,
    {
        let mut r: Vec<u8> = Vec::new();
        r.push(175);
        r.push(196);
        r.push(153);
        r.push(160);
        r.push(209);
        r.push(90);
        r.push(145);
        r.push(151);
        assert(r@ =~= discriminator());
        let mut i: usize = 0;
        while i < 32
            invariant
                i <= 32,
                r@ == discriminator() + self.creator@.take(i as int),
            decreases 32 - i,
        {
            r.push(self.creator.0[i]);
            assert(r@ =~= discriminator() + self.creator@.take(i + 1));
            i += 1;
        }
        assert(self.creator@.take(32) == self.creator@);
        i = 0;
        while i < 32
            invariant
                i <= 32,
                r@ == discriminator() + self.creator@ + self.recipient@.take(i as int),
            decreases 32 - i,
        {
            r.push(self.recipient.0[i]);
            assert(r@ =~= discriminator() + self.creator@ + self.recipient@.take(i + 1));
            i += 1;
        }
        assert(self.recipient@.take(32) == self.recipient@);
        let mut amount = u64_to_le_bytes(self.lamports);
        r.append(&mut amount);
        r
    }

    /// Reads the record that `data` starts with.
    pub fn try_deserialize(data: &[u8]) -> (r: Result<Transfer, Failure>)
        ensures
            r == Transfer::decode(data@),
    {
        if data.len() < 8 {
            return Err(Failure::AccountDiscriminatorNotFound);
        }
        if data[0] != 175 || data[1] != 196 || data[2] != 153 || data[3] != 160 || data[4] != 209
            || data[5] != 90 || data[6] != 145 || data[7] != 151 {
            assert(data@.subrange(0, 8)[0] == data@[0]);
            assert(data@.subrange(0, 8)[1] == data@[1]);
            assert(data@.subrange(0, 8)[2] == data@[2]);
            assert(data@.subrange(0, 8)[3] == data@[3]);
            assert(data@.subrange(0, 8)[4] == data@[4]);
            assert(data@.subrange(0, 8)[5] == data@[5]);
            assert(data@.subrange(0, 8)[6] == data@[6]);
            assert(data@.subrange(0, 8)[7] == data@[7]);
            return Err(Failure::AccountDiscriminatorMismatch);
        }
        assert(data@.subrange(0, 8) =~= discriminator());
        if data.len() < 80 {
            return Err(Failure::AccountDidNotDeserialize);
        }
        let creator = Pubkey::from_slice(data, 8);
        let recipient = Pubkey::from_slice(data, 40);
        let lamports = u64_from_le_bytes(slice_subrange(data, 72, 80));
        Ok(Transfer { creator, recipient, lamports })
    }

    /// A record that was written down is read back as it was, whatever stands behind it.
    pub proof fn lemma_decode_encode(self, rest: Seq<u8>)
        ensures
            Transfer::decode(self.encode() + rest) == Ok::<Transfer, Failure>(self),
    {
        let data = self.encode() + rest;
        lemma_auto_spec_u64_to_from_le_bytes();
        assert(data.subrange(0, 8) =~= discriminator());
        assert(data.subrange(8, 40) =~= self.creator@);
        assert(data.subrange(40, 72) =~= self.recipient@);
        assert(data.subrange(72, 80) =~= spec_u64_to_le_bytes(self.lamports));
        Pubkey::lemma_from_bytes(self.creator);
        Pubkey::lemma_from_bytes(self.recipient);
    }
}

} // verus!
