//! Addresses, and the derivation of addresses that only this program controls.

use anchor_lang::solana_program::pubkey::PubkeyError;
use vstd::prelude::*;
use vstd::std_specs::cmp::PartialEqSpecImpl;

verus! {

/// The address of an account, or the identity of a signer, owner or recipient: 32 bytes.
#[derive(Clone, Copy, Debug, Eq)]
pub struct Pubkey(pub [u8; 32]);

impl View for Pubkey {
    type V = Seq<u8>;

    open spec fn view(&self) -> Seq<u8> {
        self.0@
    }
}

impl PartialEq for Pubkey {
    fn eq(&self, other: &Pubkey) -> (r: bool) {
        let mut i: usize = 0;
        while i < 32
            invariant
                i <= 32,
                forall|j: int| 0 <= j < i ==> self.0[j] == other.0[j],
            decreases 32 - i,
        {
            if self.0[i] != other.0[i] {
                return false;
            }
            i += 1;
        }
        assert(self.0 =~= other.0);
        true
    }
}

impl PartialEqSpecImpl for Pubkey {
    open spec fn obeys_eq_spec() -> bool {
        true
    }

    open spec fn eq_spec(&self, other: &Pubkey) -> bool {
        *self == *other
    }
}

impl Default for Pubkey {
    /// The address whose bytes are all zero.
    fn default() -> (r: Pubkey)
        ensures
            r@ == Seq::new(32, |i: int| 0u8),
    {
        let r = Pubkey([0u8; 32]);
        assert(r@ =~= Seq::new(32, |i: int| 0u8));
        r
    }
}

impl Pubkey {
    /// The address made of the given bytes.
    pub fn new_from_array(bytes: [u8; 32]) -> (r: Pubkey)
        ensures
            r == Pubkey(bytes),
    {
        Pubkey(bytes)
    }

    /// The bytes of the address.
    pub fn to_bytes(&self) -> (r: [u8; 32])
        ensures
            r == self.0,
    {
        self.0
    }

    /// The address whose bytes are `bytes`.
    pub open spec fn from_bytes(bytes: Seq<u8>) -> Pubkey {
        choose|key: Pubkey| key@ == bytes
    }

    /// Reads an address from the 32 bytes of `data` that start at `at`.
    pub fn from_slice(data: &[u8], at: usize) -> (r: Pubkey)
        requires
            at + 32 <= data@.len(),
        ensures
            r@ == data@.subrange(at as int, at + 32),
            r == Pubkey::from_bytes(data@.subrange(at as int, at + 32)),
    {
        let len = data.len();
        let mut bytes = [0u8; 32];
        let mut i: usize = 0;
        while i < 32
            invariant
                i <= 32,
                at + 32 <= len == data@.len(),
                forall|j: int| 0 <= j < i ==> bytes[j] == data@[at + j],
            decreases 32 - i,
        {
            bytes[i] = data[at + i];
            i += 1;
        }
        let r = Pubkey(bytes);
        assert(r@ =~= data@.subrange(at as int, at + 32));
        proof {
            Pubkey::lemma_from_bytes(r);
        }
        r
    }

    /// An address is the address of its bytes.
    pub proof fn lemma_from_bytes(key: Pubkey)
        ensures
            Pubkey::from_bytes(key@) == key,
    {
        Pubkey::lemma_view_injective(Pubkey::from_bytes(key@), key);
    }

    /// Two addresses with the same bytes are the same address.
    pub proof fn lemma_view_injective(a: Pubkey, b: Pubkey)
        requires
            a@ == b@,
        ensures
            a == b,
    {
        assert(a.0 =~= b.0);
    }
}

/// The bytes of the address under which this program is deployed.
pub open spec fn program_id() -> Seq<u8> {
    seq![
        202u8, 95, 70, 110, 66, 196, 157, 61, 3, 231, 141, 157, 139, 39, 82, 80,
        219, 48, 172, 203, 49, 120, 10, 181, 102, 145, 241, 193, 124, 93, 61, 55,
    ]
}

/// The address under which this program is deployed.
pub fn id() -> (r: Pubkey)
    ensures
        r@ == program_id(),
{
    let r = Pubkey(
        [
            202, 95, 70, 110, 66, 196, 157, 61, 3, 231, 141, 157, 139, 39, 82, 80,
            219, 48, 172, 203, 49, 120, 10, 181, 102, 145, 241, 193, 124, 93, 61, 55,
        ],
    );
    assert(r@ =~= program_id());
    r
}

#[verifier::external_type_specification]
#[verifier::external_body]
pub struct ExPubkeyError(PubkeyError);

/// The address that `seeds` derive for the program `program_id`, where they derive one.
///
/// It stands for what `Pubkey::create_program_address` of `solana_program` computes: a hash of
/// the seeds, the program's address and a fixed marker, refused where a seed is too long, the
/// seeds are too many, or the hash is a point of the signing curve.
pub uninterp spec fn program_address(seeds: Seq<Seq<u8>>, program_id: Seq<u8>) -> Option<Seq<u8>>;

/// Derives the address that `seeds` give for `program_id`.
///
/// Calls `Pubkey::create_program_address` of `solana_program`. What is taken on trust: the call
/// returns the same answer for the same seeds and program, which [`program_address`] names.
#[verifier::external_body]
pub(crate) fn create_program_address(seeds: &Vec<Vec<u8>>, program_id: &Pubkey) -> (r: Result<
    Pubkey,
    PubkeyError,
>)
    ensures
        match r {
            Ok(address) => program_address(seeds.deep_view(), program_id@) == Some(address@),
            Err(_) => program_address(seeds.deep_view(), program_id@) is None,
        },
{
    let parts: Vec<&[u8]> = seeds.iter().map(|seed| seed.as_slice()).collect();
    let program = anchor_lang::solana_program::pubkey::Pubkey::new_from_array(program_id.0);
    anchor_lang::solana_program::pubkey::Pubkey::create_program_address(&parts, &program).map(
        |address| Pubkey(address.to_bytes()),
    )
}

} // verus!
