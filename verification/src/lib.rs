//! The state machine of a multi-signature custody program: one account holds pooled funds
//! for a fixed set of signers and pays a queued transfer out once enough of them approved.
//!
//! A funder creates a multisig account ([`create`]) and adds lamports to its fund ([`fund`]).
//! A signer queues a transfer ([`create_transfer`]). The signers approve what is queued
//! ([`approve`]): the first approval locks the account against new transfers, and the one
//! that reaches the threshold pays out. The funder closes the account ([`close`]).
//!
//! The host runs one instruction at a time and takes back all that an instruction did
//! where the instruction fails. It has verified the signatures, it allocates and destroys
//! accounts, and it moves lamports on a signature. The instructions here take the accounts
//! as plain values, decide, write the records, and move lamports between the accounts that
//! the program owns and the others that they are handed. Each says in its contract what it
//! leaves behind, and that it leaves everything as it was where it fails. What holds of
//! them taken together is proved in [`laws`].

pub mod account;
pub mod approve;
pub mod close;
pub mod create;
pub mod create_transfer;
pub mod error;
pub mod fund;
pub mod laws;
pub mod pubkey;
pub mod state;
pub mod transfer;

pub use account::{Account, AccountInfo};
pub use approve::{approve, approve_guarded, Approve};
pub use close::{close, close_guarded, Close};
pub use create::{create, create_guarded, Create};
pub use create_transfer::{create_transfer, create_transfer_guarded, CreateTransfer};
pub use error::{Error, Failure};
pub use fund::{fund, fund_guarded, Fund};
pub use pubkey::{id, Pubkey};
pub use state::State;
pub use transfer::Transfer;
