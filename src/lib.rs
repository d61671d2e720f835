//! An ownership ledger for uniquely identified art pieces, and an exhibition
//! coordinator that borrows pieces from it, rents them out and pays rewards.
//!
//! Both parts are plain state machines: the caller supplies identities, the
//! time and balances, and carries out the transfer requests and payouts that
//! the machines hand back.
pub mod strmap;
pub mod exchange;
pub mod exhibition;
