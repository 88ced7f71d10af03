//! Merkle-commitment airdrop library.
//!
//! A fixed list of `(address, amount)` rows is committed to by the root of an
//! indexed Merkle tree; each recipient later claims by presenting the sibling
//! hashes along the path from its leaf to the root.  The tree construction,
//! proof generation, claim verification and the exactly-once receipt ledger
//! are verified; SHA-256 itself is supplied by an outside crate and trusted.

use vstd::prelude::*;

pub mod claims;
pub mod hashing;
pub mod network;
pub mod orchestrator;
pub mod proof_gen;
pub mod store;
pub mod tree;

verus! {

/// Every way a distribution or a claim can be refused.
#[derive(Clone, Copy, Debug, PartialEq, Eq, Structural)]
pub enum AirdropError {
    /// No rows were given, so there is nothing to commit to.
    EmptyDistribution,
    /// A proof was requested for an address that is not in the distribution.
    AddressNotFound,
    /// The hash chain rebuilt from the claimed leaf does not reach the stored root.
    InvalidProof,
    /// A receipt for this (distribution, claimant) pair already exists.
    AlreadyClaimed,
    /// A record for this root has already been published.
    DistributionAlreadyPublished,
}

impl AirdropError {
    /// A short description of the error, for callers that print it.
    pub fn message(&self) -> (r: &'static str)
        ensures
            r@ == self.spec_message(),
    {
        match self {
            AirdropError::EmptyDistribution => "distribution contains no rows",
            AirdropError::AddressNotFound => "address not found in airdrop",
            AirdropError::InvalidProof => "invalid merkle proof",
            AirdropError::AlreadyClaimed => "airdrop already claimed",
            AirdropError::DistributionAlreadyPublished => "distribution already published",
        }
    }

    pub open spec fn spec_message(&self) -> Seq<char> {
        match self {
            AirdropError::EmptyDistribution => "distribution contains no rows"@,
            AirdropError::AddressNotFound => "address not found in airdrop"@,
            AirdropError::InvalidProof => "invalid merkle proof"@,
            AirdropError::AlreadyClaimed => "airdrop already claimed"@,
            AirdropError::DistributionAlreadyPublished => "distribution already published"@,
        }
    }
}

} // verus!
