//! The registry's data: credit status, credit metadata, events and errors.
use vstd::prelude::*;

use crate::ids::{Address, CreditId};

verus! {

/// Where a credit stands in its life.
#[derive(Clone, Copy, Debug, PartialEq, Eq, Structural)]
pub enum CreditStatus {
    Pending,
    Active,
    Retired,
    Flagged,
}

/// Whether one registry operation may take a credit from status `before` to
/// status `after`: nothing changes, or a pending credit is minted, or a credit
/// that is not retired is flagged, or an active credit is retired.
pub open spec fn may_follow(before: CreditStatus, after: CreditStatus) -> bool {
    ||| before == after
    ||| before == CreditStatus::Pending && after == CreditStatus::Active
    ||| before != CreditStatus::Retired && after == CreditStatus::Flagged
    ||| before == CreditStatus::Active && after == CreditStatus::Retired
}

/// What the registry records of one credit.
#[derive(Debug, PartialEq, Eq)]
pub struct CreditMetadata {
    pub project_id: String,
    pub issuer: Address,
    pub vintage_year: u32,
    pub methodology: String,
    pub geography: String,
    pub tonnes: i128,
    pub ipfs_hash: String,
    pub status: CreditStatus,
    pub issued_at: u64,
}

impl CreditMetadata {
    /// The same metadata with the status replaced.
    pub open spec fn with_status(self, status: CreditStatus) -> CreditMetadata {
        CreditMetadata { status, ..self }
    }

    /// A copy of this metadata with the status replaced.
    pub fn copy_with_status(&self, status: CreditStatus) -> (r: CreditMetadata)
        ensures
            r == self.with_status(status),
    {
        CreditMetadata {
            project_id: self.project_id.clone(),
            issuer: self.issuer.clone(),
            vintage_year: self.vintage_year,
            methodology: self.methodology.clone(),
            geography: self.geography.clone(),
            tonnes: self.tonnes,
            ipfs_hash: self.ipfs_hash.clone(),
            status,
            issued_at: self.issued_at,
        }
    }
}

impl Clone for CreditMetadata {
    fn clone(&self) -> (r: Self)
        ensures
            r == *self,
    {
        self.copy_with_status(self.status)
    }
}

/// How often a verifier approved credits and how often it flagged them.
#[derive(Clone, Copy, Debug, PartialEq, Eq, Structural)]
pub struct VerifierReputation {
    pub approval_count: u64,
    pub dispute_count: u64,
}

/// An event that the registry publishes.
#[derive(Debug, PartialEq, Eq)]
pub enum RegistryEvent {
    CreditSubmitted { issuer: Address, project_id: String, tonnes: i128 },
    CreditMinted { verifier: Address, id: CreditId },
    CreditFlagged { id: CreditId, reason: String },
    VerifierAdded { admin: Address, verifier: Address },
    VerifierRemoved { admin: Address, verifier: Address },
    ContractPaused { admin: Address },
    ContractUnpaused { admin: Address },
}

/// Why a registry request was refused.
#[derive(Clone, Copy, Debug, PartialEq, Eq, Structural)]
pub enum CarbonChainError {
    AlreadyInitialized,
    NotInitialized,
    Unauthorized,
    VerifierAlreadyExists,
    VerifierNotFound,
    InvalidTonnes,
    CreditNotFound,
    InvalidStatusTransition,
}

} // verus!
