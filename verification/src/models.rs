//! Rows of the indexer's tables, and the upgrade cap record from which the
//! rows about a cap's creation are derived. Times are milliseconds since the
//! Unix epoch.

use vstd::prelude::*;

use crate::address::{zero_address, zero_address_text};
use crate::policy::UpgradeCompatibilityPolicyEnum;

verus! {

/// A row of `upgrade_caps`.
#[derive(Clone, Debug)]
pub struct UpgradeCap {
    pub object_id: String,
    pub policy: UpgradeCompatibilityPolicyEnum,
    pub created_seq_checkpoint: i64,
    pub created_tx_digest: String,
    pub created_at: i64,
}

pub struct UpgradeCapView {
    pub object_id: Seq<char>,
    pub policy: UpgradeCompatibilityPolicyEnum,
    pub created_seq_checkpoint: i64,
    pub created_tx_digest: Seq<char>,
    pub created_at: i64,
}

impl View for UpgradeCap {
    type V = UpgradeCapView;

    open spec fn view(&self) -> UpgradeCapView {
        UpgradeCapView {
            object_id: self.object_id@,
            policy: self.policy,
            created_seq_checkpoint: self.created_seq_checkpoint,
            created_tx_digest: self.created_tx_digest@,
            created_at: self.created_at,
        }
    }
}

/// A row of `upgrade_cap_transfers`: a cap moving from one owner to another.
#[derive(Clone, Debug)]
pub struct UpgradeCapTransfer {
    pub object_id: String,
    pub old_owner_address: String,
    pub new_owner_address: String,
    pub seq_checkpoint: i64,
    pub tx_digest: String,
    pub timestamp: i64,
}

pub struct UpgradeCapTransferView {
    pub object_id: Seq<char>,
    pub old_owner_address: Seq<char>,
    pub new_owner_address: Seq<char>,
    pub seq_checkpoint: i64,
    pub tx_digest: Seq<char>,
    pub timestamp: i64,
}

impl View for UpgradeCapTransfer {
    type V = UpgradeCapTransferView;

    open spec fn view(&self) -> UpgradeCapTransferView {
        UpgradeCapTransferView {
            object_id: self.object_id@,
            old_owner_address: self.old_owner_address@,
            new_owner_address: self.new_owner_address@,
            seq_checkpoint: self.seq_checkpoint,
            tx_digest: self.tx_digest@,
            timestamp: self.timestamp,
        }
    }
}

/// A row of `upgrade_cap_versions`: a package version published under a cap.
#[derive(Clone, Debug)]
pub struct UpgradeCapVersion {
    pub object_id: String,
    pub package_id: String,
    pub version: i64,
    pub seq_checkpoint: i64,
    pub tx_digest: String,
    pub publisher: String,
    pub timestamp: i64,
}

pub struct UpgradeCapVersionView {
    pub object_id: Seq<char>,
    pub package_id: Seq<char>,
    pub version: i64,
    pub seq_checkpoint: i64,
    pub tx_digest: Seq<char>,
    pub publisher: Seq<char>,
    pub timestamp: i64,
}

impl View for UpgradeCapVersion {
    type V = UpgradeCapVersionView;

    open spec fn view(&self) -> UpgradeCapVersionView {
        UpgradeCapVersionView {
            object_id: self.object_id@,
            package_id: self.package_id@,
            version: self.version,
            seq_checkpoint: self.seq_checkpoint,
            tx_digest: self.tx_digest@,
            publisher: self.publisher@,
            timestamp: self.timestamp,
        }
    }
}

/// Everything known about an upgrade cap when it is created.
#[derive(Clone, Debug)]
pub struct FullUpgradeCap {
    pub object_id: String,
    pub package_id: String,
    pub version: i64,
    pub owner_address: String,
    pub policy: UpgradeCompatibilityPolicyEnum,
    pub created_seq_checkpoint: i64,
    pub created_tx_digest: String,
    pub created_at: i64,
}

/// The `upgrade_caps` row of a cap.
pub open spec fn db_dto_view(cap: FullUpgradeCap) -> UpgradeCapView {
    UpgradeCapView {
        object_id: cap.object_id@,
        policy: cap.policy,
        created_seq_checkpoint: cap.created_seq_checkpoint,
        created_tx_digest: cap.created_tx_digest@,
        created_at: cap.created_at,
    }
}

/// The first `upgrade_cap_versions` row of a cap: the package it was
/// created with, published by its first owner.
pub open spec fn creation_version_view(cap: FullUpgradeCap) -> UpgradeCapVersionView {
    UpgradeCapVersionView {
        object_id: cap.object_id@,
        package_id: cap.package_id@,
        version: cap.version,
        seq_checkpoint: cap.created_seq_checkpoint,
        tx_digest: cap.created_tx_digest@,
        publisher: cap.owner_address@,
        timestamp: cap.created_at,
    }
}

/// The first `upgrade_cap_transfers` row of a cap: from the zero address to
/// its first owner.
pub open spec fn creation_transfer_view(cap: FullUpgradeCap) -> UpgradeCapTransferView {
    UpgradeCapTransferView {
        object_id: cap.object_id@,
        old_owner_address: zero_address_text(),
        new_owner_address: cap.owner_address@,
        seq_checkpoint: cap.created_seq_checkpoint,
        tx_digest: cap.created_tx_digest@,
        timestamp: cap.created_at,
    }
}

impl FullUpgradeCap {
    /// The cap's `upgrade_caps` row.
    pub fn db_dto(&self) -> (res: UpgradeCap)
        ensures
            res@ == db_dto_view(*self),
    {
        UpgradeCap {
            object_id: self.object_id.clone(),
            policy: self.policy,
            created_seq_checkpoint: self.created_seq_checkpoint,
            created_tx_digest: self.created_tx_digest.clone(),
            created_at: self.created_at,
        }
    }

    /// The cap's first version row.
    pub fn creation_version(&self) -> (res: UpgradeCapVersion)
        ensures
            res@ == creation_version_view(*self),
    {
        UpgradeCapVersion {
            object_id: self.object_id.clone(),
            package_id: self.package_id.clone(),
            version: self.version,
            seq_checkpoint: self.created_seq_checkpoint,
            tx_digest: self.created_tx_digest.clone(),
            publisher: self.owner_address.clone(),
            timestamp: self.created_at,
        }
    }

    /// The cap's creation transfer row, from the zero address.
    pub fn creation_transfer(&self) -> (res: UpgradeCapTransfer)
        ensures
            res@ == creation_transfer_view(*self),
    {
        UpgradeCapTransfer {
            object_id: self.object_id.clone(),
            old_owner_address: zero_address(),
            new_owner_address: self.owner_address.clone(),
            seq_checkpoint: self.created_seq_checkpoint,
            tx_digest: self.created_tx_digest.clone(),
            timestamp: self.created_at,
        }
    }
}

/// The three rows written for a cap's creation describe the same event:
/// they name the same cap, transaction, checkpoint and time; the cap's first
/// owner is both the receiver of the creation transfer and the publisher of
/// the first version, and the creation transfer comes from the zero address.
pub proof fn lemma_creation_rows_agree(cap: FullUpgradeCap)
    ensures
        ({
            let row = db_dto_view(cap);
            let version = creation_version_view(cap);
            let transfer = creation_transfer_view(cap);
            &&& row.object_id == version.object_id && version.object_id == transfer.object_id
            &&& row.created_tx_digest == version.tx_digest && version.tx_digest == transfer.tx_digest
            &&& row.created_seq_checkpoint == version.seq_checkpoint
            &&& version.seq_checkpoint == transfer.seq_checkpoint
            &&& row.created_at == version.timestamp && version.timestamp == transfer.timestamp
            &&& version.publisher == transfer.new_owner_address
            &&& transfer.old_owner_address == zero_address_text()
        }),
{
}

} // verus!
