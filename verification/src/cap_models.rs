//! Rows of the cap-centred schema, in which each upgrade cap row also keeps
//! its package, owner and version. Times are milliseconds since the Unix
//! epoch.

use vstd::prelude::*;

use crate::checkpoint::{owner_text, Checkpoint, ExecutedTransaction, Object};
use crate::policy::UpgradeCompatibilityPolicyEnum;

verus! {

/// A row of `upgrade_caps`.
#[derive(Clone, Debug)]
pub struct UpgradeCap {
    pub object_id: String,
    pub package_id: String,
    pub owner_address: String,
    pub policy: UpgradeCompatibilityPolicyEnum,
    pub version: i64,
    pub init_seq_checkpoint: i64,
    pub init_tx_digest: String,
    pub created_at: i64,
    pub updated_at: i64,
}

pub struct UpgradeCapView {
    pub object_id: Seq<char>,
    pub package_id: Seq<char>,
    pub owner_address: Seq<char>,
    pub policy: UpgradeCompatibilityPolicyEnum,
    pub version: i64,
    pub init_seq_checkpoint: i64,
    pub init_tx_digest: Seq<char>,
    pub created_at: i64,
    pub updated_at: i64,
}

impl View for UpgradeCap {
    type V = UpgradeCapView;

    open spec fn view(&self) -> UpgradeCapView {
        UpgradeCapView {
            object_id: self.object_id@,
            package_id: self.package_id@,
            owner_address: self.owner_address@,
            policy: self.policy,
            version: self.version,
            init_seq_checkpoint: self.init_seq_checkpoint,
            init_tx_digest: self.init_tx_digest@,
            created_at: self.created_at,
            updated_at: self.updated_at,
        }
    }
}

/// A row of `upgrade_cap_transfers_history`.
#[derive(Clone, Debug)]
pub struct UpgradeCapTransfer {
    pub object_id: String,
    pub old_owner_address: String,
    pub new_owner_address: String,
    pub tx_seq_checkpoint: i64,
    pub tx_digest: String,
    pub timestamp: i64,
}

/// The views of a sequence of cap rows.
pub open spec fn cap_views(rows: Seq<UpgradeCap>) -> Seq<UpgradeCapView> {
    rows.map_values(|r: UpgradeCap| r@)
}

/// The row of an upgrade cap object found in transaction `tx` of checkpoint
/// `cp`: the cap's id, package and version, its owner, the `Compatible`
/// policy, and the checkpoint's number and time as both creation and update
/// time.
pub open spec fn cap_row(cp: Checkpoint, tx: ExecutedTransaction, obj: Object) -> UpgradeCapView {
    let cap = obj.data->UpgradeCap_0;
    UpgradeCapView {
        object_id: cap.id@,
        package_id: cap.package@,
        owner_address: owner_text(obj.owner),
        policy: UpgradeCompatibilityPolicyEnum::Compatible,
        version: cap.version as i64,
        init_seq_checkpoint: cp.sequence_number as i64,
        init_tx_digest: tx.digest@,
        created_at: cp.timestamp_ms as i64,
        updated_at: cp.timestamp_ms as i64,
    }
}

} // verus!
