//! The values that the backend's pages are rendered from.

use vstd::prelude::*;

verus! {

/// The page shown for an unknown path.
pub struct NotFound;

/// The home page: how many caps, packages and transfers are indexed.
pub struct HomePage {
    pub upgrade_caps_count: i64,
    pub packages_count: i64,
    pub transfers_count: i64,
}

/// What a search found: a cap id or a package id.
pub enum SearchResult {
    Cap(String),
    Package(String),
}

/// The page of an upgrade cap.
pub struct Cap {
    pub id: String,
    pub short_id: String,
    pub package: String,
    pub package_full: String,
    pub package_url: String,
    pub version: String,
    pub policy: String,
    pub owner: String,
    pub owner_full: String,
    pub owner_url: String,
    pub created_by: String,
    pub created_by_full: String,
    pub created_by_url: String,
    pub tx_digest_url: String,
    pub time_ago: String,
}

/// The version history of a cap.
pub struct CapVersions {
    pub versions: Vec<CapVersion>,
}

/// The transfer history of a cap.
pub struct CapTransfers {
    pub transfers: Vec<CapTransfer>,
}

/// The page of a package.
pub struct Package {
    pub id: String,
    pub short_id: String,
    pub upgrade_cap_id: String,
    pub upgrade_cap_id_full: String,
    pub upgrade_cap_id_url: String,
    pub version: i64,
    pub published_by: String,
    pub published_by_full: String,
    pub published_by_url: String,
    pub tx_digest_url: String,
    pub time_ago: String,
}

/// One entry of a cap's version history.
pub struct CapVersion {
    pub version: i64,
    pub package_id: String,
    pub package_id_full: String,
    pub package_url: String,
    pub tx_digest: String,
    pub tx_digest_full: String,
    pub tx_url: String,
    pub seq_checkpoint: i64,
    pub seq_checkpoint_url: String,
    pub time_ago: String,
}

/// One entry of a cap's transfer history.
pub struct CapTransfer {
    pub tx_digest: String,
    pub tx_digest_full: String,
    pub tx_url: String,
    pub seq_checkpoint: i64,
    pub seq_checkpoint_url: String,
    pub time_ago: String,
    pub from: String,
    pub from_full: String,
    pub from_url: String,
    pub to: String,
    pub to_full: String,
    pub to_url: String,
}

} // verus!
