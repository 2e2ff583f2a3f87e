//! Database-side names.

use vstd::prelude::*;

verus! {

/// The Postgres enum type `upgrade_compatibility_policy` in which
/// [`crate::policy::UpgradeCompatibilityPolicyEnum`] values are stored.
pub struct UpgradeCompatibilityPolicy;

} // verus!
