//! Verified core of the Phantom Cap explorer: the text formatting used by the
//! web backend, the upgrade-policy codec, and the decisions that the indexer
//! takes on each checkpoint.

pub mod decimal;
pub mod text;
pub mod format;
pub mod policy;
pub mod schema;
pub mod address;
pub mod models;
pub mod checkpoint;
pub mod transfer;
pub mod upgrade;
pub mod cap_models;
pub mod publish;
pub mod created;
pub mod upgrade_cap_handler;
pub mod templates;
pub mod route;
