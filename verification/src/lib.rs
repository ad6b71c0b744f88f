//! Assignment of accounts to the shards of a sharded ledger.
//!
//! A shard is a 64-bit word that packs a bit prefix and its length; an account
//! belongs to the shard whose prefix its 256-bit identifier starts with.

pub mod format;
pub mod identifier;
pub mod search;
pub mod shard;
pub mod topology;

pub use format::to_hex;
pub use identifier::extract_top64;
pub use search::{search, search_step, Candidate, SearchAction, SearchError, SearchEvent, SearchReport};
pub use shard::{expected_attempts, shard_contains, shard_prefix, ShardPrefix, MASTER_SHARD};
pub use topology::{active_shards, get_shard, is_well_formed, validate_shard};
