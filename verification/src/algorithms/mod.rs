//! The ways of finding the storage changes that a transfer made.
pub mod algorithm2_child_calls;
pub mod algorithm_call;
pub mod algorithm_child_calls;
pub mod fishing;
pub mod scaled;
pub mod total_sent_received;
pub mod utils;

pub use algorithm_call::find_erc20_balance_changes_algorithm1;
pub use algorithm_child_calls::{find_erc20_balance_changes_algorithm2, get_all_child_calls};
pub use utils::{addresses_for_storage_keys, StorageKeyToAddressMap};
