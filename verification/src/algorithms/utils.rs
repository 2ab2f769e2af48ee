//! The storage-key helpers the algorithms use.
pub use crate::keccak_map::StorageKeyToAddressMap;
pub use crate::utils::{
    addresses_for_storage_keys, get_owner_from_keccak_address_map, is_erc20_valid_address,
    is_erc20_valid_balance,
};
