//! Deposit and checkout shapes.

use vstd::prelude::*;

verus! {

/// The account's active deposit address on each chain, where one exists.
pub struct DepositAddresses {
    pub polkadot_assethub: Option<String>,
    pub penumbra: Option<String>,
}

/// The hosted checkout page for a card purchase.
pub struct CreateCheckoutResponse {
    pub url: String,
}

/// Acknowledgement of a manually reported deposit.
pub struct RecordDepositResponse {
    pub deposit_id: String,
    pub status: String,
}

/// The address issued by a rotation.
pub struct RotateAddressResponse {
    pub new_address: String,
    pub derivation_index: u32,
}

/// One row of an account's transparent-chain address history.
pub struct PolkadotAddress {
    pub address: String,
    pub derivation_index: i32,
    pub is_active: bool,
}

} // verus!
