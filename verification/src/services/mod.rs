//! The services of the node.

pub mod wallets;

pub use self::wallets::WalletsService;

use vstd::prelude::*;

verus! {

/// Identifier of the wallets service among the services of a node.
pub const WALLETS_SERVICE_ID: u16 = 1;

/// Name of the wallets service.
pub const WALLETS_SERVICE_NAME: &'static str = "wallets";

} // verus!
