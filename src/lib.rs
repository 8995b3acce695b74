//! A fixed-supply fungible-token ledger with delegated spend allowances.
//!
//! The ledger state machine is host-independent: the identity of the caller
//! is passed to each operation, and emitted events are buffered in the ledger
//! until the host drains them.
pub mod account;
pub mod laws;
pub mod ledger;
pub mod table;

pub use account::{AccountId, Balance};
pub use ledger::{
    check_approve, check_transfer, check_transfer_from, settle, Approval, Error, Event, Transfer,
    ERC20,
};
pub use table::AllowanceKey;
