//! A fixed-target, time-boxed fundraising ledger.
//!
//! A campaign is created with a target amount and a deadline. Until the
//! deadline anyone may contribute; each contributor's deposits accumulate in a
//! ledger, and the campaign's outcome is derived from the time and the funds
//! gathered.

pub mod address;
pub mod amount;
pub mod campaign;

pub use address::Address;
pub use amount::Amount;
pub use campaign::{
    check_funding_window, resolve_status, CampaignState, Contribution, Crowdfunding, FundError,
    Status,
};
