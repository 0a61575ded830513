//! A milestone-gated crowdfunding escrow.
//!
//! Creators register campaigns that are broken into milestones. Backers
//! contribute to the escrow balance of a campaign and approve its
//! milestones. A milestone that has reached its approval threshold can be
//! released, once, to the creator; its release amount then leaves the escrow
//! balance.
//!
//! `Contract` holds the campaigns and offers the operations. `Campaign` and
//! `Milestone` are the records, with the same operations on one record.
//! Each type has a view, and each operation is specified as a function on
//! views; `campaign_theorems` and `contract_theorems` prove what holds of
//! those functions over any sequence of operations.
//!
//! The escrow keeps records and nothing else. It moves no funds, stores
//! nothing durably and verifies no signature: the host does, and tells the
//! operations that are reserved for a principal whether the call comes from
//! that principal.

pub mod campaign;
pub mod campaign_theorems;
pub mod contract;
pub mod contract_theorems;
pub mod error;
pub mod milestone;

pub use campaign::{Campaign, CampaignView};
pub use contract::{Contract, ContractView};
pub use error::Error;
pub use milestone::{Milestone, MilestoneView};
