use vstd::prelude::*;

verus! {

/// Why an operation was refused. A refused operation changes nothing.
#[derive(Clone, Copy, Debug, PartialEq, Eq, Hash, Structural)]
pub enum Error {
    /// The host could not attribute the call to the principal the operation
    /// is reserved for.
    Unauthorized,
    /// No campaign is stored under the given identifier.
    CampaignNotFound,
    /// The campaign has no milestone at the given position.
    MilestoneNotFound,
    /// The campaign no longer accepts contributions.
    CampaignInactive,
    /// The milestone has been released; it is frozen.
    AlreadyCompleted,
    /// The milestone has not reached its approval threshold.
    NotApproved,
    /// The requester is not the creator of the campaign.
    NotCreator,
    /// The escrow balance is smaller than the amount to release.
    InsufficientFunds,
}

} // verus!
