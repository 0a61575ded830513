use crate::error::Error;
use vstd::prelude::*;

verus! {

/// What a milestone is, as mathematics: unbounded numbers and a sequence of
/// characters. Every contract on `Milestone` is stated over this view.
pub struct MilestoneView {
    pub id: nat,
    pub description: Seq<char>,
    pub release_amount: int,
    pub released_amount: int,
    pub approval_count: nat,
    pub required_approvals: nat,
    pub is_approved: bool,
    pub is_completed: bool,
}

impl MilestoneView {
    /// The invariant of a milestone.
    ///
    /// Positions start at 1. The threshold is at least 1. A milestone is
    /// approved only by an approval, and completed only once approved. What
    /// has been released is the whole release amount or nothing.
    pub open spec fn wf(self) -> bool {
        &&& self.id >= 1
        &&& self.required_approvals >= 1
        &&& self.is_approved ==> self.approval_count >= 1
        &&& self.is_completed ==> self.is_approved
        &&& self.released_amount == if self.is_completed {
            self.release_amount
        } else {
            0
        }
    }

    /// What the milestone has taken out of the escrow balance: its released
    /// amount once it is completed, nothing before.
    pub open spec fn released(self) -> int {
        if self.is_completed {
            self.released_amount
        } else {
            0
        }
    }

    /// The threshold stored for a requested one: a request of 0 leaves the
    /// threshold unset, and an unset threshold is 1.
    pub open spec fn threshold(requested: nat) -> nat {
        if requested == 0 {
            1
        } else {
            requested
        }
    }

    /// The milestone that holds position `id` until its creator describes it:
    /// nothing to release, nothing released, no approval, threshold 1.
    pub open spec fn placeholder(id: nat) -> MilestoneView {
        MilestoneView {
            id,
            description: Seq::empty(),
            release_amount: 0,
            released_amount: 0,
            approval_count: 0,
            required_approvals: 1,
            is_approved: false,
            is_completed: false,
        }
    }

    /// The milestone after one more approval. The approval that brings the
    /// count to the threshold approves it; an approved milestone stays so.
    pub open spec fn approve(self) -> MilestoneView {
        MilestoneView {
            approval_count: self.approval_count + 1,
            is_approved: self.is_approved || self.approval_count + 1 >= self.required_approvals,
            ..self
        }
    }

    /// The milestone after its creator set description, release amount and
    /// threshold anew. A completed milestone is frozen. Approvals already
    /// recorded stay recorded.
    pub open spec fn revise(
        self,
        description: Seq<char>,
        release_amount: int,
        required_approvals: nat,
    ) -> Result<MilestoneView, Error> {
        if self.is_completed {
            Err(Error::AlreadyCompleted)
        } else {
            Ok(
                MilestoneView {
                    description,
                    release_amount,
                    required_approvals: Self::threshold(required_approvals),
                    ..self
                },
            )
        }
    }

    /// The milestone after its release from an escrow balance of
    /// `available`. The whole release amount leaves the balance, or nothing.
    pub open spec fn release(self, available: int) -> Result<MilestoneView, Error> {
        if !self.is_approved {
            Err(Error::NotApproved)
        } else if self.is_completed {
            Err(Error::AlreadyCompleted)
        } else if available < self.release_amount {
            Err(Error::InsufficientFunds)
        } else {
            Ok(MilestoneView { released_amount: self.release_amount, is_completed: true, ..self })
        }
    }
}

/// A fixed disbursement of a campaign, released to the creator once enough
/// approvals are recorded.
#[derive(Clone, Debug, PartialEq, Eq)]
pub struct Milestone {
    /// Position in the campaign's sequence, counted from 1.
    pub id: u32,
    pub description: String,
    /// What leaves the escrow balance when the milestone is released.
    pub release_amount: i128,
    /// What has left the escrow balance for this milestone.
    pub released_amount: i128,
    pub approval_count: u32,
    pub required_approvals: u32,
    pub is_approved: bool,
    pub is_completed: bool,
}

impl View for Milestone {
    type V = MilestoneView;

    open spec fn view(&self) -> MilestoneView {
        MilestoneView {
            id: self.id as nat,
            description: self.description@,
            release_amount: self.release_amount as int,
            released_amount: self.released_amount as int,
            approval_count: self.approval_count as nat,
            required_approvals: self.required_approvals as nat,
            is_approved: self.is_approved,
            is_completed: self.is_completed,
        }
    }
}

impl Milestone {
    /// The placeholder for position `id`.
    pub fn placeholder(id: u32) -> (m: Milestone)
        ensures
            m@ == MilestoneView::placeholder(id as nat),
    {
        Milestone {
            id,
            description: String::new(),
            release_amount: 0,
            released_amount: 0,
            approval_count: 0,
            required_approvals: 1,
            is_approved: false,
            is_completed: false,
        }
    }

    /// Whether the record keeps the invariant of a milestone. A record that
    /// comes from outside the library is tested with this before use.
    pub fn is_well_formed(&self) -> (ok: bool)
        ensures
            ok == self@.wf(),
    {
        let released: i128 = if self.is_completed {
            self.release_amount
        } else {
            0
        };
        self.id >= 1 && self.required_approvals >= 1 && (!self.is_approved || self.approval_count
            >= 1) && (!self.is_completed || self.is_approved) && self.released_amount == released
    }

    /// Records one approval.
    pub fn approve(&mut self)
        requires
            old(self).approval_count < u32::MAX,
        ensures
            final(self)@ == old(self)@.approve(),
            old(self)@.wf() ==> final(self)@.wf(),
    {
        self.approval_count = self.approval_count + 1;
        if self.approval_count >= self.required_approvals {
            self.is_approved = true;
        }
    }

    /// Sets description, release amount and threshold anew, unless the
    /// milestone is completed.
    pub fn revise(
        &mut self,
        description: String,
        release_amount: i128,
        required_approvals: u32,
    ) -> (r: Result<(), Error>)
        ensures
            old(self)@.revise(description@, release_amount as int, required_approvals as nat)
                == match r {
                Ok(()) => Ok::<MilestoneView, Error>(final(self)@),
                Err(e) => Err(e),
            },
            r is Err ==> final(self)@ == old(self)@,
            old(self)@.wf() ==> final(self)@.wf(),
    {
        if self.is_completed {
            return Err(Error::AlreadyCompleted);
        }
        self.description = description;
        self.release_amount = release_amount;
        self.required_approvals = if required_approvals == 0 {
            1
        } else {
            required_approvals
        };
        Ok(())
    }

    /// Releases the milestone from an escrow balance of `available` and
    /// returns the amount that leaves the balance.
    pub fn release(&mut self, available: i128) -> (r: Result<i128, Error>)
        ensures
            old(self)@.release(available as int) == match r {
                Ok(_) => Ok::<MilestoneView, Error>(final(self)@),
                Err(e) => Err(e),
            },
            r matches Ok(debit) ==> debit == old(self).release_amount,
            r is Err ==> final(self)@ == old(self)@,
            old(self)@.wf() ==> final(self)@.wf(),
    {
        if !self.is_approved {
            return Err(Error::NotApproved);
        }
        if self.is_completed {
            return Err(Error::AlreadyCompleted);
        }
        if available < self.release_amount {
            return Err(Error::InsufficientFunds);
        }
        self.released_amount = self.release_amount;
        self.is_completed = true;
        Ok(self.release_amount)
    }
}

} // verus!
