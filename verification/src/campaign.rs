use crate::campaign_theorems::{lemma_launched_wf, lemma_request_keeps_wf, Request};
use crate::error::Error;
use crate::milestone::{Milestone, MilestoneView};
use vstd::prelude::*;

verus! {

/// What a campaign is, as mathematics. Every contract on `Campaign` is
/// stated over this view.
pub struct CampaignView {
    pub id: nat,
    pub creator: Seq<char>,
    pub title: Seq<char>,
    pub description: Seq<char>,
    pub target_amount: int,
    pub raised_amount: int,
    pub is_active: bool,
    pub milestones: Seq<MilestoneView>,
}

impl CampaignView {
    /// The invariant of a campaign: identifiers start at 1, the escrow
    /// balance is never negative, and each milestone keeps its own invariant
    /// and is identified by its position.
    pub open spec fn wf(self) -> bool {
        &&& self.id >= 1
        &&& self.raised_amount >= 0
        &&& forall|i: int|
            0 <= i < self.milestones.len() ==> (#[trigger] self.milestones[i]).wf()
                && self.milestones[i].id == i + 1
    }

    /// Whether the campaign has a milestone at position `milestone_id`.
    pub open spec fn has_milestone(self, milestone_id: nat) -> bool {
        1 <= milestone_id <= self.milestones.len()
    }

    /// The milestone at position `milestone_id`.
    pub open spec fn milestone(self, milestone_id: nat) -> MilestoneView
        recommends
            self.has_milestone(milestone_id),
    {
        self.milestones[milestone_id - 1]
    }

    /// The campaign with `m` in place of the milestone at `milestone_id`.
    pub open spec fn with_milestone(self, milestone_id: nat, m: MilestoneView) -> CampaignView
        recommends
            self.has_milestone(milestone_id),
    {
        CampaignView { milestones: self.milestones.update(milestone_id - 1, m), ..self }
    }

    /// Everything released so far: the sum of the released amounts of the
    /// completed milestones.
    pub open spec fn released_total(self) -> int {
        released_sum(self.milestones)
    }

    /// A campaign as it is created: active, nothing raised, and
    /// `milestone_count` placeholders at positions 1 to `milestone_count`.
    pub open spec fn launched(
        id: nat,
        creator: Seq<char>,
        title: Seq<char>,
        description: Seq<char>,
        target_amount: int,
        milestone_count: nat,
    ) -> CampaignView {
        CampaignView {
            id,
            creator,
            title,
            description,
            target_amount,
            raised_amount: 0,
            is_active: true,
            milestones: Seq::new(
                milestone_count,
                |i: int| MilestoneView::placeholder((i + 1) as nat),
            ),
        }
    }

    /// The campaign after a contribution of `amount`.
    pub open spec fn contribute(self, amount: int) -> Result<CampaignView, Error> {
        if !self.is_active {
            Err(Error::CampaignInactive)
        } else {
            Ok(CampaignView { raised_amount: self.raised_amount + amount, ..self })
        }
    }

    /// The campaign after its creator described the milestone at
    /// `milestone_id`, and the position that was written.
    ///
    /// Position 0 does not exist. An existing position is revised. Any
    /// position past the end appends one milestone, which takes the next
    /// position.
    pub open spec fn create_milestone(
        self,
        milestone_id: nat,
        description: Seq<char>,
        release_amount: int,
        required_approvals: nat,
    ) -> Result<(CampaignView, nat), Error> {
        if milestone_id == 0 {
            Err(Error::MilestoneNotFound)
        } else if milestone_id <= self.milestones.len() {
            match self.milestone(milestone_id).revise(
                description,
                release_amount,
                required_approvals,
            ) {
                Ok(m) => Ok((self.with_milestone(milestone_id, m), milestone_id)),
                Err(e) => Err(e),
            }
        } else {
            let position = self.milestones.len() + 1;
            let m = MilestoneView {
                description,
                release_amount,
                required_approvals: MilestoneView::threshold(required_approvals),
                ..MilestoneView::placeholder(position)
            };
            Ok((CampaignView { milestones: self.milestones.push(m), ..self }, position))
        }
    }

    /// The campaign after one approval of the milestone at `milestone_id`.
    pub open spec fn approve_milestone(self, milestone_id: nat) -> Result<CampaignView, Error> {
        if !self.has_milestone(milestone_id) {
            Err(Error::MilestoneNotFound)
        } else {
            Ok(self.with_milestone(milestone_id, self.milestone(milestone_id).approve()))
        }
    }

    /// The campaign after `requester` released the milestone at
    /// `milestone_id`: the milestone is completed and its release amount has
    /// left the escrow balance.
    pub open spec fn release_milestone(self, milestone_id: nat, requester: Seq<char>) -> Result<
        CampaignView,
        Error,
    > {
        if requester != self.creator {
            Err(Error::NotCreator)
        } else if !self.has_milestone(milestone_id) {
            Err(Error::MilestoneNotFound)
        } else {
            match self.milestone(milestone_id).release(self.raised_amount) {
                Ok(m) => Ok(
                    CampaignView {
                        raised_amount: self.raised_amount - m.released_amount,
                        ..self.with_milestone(milestone_id, m)
                    },
                ),
                Err(e) => Err(e),
            }
        }
    }
}

/// The sum of what the completed milestones of `ms` have released.
pub open spec fn released_sum(ms: Seq<MilestoneView>) -> int
    decreases ms.len(),
{
    if ms.len() == 0 {
        0
    } else {
        released_sum(ms.drop_last()) + ms.last().released()
    }
}

/// A funding campaign: its owner, its escrow balance and its milestones.
#[derive(Clone, Debug, PartialEq, Eq)]
pub struct Campaign {
    pub id: u32,
    /// The identity that owns the campaign.
    pub creator: String,
    pub title: String,
    pub description: String,
    /// The goal. It is shown to backers and decides nothing.
    pub target_amount: i128,
    /// The escrow balance: contributions less what was released.
    pub raised_amount: i128,
    pub is_active: bool,
    /// The milestone at position `n` is `milestones[n - 1]`.
    pub milestones: Vec<Milestone>,
}

impl View for Campaign {
    type V = CampaignView;

    open spec fn view(&self) -> CampaignView {
        CampaignView {
            id: self.id as nat,
            creator: self.creator@,
            title: self.title@,
            description: self.description@,
            target_amount: self.target_amount as int,
            raised_amount: self.raised_amount as int,
            is_active: self.is_active,
            milestones: self.milestones@.map_values(|m: Milestone| m@),
        }
    }
}

impl Campaign {
    /// A campaign as it is created, with `milestone_count` placeholders.
    pub fn new(
        id: u32,
        creator: String,
        title: String,
        description: String,
        target_amount: i128,
        milestone_count: u32,
    ) -> (c: Campaign)
        ensures
            c@ == CampaignView::launched(
                id as nat,
                creator@,
                title@,
                description@,
                target_amount as int,
                milestone_count as nat,
            ),
            id >= 1 ==> c@.wf(),
    {
        let mut milestones: Vec<Milestone> = Vec::new();
        let mut made: u32 = 0;
        while made < milestone_count
            invariant
                made <= milestone_count,
                milestones.len() == made,
                forall|i: int|
                    0 <= i < made ==> (#[trigger] milestones[i])@ == MilestoneView::placeholder(
                        (i + 1) as nat,
                    ),
            decreases milestone_count - made,
        {
            made = made + 1;
            milestones.push(Milestone::placeholder(made));
        }
        let c = Campaign {
            id,
            creator,
            title,
            description,
            target_amount,
            raised_amount: 0,
            is_active: true,
            milestones,
        };
        assert(c@.milestones =~= Seq::new(
            milestone_count as nat,
            |i: int| MilestoneView::placeholder((i + 1) as nat),
        ));
        proof {
            if id >= 1 {
                lemma_launched_wf(
                    id as nat,
                    creator@,
                    title@,
                    description@,
                    target_amount as int,
                    milestone_count as nat,
                );
            }
        }
        c
    }

    /// Whether the record keeps the invariant of a campaign. A record that
    /// comes from outside the library is tested with this before use.
    pub fn is_well_formed(&self) -> (ok: bool)
        ensures
            ok == self@.wf(),
    {
        if self.id < 1 || self.raised_amount < 0 {
            return false;
        }
        let mut i: usize = 0;
        while i < self.milestones.len()
            invariant
                i <= self.milestones.len(),
                forall|j: int|
                    0 <= j < i ==> (#[trigger] self@.milestones[j]).wf() && self@.milestones[j].id
                        == j + 1,
            decreases self.milestones.len() - i,
        {
            let m = &self.milestones[i];
            if !m.is_well_formed() || m.id as usize != i + 1 {
                assert(!(self@.milestones[i as int].wf() && self@.milestones[i as int].id == i
                    + 1));
                return false;
            }
            i = i + 1;
        }
        true
    }

    /// Where the milestone at position `milestone_id` stands in
    /// `milestones`, if the campaign has one there.
    fn slot(&self, milestone_id: u32) -> (r: Option<usize>)
        ensures
            match r {
                Some(at) => self@.has_milestone(milestone_id as nat) && at == milestone_id - 1,
                None => !self@.has_milestone(milestone_id as nat),
            },
    {
        if milestone_id == 0 || milestone_id as usize > self.milestones.len() {
            None
        } else {
            Some((milestone_id - 1) as usize)
        }
    }

    /// The milestone at position `milestone_id`.
    pub fn get_milestone(&self, milestone_id: u32) -> (r: Result<&Milestone, Error>)
        ensures
            match r {
                Ok(m) => self@.has_milestone(milestone_id as nat) && m@ == self@.milestone(
                    milestone_id as nat,
                ),
                Err(e) => !self@.has_milestone(milestone_id as nat) && e
                    == Error::MilestoneNotFound,
            },
    {
        match self.slot(milestone_id) {
            Some(at) => Ok(&self.milestones[at]),
            None => Err(Error::MilestoneNotFound),
        }
    }

    /// Adds `amount` to the escrow balance, if the campaign is active.
    pub fn contribute(&mut self, amount: i128) -> (r: Result<(), Error>)
        requires
            amount > 0,
            old(self)@.contribute(amount as int) matches Ok(next) ==> next.raised_amount
                <= i128::MAX,
        ensures
            old(self)@.contribute(amount as int) == match r {
                Ok(()) => Ok::<CampaignView, Error>(final(self)@),
                Err(e) => Err(e),
            },
            r is Err ==> final(self)@ == old(self)@,
            old(self)@.wf() ==> final(self)@.wf(),
    {
        if !self.is_active {
            return Err(Error::CampaignInactive);
        }
        self.raised_amount = self.raised_amount + amount;
        Ok(())
    }

    /// Describes the milestone at `milestone_id` and returns the position
    /// that was written: `milestone_id` itself where the campaign has that
    /// position, the next free position where `milestone_id` lies past the
    /// end. Position 0 does not exist, and a completed milestone is frozen.
    pub fn create_milestone(
        &mut self,
        milestone_id: u32,
        description: String,
        release_amount: i128,
        required_approvals: u32,
    ) -> (r: Result<u32, Error>)
        ensures
            old(self)@.create_milestone(
                milestone_id as nat,
                description@,
                release_amount as int,
                required_approvals as nat,
            ) == match r {
                Ok(position) => Ok::<(CampaignView, nat), Error>((final(self)@, position as nat)),
                Err(e) => Err(e),
            },
            r is Err ==> final(self)@ == old(self)@,
            old(self)@.wf() ==> final(self)@.wf(),
    {
        proof {
            if old(self)@.wf() {
                lemma_request_keeps_wf(
                    old(self)@,
                    Request::CreateMilestone {
                        milestone_id: milestone_id as nat,
                        description: description@,
                        release_amount: release_amount as int,
                        required_approvals: required_approvals as nat,
                    },
                );
            }
        }
        if milestone_id == 0 {
            return Err(Error::MilestoneNotFound);
        }
        let position: u32 = match self.slot(milestone_id) {
            Some(_) => milestone_id,
            None => {
                let next: u32 = (self.milestones.len() + 1) as u32;
                self.milestones.push(Milestone::placeholder(next));
                next
            },
        };
        let at: usize = (position - 1) as usize;
        let ghost grown = self@.milestones;
        let revised = self.milestones[at].revise(description, release_amount, required_approvals);
        proof {
            let now = self.milestones[at as int]@;
            assert(self@.milestones =~= grown.update(at as int, now));
            if old(self)@.has_milestone(milestone_id as nat) {
                assert(revised is Err ==> self@.milestones =~= old(self)@.milestones);
            } else {
                assert(self@.milestones =~= old(self)@.milestones.push(now));
            }
        }
        match revised {
            Ok(()) => Ok(position),
            Err(e) => Err(e),
        }
    }

    /// Records one approval of the milestone at `milestone_id`. Each call
    /// counts, whoever makes it; a completed milestone still counts them.
    pub fn approve_milestone(&mut self, milestone_id: u32) -> (r: Result<(), Error>)
        requires
            old(self)@.approve_milestone(milestone_id as nat) matches Ok(next)
                ==> next.milestone(milestone_id as nat).approval_count <= u32::MAX,
        ensures
            old(self)@.approve_milestone(milestone_id as nat) == match r {
                Ok(()) => Ok::<CampaignView, Error>(final(self)@),
                Err(e) => Err(e),
            },
            r is Err ==> final(self)@ == old(self)@,
            old(self)@.wf() ==> final(self)@.wf(),
    {
        proof {
            if old(self)@.wf() {
                lemma_request_keeps_wf(
                    old(self)@,
                    Request::Approve { milestone_id: milestone_id as nat },
                );
            }
        }
        match self.slot(milestone_id) {
            None => Err(Error::MilestoneNotFound),
            Some(at) => {
                self.milestones[at].approve();
                assert(self@.milestones =~= old(self)@.milestones.update(
                    at as int,
                    self.milestones[at as int]@,
                ));
                Ok(())
            },
        }
    }

    /// Releases the milestone at `milestone_id` to `requester`, who must be
    /// the creator: the milestone is completed and its release amount
    /// leaves the escrow balance, or nothing changes.
    ///
    /// The request is refused, in this order, where the requester is not the
    /// creator, where the campaign has no such milestone, where the
    /// milestone is not approved, where it is completed already, and where
    /// the escrow balance does not cover the release amount.
    pub fn release_milestone(&mut self, milestone_id: u32, requester: &String) -> (r: Result<
        (),
        Error,
    >)
        requires
            old(self)@.release_milestone(milestone_id as nat, requester@) matches Ok(next)
                ==> next.raised_amount <= i128::MAX,
        ensures
            old(self)@.release_milestone(milestone_id as nat, requester@) == match r {
                Ok(()) => Ok::<CampaignView, Error>(final(self)@),
                Err(e) => Err(e),
            },
            r is Err ==> final(self)@ == old(self)@,
            old(self)@.wf() ==> final(self)@.wf(),
    {
        proof {
            if old(self)@.wf() {
                lemma_request_keeps_wf(
                    old(self)@,
                    Request::Release { milestone_id: milestone_id as nat, requester: requester@ },
                );
            }
        }
        if *requester != self.creator {
            return Err(Error::NotCreator);
        }
        match self.slot(milestone_id) {
            None => Err(Error::MilestoneNotFound),
            Some(at) => {
                let available = self.raised_amount;
                let released = self.milestones[at].release(available);
                assert(self@.milestones =~= old(self)@.milestones.update(
                    at as int,
                    self.milestones[at as int]@,
                ));
                match released {
                    Ok(debit) => {
                        self.raised_amount = self.raised_amount - debit;
                        Ok(())
                    },
                    Err(e) => {
                        assert(self@.milestones =~= old(self)@.milestones);
                        Err(e)
                    },
                }
            },
        }
    }
}

} // verus!
