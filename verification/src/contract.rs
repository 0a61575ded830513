use crate::campaign::{Campaign, CampaignView};
use crate::contract_theorems::{lemma_call_keeps_wf, Call};
use crate::error::Error;
use crate::milestone::Milestone;
use std::collections::HashMap;
use vstd::prelude::*;

verus! {

broadcast use vstd::std_specs::hash::group_hash_axioms;

/// What the escrow holds, as mathematics: the last identifier given out and
/// the campaign stored under each identifier.
pub struct ContractView {
    pub counter: nat,
    pub campaigns: Map<nat, CampaignView>,
}

impl ContractView {
    /// The invariant of the escrow: a campaign is stored under its own
    /// identifier, which was given out by the counter, and keeps the
    /// invariant of a campaign.
    pub open spec fn wf(self) -> bool {
        forall|id: nat| #[trigger]
            self.campaigns.contains_key(id) ==> 1 <= id <= self.counter && self.campaigns[id].id
                == id && self.campaigns[id].wf()
    }

    /// The escrow before anything was created.
    pub open spec fn empty() -> ContractView {
        ContractView { counter: 0, campaigns: Map::empty() }
    }

    /// Whether `records` can be the records of an escrow whose counter
    /// stands at `counter`: each keeps the invariant of a campaign, under an
    /// identifier that the counter has given out and that no other record
    /// has.
    pub open spec fn restorable(counter: nat, records: Seq<CampaignView>) -> bool {
        &&& forall|i: int|
            0 <= i < records.len() ==> (#[trigger] records[i]).wf() && records[i].id <= counter
        &&& forall|i: int, j: int|
            0 <= i < j < records.len() ==> (#[trigger] records[i]).id != (#[trigger] records[j]).id
    }

    /// Whether the escrow holds `records`, each under its own identifier,
    /// and nothing else.
    pub open spec fn holds_exactly(self, records: Seq<CampaignView>) -> bool {
        &&& forall|i: int|
            0 <= i < records.len() ==> self.campaigns.contains_key((#[trigger] records[i]).id)
                && self.campaigns[records[i].id] == records[i]
        &&& forall|id: nat| #[trigger]
            self.campaigns.contains_key(id) ==> exists|i: int|
                0 <= i < records.len() && (#[trigger] records[i]).id == id
    }

    /// The escrow with `c` stored under `campaign_id`.
    pub open spec fn with_campaign(self, campaign_id: nat, c: CampaignView) -> ContractView {
        ContractView { campaigns: self.campaigns.insert(campaign_id, c), ..self }
    }

    /// The escrow after `creator` created a campaign, and the identifier of
    /// that campaign: the counter advances by one and the new campaign is
    /// stored under the new count.
    pub open spec fn create_campaign(
        self,
        creator: Seq<char>,
        title: Seq<char>,
        description: Seq<char>,
        target_amount: int,
        milestone_count: nat,
        creator_authorized: bool,
    ) -> Result<(ContractView, nat), Error> {
        if !creator_authorized {
            Err(Error::Unauthorized)
        } else {
            let id = self.counter + 1;
            let c = CampaignView::launched(
                id,
                creator,
                title,
                description,
                target_amount,
                milestone_count,
            );
            Ok((ContractView { counter: id, campaigns: self.campaigns.insert(id, c) }, id))
        }
    }

    /// The escrow after a contribution of `amount` to `campaign_id`.
    pub open spec fn contribute(
        self,
        campaign_id: nat,
        amount: int,
        backer_authorized: bool,
    ) -> Result<ContractView, Error> {
        if !backer_authorized {
            Err(Error::Unauthorized)
        } else if !self.campaigns.contains_key(campaign_id) {
            Err(Error::CampaignNotFound)
        } else {
            match self.campaigns[campaign_id].contribute(amount) {
                Ok(c) => Ok(self.with_campaign(campaign_id, c)),
                Err(e) => Err(e),
            }
        }
    }

    /// The escrow after the creator of `campaign_id` described the
    /// milestone at `milestone_id`, and the position that was written.
    pub open spec fn create_milestone(
        self,
        campaign_id: nat,
        milestone_id: nat,
        description: Seq<char>,
        release_amount: int,
        required_approvals: nat,
        creator_authorized: bool,
    ) -> Result<(ContractView, nat), Error> {
        if !self.campaigns.contains_key(campaign_id) {
            Err(Error::CampaignNotFound)
        } else if !creator_authorized {
            Err(Error::Unauthorized)
        } else {
            match self.campaigns[campaign_id].create_milestone(
                milestone_id,
                description,
                release_amount,
                required_approvals,
            ) {
                Ok((c, position)) => Ok((self.with_campaign(campaign_id, c), position)),
                Err(e) => Err(e),
            }
        }
    }

    /// The escrow after one approval of a milestone of `campaign_id`.
    pub open spec fn approve_milestone(
        self,
        campaign_id: nat,
        milestone_id: nat,
    ) -> Result<ContractView, Error> {
        if !self.campaigns.contains_key(campaign_id) {
            Err(Error::CampaignNotFound)
        } else {
            match self.campaigns[campaign_id].approve_milestone(milestone_id) {
                Ok(c) => Ok(self.with_campaign(campaign_id, c)),
                Err(e) => Err(e),
            }
        }
    }

    /// The escrow after `requester` released a milestone of `campaign_id`.
    pub open spec fn release_milestone(
        self,
        campaign_id: nat,
        milestone_id: nat,
        requester: Seq<char>,
    ) -> Result<ContractView, Error> {
        if !self.campaigns.contains_key(campaign_id) {
            Err(Error::CampaignNotFound)
        } else {
            match self.campaigns[campaign_id].release_milestone(milestone_id, requester) {
                Ok(c) => Ok(self.with_campaign(campaign_id, c)),
                Err(e) => Err(e),
            }
        }
    }
}

/// The campaigns of `cs`, each by its view.
pub open spec fn campaign_views(cs: Seq<Campaign>) -> Seq<CampaignView> {
    cs.map_values(|c: Campaign| c@)
}

/// The records of a store, each under its identifier and by its view.
spec fn records(stored: Map<u32, Campaign>) -> Map<nat, CampaignView> {
    Map::new(
        |id: nat| id <= u32::MAX && stored.contains_key(id as u32),
        |id: nat| stored[id as u32]@,
    )
}

/// An escrow that holds exactly `held`, all of which can be restored, still
/// does so with one more record that can be restored beside them.
proof fn lemma_one_more_record(
    s: ContractView,
    held: Seq<CampaignView>,
    c: CampaignView,
)
    requires
        s.wf(),
        s.holds_exactly(held),
        ContractView::restorable(s.counter, held),
        c.wf(),
        c.id <= s.counter,
        !s.campaigns.contains_key(c.id),
    ensures
        s.with_campaign(c.id, c).wf(),
        s.with_campaign(c.id, c).holds_exactly(seq![c] + held),
        ContractView::restorable(s.counter, seq![c] + held),
{
    let next = s.with_campaign(c.id, c);
    let all = seq![c] + held;
    assert forall|id: nat| #[trigger] next.campaigns.contains_key(id) implies exists|i: int|
        0 <= i < all.len() && (#[trigger] all[i]).id == id by {
        if id == c.id {
            assert(all[0].id == id);
        } else {
            let i = choose|i: int| 0 <= i < held.len() && (#[trigger] held[i]).id == id;
            assert(all[i + 1].id == id);
        }
    }
}

/// The milestone-gated escrow: the campaigns on record and the counter that
/// numbers them.
///
/// Its operations change the records held here. A host that keeps the
/// records elsewhere loads the ones an operation needs with `restore`, runs
/// the operation, and writes back the counter and the campaign it named.
///
/// Where an operation is reserved for a principal, the host says whether the
/// call is attributable to that principal; no operation checks an identity
/// by itself.
#[derive(Clone, Debug, PartialEq, Eq)]
pub struct Contract {
    counter: u32,
    campaigns: HashMap<u32, Campaign>,
}

impl View for Contract {
    type V = ContractView;

    closed spec fn view(&self) -> ContractView {
        ContractView { counter: self.counter as nat, campaigns: records(self.campaigns@) }
    }
}

impl Contract {
    /// The escrow before anything was created.
    pub fn new() -> (s: Contract)
        ensures
            s@ == ContractView::empty(),
    {
        let s = Contract { counter: 0, campaigns: HashMap::new() };
        assert(s@.campaigns =~= Map::empty());
        s
    }

    /// An escrow whose counter stands at `counter` and which holds exactly
    /// `records`, where they can be the records of such an escrow: where
    /// each keeps the invariant of a campaign and has an identifier of its
    /// own that the counter has given out.
    pub fn restore(counter: u32, records: Vec<Campaign>) -> (r: Option<Contract>)
        ensures
            r is Some <==> ContractView::restorable(counter as nat, campaign_views(records@)),
            r matches Some(s) ==> s@.counter == counter && s@.wf() && s@.holds_exactly(
                campaign_views(records@),
            ),
    {
        let ghost all = campaign_views(records@);
        let mut rest = records;
        let mut s = Contract { counter, campaigns: HashMap::new() };
        while rest.len() > 0
            invariant
                all == campaign_views(records@),
                rest.len() <= all.len(),
                campaign_views(rest@) == all.subrange(0, rest.len() as int),
                s@.counter == counter,
                s@.wf(),
                s@.holds_exactly(all.subrange(rest.len() as int, all.len() as int)),
                ContractView::restorable(
                    counter as nat,
                    all.subrange(rest.len() as int, all.len() as int),
                ),
            decreases rest.len(),
        {
            let ghost at = rest.len() - 1;
            let ghost held = all.subrange(at + 1, all.len() as int);
            let campaign = rest.pop().unwrap();
            assert(campaign@ == all.subrange(0, at + 1)[at]);
            assert(all.subrange(at, all.len() as int) =~= seq![campaign@] + held);
            if !campaign.is_well_formed() || campaign.id > counter || s.holds(campaign.id) {
                // The record cannot stand beside the ones behind it: it
                // breaks the invariant, or the counter never gave out its
                // identifier, or one of them has that identifier already.
                return None;
            }
            proof {
                lemma_one_more_record(s@, held, campaign@);
            }
            let id = campaign.id;
            s.put(id, campaign);
        }
        assert(all.subrange(0, all.len() as int) =~= all);
        Some(s)
    }

    /// The last identifier given out; 0 before the first campaign.
    pub fn counter(&self) -> (n: u32)
        ensures
            n == self@.counter,
    {
        self.counter
    }

    /// The campaign stored under `campaign_id`.
    pub fn get_campaign(&self, campaign_id: u32) -> (r: Result<&Campaign, Error>)
        ensures
            match r {
                Ok(c) => self@.campaigns.contains_key(campaign_id as nat) && c@
                    == self@.campaigns[campaign_id as nat],
                Err(e) => !self@.campaigns.contains_key(campaign_id as nat) && e
                    == Error::CampaignNotFound,
            },
    {
        match self.campaigns.get(&campaign_id) {
            Some(c) => Ok(c),
            None => Err(Error::CampaignNotFound),
        }
    }

    /// The milestone at position `milestone_id` of the campaign stored under
    /// `campaign_id`.
    pub fn get_milestone(&self, campaign_id: u32, milestone_id: u32) -> (r: Result<
        &Milestone,
        Error,
    >)
        ensures
            match r {
                Ok(m) => self@.campaigns.contains_key(campaign_id as nat)
                    && self@.campaigns[campaign_id as nat].has_milestone(milestone_id as nat) && m@
                    == self@.campaigns[campaign_id as nat].milestone(milestone_id as nat),
                Err(e) => if self@.campaigns.contains_key(campaign_id as nat) {
                    !self@.campaigns[campaign_id as nat].has_milestone(milestone_id as nat) && e
                        == Error::MilestoneNotFound
                } else {
                    e == Error::CampaignNotFound
                },
            },
    {
        match self.campaigns.get(&campaign_id) {
            Some(c) => c.get_milestone(milestone_id),
            None => Err(Error::CampaignNotFound),
        }
    }

    /// Whether a campaign is stored under `campaign_id`.
    fn holds(&self, campaign_id: u32) -> (b: bool)
        ensures
            b == self@.campaigns.contains_key(campaign_id as nat),
    {
        self.campaigns.contains_key(&campaign_id)
    }

    /// Takes the campaign stored under `campaign_id` out of the records.
    fn take(&mut self, campaign_id: u32) -> (r: Option<Campaign>)
        ensures
            final(self)@.counter == old(self)@.counter,
            final(self)@.campaigns == old(self)@.campaigns.remove(campaign_id as nat),
            match r {
                Some(c) => old(self)@.campaigns.contains_key(campaign_id as nat) && c@ == old(
                    self,
                )@.campaigns[campaign_id as nat],
                None => !old(self)@.campaigns.contains_key(campaign_id as nat) && final(self)@
                    == old(self)@,
            },
    {
        let r = self.campaigns.remove(&campaign_id);
        assert(r is None ==> self@.campaigns =~= old(self)@.campaigns);
        r
    }

    /// Stores `campaign` under `campaign_id`.
    fn put(&mut self, campaign_id: u32, campaign: Campaign)
        ensures
            final(self)@ == old(self)@.with_campaign(campaign_id as nat, campaign@),
    {
        self.campaigns.insert(campaign_id, campaign);
        assert(self@.campaigns =~= old(self)@.campaigns.insert(campaign_id as nat, campaign@));
    }

    /// Stores `campaign`, which was taken from under `campaign_id` when the
    /// escrow was `before`, under `campaign_id` again.
    fn put_back(&mut self, campaign_id: u32, campaign: Campaign, Ghost(before): Ghost<ContractView>)
        requires
            old(self)@.counter == before.counter,
            old(self)@.campaigns == before.campaigns.remove(campaign_id as nat),
            before.campaigns.contains_key(campaign_id as nat),
        ensures
            final(self)@ == before.with_campaign(campaign_id as nat, campaign@),
            campaign@ == before.campaigns[campaign_id as nat] ==> final(self)@ == before,
    {
        self.put(campaign_id, campaign);
        assert(self@.campaigns =~= before.campaigns.insert(campaign_id as nat, campaign@));
        assert(campaign@ == before.campaigns[campaign_id as nat] ==> self@.campaigns
            =~= before.campaigns);
    }

    /// Creates a campaign owned by `creator` and returns its identifier, the
    /// next that the counter gives out. The campaign is active, holds
    /// nothing, and has `milestone_count` placeholders for milestones.
    ///
    /// `creator_authorized` is the host's answer to whether the call is
    /// attributable to `creator`; where it is not, the call is refused as
    /// unauthorized.
    pub fn create_campaign(
        &mut self,
        creator: String,
        title: String,
        description: String,
        target_amount: i128,
        milestone_count: u32,
        creator_authorized: bool,
    ) -> (r: Result<u32, Error>)
        requires
            creator_authorized ==> old(self)@.counter < u32::MAX,
        ensures
            old(self)@.create_campaign(
                creator@,
                title@,
                description@,
                target_amount as int,
                milestone_count as nat,
                creator_authorized,
            ) == match r {
                Ok(id) => Ok::<(ContractView, nat), Error>((final(self)@, id as nat)),
                Err(e) => Err(e),
            },
            r is Err ==> final(self)@ == old(self)@,
            old(self)@.wf() ==> final(self)@.wf(),
    {
        proof {
            if old(self)@.wf() {
                lemma_call_keeps_wf(
                    old(self)@,
                    Call::CreateCampaign {
                        creator: creator@,
                        title: title@,
                        description: description@,
                        target_amount: target_amount as int,
                        milestone_count: milestone_count as nat,
                        creator_authorized,
                    },
                );
            }
        }
        if !creator_authorized {
            return Err(Error::Unauthorized);
        }
        let id: u32 = self.counter + 1;
        let campaign = Campaign::new(
            id,
            creator,
            title,
            description,
            target_amount,
            milestone_count,
        );
        self.counter = id;
        self.put(id, campaign);
        Ok(id)
    }

    /// Describes the milestone at `milestone_id` of `campaign_id` and
    /// returns the position that was written: `milestone_id` itself where
    /// the campaign has that position, the next free position where
    /// `milestone_id` lies past the end.
    ///
    /// `creator_authorized` is the host's answer to whether the call is
    /// attributable to the creator of the campaign.
    ///
    /// The call is refused, in this order, where no such campaign is
    /// stored, where the call is not authorized, where `milestone_id` is 0,
    /// and where the milestone is completed.
    pub fn create_milestone(
        &mut self,
        campaign_id: u32,
        milestone_id: u32,
        description: String,
        release_amount: i128,
        required_approvals: u32,
        creator_authorized: bool,
    ) -> (r: Result<u32, Error>)
        ensures
            old(self)@.create_milestone(
                campaign_id as nat,
                milestone_id as nat,
                description@,
                release_amount as int,
                required_approvals as nat,
                creator_authorized,
            ) == match r {
                Ok(position) => Ok::<(ContractView, nat), Error>((final(self)@, position as nat)),
                Err(e) => Err(e),
            },
            r is Err ==> final(self)@ == old(self)@,
            old(self)@.wf() ==> final(self)@.wf(),
    {
        proof {
            if old(self)@.wf() {
                lemma_call_keeps_wf(
                    old(self)@,
                    Call::CreateMilestone {
                        campaign_id: campaign_id as nat,
                        milestone_id: milestone_id as nat,
                        description: description@,
                        release_amount: release_amount as int,
                        required_approvals: required_approvals as nat,
                        creator_authorized,
                    },
                );
            }
        }
        match self.take(campaign_id) {
            None => Err(Error::CampaignNotFound),
            Some(mut campaign) => {
                let r = if creator_authorized {
                    campaign.create_milestone(
                        milestone_id,
                        description,
                        release_amount,
                        required_approvals,
                    )
                } else {
                    Err(Error::Unauthorized)
                };
                self.put_back(campaign_id, campaign, Ghost(old(self)@));
                r
            },
        }
    }

    /// Adds `amount` to the escrow balance of `campaign_id`.
    ///
    /// `backer_authorized` is the host's answer to whether the call is
    /// attributable to `backer`. Any backer may contribute, and no list of
    /// backers is kept: who `backer` is decides nothing.
    ///
    /// The call is refused, in this order, where it is not authorized,
    /// where no such campaign is stored, and where the campaign is not
    /// active.
    #[allow(unused_variables)]
    pub fn contribute(
        &mut self,
        campaign_id: u32,
        backer: &String,
        amount: i128,
        backer_authorized: bool,
    ) -> (r: Result<(), Error>)
        requires
            amount > 0,
            old(self)@.contribute(campaign_id as nat, amount as int, backer_authorized) matches Ok(
                next,
            ) ==> next.campaigns[campaign_id as nat].raised_amount <= i128::MAX,
        ensures
            old(self)@.contribute(campaign_id as nat, amount as int, backer_authorized) == match r {
                Ok(()) => Ok::<ContractView, Error>(final(self)@),
                Err(e) => Err(e),
            },
            r is Err ==> final(self)@ == old(self)@,
            old(self)@.wf() ==> final(self)@.wf(),
    {
        proof {
            if old(self)@.wf() {
                lemma_call_keeps_wf(
                    old(self)@,
                    Call::Contribute {
                        campaign_id: campaign_id as nat,
                        amount: amount as int,
                        backer_authorized,
                    },
                );
            }
        }
        if !backer_authorized {
            return Err(Error::Unauthorized);
        }
        match self.take(campaign_id) {
            None => Err(Error::CampaignNotFound),
            Some(mut campaign) => {
                let r = campaign.contribute(amount);
                self.put_back(campaign_id, campaign, Ghost(old(self)@));
                r
            },
        }
    }

    /// Records one approval of the milestone at `milestone_id` of
    /// `campaign_id`. Each call counts, whoever `backer` is and however
    /// often the same backer calls. The approval that brings the count to
    /// the threshold approves the milestone.
    ///
    /// The call is refused where no such campaign is stored, and then where
    /// the campaign has no such milestone.
    #[allow(unused_variables)]
    pub fn approve_milestone(
        &mut self,
        campaign_id: u32,
        milestone_id: u32,
        backer: &String,
    ) -> (r: Result<(), Error>)
        requires
            old(self)@.approve_milestone(campaign_id as nat, milestone_id as nat) matches Ok(next)
                ==> next.campaigns[campaign_id as nat].milestone(
                milestone_id as nat,
            ).approval_count <= u32::MAX,
        ensures
            old(self)@.approve_milestone(campaign_id as nat, milestone_id as nat) == match r {
                Ok(()) => Ok::<ContractView, Error>(final(self)@),
                Err(e) => Err(e),
            },
            r is Err ==> final(self)@ == old(self)@,
            old(self)@.wf() ==> final(self)@.wf(),
    {
        proof {
            if old(self)@.wf() {
                lemma_call_keeps_wf(
                    old(self)@,
                    Call::ApproveMilestone {
                        campaign_id: campaign_id as nat,
                        milestone_id: milestone_id as nat,
                    },
                );
            }
        }
        match self.take(campaign_id) {
            None => Err(Error::CampaignNotFound),
            Some(mut campaign) => {
                let r = campaign.approve_milestone(milestone_id);
                self.put_back(campaign_id, campaign, Ghost(old(self)@));
                r
            },
        }
    }

    /// Releases the milestone at `milestone_id` of `campaign_id` to
    /// `requester`, who must be the creator of the campaign: the milestone
    /// is completed and its release amount leaves the escrow balance, or
    /// nothing changes.
    ///
    /// The call is refused, in this order, where no such campaign is
    /// stored, where the requester is not its creator, where the campaign
    /// has no such milestone, where the milestone is not approved, where it
    /// is completed already, and where the escrow balance does not cover
    /// the release amount.
    pub fn release_milestone(
        &mut self,
        campaign_id: u32,
        milestone_id: u32,
        requester: &String,
    ) -> (r: Result<(), Error>)
        requires
            old(self)@.release_milestone(campaign_id as nat, milestone_id as nat, requester@)
                matches Ok(next) ==> next.campaigns[campaign_id as nat].raised_amount <= i128::MAX,
        ensures
            old(self)@.release_milestone(campaign_id as nat, milestone_id as nat, requester@)
                == match r {
                Ok(()) => Ok::<ContractView, Error>(final(self)@),
                Err(e) => Err(e),
            },
            r is Err ==> final(self)@ == old(self)@,
            old(self)@.wf() ==> final(self)@.wf(),
    {
        proof {
            if old(self)@.wf() {
                lemma_call_keeps_wf(
                    old(self)@,
                    Call::ReleaseMilestone {
                        campaign_id: campaign_id as nat,
                        milestone_id: milestone_id as nat,
                        requester: requester@,
                    },
                );
            }
        }
        match self.take(campaign_id) {
            None => Err(Error::CampaignNotFound),
            Some(mut campaign) => {
                let r = campaign.release_milestone(milestone_id, requester);
                self.put_back(campaign_id, campaign, Ghost(old(self)@));
                r
            },
        }
    }
}

} // verus!
