use crate::campaign_theorems::{
    lemma_completed_is_frozen, lemma_launched_wf, lemma_request_conserves,
    lemma_request_is_monotonic, lemma_request_keeps_wf, Request,
};
use crate::contract::ContractView;
use crate::error::Error;
use vstd::prelude::*;

verus! {

/// One call made of the escrow, with the host's answer to the identity
/// check where the operation asks for one.
pub enum Call {
    CreateCampaign {
        creator: Seq<char>,
        title: Seq<char>,
        description: Seq<char>,
        target_amount: int,
        milestone_count: nat,
        creator_authorized: bool,
    },
    Contribute { campaign_id: nat, amount: int, backer_authorized: bool },
    CreateMilestone {
        campaign_id: nat,
        milestone_id: nat,
        description: Seq<char>,
        release_amount: int,
        required_approvals: nat,
        creator_authorized: bool,
    },
    ApproveMilestone { campaign_id: nat, milestone_id: nat },
    ReleaseMilestone { campaign_id: nat, milestone_id: nat, requester: Seq<char> },
}

impl Call {
    /// Whether the call may be made at all: a contribution is positive.
    pub open spec fn admissible(self) -> bool {
        self matches Call::Contribute { amount, .. } ==> amount > 0
    }

    /// The escrow after the call. A refused call changes nothing.
    pub open spec fn apply(self, s: ContractView) -> ContractView {
        match self {
            Call::CreateCampaign {
                creator,
                title,
                description,
                target_amount,
                milestone_count,
                creator_authorized,
            } => match s.create_campaign(
                creator,
                title,
                description,
                target_amount,
                milestone_count,
                creator_authorized,
            ) {
                Ok((next, _)) => next,
                Err(_) => s,
            },
            Call::Contribute { campaign_id, amount, backer_authorized } => match s.contribute(
                campaign_id,
                amount,
                backer_authorized,
            ) {
                Ok(next) => next,
                Err(_) => s,
            },
            Call::CreateMilestone {
                campaign_id,
                milestone_id,
                description,
                release_amount,
                required_approvals,
                creator_authorized,
            } => match s.create_milestone(
                campaign_id,
                milestone_id,
                description,
                release_amount,
                required_approvals,
                creator_authorized,
            ) {
                Ok((next, _)) => next,
                Err(_) => s,
            },
            Call::ApproveMilestone { campaign_id, milestone_id } => match s.approve_milestone(
                campaign_id,
                milestone_id,
            ) {
                Ok(next) => next,
                Err(_) => s,
            },
            Call::ReleaseMilestone {
                campaign_id,
                milestone_id,
                requester,
            } => match s.release_milestone(campaign_id, milestone_id, requester) {
                Ok(next) => next,
                Err(_) => s,
            },
        }
    }

    /// The request that the call makes of the campaign stored under
    /// `campaign_id`, where it reaches that campaign: a call that names
    /// another campaign, or that fails the identity check, makes none.
    pub open spec fn request_of(self, campaign_id: nat) -> Option<Request> {
        match self {
            Call::CreateCampaign { .. } => None,
            Call::Contribute { campaign_id: target, amount, backer_authorized } => if target
                == campaign_id && backer_authorized {
                Some(Request::Contribute { amount })
            } else {
                None
            },
            Call::CreateMilestone {
                campaign_id: target,
                milestone_id,
                description,
                release_amount,
                required_approvals,
                creator_authorized,
            } => if target == campaign_id && creator_authorized {
                Some(
                    Request::CreateMilestone {
                        milestone_id,
                        description,
                        release_amount,
                        required_approvals,
                    },
                )
            } else {
                None
            },
            Call::ApproveMilestone { campaign_id: target, milestone_id } => if target
                == campaign_id {
                Some(Request::Approve { milestone_id })
            } else {
                None
            },
            Call::ReleaseMilestone { campaign_id: target, milestone_id, requester } => if target
                == campaign_id {
                Some(Request::Release { milestone_id, requester })
            } else {
                None
            },
        }
    }

    /// What the call adds to the escrow balance of the campaign stored
    /// under `campaign_id`: the amount of a contribution to that campaign
    /// that is accepted, and nothing otherwise.
    pub open spec fn paid_into(self, s: ContractView, campaign_id: nat) -> int {
        match self.request_of(campaign_id) {
            Some(request) => if s.campaigns.contains_key(campaign_id) {
                request.paid_in(s.campaigns[campaign_id])
            } else {
                0
            },
            None => 0,
        }
    }
}

/// The escrow after the calls of `calls`, made in order.
pub open spec fn escrow_after(s: ContractView, calls: Seq<Call>) -> ContractView
    decreases calls.len(),
{
    if calls.len() == 0 {
        s
    } else {
        calls.last().apply(escrow_after(s, calls.drop_last()))
    }
}

/// The sum of the contributions to `campaign_id` that were accepted while
/// `calls` were made of `s`.
pub open spec fn contributions_to(s: ContractView, calls: Seq<Call>, campaign_id: nat) -> int
    decreases calls.len(),
{
    if calls.len() == 0 {
        0
    } else {
        contributions_to(s, calls.drop_last(), campaign_id) + calls.last().paid_into(
            escrow_after(s, calls.drop_last()),
            campaign_id,
        )
    }
}

/// Whether every call of `calls` may be made.
pub open spec fn all_calls_admissible(calls: Seq<Call>) -> bool {
    forall|i: int| 0 <= i < calls.len() ==> (#[trigger] calls[i]).admissible()
}

/// A call does to a stored campaign what its request does, and nothing
/// where it makes no request of that campaign.
pub proof fn lemma_call_is_request(s: ContractView, call: Call, campaign_id: nat)
    requires
        s.wf(),
        s.campaigns.contains_key(campaign_id),
    ensures
        call.apply(s).campaigns.contains_key(campaign_id),
        call.apply(s).campaigns[campaign_id] == match call.request_of(campaign_id) {
            Some(request) => request.apply(s.campaigns[campaign_id]),
            None => s.campaigns[campaign_id],
        },
        call.request_of(campaign_id) matches Some(request) ==> (call.admissible()
            ==> request.admissible()),
{
}

/// Every call keeps the invariant of the escrow, and the counter never goes
/// back.
pub proof fn lemma_call_keeps_wf(s: ContractView, call: Call)
    requires
        s.wf(),
        call.admissible(),
    ensures
        call.apply(s).wf(),
        call.apply(s).counter >= s.counter,
{
    let next = call.apply(s);
    assert forall|id: nat| #[trigger] next.campaigns.contains_key(id) implies 1 <= id
        <= next.counter && next.campaigns[id].id == id && next.campaigns[id].wf() by {
        if s.campaigns.contains_key(id) {
            lemma_call_is_request(s, call, id);
            match call.request_of(id) {
                Some(request) => {
                    lemma_request_keeps_wf(s.campaigns[id], request);
                },
                None => {},
            }
        } else {
            match call {
                Call::CreateCampaign {
                    creator,
                    title,
                    description,
                    target_amount,
                    milestone_count,
                    ..
                } => {
                    lemma_launched_wf(
                        id,
                        creator,
                        title,
                        description,
                        target_amount,
                        milestone_count,
                    );
                },
                _ => {},
            }
        }
    }
}

/// A campaign is stored only by its creation: a call other than the one
/// that creates it leaves an unused identifier unused, and a creation
/// stores a campaign that holds nothing and has released nothing.
pub proof fn lemma_call_stores_only_new(s: ContractView, call: Call, campaign_id: nat)
    requires
        !s.campaigns.contains_key(campaign_id),
        call.apply(s).campaigns.contains_key(campaign_id),
    ensures
        campaign_id == s.counter + 1,
        call.apply(s).campaigns[campaign_id].raised_amount == 0,
        call.apply(s).campaigns[campaign_id].released_total() == 0,
        call.paid_into(s, campaign_id) == 0,
{
    match call {
        Call::CreateCampaign {
            creator,
            title,
            description,
            target_amount,
            milestone_count,
            ..
        } => {
            lemma_launched_wf(
                campaign_id,
                creator,
                title,
                description,
                target_amount,
                milestone_count,
            );
        },
        _ => {},
    }
}

/// Whatever calls are made of an escrow that keeps the invariant, it keeps
/// the invariant, and the counter never goes back.
pub proof fn lemma_escrow_stays_wf(s: ContractView, calls: Seq<Call>)
    requires
        s.wf(),
        all_calls_admissible(calls),
    ensures
        escrow_after(s, calls).wf(),
        escrow_after(s, calls).counter >= s.counter,
    decreases calls.len(),
{
    if calls.len() > 0 {
        lemma_escrow_stays_wf(s, calls.drop_last());
        lemma_call_keeps_wf(escrow_after(s, calls.drop_last()), calls.last());
    }
}

/// Campaigns persist. Whatever calls are made, a stored campaign stays
/// stored, under the same identifier and with the same creator.
pub proof fn lemma_campaigns_persist(s: ContractView, calls: Seq<Call>, campaign_id: nat)
    requires
        s.wf(),
        all_calls_admissible(calls),
        s.campaigns.contains_key(campaign_id),
    ensures
        escrow_after(s, calls).campaigns.contains_key(campaign_id),
        escrow_after(s, calls).campaigns[campaign_id].id == campaign_id,
        escrow_after(s, calls).campaigns[campaign_id].creator == s.campaigns[campaign_id].creator,
    decreases calls.len(),
{
    if calls.len() > 0 {
        let earlier = escrow_after(s, calls.drop_last());
        lemma_campaigns_persist(s, calls.drop_last(), campaign_id);
        lemma_escrow_stays_wf(s, calls.drop_last());
        lemma_call_is_request(earlier, calls.last(), campaign_id);
        match calls.last().request_of(campaign_id) {
            Some(request) => {
                lemma_request_keeps_wf(earlier.campaigns[campaign_id], request);
            },
            None => {},
        }
    }
}

/// An identifier that is unused after the calls was unused all along, and
/// nothing was contributed to it.
pub proof fn lemma_unused_received_nothing(s: ContractView, calls: Seq<Call>, campaign_id: nat)
    requires
        s.wf(),
        all_calls_admissible(calls),
        !escrow_after(s, calls).campaigns.contains_key(campaign_id),
    ensures
        !s.campaigns.contains_key(campaign_id),
        contributions_to(s, calls, campaign_id) == 0,
    decreases calls.len(),
{
    if calls.len() > 0 {
        let earlier = escrow_after(s, calls.drop_last());
        lemma_escrow_stays_wf(s, calls.drop_last());
        if earlier.campaigns.contains_key(campaign_id) {
            lemma_call_is_request(earlier, calls.last(), campaign_id);
        }
        lemma_unused_received_nothing(s, calls.drop_last(), campaign_id);
    }
}

/// Conservation, in the escrow. Whatever calls are made, the escrow balance
/// of a campaign that was stored from the start is what it was, plus what
/// was contributed to it, less what its completed milestones released
/// since, and is never negative.
pub proof fn lemma_escrow_conservation(s: ContractView, calls: Seq<Call>, campaign_id: nat)
    requires
        s.wf(),
        all_calls_admissible(calls),
        s.campaigns.contains_key(campaign_id),
    ensures
        escrow_after(s, calls).campaigns.contains_key(campaign_id),
        escrow_after(s, calls).campaigns[campaign_id].raised_amount >= 0,
        escrow_after(s, calls).campaigns[campaign_id].raised_amount
            == s.campaigns[campaign_id].raised_amount + s.campaigns[campaign_id].released_total()
            + contributions_to(s, calls, campaign_id) - escrow_after(
            s,
            calls,
        ).campaigns[campaign_id].released_total(),
    decreases calls.len(),
{
    if calls.len() > 0 {
        let earlier = escrow_after(s, calls.drop_last());
        lemma_escrow_conservation(s, calls.drop_last(), campaign_id);
        lemma_escrow_stays_wf(s, calls.drop_last());
        lemma_escrow_stays_wf(s, calls);
        lemma_call_is_request(earlier, calls.last(), campaign_id);
        match calls.last().request_of(campaign_id) {
            Some(request) => {
                lemma_request_conserves(earlier.campaigns[campaign_id], request);
            },
            None => {},
        }
    }
}

/// Conservation, from the empty escrow. In every state that calls can
/// reach, the escrow balance of every campaign is the sum of the
/// contributions it accepted less the sum of what its completed milestones
/// released, and is never negative.
pub proof fn lemma_escrow_conservation_since_empty(calls: Seq<Call>, campaign_id: nat)
    requires
        all_calls_admissible(calls),
        escrow_after(ContractView::empty(), calls).campaigns.contains_key(campaign_id),
    ensures
        escrow_after(ContractView::empty(), calls).campaigns[campaign_id].raised_amount >= 0,
        escrow_after(ContractView::empty(), calls).campaigns[campaign_id].raised_amount
            == contributions_to(ContractView::empty(), calls, campaign_id) - escrow_after(
            ContractView::empty(),
            calls,
        ).campaigns[campaign_id].released_total(),
    decreases calls.len(),
{
    let s = ContractView::empty();
    if calls.len() > 0 {
        let earlier = escrow_after(s, calls.drop_last());
        lemma_escrow_stays_wf(s, calls.drop_last());
        lemma_escrow_stays_wf(s, calls);
        if earlier.campaigns.contains_key(campaign_id) {
            lemma_escrow_conservation_since_empty(calls.drop_last(), campaign_id);
            lemma_call_is_request(earlier, calls.last(), campaign_id);
            match calls.last().request_of(campaign_id) {
                Some(request) => {
                    lemma_request_conserves(earlier.campaigns[campaign_id], request);
                },
                None => {},
            }
        } else {
            lemma_unused_received_nothing(s, calls.drop_last(), campaign_id);
            lemma_call_stores_only_new(earlier, calls.last(), campaign_id);
        }
    }
}

/// Approval monotonicity, in the escrow. Whatever calls are made, a
/// milestone of a stored campaign stays where it is, its approval count
/// never decreases, and it stays approved once approved and completed once
/// completed.
pub proof fn lemma_escrow_approvals_never_retract(
    s: ContractView,
    calls: Seq<Call>,
    campaign_id: nat,
    milestone_id: nat,
)
    requires
        s.wf(),
        all_calls_admissible(calls),
        s.campaigns.contains_key(campaign_id),
        s.campaigns[campaign_id].has_milestone(milestone_id),
    ensures
        escrow_after(s, calls).campaigns.contains_key(campaign_id),
        escrow_after(s, calls).campaigns[campaign_id].has_milestone(milestone_id),
        escrow_after(s, calls).campaigns[campaign_id].milestone(milestone_id).approval_count
            >= s.campaigns[campaign_id].milestone(milestone_id).approval_count,
        s.campaigns[campaign_id].milestone(milestone_id).is_approved ==> escrow_after(
            s,
            calls,
        ).campaigns[campaign_id].milestone(milestone_id).is_approved,
        s.campaigns[campaign_id].milestone(milestone_id).is_completed ==> escrow_after(
            s,
            calls,
        ).campaigns[campaign_id].milestone(milestone_id).is_completed,
    decreases calls.len(),
{
    if calls.len() > 0 {
        let earlier = escrow_after(s, calls.drop_last());
        lemma_escrow_approvals_never_retract(s, calls.drop_last(), campaign_id, milestone_id);
        lemma_escrow_stays_wf(s, calls.drop_last());
        lemma_call_is_request(earlier, calls.last(), campaign_id);
        match calls.last().request_of(campaign_id) {
            Some(request) => {
                lemma_request_is_monotonic(earlier.campaigns[campaign_id], request, milestone_id);
            },
            None => {},
        }
    }
}

/// Identifiers are given out once. A campaign is created under an
/// identifier that no stored campaign has, the next after the counter, and
/// every campaign stored before is stored after, unchanged.
pub proof fn lemma_create_campaign_is_fresh(
    s: ContractView,
    creator: Seq<char>,
    title: Seq<char>,
    description: Seq<char>,
    target_amount: int,
    milestone_count: nat,
)
    requires
        s.wf(),
    ensures
        ({
            let (next, id) = s.create_campaign(
                creator,
                title,
                description,
                target_amount,
                milestone_count,
                true,
            )->Ok_0;
            &&& id == s.counter + 1
            &&& !s.campaigns.contains_key(id)
            &&& next.wf()
            &&& next.counter == id
            &&& next.campaigns.contains_key(id)
            &&& forall|other: nat| #[trigger]
                s.campaigns.contains_key(other) ==> next.campaigns.contains_key(other)
                    && next.campaigns[other] == s.campaigns[other]
        }),
{
    let id = s.counter + 1;
    lemma_launched_wf(id, creator, title, description, target_amount, milestone_count);
}

/// Authorization enforcement, in the escrow. A release requested of a
/// stored campaign by anyone but its creator is refused as not coming from
/// the creator, whatever the milestone and its state.
pub proof fn lemma_escrow_only_creator_releases(
    s: ContractView,
    campaign_id: nat,
    milestone_id: nat,
    requester: Seq<char>,
)
    requires
        s.campaigns.contains_key(campaign_id),
        requester != s.campaigns[campaign_id].creator,
    ensures
        s.release_milestone(campaign_id, milestone_id, requester) == Err::<ContractView, Error>(
            Error::NotCreator,
        ),
{
}

/// No double release, in the escrow. After a release has succeeded,
/// whatever calls follow, a further release of that milestone by the same
/// requester is refused as already completed.
pub proof fn lemma_escrow_released_once(
    s: ContractView,
    campaign_id: nat,
    milestone_id: nat,
    requester: Seq<char>,
    calls: Seq<Call>,
)
    requires
        s.wf(),
        all_calls_admissible(calls),
        s.release_milestone(campaign_id, milestone_id, requester) is Ok,
    ensures
        escrow_after(
            s.release_milestone(campaign_id, milestone_id, requester)->Ok_0,
            calls,
        ).release_milestone(campaign_id, milestone_id, requester) == Err::<ContractView, Error>(
            Error::AlreadyCompleted,
        ),
{
    let released = s.release_milestone(campaign_id, milestone_id, requester)->Ok_0;
    lemma_call_keeps_wf(s, Call::ReleaseMilestone { campaign_id, milestone_id, requester });
    lemma_escrow_stays_wf(released, calls);
    lemma_campaigns_persist(released, calls, campaign_id);
    lemma_escrow_approvals_never_retract(released, calls, campaign_id, milestone_id);
    lemma_completed_is_frozen(
        escrow_after(released, calls).campaigns[campaign_id],
        milestone_id,
        Seq::empty(),
        0,
        0,
    );
}

} // verus!
