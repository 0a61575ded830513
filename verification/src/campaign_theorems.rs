use crate::campaign::{released_sum, CampaignView};
use crate::error::Error;
use crate::milestone::MilestoneView;
use vstd::prelude::*;

verus! {

/// One request made of a campaign.
pub enum Request {
    Contribute { amount: int },
    CreateMilestone {
        milestone_id: nat,
        description: Seq<char>,
        release_amount: int,
        required_approvals: nat,
    },
    Approve { milestone_id: nat },
    Release { milestone_id: nat, requester: Seq<char> },
}

impl Request {
    /// Whether the request may be made at all: a contribution is positive.
    pub open spec fn admissible(self) -> bool {
        self matches Request::Contribute { amount } ==> amount > 0
    }

    /// The campaign after the request. A refused request changes nothing.
    pub open spec fn apply(self, c: CampaignView) -> CampaignView {
        match self {
            Request::Contribute { amount } => match c.contribute(amount) {
                Ok(next) => next,
                Err(_) => c,
            },
            Request::CreateMilestone {
                milestone_id,
                description,
                release_amount,
                required_approvals,
            } => match c.create_milestone(
                milestone_id,
                description,
                release_amount,
                required_approvals,
            ) {
                Ok((next, _)) => next,
                Err(_) => c,
            },
            Request::Approve { milestone_id } => match c.approve_milestone(milestone_id) {
                Ok(next) => next,
                Err(_) => c,
            },
            Request::Release { milestone_id, requester } => match c.release_milestone(
                milestone_id,
                requester,
            ) {
                Ok(next) => next,
                Err(_) => c,
            },
        }
    }

    /// What the request adds to the escrow: the amount of a contribution
    /// that is accepted, and nothing otherwise.
    pub open spec fn paid_in(self, c: CampaignView) -> int {
        match self {
            Request::Contribute { amount } => if c.contribute(amount) is Ok {
                amount
            } else {
                0
            },
            _ => 0,
        }
    }
}

/// The campaign after the requests of `requests`, made in order.
pub open spec fn after(c: CampaignView, requests: Seq<Request>) -> CampaignView
    decreases requests.len(),
{
    if requests.len() == 0 {
        c
    } else {
        requests.last().apply(after(c, requests.drop_last()))
    }
}

/// The sum of the contributions accepted while `requests` were made of `c`.
pub open spec fn contributions(c: CampaignView, requests: Seq<Request>) -> int
    decreases requests.len(),
{
    if requests.len() == 0 {
        0
    } else {
        contributions(c, requests.drop_last()) + requests.last().paid_in(
            after(c, requests.drop_last()),
        )
    }
}

/// Whether every request of `requests` may be made.
pub open spec fn all_admissible(requests: Seq<Request>) -> bool {
    forall|i: int| 0 <= i < requests.len() ==> (#[trigger] requests[i]).admissible()
}

/// The milestone after `times` approvals.
pub open spec fn approved_times(m: MilestoneView, times: nat) -> MilestoneView
    decreases times,
{
    if times == 0 {
        m
    } else {
        approved_times(m, (times - 1) as nat).approve()
    }
}

/// `times` requests, one after the other, to approve the milestone at
/// `milestone_id`.
pub open spec fn approvals(milestone_id: nat, times: nat) -> Seq<Request> {
    Seq::new(times, |i: int| Request::Approve { milestone_id })
}

/// What is released by `ms` changes, when one milestone is replaced, by the
/// difference between the two milestones.
pub proof fn lemma_released_sum_update(ms: Seq<MilestoneView>, at: int, m: MilestoneView)
    requires
        0 <= at < ms.len(),
    ensures
        released_sum(ms.update(at, m)) == released_sum(ms) - ms[at].released() + m.released(),
    decreases ms.len(),
{
    if at == ms.len() - 1 {
        assert(ms.update(at, m).drop_last() =~= ms.drop_last());
    } else {
        assert(ms.update(at, m).drop_last() =~= ms.drop_last().update(at, m));
        lemma_released_sum_update(ms.drop_last(), at, m);
    }
}

/// What is released by `ms` grows, when a milestone is appended, by what
/// that milestone released.
pub proof fn lemma_released_sum_push(ms: Seq<MilestoneView>, m: MilestoneView)
    ensures
        released_sum(ms.push(m)) == released_sum(ms) + m.released(),
{
    assert(ms.push(m).drop_last() =~= ms);
}

/// Milestones that have released nothing release nothing together.
pub proof fn lemma_released_sum_of_nothing(ms: Seq<MilestoneView>)
    requires
        forall|i: int| 0 <= i < ms.len() ==> (#[trigger] ms[i]).released() == 0,
    ensures
        released_sum(ms) == 0,
    decreases ms.len(),
{
    if ms.len() > 0 {
        lemma_released_sum_of_nothing(ms.drop_last());
    }
}

/// A created campaign keeps the invariant, holds nothing and has released
/// nothing.
pub proof fn lemma_launched_wf(
    id: nat,
    creator: Seq<char>,
    title: Seq<char>,
    description: Seq<char>,
    target_amount: int,
    milestone_count: nat,
)
    requires
        id >= 1,
    ensures
        ({
            let c = CampaignView::launched(
                id,
                creator,
                title,
                description,
                target_amount,
                milestone_count,
            );
            &&& c.wf()
            &&& c.raised_amount == 0
            &&& c.released_total() == 0
        }),
{
    let c = CampaignView::launched(id, creator, title, description, target_amount, milestone_count);
    lemma_released_sum_of_nothing(c.milestones);
}

/// Every request keeps the invariant of a campaign, its identity and its
/// owner: no operation leaves the escrow balance negative, releases part of
/// an amount, completes a milestone that is not approved, or renumbers a
/// milestone.
pub proof fn lemma_request_keeps_wf(c: CampaignView, request: Request)
    requires
        c.wf(),
        request.admissible(),
    ensures
        request.apply(c).wf(),
        request.apply(c).id == c.id,
        request.apply(c).creator == c.creator,
{
}

/// One request changes the escrow balance and what was released by
/// exactly what the request paid in: the balance plus the released total
/// grows by the accepted contribution, and by nothing else.
pub proof fn lemma_request_conserves(c: CampaignView, request: Request)
    ensures
        request.apply(c).raised_amount + request.apply(c).released_total() == c.raised_amount
            + c.released_total() + request.paid_in(c),
{
    match request {
        Request::Contribute { amount } => {},
        Request::CreateMilestone {
            milestone_id,
            description,
            release_amount,
            required_approvals,
        } => {
            match c.create_milestone(
                milestone_id,
                description,
                release_amount,
                required_approvals,
            ) {
                Ok((next, position)) => {
                    if milestone_id <= c.milestones.len() {
                        lemma_released_sum_update(
                            c.milestones,
                            milestone_id - 1,
                            next.milestones[milestone_id - 1],
                        );
                    } else {
                        lemma_released_sum_push(c.milestones, next.milestones.last());
                    }
                },
                Err(_) => {},
            }
        },
        Request::Approve { milestone_id } => {
            if c.has_milestone(milestone_id) {
                lemma_released_sum_update(
                    c.milestones,
                    milestone_id - 1,
                    c.milestone(milestone_id).approve(),
                );
            }
        },
        Request::Release { milestone_id, requester } => {
            match c.release_milestone(milestone_id, requester) {
                Ok(next) => {
                    lemma_released_sum_update(
                        c.milestones,
                        milestone_id - 1,
                        next.milestones[milestone_id - 1],
                    );
                },
                Err(_) => {},
            }
        },
    }
}

/// Conservation. Whatever requests are made of a campaign, in whatever
/// order, its escrow balance is what was contributed less what its
/// completed milestones released, counted from where the campaign started,
/// and the balance is never negative.
pub proof fn lemma_conservation(c: CampaignView, requests: Seq<Request>)
    requires
        c.wf(),
        all_admissible(requests),
    ensures
        after(c, requests).wf(),
        after(c, requests).raised_amount >= 0,
        after(c, requests).raised_amount == c.raised_amount + c.released_total() + contributions(
            c,
            requests,
        ) - after(c, requests).released_total(),
    decreases requests.len(),
{
    if requests.len() > 0 {
        let earlier = requests.drop_last();
        lemma_conservation(c, earlier);
        lemma_request_keeps_wf(after(c, earlier), requests.last());
        lemma_request_conserves(after(c, earlier), requests.last());
    }
}

/// Conservation, from creation. The escrow balance of a campaign is at all
/// times the sum of the contributions it accepted less the sum of what its
/// completed milestones released.
pub proof fn lemma_conservation_since_creation(
    id: nat,
    creator: Seq<char>,
    title: Seq<char>,
    description: Seq<char>,
    target_amount: int,
    milestone_count: nat,
    requests: Seq<Request>,
)
    requires
        id >= 1,
        all_admissible(requests),
    ensures
        ({
            let c = CampaignView::launched(
                id,
                creator,
                title,
                description,
                target_amount,
                milestone_count,
            );
            &&& after(c, requests).raised_amount == contributions(c, requests) - after(
                c,
                requests,
            ).released_total()
            &&& after(c, requests).raised_amount >= 0
        }),
{
    let c = CampaignView::launched(id, creator, title, description, target_amount, milestone_count);
    lemma_launched_wf(id, creator, title, description, target_amount, milestone_count);
    lemma_conservation(c, requests);
}

/// No double release. Once a release has succeeded, a second release of the
/// same milestone by the same requester is refused as already completed, so
/// the escrow balance stays where the first release left it.
pub proof fn lemma_no_double_release(c: CampaignView, milestone_id: nat, requester: Seq<char>)
    requires
        c.release_milestone(milestone_id, requester) is Ok,
    ensures
        c.release_milestone(milestone_id, requester)->Ok_0.release_milestone(
            milestone_id,
            requester,
        ) == Err::<CampaignView, Error>(Error::AlreadyCompleted),
{
}

/// Whatever requests are made of a campaign, it keeps its invariant, its
/// identifier and its creator.
pub proof fn lemma_identity_is_kept(c: CampaignView, requests: Seq<Request>)
    requires
        c.wf(),
        all_admissible(requests),
    ensures
        after(c, requests).wf(),
        after(c, requests).id == c.id,
        after(c, requests).creator == c.creator,
    decreases requests.len(),
{
    if requests.len() > 0 {
        lemma_identity_is_kept(c, requests.drop_last());
        lemma_request_keeps_wf(after(c, requests.drop_last()), requests.last());
    }
}

/// A milestone is released once. After a release has succeeded, whatever
/// requests follow, a further release of that milestone by the creator is
/// refused as already completed.
pub proof fn lemma_released_once(
    c: CampaignView,
    milestone_id: nat,
    requester: Seq<char>,
    requests: Seq<Request>,
)
    requires
        c.wf(),
        all_admissible(requests),
        c.release_milestone(milestone_id, requester) is Ok,
    ensures
        after(c.release_milestone(milestone_id, requester)->Ok_0, requests).release_milestone(
            milestone_id,
            requester,
        ) == Err::<CampaignView, Error>(Error::AlreadyCompleted),
{
    let released = c.release_milestone(milestone_id, requester)->Ok_0;
    lemma_request_keeps_wf(c, Request::Release { milestone_id, requester });
    lemma_identity_is_kept(released, requests);
    lemma_approvals_never_retract(released, requests, milestone_id);
    lemma_completed_is_frozen(after(released, requests), milestone_id, Seq::empty(), 0, 0);
}

/// A completed milestone is frozen: it can be neither released nor
/// described again, whatever the arguments.
pub proof fn lemma_completed_is_frozen(
    c: CampaignView,
    milestone_id: nat,
    description: Seq<char>,
    release_amount: int,
    required_approvals: nat,
)
    requires
        c.wf(),
        c.has_milestone(milestone_id),
        c.milestone(milestone_id).is_completed,
    ensures
        c.release_milestone(milestone_id, c.creator) == Err::<CampaignView, Error>(
            Error::AlreadyCompleted,
        ),
        c.create_milestone(milestone_id, description, release_amount, required_approvals) == Err::<
            (CampaignView, nat),
            Error,
        >(Error::AlreadyCompleted),
{
}

/// One request never takes a milestone away, never lowers the approval
/// count of a milestone, and never takes back its approval or its
/// completion.
pub proof fn lemma_request_is_monotonic(c: CampaignView, request: Request, milestone_id: nat)
    requires
        c.has_milestone(milestone_id),
    ensures
        request.apply(c).has_milestone(milestone_id),
        request.apply(c).milestone(milestone_id).approval_count >= c.milestone(
            milestone_id,
        ).approval_count,
        c.milestone(milestone_id).is_approved ==> request.apply(c).milestone(
            milestone_id,
        ).is_approved,
        c.milestone(milestone_id).is_completed ==> request.apply(c).milestone(
            milestone_id,
        ).is_completed,
{
}

/// Approval monotonicity. Across any sequence of requests the approval
/// count of a milestone never decreases, an approved milestone stays
/// approved, and a completed milestone stays completed.
pub proof fn lemma_approvals_never_retract(
    c: CampaignView,
    requests: Seq<Request>,
    milestone_id: nat,
)
    requires
        c.has_milestone(milestone_id),
    ensures
        after(c, requests).has_milestone(milestone_id),
        after(c, requests).milestone(milestone_id).approval_count >= c.milestone(
            milestone_id,
        ).approval_count,
        c.milestone(milestone_id).is_approved ==> after(c, requests).milestone(
            milestone_id,
        ).is_approved,
        c.milestone(milestone_id).is_completed ==> after(c, requests).milestone(
            milestone_id,
        ).is_completed,
    decreases requests.len(),
{
    if requests.len() > 0 {
        let earlier = requests.drop_last();
        lemma_approvals_never_retract(c, earlier, milestone_id);
        lemma_request_is_monotonic(after(c, earlier), requests.last(), milestone_id);
    }
}

/// Threshold correctness. A milestone that is not approved and whose count
/// is below its threshold is approved after `times` further approvals
/// exactly if they bring the count to the threshold.
pub proof fn lemma_threshold(m: MilestoneView, times: nat)
    requires
        !m.is_approved,
        m.approval_count < m.required_approvals,
    ensures
        approved_times(m, times).approval_count == m.approval_count + times,
        approved_times(m, times).required_approvals == m.required_approvals,
        approved_times(m, times).is_approved <==> m.approval_count + times
            >= m.required_approvals,
    decreases times,
{
    if times > 0 {
        lemma_threshold(m, (times - 1) as nat);
    }
}

/// Threshold correctness, from creation. A milestone described with a
/// threshold of `required_approvals`, with no approval recorded yet, is
/// approved by the approval that brings the count to the threshold, and by
/// none before it. An unset threshold, 0, counts as 1.
pub proof fn lemma_threshold_since_creation(
    position: nat,
    description: Seq<char>,
    release_amount: int,
    required_approvals: nat,
    times: nat,
)
    ensures
        ({
            let m = MilestoneView::placeholder(position).revise(
                description,
                release_amount,
                required_approvals,
            )->Ok_0;
            approved_times(m, times).is_approved <==> times >= MilestoneView::threshold(
                required_approvals,
            )
        }),
{
    let m = MilestoneView::placeholder(position).revise(
        description,
        release_amount,
        required_approvals,
    )->Ok_0;
    lemma_threshold(m, times);
}

/// Each accepted request to approve a milestone is one approval of it:
/// after `times` such requests the milestone stands where `times`
/// approvals take it.
pub proof fn lemma_approvals_count(c: CampaignView, milestone_id: nat, times: nat)
    requires
        c.has_milestone(milestone_id),
    ensures
        after(c, approvals(milestone_id, times)).has_milestone(milestone_id),
        after(c, approvals(milestone_id, times)).milestone(milestone_id) == approved_times(
            c.milestone(milestone_id),
            times,
        ),
    decreases times,
{
    if times > 0 {
        let earlier = (times - 1) as nat;
        lemma_approvals_count(c, milestone_id, earlier);
        assert(approvals(milestone_id, times).drop_last() =~= approvals(milestone_id, earlier));
    }
}

/// Threshold correctness, in a campaign. A milestone described with a
/// threshold of `required_approvals`, with no approval recorded yet, is
/// approved once `times` requests to approve it were made exactly if
/// `times` reaches the threshold.
pub proof fn lemma_threshold_in_campaign(
    c: CampaignView,
    milestone_id: nat,
    description: Seq<char>,
    release_amount: int,
    required_approvals: nat,
    times: nat,
)
    requires
        c.create_milestone(milestone_id, description, release_amount, required_approvals) is Ok,
        c.has_milestone(milestone_id) ==> c.milestone(milestone_id).approval_count == 0
            && !c.milestone(milestone_id).is_approved,
    ensures
        ({
            let (described, position) = c.create_milestone(
                milestone_id,
                description,
                release_amount,
                required_approvals,
            )->Ok_0;
            let approved = after(described, approvals(position, times));
            &&& approved.has_milestone(position)
            &&& approved.milestone(position).approval_count == times
            &&& approved.milestone(position).is_approved <==> times >= MilestoneView::threshold(
                required_approvals,
            )
        }),
{
    let (described, position) = c.create_milestone(
        milestone_id,
        description,
        release_amount,
        required_approvals,
    )->Ok_0;
    lemma_approvals_count(described, position, times);
    lemma_threshold(described.milestone(position), times);
}

/// Authorization enforcement. A release requested by anyone but the creator
/// of the campaign is refused as not coming from the creator, whatever the
/// milestone and its state.
pub proof fn lemma_only_creator_releases(c: CampaignView, milestone_id: nat, requester: Seq<char>)
    requires
        requester != c.creator,
    ensures
        c.release_milestone(milestone_id, requester) == Err::<CampaignView, Error>(
            Error::NotCreator,
        ),
{
}

/// A released milestone took exactly its release amount out of the escrow
/// balance, which covered it.
pub proof fn lemma_release_debits_in_full(c: CampaignView, milestone_id: nat, requester: Seq<char>)
    requires
        c.release_milestone(milestone_id, requester) is Ok,
    ensures
        ({
            let next = c.release_milestone(milestone_id, requester)->Ok_0;
            &&& c.raised_amount >= c.milestone(milestone_id).release_amount
            &&& next.raised_amount == c.raised_amount - c.milestone(milestone_id).release_amount
            &&& next.milestone(milestone_id).is_completed
            &&& next.milestone(milestone_id).released_amount == c.milestone(
                milestone_id,
            ).release_amount
            &&& c.milestone(milestone_id).is_approved
            &&& !c.milestone(milestone_id).is_completed
        }),
{
}

} // verus!
