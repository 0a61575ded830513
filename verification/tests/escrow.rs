use milestone_escrow::{Campaign, Contract, Error, Milestone};

fn name(s: &str) -> String {
    String::from(s)
}

fn escrow_with_one_campaign(milestones: u32) -> (Contract, u32, String) {
    let creator = name("creator");
    let mut escrow = Contract::new();
    let id = escrow
        .create_campaign(creator.clone(), name("Title"), name("Text"), 1000, milestones, true)
        .unwrap();
    (escrow, id, creator)
}

#[test]
fn new_escrow_is_empty() {
    let escrow = Contract::new();
    assert_eq!(escrow.counter(), 0);
    assert_eq!(escrow.get_campaign(0), Err(Error::CampaignNotFound));
    assert_eq!(escrow.get_campaign(1), Err(Error::CampaignNotFound));
    assert_eq!(escrow.get_milestone(1, 1), Err(Error::CampaignNotFound));
}

#[test]
fn identifiers_count_up_from_one() {
    let mut escrow = Contract::new();
    for expected in 1..=4u32 {
        let id = escrow.create_campaign(name("c"), name("t"), name("d"), 5, 0, true).unwrap();
        assert_eq!(id, expected);
        assert_eq!(escrow.counter(), expected);
        assert_eq!(escrow.get_campaign(id).unwrap().id, expected);
    }
    assert_eq!(escrow.get_campaign(5), Err(Error::CampaignNotFound));
}

#[test]
fn created_campaign_is_active_and_holds_placeholders() {
    let (escrow, id, creator) = escrow_with_one_campaign(3);
    let c = escrow.get_campaign(id).unwrap();
    assert_eq!(c.id, 1);
    assert_eq!(c.creator, creator);
    assert_eq!(c.title, "Title");
    assert_eq!(c.description, "Text");
    assert_eq!(c.target_amount, 1000);
    assert_eq!(c.raised_amount, 0);
    assert!(c.is_active);
    assert_eq!(c.milestones.len(), 3);
    for (at, m) in c.milestones.iter().enumerate() {
        assert_eq!(m, &Milestone::placeholder(at as u32 + 1));
        assert_eq!(m.id as usize, at + 1);
        assert_eq!(m.description, "");
        assert_eq!(m.release_amount, 0);
        assert_eq!(m.released_amount, 0);
        assert_eq!(m.approval_count, 0);
        assert_eq!(m.required_approvals, 1);
        assert!(!m.is_approved);
        assert!(!m.is_completed);
    }
    assert!(c.is_well_formed());
}

#[test]
fn campaign_without_milestones() {
    let (escrow, id, _) = escrow_with_one_campaign(0);
    assert!(escrow.get_campaign(id).unwrap().milestones.is_empty());
    assert_eq!(escrow.get_milestone(id, 1), Err(Error::MilestoneNotFound));
}

#[test]
fn create_campaign_needs_the_creator() {
    let mut escrow = Contract::new();
    assert_eq!(
        escrow.create_campaign(name("c"), name("t"), name("d"), 5, 2, false),
        Err(Error::Unauthorized)
    );
    assert_eq!(escrow.counter(), 0);
    assert_eq!(escrow.get_campaign(1), Err(Error::CampaignNotFound));
    assert_eq!(escrow.create_campaign(name("c"), name("t"), name("d"), 5, 2, true), Ok(1));
}

#[test]
fn creating_a_campaign_leaves_the_others() {
    let (mut escrow, first, creator) = escrow_with_one_campaign(1);
    escrow.contribute(first, &creator, 77, true).unwrap();
    let before = escrow.get_campaign(first).unwrap().clone();
    let second = escrow.create_campaign(name("x"), name("y"), name("z"), -3, 1, true).unwrap();
    assert_eq!(second, 2);
    assert_eq!(escrow.get_campaign(first).unwrap(), &before);
    assert_eq!(escrow.get_campaign(second).unwrap().target_amount, -3);
    assert_eq!(escrow.get_campaign(second).unwrap().raised_amount, 0);
}

#[test]
fn contribute_adds_to_the_balance() {
    let (mut escrow, id, _) = escrow_with_one_campaign(0);
    let backer = name("backer");
    assert_eq!(escrow.contribute(id, &backer, 1, true), Ok(()));
    assert_eq!(escrow.get_campaign(id).unwrap().raised_amount, 1);
    assert_eq!(escrow.contribute(id, &backer, 41, true), Ok(()));
    assert_eq!(escrow.get_campaign(id).unwrap().raised_amount, 42);
    assert_eq!(escrow.contribute(id, &name("another"), i128::MAX - 42, true), Ok(()));
    assert_eq!(escrow.get_campaign(id).unwrap().raised_amount, i128::MAX);
}

#[test]
fn contribute_beyond_the_target_is_accepted() {
    let (mut escrow, id, _) = escrow_with_one_campaign(0);
    assert_eq!(escrow.contribute(id, &name("b"), 5000, true), Ok(()));
    assert_eq!(escrow.get_campaign(id).unwrap().raised_amount, 5000);
    assert_eq!(escrow.get_campaign(id).unwrap().target_amount, 1000);
}

#[test]
fn contribute_refusals() {
    let (mut escrow, id, _) = escrow_with_one_campaign(0);
    let backer = name("backer");
    assert_eq!(escrow.contribute(id, &backer, 10, false), Err(Error::Unauthorized));
    assert_eq!(escrow.contribute(id + 1, &backer, 10, true), Err(Error::CampaignNotFound));
    assert_eq!(escrow.contribute(0, &backer, 10, true), Err(Error::CampaignNotFound));
    // The identity check comes before the lookup.
    assert_eq!(escrow.contribute(id + 1, &backer, 10, false), Err(Error::Unauthorized));
    assert_eq!(escrow.get_campaign(id).unwrap().raised_amount, 0);
}

#[test]
fn contribute_to_an_inactive_campaign_is_refused() {
    let mut closed = Campaign::new(1, name("creator"), name("t"), name("d"), 10, 1);
    closed.raised_amount = 30;
    closed.is_active = false;
    let mut escrow = Contract::restore(1, vec![closed.clone()]).unwrap();
    assert_eq!(escrow.contribute(1, &name("b"), 10, true), Err(Error::CampaignInactive));
    assert_eq!(escrow.get_campaign(1).unwrap(), &closed);
    assert_eq!(escrow.contribute(1, &name("b"), 10, false), Err(Error::Unauthorized));
    // An inactive campaign still approves and releases.
    assert_eq!(escrow.approve_milestone(1, 1, &name("b")), Ok(()));
    assert_eq!(escrow.create_milestone(1, 1, name("m"), 30, 1, true), Ok(1));
    assert_eq!(escrow.release_milestone(1, 1, &name("creator")), Ok(()));
    assert_eq!(escrow.get_campaign(1).unwrap().raised_amount, 0);
}

#[test]
fn create_milestone_describes_a_placeholder() {
    let (mut escrow, id, _) = escrow_with_one_campaign(2);
    assert_eq!(escrow.create_milestone(id, 2, name("Second"), 300, 4, true), Ok(2));
    let m = escrow.get_milestone(id, 2).unwrap();
    assert_eq!(m.id, 2);
    assert_eq!(m.description, "Second");
    assert_eq!(m.release_amount, 300);
    assert_eq!(m.required_approvals, 4);
    assert_eq!(m.released_amount, 0);
    assert_eq!(m.approval_count, 0);
    assert!(!m.is_approved);
    assert!(!m.is_completed);
    assert_eq!(escrow.get_milestone(id, 1).unwrap(), &Milestone::placeholder(1));
    assert_eq!(escrow.get_campaign(id).unwrap().milestones.len(), 2);
}

#[test]
fn create_milestone_again_adjusts_it() {
    let (mut escrow, id, _) = escrow_with_one_campaign(1);
    escrow.create_milestone(id, 1, name("First try"), 300, 4, true).unwrap();
    assert_eq!(escrow.create_milestone(id, 1, name("Second try"), 200, 2, true), Ok(1));
    let m = escrow.get_milestone(id, 1).unwrap();
    assert_eq!(m.description, "Second try");
    assert_eq!(m.release_amount, 200);
    assert_eq!(m.required_approvals, 2);
    assert_eq!(escrow.get_campaign(id).unwrap().milestones.len(), 1);
}

#[test]
fn create_milestone_past_the_end_appends_at_the_next_position() {
    let (mut escrow, id, _) = escrow_with_one_campaign(1);
    assert_eq!(escrow.create_milestone(id, 2, name("Two"), 20, 1, true), Ok(2));
    assert_eq!(escrow.create_milestone(id, 9, name("Far"), 90, 1, true), Ok(3));
    assert_eq!(escrow.create_milestone(id, u32::MAX, name("Farther"), 91, 1, true), Ok(4));
    let c = escrow.get_campaign(id).unwrap();
    assert_eq!(c.milestones.len(), 4);
    assert_eq!(c.milestones[2].id, 3);
    assert_eq!(c.milestones[2].description, "Far");
    assert_eq!(c.milestones[2].release_amount, 90);
    assert_eq!(c.milestones[3].id, 4);
    assert_eq!(c.milestones[3].description, "Farther");
    assert!(c.is_well_formed());
    assert_eq!(escrow.get_milestone(id, 9), Err(Error::MilestoneNotFound));
    assert_eq!(escrow.get_milestone(id, 3).unwrap().description, "Far");
}

#[test]
fn create_milestone_on_a_campaign_without_milestones() {
    let (mut escrow, id, _) = escrow_with_one_campaign(0);
    assert_eq!(escrow.create_milestone(id, 1, name("One"), 10, 0, true), Ok(1));
    let m = escrow.get_milestone(id, 1).unwrap();
    assert_eq!(m.id, 1);
    assert_eq!(m.required_approvals, 1);
}

#[test]
fn threshold_of_zero_is_stored_as_one() {
    let (mut escrow, id, _) = escrow_with_one_campaign(1);
    escrow.create_milestone(id, 1, name("m"), 10, 0, true).unwrap();
    assert_eq!(escrow.get_milestone(id, 1).unwrap().required_approvals, 1);
    assert!(!escrow.get_milestone(id, 1).unwrap().is_approved);
    escrow.approve_milestone(id, 1, &name("b")).unwrap();
    assert!(escrow.get_milestone(id, 1).unwrap().is_approved);
}

#[test]
fn create_milestone_refusals() {
    let (mut escrow, id, _) = escrow_with_one_campaign(1);
    assert_eq!(
        escrow.create_milestone(id + 1, 1, name("m"), 10, 1, true),
        Err(Error::CampaignNotFound)
    );
    // The campaign is looked up before the identity check.
    assert_eq!(
        escrow.create_milestone(id + 1, 1, name("m"), 10, 1, false),
        Err(Error::CampaignNotFound)
    );
    assert_eq!(escrow.create_milestone(id, 1, name("m"), 10, 1, false), Err(Error::Unauthorized));
    assert_eq!(escrow.create_milestone(id, 0, name("m"), 10, 1, false), Err(Error::Unauthorized));
    assert_eq!(escrow.create_milestone(id, 0, name("m"), 10, 1, true), Err(Error::MilestoneNotFound));
    assert_eq!(escrow.get_milestone(id, 1).unwrap(), &Milestone::placeholder(1));
    assert_eq!(escrow.get_campaign(id).unwrap().milestones.len(), 1);
}

#[test]
fn completed_milestone_cannot_be_described_again() {
    let (mut escrow, id, creator) = escrow_with_one_campaign(1);
    escrow.create_milestone(id, 1, name("m"), 10, 1, true).unwrap();
    escrow.contribute(id, &creator, 10, true).unwrap();
    escrow.approve_milestone(id, 1, &creator).unwrap();
    escrow.release_milestone(id, 1, &creator).unwrap();
    let frozen = escrow.get_campaign(id).unwrap().clone();
    assert_eq!(
        escrow.create_milestone(id, 1, name("again"), 1_000_000, 1, true),
        Err(Error::AlreadyCompleted)
    );
    assert_eq!(escrow.get_campaign(id).unwrap(), &frozen);
    assert_eq!(escrow.get_milestone(id, 1).unwrap().released_amount, 10);
}

#[test]
fn approve_refusals() {
    let (mut escrow, id, _) = escrow_with_one_campaign(2);
    let backer = name("backer");
    assert_eq!(escrow.approve_milestone(id + 1, 1, &backer), Err(Error::CampaignNotFound));
    assert_eq!(escrow.approve_milestone(id, 0, &backer), Err(Error::MilestoneNotFound));
    assert_eq!(escrow.approve_milestone(id, 3, &backer), Err(Error::MilestoneNotFound));
    assert_eq!(escrow.approve_milestone(id, u32::MAX, &backer), Err(Error::MilestoneNotFound));
    assert_eq!(escrow.get_milestone(id, 1).unwrap().approval_count, 0);
    assert_eq!(escrow.get_milestone(id, 2).unwrap().approval_count, 0);
}

#[test]
fn approve_counts_each_call_of_one_backer() {
    let (mut escrow, id, _) = escrow_with_one_campaign(1);
    escrow.create_milestone(id, 1, name("m"), 10, 2, true).unwrap();
    let backer = name("backer");
    escrow.approve_milestone(id, 1, &backer).unwrap();
    escrow.approve_milestone(id, 1, &backer).unwrap();
    let m = escrow.get_milestone(id, 1).unwrap();
    assert_eq!(m.approval_count, 2);
    assert!(m.is_approved);
}

#[test]
fn approve_touches_one_milestone() {
    let (mut escrow, id, _) = escrow_with_one_campaign(3);
    escrow.approve_milestone(id, 2, &name("b")).unwrap();
    assert_eq!(escrow.get_milestone(id, 1).unwrap(), &Milestone::placeholder(1));
    assert_eq!(escrow.get_milestone(id, 3).unwrap(), &Milestone::placeholder(3));
    assert_eq!(escrow.get_milestone(id, 2).unwrap().approval_count, 1);
    assert!(escrow.get_milestone(id, 2).unwrap().is_approved);
    assert_eq!(escrow.get_campaign(id).unwrap().raised_amount, 0);
}

#[test]
fn raising_the_threshold_keeps_an_approval() {
    let (mut escrow, id, _) = escrow_with_one_campaign(1);
    escrow.approve_milestone(id, 1, &name("b")).unwrap();
    assert!(escrow.get_milestone(id, 1).unwrap().is_approved);
    escrow.create_milestone(id, 1, name("m"), 10, 7, true).unwrap();
    let m = escrow.get_milestone(id, 1).unwrap();
    assert!(m.is_approved);
    assert_eq!(m.approval_count, 1);
    assert_eq!(m.required_approvals, 7);
}

#[test]
fn lowering_the_threshold_approves_with_the_next_approval() {
    let (mut escrow, id, _) = escrow_with_one_campaign(1);
    escrow.create_milestone(id, 1, name("m"), 10, 5, true).unwrap();
    escrow.approve_milestone(id, 1, &name("b")).unwrap();
    escrow.approve_milestone(id, 1, &name("b")).unwrap();
    escrow.create_milestone(id, 1, name("m"), 10, 1, true).unwrap();
    assert!(!escrow.get_milestone(id, 1).unwrap().is_approved);
    assert_eq!(escrow.get_milestone(id, 1).unwrap().approval_count, 2);
    escrow.approve_milestone(id, 1, &name("b")).unwrap();
    assert!(escrow.get_milestone(id, 1).unwrap().is_approved);
}

#[test]
fn release_refusals_in_order() {
    let (mut escrow, id, creator) = escrow_with_one_campaign(1);
    let stranger = name("stranger");
    escrow.create_milestone(id, 1, name("m"), 10, 1, true).unwrap();

    assert_eq!(escrow.release_milestone(id + 1, 1, &creator), Err(Error::CampaignNotFound));
    assert_eq!(escrow.release_milestone(id + 1, 1, &stranger), Err(Error::CampaignNotFound));
    assert_eq!(escrow.release_milestone(id, 1, &stranger), Err(Error::NotCreator));
    assert_eq!(escrow.release_milestone(id, 2, &creator), Err(Error::MilestoneNotFound));
    assert_eq!(escrow.release_milestone(id, 0, &creator), Err(Error::MilestoneNotFound));
    // Not approved, and the balance would not cover it either.
    assert_eq!(escrow.release_milestone(id, 1, &creator), Err(Error::NotApproved));
    escrow.contribute(id, &stranger, 10, true).unwrap();
    assert_eq!(escrow.release_milestone(id, 1, &creator), Err(Error::NotApproved));
    escrow.approve_milestone(id, 1, &stranger).unwrap();
    assert_eq!(escrow.release_milestone(id, 1, &creator), Ok(()));
    assert_eq!(escrow.release_milestone(id, 1, &creator), Err(Error::AlreadyCompleted));
}

#[test]
fn release_of_a_placeholder_moves_nothing() {
    let (mut escrow, id, creator) = escrow_with_one_campaign(1);
    escrow.approve_milestone(id, 1, &creator).unwrap();
    assert_eq!(escrow.release_milestone(id, 1, &creator), Ok(()));
    let m = escrow.get_milestone(id, 1).unwrap();
    assert!(m.is_completed);
    assert_eq!(m.released_amount, 0);
    assert_eq!(escrow.get_campaign(id).unwrap().raised_amount, 0);
}

#[test]
fn release_touches_one_campaign() {
    let (mut escrow, first, creator) = escrow_with_one_campaign(1);
    let second = escrow.create_campaign(creator.clone(), name("t"), name("d"), 1, 1, true).unwrap();
    for id in [first, second] {
        escrow.create_milestone(id, 1, name("m"), 10, 1, true).unwrap();
        escrow.contribute(id, &creator, 25, true).unwrap();
        escrow.approve_milestone(id, 1, &creator).unwrap();
    }
    let untouched = escrow.get_campaign(second).unwrap().clone();
    escrow.release_milestone(first, 1, &creator).unwrap();
    assert_eq!(escrow.get_campaign(first).unwrap().raised_amount, 15);
    assert_eq!(escrow.get_campaign(second).unwrap(), &untouched);
    assert_eq!(escrow.counter(), 2);
}

#[test]
fn get_milestone_refusals() {
    let (escrow, id, _) = escrow_with_one_campaign(2);
    assert_eq!(escrow.get_milestone(id, 0), Err(Error::MilestoneNotFound));
    assert_eq!(escrow.get_milestone(id, 3), Err(Error::MilestoneNotFound));
    assert_eq!(escrow.get_milestone(id + 1, 1), Err(Error::CampaignNotFound));
    assert_eq!(escrow.get_milestone(id, 2).unwrap().id, 2);
}

#[test]
fn refused_calls_change_nothing() {
    let (mut escrow, id, creator) = escrow_with_one_campaign(2);
    let stranger = name("stranger");
    escrow.create_milestone(id, 1, name("m"), 50, 2, true).unwrap();
    escrow.contribute(id, &stranger, 20, true).unwrap();
    escrow.approve_milestone(id, 1, &stranger).unwrap();
    let before = escrow.clone();

    assert_eq!(
        escrow.create_campaign(name("c"), name("t"), name("d"), 1, 1, false),
        Err(Error::Unauthorized)
    );
    assert_eq!(escrow.contribute(id, &stranger, 5, false), Err(Error::Unauthorized));
    assert_eq!(escrow.contribute(9, &stranger, 5, true), Err(Error::CampaignNotFound));
    assert_eq!(escrow.create_milestone(9, 1, name("x"), 1, 1, true), Err(Error::CampaignNotFound));
    assert_eq!(escrow.create_milestone(id, 1, name("x"), 1, 1, false), Err(Error::Unauthorized));
    assert_eq!(escrow.create_milestone(id, 7, name("x"), 1, 1, false), Err(Error::Unauthorized));
    assert_eq!(escrow.create_milestone(id, 0, name("x"), 1, 1, true), Err(Error::MilestoneNotFound));
    assert_eq!(escrow.approve_milestone(9, 1, &stranger), Err(Error::CampaignNotFound));
    assert_eq!(escrow.approve_milestone(id, 3, &stranger), Err(Error::MilestoneNotFound));
    assert_eq!(escrow.release_milestone(9, 1, &creator), Err(Error::CampaignNotFound));
    assert_eq!(escrow.release_milestone(id, 1, &stranger), Err(Error::NotCreator));
    assert_eq!(escrow.release_milestone(id, 3, &creator), Err(Error::MilestoneNotFound));
    assert_eq!(escrow.release_milestone(id, 1, &creator), Err(Error::NotApproved));
    assert_eq!(escrow, before);

    escrow.approve_milestone(id, 1, &stranger).unwrap();
    let before = escrow.clone();
    assert_eq!(escrow.release_milestone(id, 1, &creator), Err(Error::InsufficientFunds));
    assert_eq!(escrow, before);

    escrow.contribute(id, &stranger, 30, true).unwrap();
    escrow.release_milestone(id, 1, &creator).unwrap();
    let before = escrow.clone();
    assert_eq!(escrow.release_milestone(id, 1, &creator), Err(Error::AlreadyCompleted));
    assert_eq!(escrow.create_milestone(id, 1, name("x"), 1, 1, true), Err(Error::AlreadyCompleted));
    assert_eq!(escrow, before);
    assert_eq!(escrow.get_campaign(id).unwrap().raised_amount, 0);
}
