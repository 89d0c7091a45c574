use consultation::governance::Governance;
use consultation::governance::SECONDS_PER_DAY;
use consultation::File;
use consultation::GovernanceError;
use consultation::GovernanceParameters;
use consultation::ProposalVoteOption;
use consultation::ProposalVoteOptionId;
use consultation::TemperatureCheckDraft;
use consultation::TemperatureCheckVote;
use consultation::FRACTION_ONE;

fn create_governance_parameters() -> GovernanceParameters {
    GovernanceParameters {
        temperature_check_days: 7,
        temperature_check_quorum: 1000 * FRACTION_ONE,
        temperature_check_approval_threshold: FRACTION_ONE / 2,
        proposal_length_days: 14,
        proposal_quorum: 5000 * FRACTION_ONE,
        proposal_approval_threshold: FRACTION_ONE / 2,
    }
}

fn create_temp_check_draft() -> TemperatureCheckDraft {
    TemperatureCheckDraft {
        title: "Test Proposal".to_string(),
        description: "A test proposal description".to_string(),
        vote_options: vec![
            ProposalVoteOption {
                id: ProposalVoteOptionId(0),
                label: "For".to_string(),
            },
            ProposalVoteOption {
                id: ProposalVoteOptionId(1),
                label: "Against".to_string(),
            },
        ],
        attachments: vec![],
        rfc_url: "https://radixtalk.com/proposal/123".to_string(),
        max_selections: None,
    }
}

#[test]
fn test_governance_instantiate() {
    let gov = Governance::instantiate(create_governance_parameters());
    assert_eq!(gov.get_temperature_check_count(), 0);
    assert_eq!(gov.get_proposal_count(), 0);
}

#[test]
fn test_make_temperature_check() {
    let mut gov = Governance::instantiate(create_governance_parameters());
    let draft = create_temp_check_draft();
    gov.make_temperature_check(draft, 1000).unwrap();
    let count = gov.get_temperature_check_count();
    assert_eq!(count, 1);
}

#[test]
fn test_vote_on_temperature_check() {
    let mut gov = Governance::instantiate(create_governance_parameters());
    gov.make_temperature_check(create_temp_check_draft(), 1000).unwrap();
    let account: u64 = 7;
    gov.vote_on_temperature_check(account, 0, TemperatureCheckVote::For, true, 1000)
        .unwrap();
}

#[test]
fn test_cannot_vote_twice_on_temperature_check() {
    let mut gov = Governance::instantiate(create_governance_parameters());
    gov.make_temperature_check(create_temp_check_draft(), 1000).unwrap();
    let account: u64 = 7;

    // First vote should succeed
    gov.vote_on_temperature_check(account, 0, TemperatureCheckVote::For, true, 1000)
        .unwrap();

    // Second vote should fail
    let second = gov.vote_on_temperature_check(account, 0, TemperatureCheckVote::Against, true, 1001);
    assert!(second.is_err());
}

#[test]
fn test_make_proposal_from_temperature_check() {
    let mut gov = Governance::instantiate(create_governance_parameters());
    gov.make_temperature_check(create_temp_check_draft(), 1000).unwrap();
    gov.make_proposal(0, true, 2000).unwrap();
    let count = gov.get_proposal_count();
    assert_eq!(count, 1);
}

#[test]
fn creation_assigns_dense_increasing_ids() {
    let mut gov = Governance::instantiate(create_governance_parameters());
    let id0 = gov.make_temperature_check(create_temp_check_draft(), 1000).unwrap();
    let id1 = gov.make_temperature_check(create_temp_check_draft(), 1100).unwrap();
    let id2 = gov.make_temperature_check(create_temp_check_draft(), 1200).unwrap();
    assert_eq!(id0, 0);
    assert_eq!(id1, 1);
    assert_eq!(id2, 2);
    assert_eq!(gov.get_temperature_check_count(), 3);

    // a rejected draft consumes no identifier
    let mut bad = create_temp_check_draft();
    bad.title = String::new();
    assert_eq!(
        gov.make_temperature_check(bad, 1300),
        Err(GovernanceError::ValidationError)
    );
    assert_eq!(gov.get_temperature_check_count(), 3);
    let id3 = gov.make_temperature_check(create_temp_check_draft(), 1400).unwrap();
    assert_eq!(id3, 3);
}

#[test]
fn draft_validation_rejects_malformed_input() {
    let mut gov = Governance::instantiate(create_governance_parameters());

    let mut no_description = create_temp_check_draft();
    no_description.description = String::new();
    assert_eq!(
        gov.make_temperature_check(no_description, 1000),
        Err(GovernanceError::ValidationError)
    );

    let mut no_options = create_temp_check_draft();
    no_options.vote_options = vec![];
    assert_eq!(
        gov.make_temperature_check(no_options, 1000),
        Err(GovernanceError::ValidationError)
    );

    let mut too_many_options = create_temp_check_draft();
    too_many_options.vote_options = (0..11)
        .map(|i| ProposalVoteOption {
            id: ProposalVoteOptionId(i),
            label: format!("option {}", i),
        })
        .collect();
    assert_eq!(
        gov.make_temperature_check(too_many_options, 1000),
        Err(GovernanceError::ValidationError)
    );

    let mut ten_options = create_temp_check_draft();
    ten_options.vote_options = (0..10)
        .map(|i| ProposalVoteOption {
            id: ProposalVoteOptionId(i),
            label: format!("option {}", i),
        })
        .collect();
    assert!(gov.make_temperature_check(ten_options, 1000).is_ok());

    let mut too_many_attachments = create_temp_check_draft();
    too_many_attachments.attachments = (0..11)
        .map(|i| File {
            kvs_address: format!("kvs {}", i),
            component_address: "component".to_string(),
            file_hash: "hash".to_string(),
        })
        .collect();
    assert_eq!(
        gov.make_temperature_check(too_many_attachments, 1000),
        Err(GovernanceError::ValidationError)
    );
    assert_eq!(gov.get_temperature_check_count(), 1);
}

#[test]
fn temperature_check_snapshots_parameters_and_window() {
    let params = create_governance_parameters();
    let mut gov = Governance::instantiate(params);
    gov.make_temperature_check(create_temp_check_draft(), 1000).unwrap();
    let tc = &gov.temperature_checks[0];
    assert_eq!(tc.start, 1000);
    assert_eq!(tc.deadline, 1000 + 7 * SECONDS_PER_DAY);
    assert_eq!(tc.quorum, 1000 * FRACTION_ONE);
    assert_eq!(tc.approval_threshold, FRACTION_ONE / 2);
    assert_eq!(tc.elevated_proposal_id, None);
    assert!(tc.votes.is_empty());

    // a later parameter update leaves the snapshot alone
    let mut new_params = create_governance_parameters();
    new_params.temperature_check_quorum = 42 * FRACTION_ONE;
    new_params.temperature_check_days = 1;
    gov.update_governance_parameters(new_params, true).unwrap();
    assert_eq!(gov.temperature_checks[0].quorum, 1000 * FRACTION_ONE);

    // while a new ballot snapshots the updated values
    gov.make_temperature_check(create_temp_check_draft(), 5000).unwrap();
    assert_eq!(gov.temperature_checks[1].quorum, 42 * FRACTION_ONE);
    assert_eq!(gov.temperature_checks[1].deadline, 5000 + SECONDS_PER_DAY);
}

#[test]
fn update_governance_parameters_requires_owner() {
    let mut gov = Governance::instantiate(create_governance_parameters());
    let new_params = create_governance_parameters();
    assert_eq!(
        gov.update_governance_parameters(new_params, false),
        Err(GovernanceError::NotAuthorized)
    );
    let new_params = create_governance_parameters();
    assert_eq!(gov.update_governance_parameters(new_params, true), Ok(()));
}

#[test]
fn voting_window_is_half_open() {
    let mut gov = Governance::instantiate(create_governance_parameters());
    gov.make_temperature_check(create_temp_check_draft(), 1000).unwrap();
    let deadline = 1000 + 7 * SECONDS_PER_DAY;

    // before the window opens
    assert_eq!(
        gov.vote_on_temperature_check(1, 0, TemperatureCheckVote::For, true, 999),
        Err(GovernanceError::WindowClosed)
    );
    // at exactly the deadline
    assert_eq!(
        gov.vote_on_temperature_check(1, 0, TemperatureCheckVote::For, true, deadline),
        Err(GovernanceError::WindowClosed)
    );
    // after the deadline
    assert_eq!(
        gov.vote_on_temperature_check(1, 0, TemperatureCheckVote::For, true, deadline + 5),
        Err(GovernanceError::WindowClosed)
    );
    // at exactly the start
    assert_eq!(
        gov.vote_on_temperature_check(1, 0, TemperatureCheckVote::For, true, 1000),
        Ok(())
    );
    // just before the deadline, from another account
    assert_eq!(
        gov.vote_on_temperature_check(2, 0, TemperatureCheckVote::For, true, deadline - 1),
        Ok(())
    );
}

#[test]
fn vote_requires_presence_and_known_ballot() {
    let mut gov = Governance::instantiate(create_governance_parameters());
    gov.make_temperature_check(create_temp_check_draft(), 1000).unwrap();
    assert_eq!(
        gov.vote_on_temperature_check(1, 0, TemperatureCheckVote::For, false, 1000),
        Err(GovernanceError::NotAuthorized)
    );
    assert_eq!(
        gov.vote_on_temperature_check(1, 9, TemperatureCheckVote::For, true, 1000),
        Err(GovernanceError::NotFound)
    );
}

#[test]
fn second_vote_leaves_first_choice_in_place() {
    let mut gov = Governance::instantiate(create_governance_parameters());
    gov.make_temperature_check(create_temp_check_draft(), 1000).unwrap();
    let account: u64 = 11;
    gov.vote_on_temperature_check(account, 0, TemperatureCheckVote::For, true, 1000)
        .unwrap();
    assert_eq!(
        gov.vote_on_temperature_check(account, 0, TemperatureCheckVote::Against, true, 1500),
        Err(GovernanceError::AlreadyRecorded)
    );
    assert_eq!(
        gov.temperature_checks[0].votes.get(&account),
        Some(&TemperatureCheckVote::For)
    );
    assert_eq!(gov.temperature_checks[0].votes.len(), 1);
}

#[test]
fn elevation_happens_at_most_once() {
    let mut gov = Governance::instantiate(create_governance_parameters());
    gov.make_temperature_check(create_temp_check_draft(), 1000).unwrap();

    assert_eq!(
        gov.make_proposal(0, false, 2000),
        Err(GovernanceError::NotAuthorized)
    );
    assert_eq!(gov.make_proposal(3, true, 2000), Err(GovernanceError::NotFound));

    let pid = gov.make_proposal(0, true, 2000).unwrap();
    assert_eq!(pid, 0);
    assert_eq!(
        gov.make_proposal(0, true, 3000),
        Err(GovernanceError::AlreadyRecorded)
    );
    assert_eq!(gov.get_proposal_count(), 1);
}

#[test]
fn elevation_copies_ballot_and_links_both_ways() {
    let mut gov = Governance::instantiate(create_governance_parameters());
    gov.make_temperature_check(create_temp_check_draft(), 1000).unwrap();
    let pid = gov.make_proposal(0, true, 2000).unwrap();

    let p = &gov.proposals[pid as usize];
    assert_eq!(p.title, "Test Proposal");
    assert_eq!(p.description, "A test proposal description");
    assert_eq!(p.vote_options.len(), 2);
    assert_eq!(p.vote_options[0].id, ProposalVoteOptionId(0));
    assert_eq!(p.vote_options[0].label, "For");
    assert_eq!(p.rfc_url, "https://radixtalk.com/proposal/123");
    assert_eq!(p.quorum, 5000 * FRACTION_ONE);
    assert_eq!(p.approval_threshold, FRACTION_ONE / 2);
    assert_eq!(p.start, 2000);
    assert_eq!(p.deadline, 2000 + 14 * SECONDS_PER_DAY);
    assert_eq!(p.temperature_check_id, 0);
    assert_eq!(gov.temperature_checks[0].elevated_proposal_id, Some(pid));
}

fn draft_with_three_options(max_selections: Option<u32>) -> TemperatureCheckDraft {
    let mut draft = create_temp_check_draft();
    draft.vote_options = vec![
        ProposalVoteOption {
            id: ProposalVoteOptionId(0),
            label: "Red".to_string(),
        },
        ProposalVoteOption {
            id: ProposalVoteOptionId(1),
            label: "Green".to_string(),
        },
        ProposalVoteOption {
            id: ProposalVoteOptionId(2),
            label: "Blue".to_string(),
        },
    ];
    draft.max_selections = max_selections;
    draft
}

#[test]
fn multiple_choice_vote_accepts_up_to_the_bound() {
    let mut gov = Governance::instantiate(create_governance_parameters());
    gov.make_temperature_check(draft_with_three_options(Some(2)), 1000).unwrap();
    gov.make_proposal(0, true, 2000).unwrap();

    // one and two distinct valid selections pass
    assert_eq!(
        gov.vote_on_proposal(1, 0, vec![ProposalVoteOptionId(0)], true, 2000),
        Ok(())
    );
    assert_eq!(
        gov.vote_on_proposal(
            2,
            0,
            vec![ProposalVoteOptionId(1), ProposalVoteOptionId(2)],
            true,
            2000
        ),
        Ok(())
    );

    // three exceed max_selections
    assert_eq!(
        gov.vote_on_proposal(
            3,
            0,
            vec![
                ProposalVoteOptionId(0),
                ProposalVoteOptionId(1),
                ProposalVoteOptionId(2)
            ],
            true,
            2000
        ),
        Err(GovernanceError::ValidationError)
    );
    // empty selection
    assert_eq!(
        gov.vote_on_proposal(3, 0, vec![], true, 2000),
        Err(GovernanceError::ValidationError)
    );
    // duplicate id
    assert_eq!(
        gov.vote_on_proposal(
            3,
            0,
            vec![ProposalVoteOptionId(0), ProposalVoteOptionId(0)],
            true,
            2000
        ),
        Err(GovernanceError::ValidationError)
    );
    // id naming no option
    assert_eq!(
        gov.vote_on_proposal(3, 0, vec![ProposalVoteOptionId(9)], true, 2000),
        Err(GovernanceError::ValidationError)
    );

    // the recorded selections are the validated ones
    assert_eq!(
        gov.proposals[0].votes.get(&2),
        Some(&vec![ProposalVoteOptionId(1), ProposalVoteOptionId(2)])
    );
}

#[test]
fn single_choice_vote_accepts_exactly_one() {
    let mut gov = Governance::instantiate(create_governance_parameters());
    gov.make_temperature_check(draft_with_three_options(None), 1000).unwrap();
    gov.make_proposal(0, true, 2000).unwrap();

    assert_eq!(
        gov.vote_on_proposal(
            1,
            0,
            vec![ProposalVoteOptionId(0), ProposalVoteOptionId(1)],
            true,
            2000
        ),
        Err(GovernanceError::ValidationError)
    );
    assert_eq!(
        gov.vote_on_proposal(1, 0, vec![ProposalVoteOptionId(2)], true, 2000),
        Ok(())
    );
    // the same account cannot vote again
    assert_eq!(
        gov.vote_on_proposal(1, 0, vec![ProposalVoteOptionId(0)], true, 2000),
        Err(GovernanceError::AlreadyRecorded)
    );
}

#[test]
fn scenario_for_vote_stays_after_rejected_revision() {
    // create a temperature check with options {0: For, 1: Against}, vote
    // For at the window's start, then try to revise to Against
    let mut gov = Governance::instantiate(create_governance_parameters());
    gov.make_temperature_check(create_temp_check_draft(), 1000).unwrap();
    let account: u64 = 42;
    let start = gov.temperature_checks[0].start;
    gov.vote_on_temperature_check(account, 0, TemperatureCheckVote::For, true, start)
        .unwrap();
    let second =
        gov.vote_on_temperature_check(account, 0, TemperatureCheckVote::Against, true, start + 1);
    assert!(second.is_err());
    assert_eq!(
        gov.temperature_checks[0].votes.get(&account),
        Some(&TemperatureCheckVote::For)
    );
}
