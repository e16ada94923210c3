use arch_voting_contract::{ContractError, VotingContract};

fn labels(names: &[&str]) -> Vec<String> {
    names.iter().map(|s| s.to_string()).collect()
}

fn registry_with_poll(start: u64, end: u64) -> (VotingContract, u64) {
    let mut contract = VotingContract::new("owner".to_string());
    let id = contract
        .create_poll(
            "creator".to_string(),
            "Poll".to_string(),
            "A poll".to_string(),
            labels(&["A", "B", "C"]),
            start,
            end,
        )
        .unwrap();
    (contract, id)
}

#[test]
fn ids_start_at_zero_and_increase() {
    let mut contract = VotingContract::new("owner".to_string());
    for expected in 0..5u64 {
        let id = contract
            .create_poll(
                "creator".to_string(),
                "Same title".to_string(),
                String::new(),
                labels(&["x", "y"]),
                1,
                2,
            )
            .unwrap();
        assert_eq!(id, expected);
        assert_eq!(contract.get_poll(id).unwrap().id, expected);
    }
}

#[test]
fn refused_creation_uses_no_id() {
    let mut contract = VotingContract::new("owner".to_string());
    assert!(matches!(
        contract.create_poll("c".to_string(), "t".to_string(), "d".to_string(), labels(&["x"]), 1, 2),
        Err(ContractError::InvalidOption)
    ));
    let id = contract
        .create_poll("c".to_string(), "t".to_string(), "d".to_string(), labels(&["x", "y"]), 1, 2)
        .unwrap();
    assert_eq!(id, 0);
    assert!(matches!(contract.get_poll(1), Err(ContractError::PollNotFound)));
}

#[test]
fn too_few_options_wins_over_bad_range() {
    let mut contract = VotingContract::new("owner".to_string());
    let no_options = contract.create_poll("c".to_string(), "t".to_string(), "d".to_string(), vec![], 5, 5);
    assert!(matches!(no_options, Err(ContractError::InvalidOption)));
    let one_option =
        contract.create_poll("c".to_string(), "t".to_string(), "d".to_string(), labels(&["x"]), 9, 1);
    assert!(matches!(one_option, Err(ContractError::InvalidOption)));
    assert!(contract.get_active_polls().is_empty());
}

#[test]
fn equal_start_and_end_is_a_bad_range() {
    let mut contract = VotingContract::new("owner".to_string());
    let r = contract.create_poll(
        "c".to_string(),
        "t".to_string(),
        "d".to_string(),
        labels(&["x", "y", "z"]),
        7,
        7,
    );
    assert!(matches!(r, Err(ContractError::InvalidTimeRange)));
}

#[test]
fn new_poll_has_zero_tally() {
    let (contract, id) = registry_with_poll(10, 20);
    let results = contract.get_results(id).unwrap();
    assert_eq!(results.counts, vec![0, 0, 0]);
    assert_eq!(results.total_votes, 0);
    assert!(!contract.has_voted(id, "anyone").unwrap());
}

#[test]
fn option_index_at_length_is_invalid() {
    let (mut contract, id) = registry_with_poll(10, 20);
    assert!(matches!(
        contract.vote(id, "v".to_string(), 3, 15),
        Err(ContractError::InvalidOption)
    ));
    assert!(matches!(
        contract.vote(id, "v".to_string(), u32::MAX, 15),
        Err(ContractError::InvalidOption)
    ));
    assert!(!contract.has_voted(id, "v").unwrap());
    contract.vote(id, "v".to_string(), 2, 15).unwrap();
    assert_eq!(contract.get_results(id).unwrap().counts, vec![0, 0, 1]);
}

#[test]
fn voting_window_bounds_are_inclusive() {
    let (mut contract, id) = registry_with_poll(10, 20);
    assert!(matches!(
        contract.vote(id, "early".to_string(), 0, 9),
        Err(ContractError::PollNotActive)
    ));
    assert!(matches!(
        contract.vote(id, "late".to_string(), 0, 21),
        Err(ContractError::PollAlreadyEnded)
    ));
    contract.vote(id, "first".to_string(), 0, 10).unwrap();
    contract.vote(id, "last".to_string(), 1, 20).unwrap();
    assert_eq!(contract.get_results(id).unwrap().total_votes, 2);
}

#[test]
fn unknown_poll_is_reported() {
    let (mut contract, _) = registry_with_poll(10, 20);
    assert!(matches!(
        contract.vote(4, "v".to_string(), 0, 15),
        Err(ContractError::PollNotFound)
    ));
    assert!(matches!(contract.get_results(4), Err(ContractError::PollNotFound)));
    assert!(matches!(contract.has_voted(4, "v"), Err(ContractError::PollNotFound)));
    assert!(matches!(contract.get_detailed_counts(4), Err(ContractError::PollNotFound)));
    assert!(matches!(
        contract.close_poll(4, "owner".to_string()),
        Err(ContractError::PollNotFound)
    ));
}

#[test]
fn closed_check_comes_before_window_check() {
    let (mut contract, id) = registry_with_poll(10, 20);
    contract.close_poll(id, "owner".to_string()).unwrap();
    assert!(matches!(
        contract.vote(id, "v".to_string(), 0, 30),
        Err(ContractError::PollNotActive)
    ));
}

#[test]
fn repeat_vote_is_refused_for_any_option() {
    let (mut contract, id) = registry_with_poll(10, 20);
    contract.vote(id, "v".to_string(), 1, 15).unwrap();
    for option in 0..3u32 {
        assert!(matches!(
            contract.vote(id, "v".to_string(), option, 16),
            Err(ContractError::AlreadyVoted)
        ));
    }
    let results = contract.get_results(id).unwrap();
    assert_eq!(results.counts, vec![0, 1, 0]);
    assert_eq!(results.total_votes, 1);
}

#[test]
fn same_voter_in_two_polls() {
    let (mut contract, first) = registry_with_poll(10, 20);
    let second = contract
        .create_poll("c".to_string(), "t".to_string(), "d".to_string(), labels(&["x", "y"]), 10, 20)
        .unwrap();
    contract.vote(first, "v".to_string(), 0, 12).unwrap();
    contract.vote(second, "v".to_string(), 1, 12).unwrap();
    assert!(contract.has_voted(first, "v").unwrap());
    assert!(contract.has_voted(second, "v").unwrap());
    assert_eq!(contract.get_results(second).unwrap().counts, vec![0, 1]);
}

#[test]
fn counts_sum_to_total_after_mixed_operations() {
    let (mut contract, id) = registry_with_poll(10, 20);
    let voters = ["a", "b", "c", "d", "e", "f", "g"];
    for (n, voter) in voters.iter().enumerate() {
        let _ = contract.vote(id, voter.to_string(), (n % 4) as u32, 15);
        let _ = contract.vote(id, voter.to_string(), 0, 15);
    }
    let _ = contract.vote(id, "late".to_string(), 0, 99);
    let results = contract.get_results(id).unwrap();
    let sum: u64 = results.counts.iter().sum();
    assert_eq!(sum, results.total_votes);
    assert_eq!(results.counts, vec![3, 2, 2]);
}

#[test]
fn only_creator_or_owner_may_close() {
    let (mut contract, id) = registry_with_poll(10, 20);
    assert!(matches!(
        contract.close_poll(id, "stranger".to_string()),
        Err(ContractError::Unauthorized)
    ));
    assert!(contract.get_poll(id).unwrap().active);
    contract.close_poll(id, "creator".to_string()).unwrap();
    assert!(!contract.get_poll(id).unwrap().active);
    contract.close_poll(id, "owner".to_string()).unwrap();
    assert!(!contract.get_poll(id).unwrap().active);
    assert!(matches!(
        contract.close_poll(id, "stranger".to_string()),
        Err(ContractError::Unauthorized)
    ));
}

#[test]
fn expiry_closes_only_polls_past_their_end() {
    let mut contract = VotingContract::new("owner".to_string());
    let ends_now = contract
        .create_poll("c".to_string(), "t".to_string(), "d".to_string(), labels(&["x", "y"]), 1, 100)
        .unwrap();
    let ended = contract
        .create_poll("c".to_string(), "t".to_string(), "d".to_string(), labels(&["x", "y"]), 1, 99)
        .unwrap();
    let closed = contract
        .create_poll("c".to_string(), "t".to_string(), "d".to_string(), labels(&["x", "y"]), 1, 500)
        .unwrap();
    contract.close_poll(closed, "c".to_string()).unwrap();
    contract.process_expired_polls(100);
    assert!(contract.get_poll(ends_now).unwrap().active);
    assert!(!contract.get_poll(ended).unwrap().active);
    assert!(!contract.get_poll(closed).unwrap().active);
    assert_eq!(contract.get_active_polls(), vec![ends_now]);
}

#[test]
fn detailed_counts_of_empty_poll_are_zero() {
    let (contract, id) = registry_with_poll(10, 20);
    let detailed = contract.get_detailed_counts(id).unwrap();
    assert_eq!(
        detailed,
        vec![("A".to_string(), 0), ("B".to_string(), 0), ("C".to_string(), 0)]
    );
}

#[test]
fn detailed_counts_keep_duplicate_labels() {
    let mut contract = VotingContract::new("owner".to_string());
    let id = contract
        .create_poll("c".to_string(), "t".to_string(), "d".to_string(), labels(&["same", "same"]), 1, 9)
        .unwrap();
    contract.vote(id, "v".to_string(), 1, 5).unwrap();
    let detailed = contract.get_detailed_counts(id).unwrap();
    assert_eq!(detailed, vec![("same".to_string(), 0), ("same".to_string(), 1)]);
}
