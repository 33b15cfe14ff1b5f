use proof_of_height::{weight, AccountId, Confidence, Contract, ContractError, VoteChoice};

fn account(i: usize) -> AccountId {
    ["alice", "bob", "charlie", "danny", "eugene", "fargo"][i].to_string()
}

#[test]
fn lib_test_new() {
    let mut contract = Contract::new();
    assert_eq!(contract.get_height_inches(account(1)), None);
    assert_eq!(contract.set_height_inches(account(1), 72), Ok(()));
    assert_eq!(contract.get_height_inches(account(1)), Some(72));
}

#[test]
fn test_setting_height_twice() {
    let mut contract = Contract::new();
    assert_eq!(contract.set_height_inches(account(1), 72), Ok(()));
    assert_eq!(
        contract.set_height_inches(account(1), 74),
        Err(ContractError::DuplicateRegistration)
    );
    assert_eq!(contract.get_height_inches(account(1)), Some(72));
}

#[test]
fn test_voting_on_own_account() {
    let mut contract = Contract::new();
    assert_eq!(
        contract.vote(account(0), account(0), VoteChoice::DefinitelyYes),
        Err(ContractError::SelfVoteForbidden)
    );
}

#[test]
fn test_voting_without_height() {
    let mut contract = Contract::new();
    assert_eq!(
        contract.vote(account(1), account(0), VoteChoice::DefinitelyYes),
        Err(ContractError::SubjectNotRegistered)
    );
}

#[test]
fn test_voting() {
    let mut contract = Contract::new();

    assert_eq!(contract.get_who_voted_for(account(1)), Vec::<AccountId>::new());
    contract.set_height_inches(account(1), 72).unwrap();

    contract.vote(account(0), account(1), VoteChoice::DefinitelyYes).unwrap();
    assert_eq!(contract.get_who_voted_for(account(1)), vec![account(0)]);
    assert_eq!(contract.get_confidence(account(1)), Some(Confidence::True));

    // another account votes a non-confident "no"
    contract.vote(account(2), account(1), VoteChoice::No).unwrap();
    assert_eq!(contract.get_who_voted_for(account(1)), vec![account(0), account(2)]);
    assert_eq!(contract.get_confidence(account(1)), Some(Confidence::Inconclusive));

    // another account votes a non-confident "yes"
    contract.vote(account(3), account(1), VoteChoice::Yes).unwrap();
    assert_eq!(
        contract.get_who_voted_for(account(1)),
        vec![account(0), account(2), account(3)]
    );
    assert_eq!(contract.get_confidence(account(1)), Some(Confidence::Inconclusive));
}

#[test]
fn test_confidence_without_votes() {
    let mut contract = Contract::new();
    contract.set_height_inches(account(1), 72).unwrap();
    assert_eq!(contract.get_confidence(account(1)), Some(Confidence::Inconclusive));
}

#[test]
fn weights_of_choices() {
    assert_eq!(weight(VoteChoice::DefinitelyYes), 2);
    assert_eq!(weight(VoteChoice::Yes), 1);
    assert_eq!(weight(VoteChoice::No), -1);
    assert_eq!(weight(VoteChoice::DefinitelyNo), -2);
}

#[test]
fn classify_twice_gives_same_result() {
    let mut contract = Contract::new();
    contract.set_height_inches(account(1), 70).unwrap();
    contract.vote(account(0), account(1), VoteChoice::No).unwrap();
    let first = contract.get_confidence(account(1));
    let second = contract.get_confidence(account(1));
    assert_eq!(first, second);
    assert_eq!(first, Some(Confidence::ProbablyALie));
    // a registration of another account in between changes nothing
    contract.set_height_inches(account(2), 65).unwrap();
    assert_eq!(contract.get_confidence(account(1)), first);
}

#[test]
fn second_registration_keeps_first_height() {
    let mut contract = Contract::new();
    contract.set_height_inches(account(4), 60).unwrap();
    for h in [0u8, 60, 255] {
        assert_eq!(
            contract.set_height_inches(account(4), h),
            Err(ContractError::DuplicateRegistration)
        );
        assert_eq!(contract.get_height_inches(account(4)), Some(60));
    }
}

#[test]
fn self_vote_refused_for_every_choice() {
    let mut contract = Contract::new();
    let choices = [
        VoteChoice::DefinitelyYes,
        VoteChoice::Yes,
        VoteChoice::No,
        VoteChoice::DefinitelyNo,
    ];
    for c in choices {
        assert_eq!(
            contract.vote(account(1), account(1), c),
            Err(ContractError::SelfVoteForbidden)
        );
    }
    contract.set_height_inches(account(1), 72).unwrap();
    for c in choices {
        assert_eq!(
            contract.vote(account(1), account(1), c),
            Err(ContractError::SelfVoteForbidden)
        );
    }
    assert_eq!(contract.get_who_voted_for(account(1)), Vec::<AccountId>::new());
    assert_eq!(contract.get_confidence(account(1)), Some(Confidence::Inconclusive));
}

#[test]
fn second_vote_refused_and_tally_unchanged() {
    let mut contract = Contract::new();
    contract.set_height_inches(account(1), 72).unwrap();
    contract.vote(account(0), account(1), VoteChoice::DefinitelyNo).unwrap();
    assert_eq!(
        contract.vote(account(0), account(1), VoteChoice::DefinitelyYes),
        Err(ContractError::DuplicateVote)
    );
    let votes = contract.get_votes(account(1)).unwrap();
    assert_eq!(votes.weighted_sum(), -2);
    assert_eq!(votes.total_votes(), 1);
    assert_eq!(contract.get_who_voted_for(account(1)), vec![account(0)]);
    assert_eq!(contract.get_confidence(account(1)), Some(Confidence::Lie));
}

#[test]
fn tally_matches_voters_and_weights() {
    let mut contract = Contract::new();
    contract.set_height_inches(account(5), 80).unwrap();
    let cast = [
        (0, VoteChoice::Yes),
        (1, VoteChoice::DefinitelyNo),
        (2, VoteChoice::DefinitelyYes),
        (3, VoteChoice::No),
    ];
    let mut sum: i64 = 0;
    for (i, (voter, choice)) in cast.iter().enumerate() {
        contract.vote(account(*voter), account(5), *choice).unwrap();
        sum += weight(*choice);
        let votes = contract.get_votes(account(5)).unwrap();
        assert_eq!(votes.total_votes() as usize, i + 1);
        assert_eq!(votes.total_votes() as usize, contract.get_who_voted_for(account(5)).len());
        assert_eq!(votes.weighted_sum(), sum);
    }
    assert_eq!(sum, 0);
}

#[test]
fn scenario_votes_average_out() {
    let mut contract = Contract::new();
    contract.set_height_inches(account(1), 72).unwrap();
    contract.vote(account(0), account(1), VoteChoice::DefinitelyYes).unwrap();
    let v = contract.get_votes(account(1)).unwrap();
    assert_eq!((v.weighted_sum(), v.total_votes()), (2, 1));
    assert_eq!(contract.get_confidence(account(1)), Some(Confidence::True));
    contract.vote(account(2), account(1), VoteChoice::No).unwrap();
    let v = contract.get_votes(account(1)).unwrap();
    assert_eq!((v.weighted_sum(), v.total_votes()), (1, 2));
    assert_eq!(contract.get_confidence(account(1)), Some(Confidence::Inconclusive));
    contract.vote(account(3), account(1), VoteChoice::Yes).unwrap();
    let v = contract.get_votes(account(1)).unwrap();
    assert_eq!((v.weighted_sum(), v.total_votes()), (2, 3));
    assert_eq!(contract.get_confidence(account(1)), Some(Confidence::Inconclusive));
}

#[test]
fn scenario_registered_without_votes_is_not_absent() {
    let mut contract = Contract::new();
    contract.set_height_inches(account(1), 72).unwrap();
    assert_eq!(contract.get_confidence(account(1)), Some(Confidence::Inconclusive));
    assert_eq!(contract.get_confidence(account(2)), None);
}

#[test]
fn scenario_vote_on_unregistered_creates_nothing() {
    let mut contract = Contract::new();
    assert_eq!(
        contract.vote(account(0), account(3), VoteChoice::Yes),
        Err(ContractError::SubjectNotRegistered)
    );
    assert_eq!(contract.get_confidence(account(3)), None);
    assert!(contract.get_votes(account(3)).is_none());
    assert_eq!(contract.get_who_voted_for(account(3)), Vec::<AccountId>::new());
    assert_eq!(contract.get_height_inches(account(3)), None);
}

#[test]
fn negative_average_rounds_toward_zero() {
    let mut contract = Contract::new();
    contract.set_height_inches(account(1), 72).unwrap();
    contract.vote(account(0), account(1), VoteChoice::DefinitelyNo).unwrap();
    contract.vote(account(2), account(1), VoteChoice::Yes).unwrap();
    // sum -1 over 2 votes: -1/2 rounds to 0
    assert_eq!(contract.get_confidence(account(1)), Some(Confidence::Inconclusive));
    contract.vote(account(3), account(1), VoteChoice::DefinitelyNo).unwrap();
    // sum -3 over 3 votes
    assert_eq!(contract.get_confidence(account(1)), Some(Confidence::ProbablyALie));
}

#[test]
fn strong_yes_votes_give_true_and_might_be_true() {
    let mut contract = Contract::new();
    contract.set_height_inches(account(1), 72).unwrap();
    contract.vote(account(0), account(1), VoteChoice::Yes).unwrap();
    assert_eq!(contract.get_confidence(account(1)), Some(Confidence::MightBeTrue));
    contract.vote(account(2), account(1), VoteChoice::DefinitelyYes).unwrap();
    contract.vote(account(3), account(1), VoteChoice::DefinitelyYes).unwrap();
    // sum 5 over 3 votes
    assert_eq!(contract.get_confidence(account(1)), Some(Confidence::MightBeTrue));
}
