use near_tips::{Contract, Nomination, TipsError, Winner};

fn master() -> String {
    "master_account.testnet".to_string()
}

fn s(text: &str) -> String {
    text.to_string()
}

fn setup_contract() -> Contract {
    Contract::new(master())
}

#[test]
#[allow(unused_variables, unused_mut)]
fn test() {
    let mut contract = setup_contract();
}

#[test]
fn new_contract_is_empty() {
    let contract = setup_contract();
    assert_eq!(contract.get_wallet(s("alice")), "");
    assert_eq!(contract.get_rewards(s("alice")), 0);
    assert_eq!(contract.get_nomination(s("alice")), Nomination::none());
    assert_eq!(contract.assert_master_account(&master()), Ok(()));
}

#[test]
fn wallet_is_the_last_one_put_on_file() {
    let mut contract = setup_contract();
    contract.associate_wallet_with_slack(s("alice"), s("alice.testnet"));
    assert_eq!(contract.get_wallet(s("alice")), "alice.testnet");
    contract.associate_wallet_with_slack(s("alice"), s("alice2.testnet"));
    assert_eq!(contract.get_wallet(s("alice")), "alice2.testnet");
    assert_eq!(contract.get_wallet(s("bob")), "");
}

#[test]
fn many_aliases_may_share_one_wallet() {
    let mut contract = setup_contract();
    contract.associate_wallet_with_slack(s("alice"), s("shared.testnet"));
    contract.associate_wallet_with_slack(s("bob"), s("shared.testnet"));
    assert_eq!(contract.get_wallet(s("alice")), "shared.testnet");
    assert_eq!(contract.get_wallet(s("bob")), "shared.testnet");
}

#[test]
fn credits_add_up() {
    let mut contract = setup_contract();
    let amounts: [u128; 5] = [7, 0, 1_000_000_000_000_000_000_000_000, 35, 1];
    let mut sum: u128 = 0;
    for amount in amounts {
        contract.send_reward(s("A"), amount);
        sum += amount;
        assert_eq!(contract.get_rewards(s("A")), sum);
    }
    assert_eq!(contract.get_rewards(s("A")), 1_000_000_000_000_000_000_000_043);
    assert_eq!(contract.get_rewards(s("B")), 0);
}

#[test]
fn credit_of_nothing_changes_no_balance() {
    let mut contract = setup_contract();
    contract.send_reward(s("A"), 0);
    assert_eq!(contract.get_rewards(s("A")), 0);
    contract.send_reward(s("A"), 12);
    contract.send_reward(s("A"), 0);
    assert_eq!(contract.get_rewards(s("A")), 12);
}

#[test]
fn credit_up_to_the_largest_amount() {
    let mut contract = setup_contract();
    contract.send_reward(s("A"), u128::MAX - 1);
    contract.send_reward(s("A"), 1);
    assert_eq!(contract.get_rewards(s("A")), u128::MAX);
}

#[test]
fn withdraw_with_nothing_accrued_is_refused() {
    let mut contract = setup_contract();
    contract.associate_wallet_with_slack(s("A"), s("a.testnet"));
    contract.send_reward(s("B"), 5);
    assert_eq!(contract.withdraw_rewards(&master(), s("A")), Err(TipsError::InsufficientBalance));
    assert_eq!(contract.get_rewards(s("A")), 0);
    assert_eq!(contract.get_rewards(s("B")), 5);
    assert_eq!(contract.get_wallet(s("A")), "a.testnet");
}

#[test]
fn withdraw_by_a_stranger_is_refused() {
    let mut contract = setup_contract();
    contract.associate_wallet_with_slack(s("A"), s("a.testnet"));
    contract.send_reward(s("A"), 5);
    assert_eq!(contract.withdraw_rewards(&s("mallory.testnet"), s("A")), Err(TipsError::AccessDenied));
    assert_eq!(contract.get_rewards(s("A")), 5);
}

#[test]
fn withdraw_without_a_wallet_is_refused() {
    let mut contract = setup_contract();
    contract.send_reward(s("A"), 5);
    assert_eq!(contract.withdraw_rewards(&master(), s("A")), Err(TipsError::UnassociatedAlias));
    assert_eq!(contract.get_rewards(s("A")), 5);
}

#[test]
fn withdraw_to_the_empty_wallet_is_refused() {
    let mut contract = setup_contract();
    contract.associate_wallet_with_slack(s("A"), s(""));
    contract.send_reward(s("A"), 5);
    assert_eq!(contract.withdraw_rewards(&master(), s("A")), Err(TipsError::UnassociatedAlias));
    assert_eq!(contract.get_rewards(s("A")), 5);
}

#[test]
fn withdraw_checks_the_caller_first_and_the_balance_last() {
    let mut contract = setup_contract();
    assert_eq!(contract.withdraw_rewards(&s("mallory.testnet"), s("A")), Err(TipsError::AccessDenied));
    assert_eq!(contract.withdraw_rewards(&master(), s("A")), Err(TipsError::UnassociatedAlias));
    contract.associate_wallet_with_slack(s("A"), s("a.testnet"));
    assert_eq!(contract.withdraw_rewards(&master(), s("A")), Err(TipsError::InsufficientBalance));
}

#[test]
fn withdraw_debits_at_once_and_names_the_transfer() {
    let mut contract = setup_contract();
    contract.associate_wallet_with_slack(s("A"), s("a.testnet"));
    contract.send_reward(s("A"), 42);
    contract.send_reward(s("B"), 9);
    let transfer = contract.withdraw_rewards(&master(), s("A")).unwrap();
    assert_eq!(transfer.recipient_account_id, "a.testnet");
    assert_eq!(transfer.slack_account_id, "A");
    assert_eq!(transfer.rewards, 42);
    assert_eq!(contract.get_rewards(s("A")), 0);
    assert_eq!(contract.get_rewards(s("B")), 9);
}

#[test]
fn second_withdrawal_finds_nothing() {
    let mut contract = setup_contract();
    contract.associate_wallet_with_slack(s("A"), s("a.testnet"));
    contract.send_reward(s("A"), 42);
    assert!(contract.withdraw_rewards(&master(), s("A")).is_ok());
    assert_eq!(contract.withdraw_rewards(&master(), s("A")), Err(TipsError::InsufficientBalance));
}

#[test]
fn success_leaves_the_balance_at_zero() {
    let mut contract = setup_contract();
    let me = s("tips.testnet");
    contract.associate_wallet_with_slack(s("A"), s("a.testnet"));
    contract.send_reward(s("A"), 42);
    let transfer = contract.withdraw_rewards(&master(), s("A")).unwrap();
    assert_eq!(contract.on_withdraw_rewards(&me, &me, transfer.slack_account_id, transfer.rewards, true), Ok(true));
    assert_eq!(contract.get_rewards(s("A")), 0);
    contract.associate_wallet_with_slack(s("B"), s("b.testnet"));
    contract.send_reward(s("B"), 1);
    assert_eq!(contract.create_nomination(s("A"), s("t"), 5), Ok(()));
    assert_eq!(contract.add_vote(s("A"), s("B")), Ok(()));
    assert_eq!(contract.get_rewards(s("A")), 0);
}

#[test]
fn failure_puts_the_amount_back() {
    let mut contract = setup_contract();
    let me = s("tips.testnet");
    contract.associate_wallet_with_slack(s("A"), s("a.testnet"));
    contract.send_reward(s("A"), 42);
    let transfer = contract.withdraw_rewards(&master(), s("A")).unwrap();
    assert_eq!(contract.on_withdraw_rewards(&me, &me, transfer.slack_account_id, transfer.rewards, false), Ok(false));
    assert_eq!(contract.get_rewards(s("A")), 42);
}

#[test]
fn failure_adds_to_what_came_in_meanwhile() {
    let mut contract = setup_contract();
    let me = s("tips.testnet");
    contract.associate_wallet_with_slack(s("A"), s("a.testnet"));
    contract.send_reward(s("A"), 42);
    let transfer = contract.withdraw_rewards(&master(), s("A")).unwrap();
    contract.send_reward(s("A"), 8);
    assert_eq!(contract.on_withdraw_rewards(&me, &me, transfer.slack_account_id, transfer.rewards, false), Ok(false));
    assert_eq!(contract.get_rewards(s("A")), 50);
    assert_eq!(contract.get_rewards(s("a.testnet")), 0);
}

#[test]
fn outcome_from_a_stranger_is_refused() {
    let mut contract = setup_contract();
    contract.associate_wallet_with_slack(s("A"), s("a.testnet"));
    contract.send_reward(s("A"), 42);
    let transfer = contract.withdraw_rewards(&master(), s("A")).unwrap();
    assert_eq!(
        contract.on_withdraw_rewards(&s("mallory.testnet"), &s("tips.testnet"), s("A"), transfer.rewards, false),
        Err(TipsError::AccessDenied)
    );
    assert_eq!(contract.get_rewards(s("A")), 0);
    assert_eq!(
        contract.on_withdraw_rewards(&master(), &s("tips.testnet"), s("A"), 1_000, true),
        Err(TipsError::AccessDenied)
    );
    assert_eq!(contract.get_rewards(s("A")), 0);
}

#[test]
fn credit_withdraw_fail_example() {
    let mut contract = setup_contract();
    let me = s("tips.testnet");
    contract.associate_wallet_with_slack(s("A"), s("a.testnet"));
    contract.send_reward(s("A"), 100);
    contract.send_reward(s("A"), 50);
    assert_eq!(contract.get_rewards(s("A")), 150);
    let transfer = contract.withdraw_rewards(&master(), s("A")).unwrap();
    assert_eq!(transfer.rewards, 150);
    assert_eq!(contract.get_rewards(s("A")), 0);
    assert_eq!(contract.on_withdraw_rewards(&me, &me, s("A"), 150, false), Ok(false));
    assert_eq!(contract.get_rewards(s("A")), 150);
}

#[test]
fn voting_example() {
    let mut contract = setup_contract();
    contract.send_reward(s("x"), 11);
    assert_eq!(contract.create_nomination(s("p1"), s("t"), 100), Ok(()));
    assert_eq!(contract.add_vote(s("p1"), s("x")), Ok(()));
    assert_eq!(contract.add_vote(s("p1"), s("x")), Ok(()));
    assert_eq!(contract.add_vote(s("p1"), s("y")), Ok(()));
    let nomination = contract.get_nomination(s("p1"));
    assert_eq!(nomination.nominators.len(), 2);
    assert_eq!(nomination.nominators[0].slack_user, "x");
    assert_eq!(nomination.nominators[0].votes, 2);
    assert_eq!(nomination.nominators[1].slack_user, "y");
    assert_eq!(nomination.nominators[1].votes, 1);
    assert_eq!(nomination.title, "t");
    assert_eq!(nomination.amount, 100);
    assert!(nomination.is_valid);
    let winner = contract.finish_nomination(&master(), s("p1"));
    assert_eq!(winner, Ok(Winner { winner: s("x"), nomination: s("t"), amount: 100 }));
    assert_eq!(contract.get_nomination(s("p1")), Nomination::none());
    assert_eq!(contract.get_rewards(s("x")), 111);
    assert_eq!(contract.get_rewards(s("y")), 0);
}

#[test]
fn tie_goes_to_the_first_candidate() {
    let mut contract = setup_contract();
    assert_eq!(contract.create_nomination(s("team"), s("t"), 100), Ok(()));
    assert_eq!(contract.add_vote(s("team"), s("x")), Ok(()));
    assert_eq!(contract.add_vote(s("team"), s("y")), Ok(()));
    let winner = contract.finish_nomination(&master(), s("team")).unwrap();
    assert_eq!(winner.winner, "x");
    assert_eq!(contract.get_rewards(s("x")), 100);
    assert_eq!(contract.get_rewards(s("y")), 0);
}

#[test]
fn later_candidate_with_more_votes_wins() {
    let mut contract = setup_contract();
    assert_eq!(contract.create_nomination(s("team"), s("t"), 100), Ok(()));
    for vote in ["x", "y", "z", "y", "z", "z", "x", "y"] {
        assert_eq!(contract.add_vote(s("team"), s(vote)), Ok(()));
    }
    let winner = contract.finish_nomination(&master(), s("team")).unwrap();
    assert_eq!(winner.winner, "y");
    assert_eq!(winner.amount, 100);
}

#[test]
fn finish_without_votes_is_refused() {
    let mut contract = setup_contract();
    assert_eq!(contract.create_nomination(s("team"), s("t"), 100), Ok(()));
    let before = contract.get_nomination(s("team"));
    assert_eq!(contract.finish_nomination(&master(), s("team")), Err(TipsError::NoVotesCast));
    assert_eq!(contract.get_nomination(s("team")), before);
    assert_eq!(contract.get_nomination(s("team")).amount, 100);
    assert!(contract.get_nomination(s("team")).is_valid);
    assert_eq!(contract.add_vote(s("team"), s("x")), Ok(()));
    assert!(contract.finish_nomination(&master(), s("team")).is_ok());
}

#[test]
fn finish_by_a_stranger_is_refused() {
    let mut contract = setup_contract();
    assert_eq!(contract.create_nomination(s("team"), s("t"), 100), Ok(()));
    assert_eq!(contract.add_vote(s("team"), s("x")), Ok(()));
    assert_eq!(contract.finish_nomination(&s("mallory.testnet"), s("team")), Err(TipsError::AccessDenied));
    assert_eq!(contract.finish_nomination(&s("mallory.testnet"), s("crew")), Err(TipsError::AccessDenied));
    assert_eq!(contract.get_rewards(s("x")), 0);
    assert_eq!(contract.get_nomination(s("team")).nominators.len(), 1);
}

#[test]
fn finish_of_a_missing_nomination_is_refused() {
    let mut contract = setup_contract();
    assert_eq!(contract.finish_nomination(&master(), s("team")), Err(TipsError::ProposalNotFound));
    assert_eq!(contract.create_nomination(s("team"), s("t"), 100), Ok(()));
    assert_eq!(contract.add_vote(s("team"), s("x")), Ok(()));
    assert!(contract.finish_nomination(&master(), s("team")).is_ok());
    assert_eq!(contract.finish_nomination(&master(), s("team")), Err(TipsError::ProposalNotFound));
    assert_eq!(contract.get_rewards(s("x")), 100);
}

#[test]
fn vote_in_a_missing_nomination_is_refused() {
    let mut contract = setup_contract();
    assert_eq!(contract.add_vote(s("team"), s("x")), Err(TipsError::ProposalNotFound));
    assert_eq!(contract.get_nomination(s("team")), Nomination::none());
}

#[test]
fn second_nomination_of_an_owner_is_refused() {
    let mut contract = setup_contract();
    assert_eq!(contract.create_nomination(s("team"), s("first"), 100), Ok(()));
    assert_eq!(contract.add_vote(s("team"), s("x")), Ok(()));
    assert_eq!(contract.create_nomination(s("team"), s("second"), 7), Err(TipsError::DuplicateProposal));
    let nomination = contract.get_nomination(s("team"));
    assert_eq!(nomination.title, "first");
    assert_eq!(nomination.amount, 100);
    assert_eq!(nomination.nominators.len(), 1);
    assert_eq!(contract.create_nomination(s("crew"), s("second"), 7), Ok(()));
}

#[test]
fn owner_can_nominate_again_after_the_finish() {
    let mut contract = setup_contract();
    assert_eq!(contract.create_nomination(s("team"), s("first"), 100), Ok(()));
    assert_eq!(contract.add_vote(s("team"), s("x")), Ok(()));
    assert!(contract.finish_nomination(&master(), s("team")).is_ok());
    assert_eq!(contract.create_nomination(s("team"), s("second"), 7), Ok(()));
    let nomination = contract.get_nomination(s("team"));
    assert_eq!(nomination.title, "second");
    assert_eq!(nomination.nominators.len(), 0);
}

#[test]
fn candidate_without_a_name_can_win() {
    let mut contract = setup_contract();
    assert_eq!(contract.create_nomination(s("team"), s("t"), 100), Ok(()));
    assert_eq!(contract.add_vote(s("team"), s("")), Ok(()));
    let winner = contract.finish_nomination(&master(), s("team")).unwrap();
    assert_eq!(winner.winner, "");
    assert_eq!(contract.get_rewards(s("")), 100);
}

#[test]
fn operator_check() {
    let contract = setup_contract();
    assert_eq!(contract.assert_master_account(&master()), Ok(()));
    assert_eq!(contract.assert_master_account(&s("mallory.testnet")), Err(TipsError::AccessDenied));
    assert_eq!(contract.assert_master_account(&s("")), Err(TipsError::AccessDenied));
}

#[test]
fn messages() {
    assert_eq!(TipsError::AccessDenied.message(), "Access denied");
    assert_eq!(TipsError::UnassociatedAlias.message(), "Wrong slack account id");
    assert_eq!(TipsError::InsufficientBalance.message(), "Nothing to withdraw");
    assert_eq!(TipsError::DuplicateProposal.message(), "Nomination alredy exists for current slack user");
    assert_eq!(TipsError::ProposalNotFound.message(), "Nomination not found");
    assert_eq!(TipsError::NoVotesCast.message(), "No winner found");
}
