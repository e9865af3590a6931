use near_tips::{is_promise_success, Contract, Ledger, Nomination, Nominator, PromiseStatus, Registry, Snapshot, TipsError};

fn text(value: &str) -> String {
    value.to_string()
}

#[test]
fn registry_keeps_the_last_value_of_a_key() {
    let mut registry: Registry<u128> = Registry::new();
    assert_eq!(registry.get(&text("a")), None);
    assert!(!registry.contains_key(&text("a")));
    registry.insert(text("a"), 1);
    registry.insert(text("b"), 2);
    registry.insert(text("a"), 3);
    assert_eq!(registry.get(&text("a")), Some(&3));
    assert_eq!(registry.get(&text("b")), Some(&2));
    assert_eq!(registry.entries(), &vec![(text("a"), 3), (text("b"), 2)]);
}

#[test]
fn registry_remove_forgets_the_key_only() {
    let mut registry: Registry<u128> = Registry::new();
    registry.insert(text("a"), 1);
    registry.insert(text("b"), 2);
    registry.insert(text("c"), 3);
    registry.remove(&text("b"));
    assert_eq!(registry.get(&text("b")), None);
    assert_eq!(registry.get(&text("a")), Some(&1));
    assert_eq!(registry.get(&text("c")), Some(&3));
    registry.remove(&text("missing"));
    assert_eq!(registry.entries().len(), 2);
}

#[test]
fn registry_from_entries_takes_the_first_of_a_key() {
    let mut registry = Registry::from_entries(vec![(text("a"), 1u128), (text("b"), 2), (text("a"), 3)]);
    assert_eq!(registry.get(&text("a")), Some(&1));
    registry.insert(text("a"), 9);
    assert_eq!(registry.get(&text("a")), Some(&9));
    registry.remove(&text("a"));
    assert_eq!(registry.get(&text("a")), None);
    assert!(registry.contains_key(&text("b")));
    assert_eq!(registry.entries().len(), 1);
}

#[test]
fn ledger_debits_everything_or_nothing() {
    let mut ledger = Ledger::new();
    assert_eq!(ledger.debit_all(text("a")), Err(TipsError::InsufficientBalance));
    ledger.credit(text("a"), 30);
    ledger.credit(text("a"), 12);
    ledger.credit(text("b"), 5);
    assert_eq!(ledger.balance_of(&text("a")), 42);
    assert_eq!(ledger.debit_all(text("a")), Ok(42));
    assert_eq!(ledger.balance_of(&text("a")), 0);
    assert_eq!(ledger.balance_of(&text("b")), 5);
    assert_eq!(ledger.debit_all(text("a")), Err(TipsError::InsufficientBalance));
}

#[test]
fn ledger_recredit_is_added() {
    let mut ledger = Ledger::new();
    ledger.credit(text("a"), 42);
    let amount = ledger.debit_all(text("a")).unwrap();
    ledger.credit(text("a"), 1);
    ledger.recredit(text("a"), amount);
    assert_eq!(ledger.balance_of(&text("a")), 43);
}

#[test]
fn ledger_from_entries() {
    let ledger = Ledger::from_entries(vec![(text("a"), 4), (text("b"), 0)]);
    assert_eq!(ledger.balance_of(&text("a")), 4);
    assert_eq!(ledger.balance_of(&text("b")), 0);
    assert_eq!(ledger.balance_of(&text("c")), 0);
    assert_eq!(ledger.entries().len(), 2);
}

#[test]
fn promise_success_is_the_successful_result_only() {
    assert!(is_promise_success(&vec![PromiseStatus::Successful]));
    assert!(!is_promise_success(&vec![PromiseStatus::Failed]));
    assert!(!is_promise_success(&vec![PromiseStatus::NotReady]));
}

#[test]
fn nomination_counts_votes_by_candidate() {
    let mut nomination = Nomination::open(text("best helper"), 10);
    assert_eq!(nomination.leader(), None);
    assert_eq!(nomination.votes_for(&text("x")), 0);
    nomination.add_vote(text("x"));
    nomination.add_vote(text("y"));
    nomination.add_vote(text("y"));
    nomination.add_vote(text("x"));
    nomination.add_vote(text("z"));
    assert_eq!(nomination.votes_for(&text("x")), 2);
    assert_eq!(nomination.votes_for(&text("y")), 2);
    assert_eq!(nomination.votes_for(&text("z")), 1);
    assert_eq!(nomination.votes_for(&text("w")), 0);
    assert_eq!(nomination.nominators.len(), 3);
    assert_eq!(nomination.leader(), Some(0));
    nomination.add_vote(text("z"));
    nomination.add_vote(text("z"));
    assert_eq!(nomination.leader(), Some(2));
    assert_eq!(nomination.title, "best helper");
    assert_eq!(nomination.amount, 10);
}

#[test]
fn nomination_leader_needs_a_vote() {
    let nomination = Nomination {
        nominators: vec![
            Nominator { slack_user: text("x"), votes: 0 },
            Nominator { slack_user: text("y"), votes: 0 },
        ],
        title: text("t"),
        amount: 1,
        is_valid: true,
    };
    assert_eq!(nomination.leader(), None);
}

#[test]
fn nomination_vote_goes_to_the_first_entry_of_a_name() {
    let mut nomination = Nomination {
        nominators: vec![
            Nominator { slack_user: text("x"), votes: 1 },
            Nominator { slack_user: text("y"), votes: 65534 },
            Nominator { slack_user: text("x"), votes: 7 },
        ],
        title: text("t"),
        amount: 1,
        is_valid: true,
    };
    nomination.add_vote(text("x"));
    nomination.add_vote(text("y"));
    assert_eq!(nomination.nominators[0].votes, 2);
    assert_eq!(nomination.nominators[1].votes, 65535);
    assert_eq!(nomination.nominators[2].votes, 7);
    assert_eq!(nomination.votes_for(&text("x")), 2);
    assert_eq!(nomination.leader(), Some(1));
}

#[test]
fn nomination_none_and_duplicate() {
    let none = Nomination::none();
    assert_eq!(none.nominators.len(), 0);
    assert_eq!(none.title, "");
    assert_eq!(none.amount, 0);
    assert!(!none.is_valid);
    let mut nomination = Nomination::open(text("t"), 3);
    nomination.add_vote(text("x"));
    let copy = nomination.duplicate();
    assert_eq!(copy, nomination);
    nomination.add_vote(text("x"));
    assert_eq!(copy.nominators[0].votes, 1);
}

#[test]
fn snapshot_and_restore_keep_the_state() {
    let master = text("master_account.testnet");
    let mut contract = Contract::new(master.clone());
    contract.associate_wallet_with_slack(text("a"), text("a.testnet"));
    contract.send_reward(text("a"), 12);
    contract.send_reward(text("b"), 1);
    assert_eq!(contract.create_nomination(text("p"), text("t"), 100), Ok(()));
    assert_eq!(contract.add_vote(text("p"), text("b")), Ok(()));
    let snapshot = contract.snapshot();
    assert_eq!(snapshot.master_account_id, master);
    assert_eq!(snapshot.slack_wallets, vec![(text("a"), text("a.testnet"))]);
    assert_eq!(snapshot.rewards, vec![(text("a"), 12), (text("b"), 1)]);
    assert_eq!(snapshot.nominations.len(), 1);
    let mut restored = Contract::restore(snapshot);
    assert_eq!(restored.get_wallet(text("a")), "a.testnet");
    assert_eq!(restored.get_rewards(text("a")), 12);
    assert_eq!(restored.get_nomination(text("p")), contract.get_nomination(text("p")));
    assert_eq!(restored.assert_master_account(&master), Ok(()));
    let winner = restored.finish_nomination(&master, text("p")).unwrap();
    assert_eq!(winner.winner, "b");
    assert_eq!(restored.get_rewards(text("b")), 101);
    assert_eq!(contract.get_rewards(text("b")), 1);
}

#[test]
fn restore_takes_the_first_entry_of_an_alias() {
    let snapshot = Snapshot {
        master_account_id: text("m"),
        slack_wallets: vec![(text("a"), text("one")), (text("a"), text("two"))],
        rewards: vec![(text("a"), 1), (text("a"), 2)],
        nominations: vec![],
    };
    let contract = Contract::restore(snapshot);
    assert_eq!(contract.get_wallet(text("a")), "one");
    assert_eq!(contract.get_rewards(text("a")), 1);
}
