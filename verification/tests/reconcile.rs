use ledger_client::address::Address;
use ledger_client::wallet::{save_initialized_accounts, ReconcileOutcome, Wallet};

fn addr(s: &str) -> Address {
    Address::from_encoded(s).expect("valid address encoding")
}

fn lookup(wallet: &Wallet, alias: &str) -> Option<String> {
    wallet.find(&alias.to_string()).map(|a| a.encode())
}

#[test]
fn no_accounts_means_no_mutation_and_no_persist() {
    let mut wallet = Wallet::new();
    let outcome = save_initialized_accounts(&mut wallet, &vec![], &Some("foo".to_string()), &vec![]);
    match outcome {
        ReconcileOutcome::Done { aliases, persist } => {
            assert!(aliases.is_empty());
            assert!(!persist);
        }
        _ => panic!("expected a completed run"),
    }
    assert_eq!(wallet.len(), 0);
}

#[test]
fn single_account_uses_the_hint_as_is() {
    let mut wallet = Wallet::new();
    let accounts = vec![addr("a1qq5new")];
    let outcome =
        save_initialized_accounts(&mut wallet, &accounts, &Some("foo".to_string()), &vec![]);
    match outcome {
        ReconcileOutcome::Done { aliases, persist } => {
            assert_eq!(aliases, vec!["foo".to_string()]);
            assert!(persist);
        }
        _ => panic!("expected a completed run"),
    }
    assert_eq!(lookup(&wallet, "foo"), Some("a1qq5new".to_string()));
    assert_eq!(wallet.len(), 1);
}

#[test]
fn multiple_accounts_get_indexed_hints_in_order() {
    let mut wallet = Wallet::new();
    let accounts = vec![addr("one1"), addr("two2"), addr("three3")];
    let outcome =
        save_initialized_accounts(&mut wallet, &accounts, &Some("foo".to_string()), &vec![]);
    match outcome {
        ReconcileOutcome::Done { aliases, persist } => {
            assert_eq!(
                aliases,
                vec!["foo0".to_string(), "foo1".to_string(), "foo2".to_string()]
            );
            assert!(persist);
        }
        _ => panic!("expected a completed run"),
    }
    assert_eq!(lookup(&wallet, "foo0"), Some("one1".to_string()));
    assert_eq!(lookup(&wallet, "foo1"), Some("two2".to_string()));
    assert_eq!(lookup(&wallet, "foo2"), Some("three3".to_string()));
}

#[test]
fn colliding_prompt_answers_are_retried_until_accepted() {
    let mut wallet = Wallet::new();
    assert!(wallet.add_address("taken".to_string(), addr("other9")));
    let accounts = vec![addr("a1qq5new")];
    let answers = vec!["taken".to_string(), "taken".to_string(), "fresh".to_string()];
    let outcome = save_initialized_accounts(&mut wallet, &accounts, &None, &answers);
    match outcome {
        ReconcileOutcome::Done { aliases, persist } => {
            assert_eq!(aliases, vec!["fresh".to_string()]);
            assert!(persist);
        }
        _ => panic!("expected a completed run"),
    }
    assert_eq!(lookup(&wallet, "fresh"), Some("a1qq5new".to_string()));
    assert_eq!(lookup(&wallet, "taken"), Some("other9".to_string()));
}

#[test]
fn empty_answer_falls_back_to_the_address_encoding() {
    let mut wallet = Wallet::new();
    let accounts = vec![addr("a1qq5new")];
    let answers = vec!["".to_string()];
    let outcome = save_initialized_accounts(&mut wallet, &accounts, &None, &answers);
    assert!(matches!(outcome, ReconcileOutcome::Done { .. }));
    assert_eq!(lookup(&wallet, "a1qq5new"), Some("a1qq5new".to_string()));
}

#[test]
fn exhausted_answers_stop_the_run() {
    let mut wallet = Wallet::new();
    assert!(wallet.add_address("taken".to_string(), addr("other9")));
    let accounts = vec![addr("a1qq5new")];
    let answers = vec!["taken".to_string()];
    let outcome = save_initialized_accounts(&mut wallet, &accounts, &None, &answers);
    match outcome {
        ReconcileOutcome::InputExhausted { index } => assert_eq!(index, 0),
        _ => panic!("expected the answers to run dry"),
    }
}

#[test]
fn hinted_collision_with_a_different_address_stops_the_run() {
    let mut wallet = Wallet::new();
    assert!(wallet.add_address("foo".to_string(), addr("other9")));
    let accounts = vec![addr("a1qq5new")];
    let outcome =
        save_initialized_accounts(&mut wallet, &accounts, &Some("foo".to_string()), &vec![]);
    match outcome {
        ReconcileOutcome::HintCollision { index } => assert_eq!(index, 0),
        _ => panic!("expected a hint collision"),
    }
    // the store is untouched by the rejected add
    assert_eq!(lookup(&wallet, "foo"), Some("other9".to_string()));
    assert_eq!(wallet.len(), 1);
}

#[test]
fn store_rejects_only_aliases_bound_to_a_different_address() {
    let mut wallet = Wallet::new();
    assert!(wallet.add_address("a".to_string(), addr("one1")));
    // rebinding the same address is accepted and changes nothing
    assert!(wallet.add_address("a".to_string(), addr("one1")));
    // a different address under the same alias is rejected
    assert!(!wallet.add_address("a".to_string(), addr("two2")));
    assert_eq!(wallet.len(), 1);
    assert_eq!(lookup(&wallet, "a"), Some("one1".to_string()));
}

#[test]
fn many_accounts_get_multi_digit_indexes() {
    let mut wallet = Wallet::new();
    let accounts: Vec<Address> = (0..11).map(|i| addr(&format!("acct{}", i))).collect();
    let outcome =
        save_initialized_accounts(&mut wallet, &accounts, &Some("x".to_string()), &vec![]);
    match outcome {
        ReconcileOutcome::Done { aliases, .. } => {
            assert_eq!(aliases[9], "x9");
            assert_eq!(aliases[10], "x10");
        }
        _ => panic!("expected a completed run"),
    }
    assert_eq!(lookup(&wallet, "x10"), Some("acct10".to_string()));
}
