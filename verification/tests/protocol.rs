use ledger_client::address::Address;
use ledger_client::decode::{ConfirmationEvent, EventEntry};
use ledger_client::payload::{build_signed_tx, TransactionPayload};
use ledger_client::protocol::{
    run_protocol, Broadcaster, ProtocolAction, ProtocolEvent, ProtocolPhase,
};
use ledger_client::tx::{SigningKey, Tx};
use ledger_client::wallet::Wallet;

fn addr(s: &str) -> Address {
    Address::from_encoded(s).expect("valid address encoding")
}

fn key() -> SigningKey {
    SigningKey::from_bytes(vec![7u8; 32]).expect("32 bytes of key material")
}

fn signed_transfer() -> Tx {
    let payload = TransactionPayload::Transfer {
        source: addr("src1"),
        target: addr("dst2"),
        token: addr("tok3"),
        amount: 5,
    };
    build_signed_tx(payload, vec![0, 97, 115, 109], &key())
}

fn entry(key: &str, values: &[&str]) -> EventEntry {
    EventEntry {
        key: key.to_string(),
        values: values.iter().map(|v| v.to_string()).collect(),
    }
}

fn confirmation(accounts_json: Option<&str>) -> ConfirmationEvent {
    let mut entries = vec![
        entry("applied.info", &["ok"]),
        entry("applied.height", &["7"]),
        entry("applied.hash", &["AA"]),
        entry("applied.code", &["0"]),
        entry("applied.gas_used", &["9"]),
    ];
    if let Some(json) = accounts_json {
        entries.push(entry("applied.initialized_accounts", &[json]));
    }
    ConfirmationEvent { entries }
}

/// A transport that refuses any broadcast issued before a subscription
/// registered for the same fingerprint.
struct FakeTransport {
    subscribed_to: Option<String>,
    broadcasts: usize,
    connections: usize,
}

impl FakeTransport {
    fn new() -> FakeTransport {
        FakeTransport { subscribed_to: None, broadcasts: 0, connections: 0 }
    }

    fn perform(&mut self, machine: &Broadcaster, action: ProtocolAction) -> Option<ProtocolEvent> {
        match action {
            ProtocolAction::OpenAndSubscribe => {
                self.connections += 1;
                let filter = machine.event_filter();
                assert_eq!(filter.attribute, "applied.hash");
                self.subscribed_to = Some(filter.value);
                Some(ProtocolEvent::SubscribeOk)
            }
            ProtocolAction::Broadcast => {
                self.broadcasts += 1;
                let expected = machine.event_filter().value;
                match &self.subscribed_to {
                    Some(fp) if *fp == expected => Some(ProtocolEvent::BroadcastAccepted),
                    _ => panic!("broadcast issued before a matching subscription"),
                }
            }
            ProtocolAction::AwaitConfirmation => {
                Some(ProtocolEvent::Confirmation(confirmation(Some("[\"a1qq5new\"]"))))
            }
            ProtocolAction::Cleanup => {
                self.subscribed_to = None;
                Some(ProtocolEvent::CleanupDone)
            }
            ProtocolAction::Done => None,
        }
    }
}

#[test]
fn protocol_subscribes_before_broadcasting_for_every_kind() {
    let kinds: Vec<TransactionPayload> = vec![
        TransactionPayload::Custom { data: Some(vec![1]) },
        TransactionPayload::UpdateVp { addr: addr("a1"), vp_code: vec![1] },
        TransactionPayload::InitAccount { public_key: vec![7; 32], vp_code: vec![1] },
        TransactionPayload::Transfer {
            source: addr("s1"),
            target: addr("t1"),
            token: addr("k1"),
            amount: 1,
        },
        TransactionPayload::Bond { validator: addr("v1"), amount: 1, source: None },
        TransactionPayload::Unbond { validator: addr("v1"), amount: 1, source: None },
        TransactionPayload::Withdraw { validator: addr("v1"), source: None },
    ];
    for payload in kinds {
        let tx = build_signed_tx(payload, vec![9], &key());
        let mut machine = Broadcaster::start(&tx);
        let mut transport = FakeTransport::new();
        loop {
            let action = machine.next_action();
            match transport.perform(&machine, action) {
                Some(event) => {
                    assert!(machine.accepts(&event));
                    machine.step(event);
                }
                None => break,
            }
        }
        assert_eq!(machine.phase, ProtocolPhase::Closed);
        assert_eq!(transport.broadcasts, 1);
        let resp = machine.result().expect("a confirmed result");
        assert_eq!(resp.initialized_accounts[0].encode(), "a1qq5new");
    }
}

#[test]
fn scripted_run_records_subscription_first() {
    let tx = signed_transfer();
    let script = vec![
        ProtocolEvent::SubscribeOk,
        ProtocolEvent::BroadcastAccepted,
        ProtocolEvent::Confirmation(confirmation(None)),
        ProtocolEvent::CleanupDone,
    ];
    let (actions, machine) = run_protocol(&tx, script);
    assert_eq!(actions[0], ProtocolAction::OpenAndSubscribe);
    let subscribe_at = actions
        .iter()
        .position(|a| *a == ProtocolAction::OpenAndSubscribe)
        .unwrap();
    let broadcast_at = actions
        .iter()
        .position(|a| *a == ProtocolAction::Broadcast)
        .unwrap();
    assert!(subscribe_at < broadcast_at);
    assert_eq!(machine.phase, ProtocolPhase::Closed);
    assert!(machine.result().is_some());
}

#[test]
fn mempool_rejection_produces_no_result_and_no_reconciliation() {
    let tx = signed_transfer();
    let script = vec![
        ProtocolEvent::SubscribeOk,
        ProtocolEvent::BroadcastRejected("mempool is full".to_string()),
        ProtocolEvent::CleanupDone,
    ];
    let (actions, machine) = run_protocol(&tx, script);
    assert_eq!(machine.phase, ProtocolPhase::Failed);
    assert!(machine.result().is_none());
    // cleanup is still attempted after the recoverable failure
    assert!(actions.contains(&ProtocolAction::Cleanup));
    // with no result, the reconciler is never invoked: the store stays
    // untouched
    let mut wallet = Wallet::new();
    if let Some(resp) = machine.result() {
        ledger_client::wallet::save_initialized_accounts(
            &mut wallet,
            &resp.initialized_accounts,
            &None,
            &vec![],
        );
    }
    assert_eq!(wallet.len(), 0);
}

#[test]
fn connection_failure_needs_no_cleanup() {
    let tx = signed_transfer();
    let script = vec![ProtocolEvent::OpenFailed];
    let (actions, machine) = run_protocol(&tx, script);
    assert_eq!(machine.phase, ProtocolPhase::Failed);
    assert!(!actions.contains(&ProtocolAction::Cleanup));
    assert!(machine.result().is_none());
}

#[test]
fn malformed_confirmation_fails_the_attempt() {
    let tx = signed_transfer();
    let mut bad = confirmation(None);
    bad.entries.remove(3);
    let script = vec![
        ProtocolEvent::SubscribeOk,
        ProtocolEvent::BroadcastAccepted,
        ProtocolEvent::Confirmation(bad),
        ProtocolEvent::CleanupDone,
    ];
    let (actions, machine) = run_protocol(&tx, script);
    assert_eq!(machine.phase, ProtocolPhase::Failed);
    assert!(machine.result().is_none());
    assert!(actions.contains(&ProtocolAction::Cleanup));
}

#[test]
fn machine_refuses_a_broadcast_report_before_subscribing() {
    let tx = signed_transfer();
    let machine = Broadcaster::start(&tx);
    assert_eq!(machine.phase, ProtocolPhase::Idle);
    assert!(!machine.accepts(&ProtocolEvent::BroadcastAccepted));
    // a script that starts with a broadcast acknowledgement goes nowhere
    let (actions, stopped) = run_protocol(&tx, vec![ProtocolEvent::BroadcastAccepted]);
    assert_eq!(actions, vec![ProtocolAction::OpenAndSubscribe]);
    assert_eq!(stopped.phase, ProtocolPhase::Idle);
}

/// A code provider over fixed names, standing in for the filesystem.
fn provide_code(path: &str) -> Option<Vec<u8>> {
    match path {
        "wasm/tx_transfer.wasm" => Some(vec![0, 97, 115, 109]),
        _ => None,
    }
}

#[test]
fn missing_code_override_aborts_before_any_connection() {
    let mut transport = FakeTransport::new();
    // the caller overrides the code location with a path the provider
    // does not know: the build aborts and the protocol never starts
    let override_path = "no/such/file.wasm";
    match provide_code(override_path) {
        Some(code) => {
            let payload = TransactionPayload::Transfer {
                source: addr("s1"),
                target: addr("t1"),
                token: addr("k1"),
                amount: 1,
            };
            let tx = build_signed_tx(payload, code, &key());
            let mut machine = Broadcaster::start(&tx);
            loop {
                let action = machine.next_action();
                match transport.perform(&machine, action) {
                    Some(event) => machine.step(event),
                    None => break,
                }
            }
        }
        None => {
            // fatal configuration error: abort with no network resource
            // touched
        }
    }
    assert_eq!(transport.connections, 0);
    assert_eq!(transport.broadcasts, 0);
}
