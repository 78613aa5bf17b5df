use ledger_client::address::Address;
use ledger_client::decode::{decode_accounts, ConfirmationEvent, DecodeError, EventEntry, TxResponse};
use ledger_client::json::encode_accounts;
use ledger_client::payload::{encode_payload, build_tx, default_code_path, resolve_code_path, NftToken, TransactionPayload};
use ledger_client::tx::hex_encode;

fn addr(s: &str) -> Address {
    Address::from_encoded(s).expect("valid address encoding")
}

fn transfer_payload() -> TransactionPayload {
    TransactionPayload::Transfer {
        source: addr("a1qq5source"),
        target: addr("a1qq5target"),
        token: addr("xan0token"),
        amount: 144_000,
    }
}

#[test]
fn payload_encoding_is_deterministic_for_all_kinds() {
    let builders: Vec<fn() -> TransactionPayload> = vec![
        || TransactionPayload::Custom { data: Some(vec![1, 2, 3]) },
        || TransactionPayload::UpdateVp { addr: addr("acc1"), vp_code: vec![9, 9] },
        || TransactionPayload::InitAccount { public_key: vec![7; 32], vp_code: vec![1] },
        || TransactionPayload::MintNft {
            owner: addr("owner1"),
            nft_address: addr("nft1"),
            tokens: vec![NftToken { id: 1, metadata: vec![5] }],
        },
        || TransactionPayload::CreateNft {
            owner: addr("owner1"),
            vp_code: vec![2, 2],
            tokens: vec![NftToken { id: 4, metadata: vec![] }],
        },
        || transfer_payload(),
        || TransactionPayload::Bond { validator: addr("val1"), amount: 10, source: None },
        || TransactionPayload::Unbond {
            validator: addr("val1"),
            amount: 10,
            source: Some(addr("src1")),
        },
        || TransactionPayload::Withdraw { validator: addr("val1"), source: None },
    ];
    for make in builders {
        let once = encode_payload(&make());
        let twice = encode_payload(&make());
        assert_eq!(once, twice);
    }
}

#[test]
fn built_transactions_are_byte_identical_across_builds() {
    let code = vec![0u8, 97, 115, 109];
    let tx1 = build_tx(transfer_payload(), code.clone());
    let tx2 = build_tx(transfer_payload(), code);
    assert_eq!(tx1.to_bytes(), tx2.to_bytes());
}

#[test]
fn accounts_double_encoding_round_trips() {
    let addrs = vec![addr("a1qq5first"), addr("b2second"), addr("c3third")];
    let encoded = encode_accounts(&addrs);
    let decoded = decode_accounts(&encoded).expect("canonical encoding decodes");
    assert_eq!(decoded.len(), 3);
    assert_eq!(decoded[0].encode(), "a1qq5first");
    assert_eq!(decoded[1].encode(), "b2second");
    assert_eq!(decoded[2].encode(), "c3third");
}

#[test]
fn accounts_encoding_matches_the_json_wire_form() {
    let addrs = vec![addr("a1qq5first"), addr("b2second")];
    let encoded = encode_accounts(&addrs);
    // the node's side of the wire: ordinary JSON
    let strings: Vec<String> = serde_json::from_str(&encoded).expect("well-formed JSON");
    assert_eq!(strings, vec!["a1qq5first".to_string(), "b2second".to_string()]);
    let reencoded = serde_json::to_string(&strings).expect("serializes");
    assert_eq!(reencoded, encoded);
}

#[test]
fn decoder_accepts_json_produced_by_serde() {
    let strings = vec!["a1qq5first".to_string(), "b2second".to_string()];
    let wire = serde_json::to_string(&strings).expect("serializes");
    let decoded = decode_accounts(&wire).expect("decodes");
    assert_eq!(decoded.len(), 2);
    assert_eq!(decoded[0].encode(), "a1qq5first");
}

#[test]
fn empty_account_list_round_trips() {
    let addrs: Vec<Address> = vec![];
    let encoded = encode_accounts(&addrs);
    assert_eq!(encoded, "[]");
    let decoded = decode_accounts(&encoded).expect("decodes");
    assert_eq!(decoded.len(), 0);
}

#[test]
fn malformed_accounts_payloads_are_rejected() {
    for bad in ["", "[", "]", "[\"a\"", "[\"a\",]", "[,]", "[\"a\" ,\"b\"]", "[\"\\\"]", "x"] {
        assert!(decode_accounts(&bad.to_string()).is_none(), "accepted {:?}", bad);
    }
}

fn entry(key: &str, values: &[&str]) -> EventEntry {
    EventEntry {
        key: key.to_string(),
        values: values.iter().map(|v| v.to_string()).collect(),
    }
}

fn full_event() -> ConfirmationEvent {
    ConfirmationEvent {
        entries: vec![
            entry("applied.info", &["Transaction is valid."]),
            entry("applied.height", &["1024"]),
            entry("applied.hash", &["ABCD"]),
            entry("applied.code", &["0"]),
            entry("applied.gas_used", &["100"]),
            entry("applied.initialized_accounts", &["[\"a1qq5new\"]"]),
        ],
    }
}

#[test]
fn complete_event_decodes_to_full_response() {
    let resp = TxResponse::from_event(&full_event()).expect("decodes");
    assert_eq!(resp.info, "Transaction is valid.");
    assert_eq!(resp.height, "1024");
    assert_eq!(resp.hash, "ABCD");
    assert_eq!(resp.code, "0");
    assert_eq!(resp.gas_used, "100");
    assert_eq!(resp.initialized_accounts.len(), 1);
    assert_eq!(resp.initialized_accounts[0].encode(), "a1qq5new");
}

#[test]
fn event_without_accounts_gives_empty_list() {
    let mut ev = full_event();
    ev.entries.pop();
    let resp = TxResponse::from_event(&ev).expect("decodes");
    assert_eq!(resp.initialized_accounts.len(), 0);
}

#[test]
fn missing_scalar_field_is_a_decode_error() {
    for missing in 0..5usize {
        let mut ev = full_event();
        ev.entries.remove(missing);
        match TxResponse::from_event(&ev) {
            Err(DecodeError::MissingField) => {}
            other => panic!("expected a missing-field error, got {:?}", other.is_ok()),
        }
    }
}

#[test]
fn empty_value_array_counts_as_missing() {
    let mut ev = full_event();
    ev.entries[1] = entry("applied.height", &[]);
    assert!(matches!(TxResponse::from_event(&ev), Err(DecodeError::MissingField)));
}

#[test]
fn bad_accounts_payload_is_a_decode_error() {
    let mut ev = full_event();
    ev.entries[5] = entry("applied.initialized_accounts", &["not json"]);
    assert!(matches!(TxResponse::from_event(&ev), Err(DecodeError::InvalidAccounts)));
}

#[test]
fn hex_encoding_is_uppercase_two_digits_a_byte() {
    let bytes = vec![0x00u8, 0x0f, 0xa5, 0xff];
    let hex = hex_encode(&bytes);
    assert_eq!(String::from_utf8(hex).unwrap(), "000FA5FF");
}

#[test]
fn default_code_paths_match_the_kinds() {
    assert_eq!(default_code_path(&transfer_payload()), Some("wasm/tx_transfer.wasm"));
    assert_eq!(
        default_code_path(&TransactionPayload::Custom { data: None }),
        None
    );
    assert_eq!(
        default_code_path(&TransactionPayload::Bond {
            validator: addr("v1"),
            amount: 1,
            source: None
        }),
        Some("wasm/tx_bond.wasm")
    );
}

#[test]
fn override_path_wins_over_default() {
    let resolved = resolve_code_path(Some("custom/tx.wasm".to_string()), "wasm/tx_bond.wasm");
    assert_eq!(resolved, "custom/tx.wasm");
    let fallback = resolve_code_path(None, "wasm/tx_bond.wasm");
    assert_eq!(fallback, "wasm/tx_bond.wasm");
}

#[test]
fn addresses_reject_bad_encodings() {
    assert!(Address::from_encoded("").is_none());
    assert!(Address::from_encoded("has space").is_none());
    assert!(Address::from_encoded("quo\"te").is_none());
    assert!(Address::from_encoded("comma,separated").is_none());
    let a = Address::from_encoded("Fine123").expect("accepted");
    assert_eq!(a.encode(), "Fine123");
}
