use ed25519_dalek::{Signature, Signer, Verifier};
use ledger_client::address::Address;
use ledger_client::intent::{build_signed_intent, sign_exchange, DecimalWrapper, Exchange, ExchangeDefinition};
use ledger_client::payload::{build_signed_tx, TransactionPayload};
use ledger_client::tx::{hash_tx, tx_fingerprint, SigningKey, Tx};
use sha2::Digest;

fn addr(s: &str) -> Address {
    Address::from_encoded(s).expect("valid address encoding")
}

const KEY_BYTES: [u8; 32] = [7u8; 32];

fn key() -> SigningKey {
    SigningKey::from_bytes(KEY_BYTES.to_vec()).expect("32 bytes of key material")
}

#[test]
fn key_material_must_be_exactly_32_bytes() {
    assert!(SigningKey::from_bytes(vec![1u8; 31]).is_none());
    assert!(SigningKey::from_bytes(vec![1u8; 33]).is_none());
    assert!(SigningKey::from_bytes(vec![1u8; 32]).is_some());
}

#[test]
fn fingerprint_is_the_uppercase_sha256_of_the_wire_bytes() {
    let tx = Tx::new(vec![1, 2, 3], Some(vec![4, 5]));
    let bytes = tx.to_bytes();
    let fp = tx_fingerprint(&bytes);
    let digest = sha2::Sha256::digest(&bytes);
    let expected: String = digest.iter().map(|b| format!("{:02X}", b)).collect();
    assert_eq!(fp, expected);
    let lib_digest = hash_tx(&bytes);
    assert_eq!(lib_digest, digest.to_vec());
}

#[test]
fn signature_covers_code_and_data_and_verifies() {
    let tx = Tx::new(vec![1, 2, 3], Some(vec![4, 5]));
    let unsigned_prefix = tx.to_bytes();
    // the signature covers the wire encoding up to the signature slot
    let signable = &unsigned_prefix[..unsigned_prefix.len() - 1];
    let signed = Tx::new(vec![1, 2, 3], Some(vec![4, 5])).sign(&key());
    assert_eq!(signed.code, vec![1, 2, 3]);
    assert_eq!(signed.data, Some(vec![4, 5]));
    let sig_bytes = signed.sig.clone().expect("exactly one signature");
    assert_eq!(sig_bytes.len(), 64);
    let dalek_key = ed25519_dalek::SigningKey::from_bytes(&KEY_BYTES);
    let sig = Signature::from_slice(&sig_bytes).expect("64 signature bytes");
    dalek_key
        .verifying_key()
        .verify(signable, &sig)
        .expect("the signature verifies over the canonical bytes");
}

#[test]
fn signing_is_deterministic() {
    let a = Tx::new(vec![9], None).sign(&key());
    let b = Tx::new(vec![9], None).sign(&key());
    assert_eq!(a.to_bytes(), b.to_bytes());
}

#[test]
fn signed_transactions_of_equal_inputs_share_a_fingerprint() {
    let payload = || TransactionPayload::Bond {
        validator: addr("val1"),
        amount: 33,
        source: Some(addr("src1")),
    };
    let tx1 = build_signed_tx(payload(), vec![1], &key());
    let tx2 = build_signed_tx(payload(), vec![1], &key());
    assert_eq!(tx_fingerprint(&tx1.to_bytes()), tx_fingerprint(&tx2.to_bytes()));
}

fn exchange() -> Exchange {
    let definition = ExchangeDefinition {
        addr: addr("owner1"),
        token_sell: addr("sell1"),
        rate_min: DecimalWrapper { mantissa: 15, scale: 1 },
        max_sell: 100,
        token_buy: addr("buy1"),
        min_buy: 50,
        vp_path: None,
    };
    definition.into_exchange(None)
}

#[test]
fn exchanges_are_signed_individually_then_as_a_set() {
    let signed = sign_exchange(exchange(), &key());
    assert_eq!(signed.sig.len(), 64);
    let blob = build_signed_intent(&vec![signed], &key());
    // the blob ends with the length-prefixed intent signature; the
    // signature covers everything before it
    let sig_start = blob.len() - 64;
    let intent_part = &blob[..sig_start - 8];
    let sig = Signature::from_slice(&blob[sig_start..]).expect("64 signature bytes");
    let dalek_key = ed25519_dalek::SigningKey::from_bytes(&KEY_BYTES);
    dalek_key
        .verifying_key()
        .verify(intent_part, &sig)
        .expect("the intent signature verifies");
}

#[test]
fn intent_signing_is_deterministic() {
    let one = build_signed_intent(&vec![sign_exchange(exchange(), &key())], &key());
    let two = build_signed_intent(&vec![sign_exchange(exchange(), &key())], &key());
    assert_eq!(one, two);
}

#[test]
fn exchange_signature_verifies_against_the_owner_key() {
    let signed = sign_exchange(exchange(), &key());
    let msg = ledger_client::intent::encode_exchange(&signed.exchange);
    let sig = Signature::from_slice(&signed.sig).expect("64 signature bytes");
    let dalek_key = ed25519_dalek::SigningKey::from_bytes(&KEY_BYTES);
    dalek_key.verifying_key().verify(&msg, &sig).expect("verifies");
}
