//! Typed transaction payloads, one variant per transaction kind, and their
//! deterministic canonical encoding.
//!
//! The signature and the confirmation fingerprint are computed over this
//! exact encoding, so it must be a function of the logical input alone.

use vstd::prelude::*;
use crate::address::Address;
use crate::encoding::{enc_bytes, enc_opt_bytes, push_bytes_field, push_opt_bytes_field, push_u64_le, u64_le_bytes};
use crate::tx::{opt_view, SigningKey, Tx};

verus! {

/// One token of a non-fungible asset.
pub struct NftToken {
    pub id: u64,
    pub metadata: Vec<u8>,
}

/// The kind-specific payload of a transaction.
#[allow(inconsistent_fields)]
pub enum TransactionPayload {
    /// Caller-supplied code with optional raw data; no structured payload.
    Custom { data: Option<Vec<u8>> },
    /// Replace the validity predicate of an account.
    UpdateVp { addr: Address, vp_code: Vec<u8> },
    /// Create a new account with a public key and a validity predicate.
    InitAccount { public_key: Vec<u8>, vp_code: Vec<u8> },
    /// Mint tokens of an existing non-fungible asset.
    MintNft { owner: Address, nft_address: Address, tokens: Vec<NftToken> },
    /// Create a non-fungible asset.
    CreateNft { owner: Address, vp_code: Vec<u8>, tokens: Vec<NftToken> },
    /// Move an amount of a token between two accounts.
    Transfer { source: Address, target: Address, token: Address, amount: u64 },
    /// Delegate an amount to a validator.
    Bond { validator: Address, amount: u64, source: Option<Address> },
    /// Undelegate an amount from a validator.
    Unbond { validator: Address, amount: u64, source: Option<Address> },
    /// Withdraw unbonded tokens.
    Withdraw { validator: Address, source: Option<Address> },
}

/// Canonical encoding of one token.
pub open spec fn token_bytes(t: NftToken) -> Seq<u8> {
    u64_le_bytes(t.id) + enc_bytes(t.metadata@)
}

/// Canonical encoding of a token list's elements, in order.
pub open spec fn tokens_list_bytes(s: Seq<NftToken>) -> Seq<u8>
    decreases s.len(),
{
    if s.len() == 0 {
        Seq::empty()
    } else {
        tokens_list_bytes(s.drop_last()) + token_bytes(s.last())
    }
}

/// Canonical encoding of a token list: count, then the elements.
pub open spec fn tokens_field_bytes(s: Seq<NftToken>) -> Seq<u8> {
    u64_le_bytes(s.len() as u64) + tokens_list_bytes(s)
}

/// Canonical encoding of an optional address field.
pub open spec fn opt_addr_field(o: Option<Address>) -> Seq<u8> {
    match o {
        Option::None => seq![0u8],
        Option::Some(a) => seq![1u8] + enc_bytes(a@),
    }
}

/// The canonical payload encoding: a variant tag byte, then each field in
/// declaration order, every variable-length field length-prefixed. Equal
/// logical inputs give byte-identical encodings.
pub open spec fn payload_bytes(p: TransactionPayload) -> Seq<u8> {
    match p {
        TransactionPayload::Custom { data } => seq![0u8] + enc_opt_bytes(opt_view(data)),
        TransactionPayload::UpdateVp { addr, vp_code } => seq![1u8] + enc_bytes(addr@) + enc_bytes(
            vp_code@,
        ),
        TransactionPayload::InitAccount { public_key, vp_code } => seq![2u8] + enc_bytes(
            public_key@,
        ) + enc_bytes(vp_code@),
        TransactionPayload::MintNft { owner, nft_address, tokens } => seq![3u8] + enc_bytes(owner@)
            + enc_bytes(nft_address@) + tokens_field_bytes(tokens@),
        TransactionPayload::CreateNft { owner, vp_code, tokens } => seq![4u8] + enc_bytes(owner@)
            + enc_bytes(vp_code@) + tokens_field_bytes(tokens@),
        TransactionPayload::Transfer { source, target, token, amount } => seq![5u8] + enc_bytes(
            source@,
        ) + enc_bytes(target@) + enc_bytes(token@) + u64_le_bytes(amount),
        TransactionPayload::Bond { validator, amount, source } => seq![6u8] + enc_bytes(validator@)
            + u64_le_bytes(amount) + opt_addr_field(source),
        TransactionPayload::Unbond { validator, amount, source } => seq![7u8] + enc_bytes(
            validator@,
        ) + u64_le_bytes(amount) + opt_addr_field(source),
        TransactionPayload::Withdraw { validator, source } => seq![8u8] + enc_bytes(validator@)
            + opt_addr_field(source),
    }
}

/// Appends the encoding of an address field.
fn push_addr_field(out: &mut Vec<u8>, a: &Address)
    ensures
        final(out)@ == old(out)@ + enc_bytes(a@),
{
    push_bytes_field(out, a.encoded_bytes());
}

/// Appends the encoding of an optional address field.
fn push_opt_addr_field(out: &mut Vec<u8>, o: &Option<Address>)
    ensures
        final(out)@ == old(out)@ + opt_addr_field(*o),
{
    match o {
        Option::None => {
            out.push(0u8);
            proof {
                assert(final(out)@ =~= old(out)@ + opt_addr_field(Option::None));
            }
        },
        Option::Some(a) => {
            out.push(1u8);
            push_addr_field(out, a);
            proof {
                assert(final(out)@ =~= old(out)@ + opt_addr_field(Option::Some(*a)));
            }
        },
    }
}

/// Appends the encoding of a token list field.
fn push_tokens_field(out: &mut Vec<u8>, tokens: &Vec<NftToken>)
    ensures
        final(out)@ == old(out)@ + tokens_field_bytes(tokens@),
{
    push_u64_le(out, tokens.len() as u64);
    let ghost mid = out@;
    let mut i: usize = 0;
    while i < tokens.len()
        invariant
            i <= tokens@.len(),
            out@ == mid + tokens_list_bytes(tokens@.subrange(0, i as int)),
        decreases tokens@.len() - i,
    {
        let t = &tokens[i];
        push_u64_le(out, t.id);
        push_bytes_field(out, &t.metadata);
        i = i + 1;
        proof {
            let pre = tokens@.subrange(0, i as int);
            assert(pre.drop_last() =~= tokens@.subrange(0, i - 1));
            assert(out@ =~= mid + tokens_list_bytes(pre));
        }
    }
    proof {
        assert(tokens@.subrange(0, tokens@.len() as int) =~= tokens@);
        assert(final(out)@ =~= old(out)@ + tokens_field_bytes(tokens@));
    }
}

/// Serializes a payload to its canonical bytes.
pub fn encode_payload(p: &TransactionPayload) -> (r: Vec<u8>)
    ensures
        r@ == payload_bytes(*p),
{
    let mut out: Vec<u8> = Vec::new();
    match p {
        TransactionPayload::Custom { data } => {
            out.push(0u8);
            push_opt_bytes_field(&mut out, data);
        },
        TransactionPayload::UpdateVp { addr, vp_code } => {
            out.push(1u8);
            push_addr_field(&mut out, addr);
            push_bytes_field(&mut out, vp_code);
        },
        TransactionPayload::InitAccount { public_key, vp_code } => {
            out.push(2u8);
            push_bytes_field(&mut out, public_key);
            push_bytes_field(&mut out, vp_code);
        },
        TransactionPayload::MintNft { owner, nft_address, tokens } => {
            out.push(3u8);
            push_addr_field(&mut out, owner);
            push_addr_field(&mut out, nft_address);
            push_tokens_field(&mut out, tokens);
        },
        TransactionPayload::CreateNft { owner, vp_code, tokens } => {
            out.push(4u8);
            push_addr_field(&mut out, owner);
            push_bytes_field(&mut out, vp_code);
            push_tokens_field(&mut out, tokens);
        },
        TransactionPayload::Transfer { source, target, token, amount } => {
            out.push(5u8);
            push_addr_field(&mut out, source);
            push_addr_field(&mut out, target);
            push_addr_field(&mut out, token);
            push_u64_le(&mut out, *amount);
        },
        TransactionPayload::Bond { validator, amount, source } => {
            out.push(6u8);
            push_addr_field(&mut out, validator);
            push_u64_le(&mut out, *amount);
            push_opt_addr_field(&mut out, source);
        },
        TransactionPayload::Unbond { validator, amount, source } => {
            out.push(7u8);
            push_addr_field(&mut out, validator);
            push_u64_le(&mut out, *amount);
            push_opt_addr_field(&mut out, source);
        },
        TransactionPayload::Withdraw { validator, source } => {
            out.push(8u8);
            push_addr_field(&mut out, validator);
            push_opt_addr_field(&mut out, source);
        },
    }
    proof {
        assert(out@ =~= payload_bytes(*p));
    }
    out
}

/// The data field of the transaction built over a payload: raw bytes for
/// the custom kind, the canonical encoding for every structured kind.
pub open spec fn payload_data(p: TransactionPayload) -> Option<Seq<u8>> {
    match p {
        TransactionPayload::Custom { data } => opt_view(data),
        _ => Option::Some(payload_bytes(p)),
    }
}

/// Builds the unsigned transaction of a payload over the given code bytes.
pub fn build_tx(p: TransactionPayload, code: Vec<u8>) -> (r: Tx)
    ensures
        r.code@ == code@,
        opt_view(r.data) == payload_data(p),
        r.sig is None,
{
    match p {
        TransactionPayload::Custom { data } => Tx::new(code, data),
        other => {
            let bytes = encode_payload(&other);
            Tx::new(code, Some(bytes))
        },
    }
}

/// Builds and signs the transaction of a payload in one step.
pub fn build_signed_tx(p: TransactionPayload, code: Vec<u8>, key: &SigningKey) -> (r: Tx)
    requires
        key.wf(),
    ensures
        r.code@ == code@,
        opt_view(r.data) == payload_data(p),
        opt_view(r.sig) == Option::Some(
            crate::tx::sig_of(key@, crate::tx::signable_bytes(code@, payload_data(p))),
        ),
{
    let tx = build_tx(p, code);
    tx.sign(key)
}

/// The default code blob of each transaction kind, by its logical name;
/// the custom kind has none, its code is always caller-supplied.
pub fn default_code_path(p: &TransactionPayload) -> (r: Option<&'static str>)
    ensures
        match *p {
            TransactionPayload::Custom { .. } => r is None,
            TransactionPayload::UpdateVp { .. } => r is Some && r.unwrap()@
                == "wasm/tx_update_vp.wasm"@,
            TransactionPayload::InitAccount { .. } => r is Some && r.unwrap()@
                == "wasm/tx_init_account.wasm"@,
            TransactionPayload::MintNft { .. } => r is Some && r.unwrap()@
                == "wasm/tx_mint_nft_tokens.wasm"@,
            TransactionPayload::CreateNft { .. } => r is Some && r.unwrap()@
                == "wasm/tx_create_nft.wasm"@,
            TransactionPayload::Transfer { .. } => r is Some && r.unwrap()@
                == "wasm/tx_transfer.wasm"@,
            TransactionPayload::Bond { .. } => r is Some && r.unwrap()@ == "wasm/tx_bond.wasm"@,
            TransactionPayload::Unbond { .. } => r is Some && r.unwrap()@
                == "wasm/tx_unbond.wasm"@,
            TransactionPayload::Withdraw { .. } => r is Some && r.unwrap()@
                == "wasm/tx_withdraw.wasm"@,
        },
{
    match p {
        TransactionPayload::Custom { .. } => None,
        TransactionPayload::UpdateVp { .. } => Some("wasm/tx_update_vp.wasm"),
        TransactionPayload::InitAccount { .. } => Some("wasm/tx_init_account.wasm"),
        TransactionPayload::MintNft { .. } => Some("wasm/tx_mint_nft_tokens.wasm"),
        TransactionPayload::CreateNft { .. } => Some("wasm/tx_create_nft.wasm"),
        TransactionPayload::Transfer { .. } => Some("wasm/tx_transfer.wasm"),
        TransactionPayload::Bond { .. } => Some("wasm/tx_bond.wasm"),
        TransactionPayload::Unbond { .. } => Some("wasm/tx_unbond.wasm"),
        TransactionPayload::Withdraw { .. } => Some("wasm/tx_withdraw.wasm"),
    }
}

/// The default validity-predicate blob of the kinds that embed one: the
/// user predicate for account creation, the asset predicate for asset
/// creation.
pub fn default_vp_path(p: &TransactionPayload) -> (r: Option<&'static str>)
    ensures
        match *p {
            TransactionPayload::InitAccount { .. } => r is Some && r.unwrap()@
                == "wasm/vp_user.wasm"@,
            TransactionPayload::CreateNft { .. } => r is Some && r.unwrap()@ == "wasm/vp_nft.wasm"@,
            _ => r is None,
        },
{
    match p {
        TransactionPayload::InitAccount { .. } => Some("wasm/vp_user.wasm"),
        TransactionPayload::CreateNft { .. } => Some("wasm/vp_nft.wasm"),
        _ => None,
    }
}

/// Resolves a code location: a caller-supplied override wins over the
/// kind's fixed default.
pub fn resolve_code_path(override_path: Option<String>, default_path: &str) -> (r: String)
    ensures
        match override_path {
            Option::Some(p) => r@ == p@,
            Option::None => r@ == default_path@,
        },
{
    match override_path {
        Some(p) => p,
        None => <String as vstd::string::StringExecFns>::from_str(default_path),
    }
}

/// Building is deterministic: two transactions built and signed over the
/// same logical payload, code and key — as the builder's contract pins
/// them down — carry byte-identical wire bytes, and so one fingerprint.
pub proof fn lemma_build_deterministic(
    p: TransactionPayload,
    code: Seq<u8>,
    key: Seq<u8>,
    a: Tx,
    b: Tx,
)
    requires
        a.code@ == code,
        opt_view(a.data) == payload_data(p),
        opt_view(a.sig) == Option::Some(
            crate::tx::sig_of(key, crate::tx::signable_bytes(code, payload_data(p))),
        ),
        b.code@ == code,
        opt_view(b.data) == payload_data(p),
        opt_view(b.sig) == Option::Some(
            crate::tx::sig_of(key, crate::tx::signable_bytes(code, payload_data(p))),
        ),
    ensures
        crate::tx::wire_bytes(a.code@, opt_view(a.data), opt_view(a.sig)) == crate::tx::wire_bytes(
            b.code@,
            opt_view(b.data),
            opt_view(b.sig),
        ),
        crate::tx::sha256_of(crate::tx::wire_bytes(a.code@, opt_view(a.data), opt_view(a.sig)))
            == crate::tx::sha256_of(
            crate::tx::wire_bytes(b.code@, opt_view(b.data), opt_view(b.sig)),
        ),
{
}

} // verus!
