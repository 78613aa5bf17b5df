//! The intent path: exchange descriptions are signed one by one, collected
//! into an intent, and the intent is signed by the submitting key. The
//! result is written out or handed to a gossip node; there is no on-chain
//! confirmation step here.

use vstd::prelude::*;
use crate::address::Address;
use crate::encoding::{enc_bytes, enc_opt_bytes, push_bytes_field, push_opt_bytes_field, push_u64_le, u64_le_bytes};
use crate::payload::NftToken;
use crate::tx::{opt_view, sig_of, SigningKey};

verus! {

/// A decimal rate: `mantissa` scaled down by `scale` decimal digits.
pub struct DecimalWrapper {
    pub mantissa: u64,
    pub scale: u32,
}

/// A non-fungible asset description, as read from a definition file.
pub struct NftDefinition {
    /// The owning address.
    pub owner: Address,
    /// Where the validity predicate's code lives, if not the default.
    pub vp_path: Option<String>,
    /// The asset's tokens.
    pub tokens: Vec<NftToken>,
}

impl NftDefinition {
    /// Resolves the definition to the asset-creation payload; the
    /// predicate code bytes — from the definition's location or the
    /// kind's default — are read by the caller and handed in.
    pub fn into_payload(self, vp_code: Vec<u8>) -> (r: crate::payload::TransactionPayload)
        ensures
            r matches crate::payload::TransactionPayload::CreateNft { owner, vp_code: vp, tokens }
                && owner@ == self.owner@ && vp@ == vp_code@ && tokens@ == self.tokens@,
    {
        crate::payload::TransactionPayload::CreateNft {
            owner: self.owner,
            vp_code,
            tokens: self.tokens,
        }
    }
}

/// An exchange description, as read from a definition file.
pub struct ExchangeDefinition {
    /// The offering address.
    pub addr: Address,
    /// The token to be sold.
    pub token_sell: Address,
    /// The minimum rate.
    pub rate_min: DecimalWrapper,
    /// The maximum amount of token to be sold.
    pub max_sell: u64,
    /// The token to be bought.
    pub token_buy: Address,
    /// The amount of token to be bought.
    pub min_buy: u64,
    /// Where the validity predicate's code lives, if any.
    pub vp_path: Option<String>,
}

/// An exchange with its validity-predicate code resolved to bytes.
pub struct Exchange {
    pub addr: Address,
    pub token_sell: Address,
    pub rate_min: DecimalWrapper,
    pub max_sell: u64,
    pub token_buy: Address,
    pub min_buy: u64,
    pub vp: Option<Vec<u8>>,
}

impl ExchangeDefinition {
    /// Resolves the definition to an exchange; the predicate code bytes,
    /// when the definition names a code location, are read by the caller
    /// and handed in.
    pub fn into_exchange(self, vp: Option<Vec<u8>>) -> (r: Exchange)
        ensures
            r.addr@ == self.addr@,
            r.token_sell@ == self.token_sell@,
            r.rate_min == self.rate_min,
            r.max_sell == self.max_sell,
            r.token_buy@ == self.token_buy@,
            r.min_buy == self.min_buy,
            opt_view(r.vp) == opt_view(vp),
    {
        Exchange {
            addr: self.addr,
            token_sell: self.token_sell,
            rate_min: self.rate_min,
            max_sell: self.max_sell,
            token_buy: self.token_buy,
            min_buy: self.min_buy,
            vp,
        }
    }
}

/// The canonical encoding of an exchange, field by field.
pub open spec fn exchange_bytes(e: Exchange) -> Seq<u8> {
    enc_bytes(e.addr@) + enc_bytes(e.token_sell@) + u64_le_bytes(e.rate_min.mantissa)
        + u64_le_bytes(e.rate_min.scale as u64) + u64_le_bytes(e.max_sell) + enc_bytes(
        e.token_buy@,
    ) + u64_le_bytes(e.min_buy) + enc_opt_bytes(opt_view(e.vp))
}

/// Serializes an exchange to its canonical bytes.
pub fn encode_exchange(e: &Exchange) -> (r: Vec<u8>)
    ensures
        r@ == exchange_bytes(*e),
{
    let mut out: Vec<u8> = Vec::new();
    push_bytes_field(&mut out, e.addr.encoded_bytes());
    push_bytes_field(&mut out, e.token_sell.encoded_bytes());
    push_u64_le(&mut out, e.rate_min.mantissa);
    push_u64_le(&mut out, e.rate_min.scale as u64);
    push_u64_le(&mut out, e.max_sell);
    push_bytes_field(&mut out, e.token_buy.encoded_bytes());
    push_u64_le(&mut out, e.min_buy);
    push_opt_bytes_field(&mut out, &e.vp);
    proof {
        assert(out@ =~= exchange_bytes(*e));
    }
    out
}

/// An exchange signed by its owner.
pub struct SignedExchange {
    pub exchange: Exchange,
    pub sig: Vec<u8>,
}

/// The canonical encoding of a signed exchange: the exchange, then its
/// signature.
pub open spec fn signed_exchange_bytes(s: SignedExchange) -> Seq<u8> {
    exchange_bytes(s.exchange) + enc_bytes(s.sig@)
}

/// Signs one exchange with its owner's resolved key; the signature covers
/// the exchange's canonical bytes, and the exchange itself is untouched.
pub fn sign_exchange(exchange: Exchange, key: &SigningKey) -> (r: SignedExchange)
    requires
        key.wf(),
    ensures
        r.exchange == exchange,
        r.sig@ == sig_of(key@, exchange_bytes(exchange)),
{
    let bytes = encode_exchange(&exchange);
    let sig = crate::tx::sign_detached(key, &bytes);
    SignedExchange { exchange, sig }
}

/// The canonical encoding of an intent's exchanges, in the order they
/// were collected.
pub open spec fn exchanges_list_bytes(s: Seq<SignedExchange>) -> Seq<u8>
    decreases s.len(),
{
    if s.len() == 0 {
        Seq::empty()
    } else {
        exchanges_list_bytes(s.drop_last()) + signed_exchange_bytes(s.last())
    }
}

/// The canonical encoding of a token intent: the count, then each signed
/// exchange.
pub open spec fn intent_bytes(s: Seq<SignedExchange>) -> Seq<u8> {
    u64_le_bytes(s.len() as u64) + exchanges_list_bytes(s)
}

/// The wire bytes of a signed intent: the intent, then the submitting
/// key's signature over exactly those bytes.
pub open spec fn signed_intent_bytes(s: Seq<SignedExchange>, key: Seq<u8>) -> Seq<u8> {
    intent_bytes(s) + enc_bytes(sig_of(key, intent_bytes(s)))
}

/// Builds the signed intent blob that is written out or gossiped: the
/// collected signed exchanges, signed as a whole by the submitting key.
pub fn build_signed_intent(exchanges: &Vec<SignedExchange>, key: &SigningKey) -> (r: Vec<u8>)
    requires
        key.wf(),
    ensures
        r@ == signed_intent_bytes(exchanges@, key@),
{
    let mut out: Vec<u8> = Vec::new();
    push_u64_le(&mut out, exchanges.len() as u64);
    let ghost mid = out@;
    let mut i: usize = 0;
    while i < exchanges.len()
        invariant
            i <= exchanges@.len(),
            out@ == mid + exchanges_list_bytes(exchanges@.subrange(0, i as int)),
        decreases exchanges@.len() - i,
    {
        let s = &exchanges[i];
        let ebytes = encode_exchange(&s.exchange);
        let ghost before = out@;
        let mut j: usize = 0;
        while j < ebytes.len()
            invariant
                j <= ebytes@.len(),
                out@ == before + ebytes@.subrange(0, j as int),
                ebytes@ == exchange_bytes(exchanges@[i as int].exchange),
                i < exchanges@.len(),
            decreases ebytes@.len() - j,
        {
            out.push(ebytes[j]);
            j = j + 1;
            proof {
                assert(out@ =~= before + ebytes@.subrange(0, j as int));
            }
        }
        push_bytes_field(&mut out, &s.sig);
        i = i + 1;
        proof {
            let pre = exchanges@.subrange(0, i as int);
            assert(pre.drop_last() =~= exchanges@.subrange(0, i - 1));
            assert(ebytes@.subrange(0, ebytes@.len() as int) =~= ebytes@);
            assert(out@ =~= mid + exchanges_list_bytes(pre));
        }
    }
    proof {
        assert(exchanges@.subrange(0, exchanges@.len() as int) =~= exchanges@);
        assert(out@ =~= intent_bytes(exchanges@));
    }
    let sig = crate::tx::sign_detached(key, &out);
    push_bytes_field(&mut out, &sig);
    proof {
        assert(out@ =~= signed_intent_bytes(exchanges@, key@));
    }
    out
}

} // verus!
