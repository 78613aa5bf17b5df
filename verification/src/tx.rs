//! Wire transactions: canonical encoding, signing, and the confirmation
//! fingerprint.

use vstd::prelude::*;
use sha2::Digest;
use ed25519_dalek::Signer;
use crate::encoding::{
    all_ascii, ascii_chars, ascii_to_string, enc_bytes, enc_opt_bytes, push_bytes_field,
    push_opt_bytes_field,
};

verus! {

/// The SHA-256 digest of a byte sequence; a function of the bytes alone.
pub uninterp spec fn sha256_of(data: Seq<u8>) -> Seq<u8>;

/// Relies on `sha2::Sha256::digest`: the digest is 32 bytes and depends
/// on the input bytes alone.
#[verifier::external_body]
pub fn hash_tx(tx_bytes: &Vec<u8>) -> (r: Vec<u8>)
    ensures
        r@ == sha256_of(tx_bytes@),
        r@.len() == 32,
{
    sha2::Sha256::digest(tx_bytes.as_slice()).to_vec()
}

/// The detached Ed25519 signature of a message under a 32-byte secret key.
/// Ed25519 signing is deterministic, so the signature is a function of the
/// key and message alone.
pub uninterp spec fn sig_of(key: Seq<u8>, msg: Seq<u8>) -> Seq<u8>;

/// Relies on `ed25519_dalek::SigningKey::from_bytes` (total on 32-byte
/// keys) and `Signer::sign`: the detached signature is 64 bytes and, per
/// RFC 8032, a deterministic function of key and message.
#[verifier::external_body]
fn ed25519_sign(key: &Vec<u8>, msg: &Vec<u8>) -> (r: Vec<u8>)
    requires
        key@.len() == 32,
    ensures
        r@ == sig_of(key@, msg@),
        r@.len() == 64,
{
    let mut kb = [0u8; 32];
    kb.copy_from_slice(key.as_slice());
    let sk = ed25519_dalek::SigningKey::from_bytes(&kb);
    sk.sign(msg.as_slice()).to_bytes().to_vec()
}

/// Signs a message with a resolved key.
pub(crate) fn sign_detached(key: &SigningKey, msg: &Vec<u8>) -> (r: Vec<u8>)
    requires
        key.wf(),
    ensures
        r@ == sig_of(key@, msg@),
{
    ed25519_sign(&key.bytes, msg)
}

/// Resolved secret key material, as handed back by the wallet's key
/// resolver.
pub struct SigningKey {
    bytes: Vec<u8>,
}

impl View for SigningKey {
    type V = Seq<u8>;

    closed spec fn view(&self) -> Seq<u8> {
        self.bytes@
    }
}

impl SigningKey {
    /// The type's invariant: exactly the Ed25519 secret-key length.
    pub open spec fn wf(&self) -> bool {
        self@.len() == 32
    }

    /// Accepts exactly 32 bytes of key material.
    pub fn from_bytes(bytes: Vec<u8>) -> (r: Option<SigningKey>)
        ensures
            r is Some <==> bytes@.len() == 32,
            r is Some ==> r.unwrap()@ == bytes@ && r.unwrap().wf(),
    {
        if bytes.len() == 32 {
            Some(SigningKey { bytes })
        } else {
            None
        }
    }
}

/// The bytes the signature covers: the canonical encoding of code and
/// data, without the signature slot.
pub open spec fn signable_bytes(code: Seq<u8>, data: Option<Seq<u8>>) -> Seq<u8> {
    enc_bytes(code) + enc_opt_bytes(data)
}

/// The canonical wire encoding of a transaction: code, data, signature.
/// The confirmation fingerprint is the SHA-256 digest of exactly these
/// bytes.
pub open spec fn wire_bytes(code: Seq<u8>, data: Option<Seq<u8>>, sig: Option<Seq<u8>>) -> Seq<u8> {
    enc_bytes(code) + enc_opt_bytes(data) + enc_opt_bytes(sig)
}

/// A transaction: WASM code bytes, an optional payload, and at most one
/// signature. A transaction is either fully unsigned or carries exactly
/// one signature; there is no partial state.
pub struct Tx {
    pub code: Vec<u8>,
    pub data: Option<Vec<u8>>,
    pub sig: Option<Vec<u8>>,
}

/// The view of an optional byte vector.
pub open spec fn opt_view(o: Option<Vec<u8>>) -> Option<Seq<u8>> {
    match o {
        Option::None => Option::None,
        Option::Some(v) => Option::Some(v@),
    }
}

impl Tx {
    /// An unsigned transaction over the given code and payload.
    pub fn new(code: Vec<u8>, data: Option<Vec<u8>>) -> (r: Tx)
        ensures
            r.code@ == code@,
            opt_view(r.data) == opt_view(data),
            r.sig is None,
    {
        Tx { code, data, sig: None }
    }

    /// Signs the transaction: the signature covers the canonical encoding
    /// of code and data, and the payload itself is left untouched.
    pub fn sign(self, key: &SigningKey) -> (r: Tx)
        requires
            key.wf(),
            self.sig is None,
        ensures
            r.code@ == self.code@,
            opt_view(r.data) == opt_view(self.data),
            opt_view(r.sig) == Option::Some(sig_of(key@, signable_bytes(self.code@, opt_view(self.data)))),
    {
        let mut msg: Vec<u8> = Vec::new();
        push_bytes_field(&mut msg, &self.code);
        push_opt_bytes_field(&mut msg, &self.data);
        let sig = ed25519_sign(&key.bytes, &msg);
        proof {
            assert(msg@ =~= signable_bytes(self.code@, opt_view(self.data)));
        }
        Tx { code: self.code, data: self.data, sig: Some(sig) }
    }

    /// The canonical wire bytes that are broadcast and fingerprinted.
    pub fn to_bytes(&self) -> (r: Vec<u8>)
        ensures
            r@ == wire_bytes(self.code@, opt_view(self.data), opt_view(self.sig)),
    {
        let mut out: Vec<u8> = Vec::new();
        push_bytes_field(&mut out, &self.code);
        push_opt_bytes_field(&mut out, &self.data);
        push_opt_bytes_field(&mut out, &self.sig);
        proof {
            assert(out@ =~= wire_bytes(self.code@, opt_view(self.data), opt_view(self.sig)));
        }
        out
    }
}

/// One uppercase hexadecimal digit.
pub open spec fn hex_digit(n: u8) -> u8 {
    if n < 10 {
        (48 + n) as u8
    } else {
        (55 + n) as u8
    }
}

/// The uppercase hexadecimal rendering of a byte sequence, two digits a
/// byte, high nibble first.
pub open spec fn hex_bytes(b: Seq<u8>) -> Seq<u8> {
    Seq::new(b.len() * 2, |i: int| {
        if i % 2 == 0 {
            hex_digit(b[i / 2] / 16)
        } else {
            hex_digit(b[i / 2] % 16)
        }
    })
}

/// Renders bytes as uppercase hexadecimal text.
pub fn hex_encode(v: &Vec<u8>) -> (r: Vec<u8>)
    ensures
        r@ == hex_bytes(v@),
        all_ascii(r@),
{
    let mut r: Vec<u8> = Vec::new();
    let mut i: usize = 0;
    while i < v.len()
        invariant
            i <= v@.len(),
            r@ == hex_bytes(v@.subrange(0, i as int)),
        decreases v@.len() - i,
    {
        let b = v[i];
        let hi = b / 16;
        let lo = b % 16;
        let hi_d: u8 = if hi < 10 { 48 + hi } else { 55 + hi };
        let lo_d: u8 = if lo < 10 { 48 + lo } else { 55 + lo };
        r.push(hi_d);
        r.push(lo_d);
        i = i + 1;
        proof {
            assert(r@ =~= hex_bytes(v@.subrange(0, i as int)));
        }
    }
    proof {
        assert(v@.subrange(0, v@.len() as int) =~= v@);
        assert forall|i: int| 0 <= i < r@.len() implies r@[i] < 128 by {}
    }
    r
}

/// The fingerprint of a transaction's wire bytes, in its string form: the
/// uppercase hexadecimal rendering of the SHA-256 digest. It is computed
/// from the exact bytes that will be broadcast, before any connection is
/// opened.
pub fn tx_fingerprint(tx_bytes: &Vec<u8>) -> (r: String)
    ensures
        r@ == ascii_chars(hex_bytes(sha256_of(tx_bytes@))),
{
    let digest = hash_tx(tx_bytes);
    let hex = hex_encode(&digest);
    ascii_to_string(&hex)
}

} // verus!
