//! Decoding of the confirmation event into a transaction result.
//!
//! The confirmation event is a map of dotted attribute names to arrays of
//! string values. Five scalar attributes are required, each taken as the
//! first element of its array; the initialized accounts are optional and
//! doubly encoded: the attribute's first element is itself a JSON-encoded
//! array of address strings.

use vstd::prelude::*;
use vstd::string::{StrSliceExecFns, StringExecFns, StringSliceAdditionalSpecFns};
use crate::address::{addr_bytes_wf, addr_views, addrs_wf, Address};
use crate::json::{dec_string_array, json_string_array, lemma_addr_bytes_plain, lemma_json_string_array_ascii, lemma_string_array_round_trip, parse_string_array, plain_items};
use crate::encoding::{all_ascii, ascii_chars, lemma_ascii_chars_utf8};

verus! {

/// One attribute of the confirmation event: a dotted name and its array
/// of values.
pub struct EventEntry {
    pub key: String,
    pub values: Vec<String>,
}

/// The confirmation event: attribute entries in wire order. A repeated
/// name is read at its first occurrence.
pub struct ConfirmationEvent {
    pub entries: Vec<EventEntry>,
}

/// The first entry with the given name, from position `i` on.
pub open spec fn lookup_from(entries: Seq<EventEntry>, k: Seq<char>, i: nat) -> Option<Seq<String>>
    decreases entries.len() - i,
{
    if i >= entries.len() {
        Option::None
    } else if entries[i as int].key@ == k {
        Option::Some(entries[i as int].values@)
    } else {
        lookup_from(entries, k, i + 1)
    }
}

/// The value array of the first entry with the given name.
pub open spec fn lookup(entries: Seq<EventEntry>, k: Seq<char>) -> Option<Seq<String>> {
    lookup_from(entries, k, 0)
}

/// The first element of the named attribute's array, if the attribute is
/// present with a nonempty array.
pub open spec fn first_value(entries: Seq<EventEntry>, k: Seq<char>) -> Option<Seq<char>> {
    match lookup(entries, k) {
        Option::None => Option::None,
        Option::Some(vs) => {
            if vs.len() > 0 {
                Option::Some(vs[0]@)
            } else {
                Option::None
            }
        },
    }
}

/// All five required scalar attributes are present.
pub open spec fn scalars_present(entries: Seq<EventEntry>) -> bool {
    &&& first_value(entries, "applied.info"@) is Some
    &&& first_value(entries, "applied.height"@) is Some
    &&& first_value(entries, "applied.hash"@) is Some
    &&& first_value(entries, "applied.code"@) is Some
    &&& first_value(entries, "applied.gas_used"@) is Some
}

/// The inner accounts attribute, when present.
pub open spec fn accounts_value(entries: Seq<EventEntry>) -> Option<Seq<char>> {
    first_value(entries, "applied.initialized_accounts"@)
}

/// The documented inner decoding of the accounts payload: the JSON array
/// of strings, each of which must be a well-formed address encoding.
pub open spec fn dec_accounts(b: Seq<u8>) -> Option<Seq<Seq<u8>>> {
    match dec_string_array(b) {
        Option::None => Option::None,
        Option::Some(items) => {
            if forall|i: int| 0 <= i < items.len() ==> #[trigger] addr_bytes_wf(items[i]) {
                Option::Some(items)
            } else {
                Option::None
            }
        },
    }
}

/// A confirmation event that decodes: all five scalars present, and the
/// accounts payload, when present, a JSON array of well-formed address
/// strings.
pub open spec fn event_decodable(entries: Seq<EventEntry>) -> bool {
    &&& scalars_present(entries)
    &&& match accounts_value(entries) {
        Option::None => true,
        Option::Some(raw) => dec_accounts(vstd::utf8::encode_utf8(raw)) is Some,
    }
}

/// Why a confirmation event failed to decode.
#[derive(Debug)]
pub enum DecodeError {
    /// A required scalar attribute is absent or has an empty array.
    MissingField,
    /// The accounts attribute is present but its doubly-encoded payload
    /// is not a JSON array of well-formed address strings.
    InvalidAccounts,
}

/// The structured result of a confirmed transaction. Created only from a
/// complete confirmation event; never partially populated.
pub struct TxResponse {
    pub info: String,
    pub height: String,
    pub hash: String,
    pub code: String,
    pub gas_used: String,
    pub initialized_accounts: Vec<Address>,
}

/// The decoded result corresponds to the event: every scalar is the
/// first element of its attribute's array, and the account list is the
/// double decoding of the accounts attribute — empty when that attribute
/// is absent or empty.
pub open spec fn response_matches(resp: TxResponse, entries: Seq<EventEntry>) -> bool {
    &&& Option::Some(resp.info@) == first_value(entries, "applied.info"@)
    &&& Option::Some(resp.height@) == first_value(entries, "applied.height"@)
    &&& Option::Some(resp.hash@) == first_value(entries, "applied.hash"@)
    &&& Option::Some(resp.code@) == first_value(entries, "applied.code"@)
    &&& Option::Some(resp.gas_used@) == first_value(entries, "applied.gas_used"@)
    &&& addrs_wf(resp.initialized_accounts@)
    &&& match accounts_value(entries) {
        Option::None => resp.initialized_accounts@.len() == 0,
        Option::Some(raw) => dec_accounts(vstd::utf8::encode_utf8(raw)) == Option::Some(
            addr_views(resp.initialized_accounts@),
        ),
    }
}

/// Returns a copy of the first element of the named attribute's array.
fn first_value_exec(entries: &Vec<EventEntry>, key: &String) -> (r: Option<String>)
    ensures
        match r {
            Option::None => first_value(entries@, key@) is None,
            Option::Some(s) => first_value(entries@, key@) == Option::Some(s@),
        },
{
    let n = entries.len();
    let mut i: usize = 0;
    while i < n
        invariant
            i <= n == entries@.len(),
            lookup(entries@, key@) == lookup_from(entries@, key@, i as nat),
        decreases n - i,
    {
        let e = &entries[i];
        if e.key.eq(key) {
            if e.values.len() > 0 {
                let v = e.values[0].clone();
                return Some(v);
            } else {
                return None;
            }
        }
        i = i + 1;
    }
    None
}

/// Parses the doubly-encoded accounts payload into addresses.
pub fn decode_accounts(raw: &String) -> (r: Option<Vec<Address>>)
    ensures
        match r {
            Option::None => dec_accounts(vstd::utf8::encode_utf8(raw@)) is None,
            Option::Some(addrs) => {
                &&& dec_accounts(vstd::utf8::encode_utf8(raw@)) == Option::Some(
                    addr_views(addrs@),
                )
                &&& addrs_wf(addrs@)
            },
        },
{
    let bytes = raw.as_str().as_bytes_vec();
    let items = match parse_string_array(&bytes) {
        Some(items) => items,
        None => {
            return None;
        },
    };
    let ghost views = crate::json::byte_vecs_view(items@);
    let mut addrs: Vec<Address> = Vec::new();
    let mut i: usize = 0;
    while i < items.len()
        invariant
            i <= items@.len(),
            views == crate::json::byte_vecs_view(items@),
            dec_string_array(vstd::utf8::encode_utf8(raw@)) == Option::Some(views),
            addrs@.len() == i,
            forall|k: int| 0 <= k < i ==> #[trigger] addrs@[k]@ == views[k] && addrs@[k].wf(),
        decreases items@.len() - i,
    {
        let item = crate::encoding::copy_bytes(&items[i]);
        match Address::from_bytes(item) {
            Some(a) => {
                addrs.push(a);
            },
            None => {
                proof {
                    assert(!addr_bytes_wf(views[i as int]));
                }
                return None;
            },
        }
        i = i + 1;
    }
    proof {
        assert(addr_views(addrs@) =~= views);
        assert(forall|k: int| 0 <= k < views.len() ==> #[trigger] addr_bytes_wf(views[k])) by {
            assert(forall|k: int|
                0 <= k < addrs@.len() ==> #[trigger] addrs@[k].wf() && addrs@[k]@ == views[k]);
        }
    }
    Some(addrs)
}

impl TxResponse {
    /// Decodes a confirmation event: the five required scalars, each the
    /// first element of its attribute's array, and the optional doubly-
    /// encoded accounts. A missing scalar or a bad accounts payload is an
    /// error; an absent or empty accounts attribute is an empty list.
    pub fn from_event(ev: &ConfirmationEvent) -> (r: Result<TxResponse, DecodeError>)
        ensures
            r is Ok <==> event_decodable(ev.entries@),
            match r {
                Result::Ok(resp) => response_matches(resp, ev.entries@),
                Result::Err(DecodeError::MissingField) => !scalars_present(ev.entries@),
                Result::Err(DecodeError::InvalidAccounts) => {
                    &&& scalars_present(ev.entries@)
                    &&& accounts_value(ev.entries@) is Some
                    &&& dec_accounts(
                        vstd::utf8::encode_utf8(accounts_value(ev.entries@).unwrap()),
                    ) is None
                },
            },
    {
        let k_info = <String as StringExecFns>::from_str("applied.info");
        let k_height = <String as StringExecFns>::from_str("applied.height");
        let k_hash = <String as StringExecFns>::from_str("applied.hash");
        let k_code = <String as StringExecFns>::from_str("applied.code");
        let k_gas = <String as StringExecFns>::from_str("applied.gas_used");
        let k_accounts = <String as StringExecFns>::from_str("applied.initialized_accounts");
        let info = match first_value_exec(&ev.entries, &k_info) {
            Some(s) => s,
            None => {
                return Err(DecodeError::MissingField);
            },
        };
        let height = match first_value_exec(&ev.entries, &k_height) {
            Some(s) => s,
            None => {
                return Err(DecodeError::MissingField);
            },
        };
        let hash = match first_value_exec(&ev.entries, &k_hash) {
            Some(s) => s,
            None => {
                return Err(DecodeError::MissingField);
            },
        };
        let code = match first_value_exec(&ev.entries, &k_code) {
            Some(s) => s,
            None => {
                return Err(DecodeError::MissingField);
            },
        };
        let gas_used = match first_value_exec(&ev.entries, &k_gas) {
            Some(s) => s,
            None => {
                return Err(DecodeError::MissingField);
            },
        };
        let initialized_accounts = match first_value_exec(&ev.entries, &k_accounts) {
            None => Vec::new(),
            Some(raw) => {
                match decode_accounts(&raw) {
                    Some(addrs) => addrs,
                    None => {
                        return Err(DecodeError::InvalidAccounts);
                    },
                }
            },
        };
        Ok(TxResponse { info, height, hash, code, gas_used, initialized_accounts })
    }
}

/// Round trip: the documented double-encoding of an account list, fed to
/// the documented inner decoder, recovers the original ordered list
/// exactly.
pub proof fn lemma_accounts_round_trip(addrs: Seq<Seq<u8>>)
    requires
        forall|i: int| 0 <= i < addrs.len() ==> #[trigger] addr_bytes_wf(addrs[i]),
    ensures
        dec_accounts(json_string_array(addrs)) == Option::Some(addrs),
{
    assert(plain_items(addrs)) by {
        assert forall|i: int| 0 <= i < addrs.len() implies #[trigger] crate::json::plain_item(
            addrs[i],
        ) by {
            assert(addr_bytes_wf(addrs[i]));
            lemma_addr_bytes_plain(addrs[i]);
        }
    }
    lemma_string_array_round_trip(addrs);
}

/// The same round trip through the text form: rendering the double
/// encoding as an ASCII string and taking that string's UTF-8 bytes
/// changes nothing.
pub proof fn lemma_accounts_round_trip_text(addrs: Seq<Seq<u8>>)
    requires
        forall|i: int| 0 <= i < addrs.len() ==> #[trigger] addr_bytes_wf(addrs[i]),
    ensures
        dec_accounts(
            vstd::utf8::encode_utf8(ascii_chars(json_string_array(addrs))),
        ) == Option::Some(addrs),
{
    assert(plain_items(addrs)) by {
        assert forall|i: int| 0 <= i < addrs.len() implies #[trigger] crate::json::plain_item(
            addrs[i],
        ) by {
            assert(addr_bytes_wf(addrs[i]));
            lemma_addr_bytes_plain(addrs[i]);
        }
    }
    lemma_json_string_array_ascii(addrs);
    lemma_ascii_chars_utf8(json_string_array(addrs));
    lemma_accounts_round_trip(addrs);
}

} // verus!
