//! On-chain account addresses, held by their canonical string encoding.

use vstd::prelude::*;
use vstd::string::{StrSliceExecFns, StringSliceAdditionalSpecFns};
use crate::encoding::{all_ascii, ascii_chars, ascii_to_string};

verus! {

/// The bytes that may occur in a canonical address encoding: ASCII digits
/// and letters.
pub open spec fn addr_byte_ok(b: u8) -> bool {
    ||| 48 <= b <= 57
    ||| 65 <= b <= 90
    ||| 97 <= b <= 122
}

/// A well-formed canonical encoding: nonempty, address bytes only.
pub open spec fn addr_bytes_wf(s: Seq<u8>) -> bool {
    &&& s.len() > 0
    &&& forall|i: int| 0 <= i < s.len() ==> addr_byte_ok(s[i])
}

/// An account address, identified by its canonical string encoding.
/// The encoding doubles as the identity: two addresses are the same
/// account exactly when their encodings are byte-identical.
#[derive(Debug)]
pub struct Address {
    bytes: Vec<u8>,
}

impl View for Address {
    type V = Seq<u8>;

    closed spec fn view(&self) -> Seq<u8> {
        self.bytes@
    }
}

impl Address {
    /// The type's invariant: the held encoding is well formed.
    pub open spec fn wf(&self) -> bool {
        addr_bytes_wf(self@)
    }

    /// Parses a canonical encoding; rejects anything outside the address
    /// alphabet and the empty string.
    pub fn from_encoded(s: &str) -> (r: Option<Address>)
        ensures
            r is Some <==> addr_bytes_wf(s.spec_bytes()),
            r is Some ==> r.unwrap()@ == s.spec_bytes() && r.unwrap().wf(),
    {
        let bytes = s.as_bytes_vec();
        if bytes.len() == 0 {
            return None;
        }
        let mut i: usize = 0;
        while i < bytes.len()
            invariant
                i <= bytes@.len(),
                bytes@ == s.spec_bytes(),
                forall|j: int| 0 <= j < i ==> addr_byte_ok(bytes@[j]),
            decreases bytes@.len() - i,
        {
            let b = bytes[i];
            let ok = (48 <= b && b <= 57) || (65 <= b && b <= 90) || (97 <= b && b <= 122);
            if !ok {
                return None;
            }
            i = i + 1;
        }
        Some(Address { bytes })
    }

    /// Builds an address directly from encoding bytes.
    pub fn from_bytes(bytes: Vec<u8>) -> (r: Option<Address>)
        ensures
            r is Some <==> addr_bytes_wf(bytes@),
            r is Some ==> r.unwrap()@ == bytes@ && r.unwrap().wf(),
    {
        if bytes.len() == 0 {
            return None;
        }
        let mut i: usize = 0;
        while i < bytes.len()
            invariant
                i <= bytes@.len(),
                forall|j: int| 0 <= j < i ==> addr_byte_ok(bytes@[j]),
            decreases bytes@.len() - i,
        {
            let b = bytes[i];
            let ok = (48 <= b && b <= 57) || (65 <= b && b <= 90) || (97 <= b && b <= 122);
            if !ok {
                return None;
            }
            i = i + 1;
        }
        Some(Address { bytes })
    }

    /// The canonical encoding as a string.
    pub fn encode(&self) -> (r: String)
        requires
            self.wf(),
        ensures
            r@ == ascii_chars(self@),
    {
        proof {
            assert(all_ascii(self@));
        }
        ascii_to_string(&self.bytes)
    }

    /// The canonical encoding as bytes.
    pub fn encoded_bytes(&self) -> (r: &Vec<u8>)
        ensures
            r@ == self@,
    {
        &self.bytes
    }

    /// A verified copy of the address.
    pub fn duplicate(&self) -> (r: Address)
        ensures
            r@ == self@,
    {
        Address { bytes: crate::encoding::copy_bytes(&self.bytes) }
    }

    /// Whether two addresses are the same account.
    pub fn same_as(&self, other: &Address) -> (r: bool)
        ensures
            r == (self@ == other@),
    {
        let r = self.bytes == other.bytes;
        proof {
            if r {
                assert(self@ =~= other@);
            }
        }
        r
    }
}

/// All addresses of a sequence are well formed.
pub open spec fn addrs_wf(s: Seq<Address>) -> bool {
    forall|i: int| 0 <= i < s.len() ==> #[trigger] s[i].wf()
}

/// The encodings of a sequence of addresses, in order.
pub open spec fn addr_views(s: Seq<Address>) -> Seq<Seq<u8>> {
    Seq::new(s.len(), |i: int| s[i]@)
}

} // verus!
