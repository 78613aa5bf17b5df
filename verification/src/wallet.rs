//! The local alias store and the reconciliation of newly initialized
//! accounts into it.
//!
//! The store maps aliases to addresses and enforces alias uniqueness: an
//! add is rejected when the alias already names a different address.
//! Reconciliation assigns an alias to every newly created account — from a
//! hint, or from a caller-supplied list of prompt answers — and reports
//! whether the store must be persisted afterwards.

use vstd::prelude::*;
use vstd::string::{StrSliceExecFns, StringExecFns};
use crate::address::{addrs_wf, Address};
use crate::encoding::{all_ascii, ascii_chars, ascii_to_string, dec_digits, u64_to_decimal};

verus! {

/// One alias binding.
pub struct WalletEntry {
    pub alias: String,
    pub address: Address,
}

/// The alias store. Aliases are unique; every bound address is well
/// formed.
pub struct Wallet {
    entries: Vec<WalletEntry>,
}

/// The first binding of an alias, from position `i` on.
pub open spec fn wallet_lookup_from(entries: Seq<WalletEntry>, a: Seq<char>, i: nat) -> Option<
    Seq<u8>,
>
    decreases entries.len() - i,
{
    if i >= entries.len() {
        Option::None
    } else if entries[i as int].alias@ == a {
        Option::Some(entries[i as int].address@)
    } else {
        wallet_lookup_from(entries, a, i + 1)
    }
}

/// The address an alias is bound to, if any.
pub open spec fn wallet_lookup(entries: Seq<WalletEntry>, a: Seq<char>) -> Option<Seq<u8>> {
    wallet_lookup_from(entries, a, 0)
}

/// Appending a binding resolves exactly the aliases the store did not
/// already bind.
proof fn lemma_lookup_from_push(entries: Seq<WalletEntry>, e: WalletEntry, a: Seq<char>, i: nat)
    requires
        i <= entries.len(),
    ensures
        wallet_lookup_from(entries.push(e), a, i) == match wallet_lookup_from(entries, a, i) {
            Option::Some(x) => Option::Some(x),
            Option::None => {
                if a == e.alias@ {
                    Option::Some(e.address@)
                } else {
                    Option::None
                }
            },
        },
    decreases entries.len() - i,
{
    if i < entries.len() {
        assert(entries.push(e)[i as int] == entries[i as int]);
        lemma_lookup_from_push(entries, e, a, i + 1);
    } else {
        assert(entries.push(e)[i as int] == e);
        assert(wallet_lookup_from(entries, a, i) is None);
        assert(wallet_lookup_from(entries.push(e), a, i + 1) is None);
        if a == e.alias@ {
            assert(wallet_lookup_from(entries.push(e), a, i) == Option::Some(e.address@));
        } else {
            assert(wallet_lookup_from(entries.push(e), a, i) is None);
        }
    }
}

/// An unresolved alias matches no entry.
proof fn lemma_lookup_from_none(entries: Seq<WalletEntry>, a: Seq<char>, i: nat)
    requires
        wallet_lookup_from(entries, a, i) is None,
    ensures
        forall|j: int| i <= j < entries.len() ==> entries[j].alias@ != a,
    decreases entries.len() - i,
{
    if i < entries.len() {
        lemma_lookup_from_none(entries, a, i + 1);
    }
}

impl View for Wallet {
    type V = Seq<WalletEntry>;

    closed spec fn view(&self) -> Seq<WalletEntry> {
        self.entries@
    }
}

impl Wallet {
    /// The store's invariant: aliases are pairwise distinct and every
    /// bound address is well formed.
    pub open spec fn wf(&self) -> bool {
        &&& forall|i: int, j: int|
            0 <= i < j < self@.len() ==> self@[i].alias@ != self@[j].alias@
        &&& forall|i: int| 0 <= i < self@.len() ==> #[trigger] self@[i].address.wf()
    }

    /// An empty store.
    pub fn new() -> (r: Wallet)
        ensures
            r.wf(),
            r@.len() == 0,
    {
        Wallet { entries: Vec::new() }
    }

    /// How many bindings the store holds.
    pub fn len(&self) -> (r: usize)
        ensures
            r == self@.len(),
    {
        self.entries.len()
    }

    /// The bindings, in insertion order, for persistence.
    pub fn entries(&self) -> (r: &Vec<WalletEntry>)
        ensures
            r@ == self@,
    {
        &self.entries
    }

    /// The address bound to an alias.
    pub fn find(&self, alias: &String) -> (r: Option<&Address>)
        ensures
            match r {
                Option::None => wallet_lookup(self@, alias@) is None,
                Option::Some(a) => wallet_lookup(self@, alias@) == Option::Some(a@),
            },
    {
        let n = self.entries.len();
        let mut i: usize = 0;
        while i < n
            invariant
                i <= n == self@.len(),
                wallet_lookup(self@, alias@) == wallet_lookup_from(self@, alias@, i as nat),
            decreases n - i,
        {
            let e = &self.entries[i];
            if e.alias.eq(alias) {
                return Some(&e.address);
            }
            i = i + 1;
        }
        None
    }

    /// Binds an alias to an address. The add is accepted when the alias
    /// is free or already names the same address; it is rejected, and the
    /// store left untouched, when the alias names a different address.
    pub fn add_address(&mut self, alias: String, address: Address) -> (r: bool)
        requires
            old(self).wf(),
            address.wf(),
        ensures
            final(self).wf(),
            r == (match wallet_lookup(old(self)@, alias@) {
                Option::None => true,
                Option::Some(e) => e == address@,
            }),
            r ==> forall|a: Seq<char>|
                #[trigger] wallet_lookup(final(self)@, a) == if a == alias@ {
                    Option::Some(address@)
                } else {
                    wallet_lookup(old(self)@, a)
                },
            !r ==> final(self)@ == old(self)@,
    {
        let n = self.entries.len();
        let mut i: usize = 0;
        while i < n
            invariant
                i <= n == self@.len(),
                self@ == old(self)@,
                wallet_lookup(self@, alias@) == wallet_lookup_from(self@, alias@, i as nat),
                old(self).wf(),
                address.wf(),
            decreases n - i,
        {
            let e = &self.entries[i];
            if e.alias.eq(&alias) {
                let same = e.address.same_as(&address);
                proof {
                    assert(wallet_lookup(self@, alias@) == Option::Some(self@[i as int].address@));
                    if same {
                        assert forall|a: Seq<char>|
                            #[trigger] wallet_lookup(final(self)@, a) == if a == alias@ {
                                Option::Some(address@)
                            } else {
                                wallet_lookup(old(self)@, a)
                            } by {}
                    }
                }
                return same;
            }
            i = i + 1;
        }
        proof {
            assert(wallet_lookup(self@, alias@) is None);
            lemma_lookup_from_none(self@, alias@, 0);
        }
        let ghost prev = self@;
        let entry = WalletEntry { alias, address };
        self.entries.push(entry);
        proof {
            assert(self@ == prev.push(entry));
            assert(final(self).wf()) by {
                assert(forall|j: int| 0 <= j < prev.len() ==> prev[j].alias@ != entry.alias@);
                assert(forall|j: int|
                    0 <= j < self@.len() - 1 ==> self@[j] == prev[j]);
                assert(self@[self@.len() - 1] == entry);
            }
            assert forall|a: Seq<char>|
                #[trigger] wallet_lookup(final(self)@, a) == if a == entry.alias@ {
                    Option::Some(entry.address@)
                } else {
                    wallet_lookup(prev, a)
                } by {
                lemma_lookup_from_push(prev, entry, a, 0);
            }
        }
        true
    }
}

/// The alias actually stored for a proposal: an explicitly empty proposal
/// falls back to the address's own canonical encoding.
pub open spec fn effective_alias(proposal: Seq<char>, addr: Seq<u8>) -> Seq<char> {
    if proposal.len() == 0 {
        ascii_chars(addr)
    } else {
        proposal
    }
}

/// The hinted alias of the account at `ix` of `n`: the hint itself for a
/// single account, the hint followed by the decimal index otherwise.
pub open spec fn hinted_alias(hint: Seq<char>, ix: int, n: int) -> Seq<char> {
    if n == 1 {
        hint
    } else {
        hint + ascii_chars(dec_digits(ix as nat))
    }
}

/// The alias the reconciler binds for account `ix` of `n` under a hint.
pub open spec fn hinted_effective(hint: Seq<char>, ix: int, n: int, addr: Seq<u8>) -> Seq<char> {
    effective_alias(hinted_alias(hint, ix, n), addr)
}

/// Decimal digits are ASCII.
proof fn lemma_dec_digits_ascii(n: nat)
    ensures
        all_ascii(dec_digits(n)),
        dec_digits(n).len() > 0,
    decreases n,
{
    if n >= 10 {
        lemma_dec_digits_ascii(n / 10);
        assert(dec_digits(n) == dec_digits(n / 10) + seq![(48 + n % 10) as u8]);
    }
}

/// How a reconciliation run ended.
pub enum ReconcileOutcome {
    /// Every account was bound; `aliases` holds the stored alias of each
    /// account, in order, and `persist` says whether the store must now
    /// be saved — exactly once, and only when something was bound.
    Done { aliases: Vec<String>, persist: bool },
    /// A deterministic hinted alias already names a different address.
    /// Retrying the same hint cannot succeed, so the run stops here; the
    /// accounts before `index` stay bound.
    HintCollision { index: usize },
    /// The answer list ran dry before account `index` was bound; the
    /// accounts before it stay bound.
    InputExhausted { index: usize },
}

/// Builds the hinted alias of account `ix` of `n`.
fn make_hinted_alias(hint: &String, ix: usize, n: usize) -> (r: String)
    requires
        n > 0,
        ix < n,
    ensures
        r@ == hinted_alias(hint@, ix as int, n as int),
{
    if n == 1 {
        hint.clone()
    } else {
        let digits = u64_to_decimal(ix as u64);
        proof {
            lemma_dec_digits_ascii(ix as nat);
        }
        let digits_str = ascii_to_string(&digits);
        hint.clone().concat(digits_str.as_str())
    }
}

/// Resolves a proposal to the stored alias: an empty proposal becomes the
/// address's canonical encoding.
fn resolve_alias(proposal: String, addr: &Address) -> (r: String)
    requires
        addr.wf(),
    ensures
        r@ == effective_alias(proposal@, addr@),
{
    if proposal.as_str().unicode_len() == 0 {
        addr.encode()
    } else {
        proposal
    }
}

/// Reconciles newly initialized accounts into the store.
///
/// With a hint, account `ix` of `n` is proposed as the hint itself when
/// `n` is 1 and as the hint followed by `ix` otherwise. Without a hint,
/// proposals are taken from `answers` in order, retrying each account
/// until one is accepted. An empty proposal falls back to the address's
/// canonical encoding. No account means no store mutation and no persist;
/// otherwise the store must be persisted exactly once, afterwards.
#[verifier::loop_isolation(false)]
pub fn save_initialized_accounts(
    wallet: &mut Wallet,
    accounts: &Vec<Address>,
    alias_hint: &Option<String>,
    answers: &Vec<String>,
) -> (r: ReconcileOutcome)
    requires
        old(wallet).wf(),
        addrs_wf(accounts@),
    ensures
        final(wallet).wf(),
        accounts@.len() == 0 ==> final(wallet)@ == old(wallet)@ && (r matches
            ReconcileOutcome::Done { aliases, persist } && aliases@.len() == 0 && !persist),
        match r {
            ReconcileOutcome::Done { aliases, persist } => {
                &&& persist == (accounts@.len() > 0)
                &&& aliases@.len() == accounts@.len()
                &&& forall|i: int|
                    0 <= i < accounts@.len() ==> wallet_lookup(final(wallet)@, aliases@[i]@)
                        == Option::Some(#[trigger] accounts@[i]@)
                &&& match alias_hint {
                    Option::Some(h) => forall|i: int|
                        0 <= i < accounts@.len() ==> #[trigger] aliases@[i]@ == hinted_effective(
                            h@,
                            i,
                            accounts@.len() as int,
                            accounts@[i]@,
                        ),
                    Option::None => true,
                }
            },
            ReconcileOutcome::HintCollision { index } => {
                &&& alias_hint is Some
                &&& index < accounts@.len()
                &&& {
                    let a = hinted_effective(
                        alias_hint.unwrap()@,
                        index as int,
                        accounts@.len() as int,
                        accounts@[index as int]@,
                    );
                    wallet_lookup(final(wallet)@, a) is Some && wallet_lookup(final(wallet)@, a)
                        != Option::Some(accounts@[index as int]@)
                }
            },
            ReconcileOutcome::InputExhausted { index } => {
                &&& alias_hint is None
                &&& index < accounts@.len()
            },
        },
{
    let n = accounts.len();
    if n == 0 {
        return ReconcileOutcome::Done { aliases: Vec::new(), persist: false };
    }
    let mut aliases: Vec<String> = Vec::new();
    match alias_hint {
        Some(hint) => {
            let mut i: usize = 0;
            while i < n
                invariant
                    0 < n == accounts@.len(),
                    i <= n,
                    wallet.wf(),
                    addrs_wf(accounts@),
                    aliases@.len() == i,
                    forall|k: int|
                        0 <= k < i ==> #[trigger] aliases@[k]@ == hinted_effective(
                            hint@,
                            k,
                            n as int,
                            accounts@[k]@,
                        ),
                    forall|k: int|
                        0 <= k < i ==> wallet_lookup(wallet@, aliases@[k]@) == Option::Some(
                            #[trigger] accounts@[k]@,
                        ),
                decreases n - i,
            {
                let addr = &accounts[i];
                proof {
                    assert(accounts@[i as int].wf());
                }
                let proposal = make_hinted_alias(hint, i, n);
                let alias = resolve_alias(proposal, addr);
                let stored = alias.clone();
                let added = wallet.add_address(alias, addr.duplicate());
                if !added {
                    return ReconcileOutcome::HintCollision { index: i };
                }
                aliases.push(stored);
                i = i + 1;
            }
            ReconcileOutcome::Done { aliases, persist: true }
        },
        None => {
            let mut cursor: usize = 0;
            let mut i: usize = 0;
            while i < n
                invariant
                    0 < n == accounts@.len(),
                    i <= n,
                    cursor <= answers@.len(),
                    wallet.wf(),
                    addrs_wf(accounts@),
                    aliases@.len() == i,
                    forall|k: int|
                        0 <= k < i ==> wallet_lookup(wallet@, aliases@[k]@) == Option::Some(
                            #[trigger] accounts@[k]@,
                        ),
                decreases n - i,
            {
                let addr = &accounts[i];
                proof {
                    assert(accounts@[i as int].wf());
                }
                let mut bound = false;
                while !bound
                    invariant
                        0 < n == accounts@.len(),
                        i < n,
                        cursor <= answers@.len(),
                        wallet.wf(),
                        addrs_wf(accounts@),
                        bound ==> aliases@.len() == i + 1 && wallet_lookup(
                            wallet@,
                            aliases@[i as int]@,
                        ) == Option::Some(accounts@[i as int]@),
                        !bound ==> aliases@.len() == i,
                        forall|k: int|
                            0 <= k < i ==> wallet_lookup(wallet@, aliases@[k]@) == Option::Some(
                                #[trigger] accounts@[k]@,
                            ),
                    decreases answers@.len() - cursor + (if bound {
                        0int
                    } else {
                        1
                    }),
                {
                    if cursor == answers.len() {
                        return ReconcileOutcome::InputExhausted { index: i };
                    }
                    let proposal = answers[cursor].clone();
                    cursor = cursor + 1;
                    let alias = resolve_alias(proposal, addr);
                    let stored = alias.clone();
                    let added = wallet.add_address(alias, addr.duplicate());
                    if added {
                        aliases.push(stored);
                        bound = true;
                    }
                }
                i = i + 1;
                proof {
                    assert(forall|k: int|
                        0 <= k < i ==> wallet_lookup(wallet@, aliases@[k]@) == Option::Some(
                            #[trigger] accounts@[k]@,
                        ));
                }
            }
            ReconcileOutcome::Done { aliases, persist: true }
        },
    }
}

} // verus!
