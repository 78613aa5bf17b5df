//! The doubly-encoded accounts payload: a JSON array of plain strings.
//!
//! The confirmation event carries the initialized accounts as a JSON-encoded
//! string that itself holds a JSON array of address strings, so the wire
//! form here is exactly `["a","b"]` over strings that need no escaping.
//! This nesting is a wire-compatibility quirk and is preserved as such.

use vstd::prelude::*;
use crate::address::{addr_byte_ok, addrs_wf, addr_views, Address};
use crate::encoding::{all_ascii, ascii_chars, ascii_to_string};

verus! {

/// A byte that may stand unescaped inside a JSON string literal here:
/// printable ASCII except the quote and the backslash. Canonical address
/// encodings use only a subset of these.
pub open spec fn json_plain_byte(b: u8) -> bool {
    &&& 32 <= b < 127
    &&& b != 34
    &&& b != 92
}

/// A string that needs no escaping.
pub open spec fn plain_item(s: Seq<u8>) -> bool {
    forall|i: int| 0 <= i < s.len() ==> json_plain_byte(s[i])
}

/// All items of a list need no escaping.
pub open spec fn plain_items(items: Seq<Seq<u8>>) -> bool {
    forall|i: int| 0 <= i < items.len() ==> #[trigger] plain_item(items[i])
}

/// A quoted JSON string literal.
pub open spec fn quoted(s: Seq<u8>) -> Seq<u8> {
    seq![34u8] + s + seq![34u8]
}

/// The comma-separated quoted items of a JSON array body.
pub open spec fn joined_items(items: Seq<Seq<u8>>) -> Seq<u8>
    decreases items.len(),
{
    if items.len() == 0 {
        Seq::empty()
    } else if items.len() == 1 {
        quoted(items[0])
    } else {
        quoted(items[0]) + seq![44u8] + joined_items(items.drop_first())
    }
}

/// The documented encoding of a string list: a JSON array of string
/// literals, compact, in order.
pub open spec fn json_string_array(items: Seq<Seq<u8>>) -> Seq<u8> {
    seq![91u8] + joined_items(items) + seq![93u8]
}

/// The documented decoder of one string literal's body: the bytes up to
/// the closing quote, and what follows it.
pub open spec fn take_item(s: Seq<u8>) -> Option<(Seq<u8>, Seq<u8>)>
    decreases s.len(),
{
    if s.len() == 0 {
        Option::None
    } else if s[0] == 34 {
        Option::Some((Seq::empty(), s.drop_first()))
    } else if json_plain_byte(s[0]) {
        match take_item(s.drop_first()) {
            Option::None => Option::None,
            Option::Some(pair) => Option::Some((seq![s[0]] + pair.0, pair.1)),
        }
    } else {
        Option::None
    }
}

/// The documented decoder of an array body: quoted items separated by
/// commas, none trailing. `fuel` bounds the recursion; any fuel above the
/// item count gives the same answer.
pub open spec fn dec_items(s: Seq<u8>, fuel: nat) -> Option<Seq<Seq<u8>>>
    decreases fuel,
{
    if fuel == 0 {
        Option::None
    } else if s.len() == 0 {
        Option::Some(Seq::empty())
    } else if s[0] == 34 {
        match take_item(s.drop_first()) {
            Option::None => Option::None,
            Option::Some(pair) => {
                if pair.1.len() == 0 {
                    Option::Some(seq![pair.0])
                } else if pair.1[0] == 44 {
                    match dec_items(pair.1.drop_first(), (fuel - 1) as nat) {
                        Option::None => Option::None,
                        Option::Some(tail) => {
                            if tail.len() > 0 {
                                Option::Some(seq![pair.0] + tail)
                            } else {
                                Option::None
                            }
                        },
                    }
                } else {
                    Option::None
                }
            },
        }
    } else {
        Option::None
    }
}

/// The documented decoder of the whole array.
pub open spec fn dec_string_array(b: Seq<u8>) -> Option<Seq<Seq<u8>>> {
    if b.len() >= 2 && b[0] == 91 && b[b.len() - 1] == 93 {
        dec_items(b.subrange(1, b.len() - 1), b.len() as nat)
    } else {
        Option::None
    }
}

/// Scanning a plain prefix up to a quote takes exactly that prefix.
proof fn lemma_take_item_plain_prefix(p: Seq<u8>, r: Seq<u8>)
    requires
        plain_item(p),
    ensures
        take_item(p + seq![34u8] + r) == Option::<(Seq<u8>, Seq<u8>)>::Some((p, r)),
    decreases p.len(),
{
    let s = p + seq![34u8] + r;
    if p.len() == 0 {
        assert(s[0] == 34);
        assert(s.drop_first() =~= r);
        assert(p =~= Seq::<u8>::empty());
    } else {
        assert(s[0] == p[0]);
        assert(json_plain_byte(p[0]));
        assert(p[0] != 34);
        lemma_take_item_plain_prefix(p.drop_first(), r);
        assert(s.drop_first() =~= p.drop_first() + seq![34u8] + r);
        assert(seq![s[0]] + p.drop_first() =~= p);
    }
}

/// A body with more fuel than items decodes the canonical encoding back
/// to the items.
proof fn lemma_dec_items_enc(items: Seq<Seq<u8>>, fuel: nat)
    requires
        plain_items(items),
        fuel >= items.len() + 1,
    ensures
        dec_items(joined_items(items), fuel) == Option::Some(items),
    decreases items.len(),
{
    if items.len() == 0 {
        assert(joined_items(items).len() == 0);
        assert(dec_items(joined_items(items), fuel) == Option::Some(Seq::<Seq<u8>>::empty()));
        assert(items =~= Seq::<Seq<u8>>::empty());
    } else if items.len() == 1 {
        let s = joined_items(items);
        assert(plain_item(items[0]));
        assert(s =~= quoted(items[0]));
        assert(s[0] == 34);
        assert(s.drop_first() =~= items[0] + seq![34u8] + Seq::<u8>::empty());
        lemma_take_item_plain_prefix(items[0], Seq::empty());
        assert(items =~= seq![items[0]]);
    } else {
        let s = joined_items(items);
        let tail = items.drop_first();
        let rest = seq![44u8] + joined_items(tail);
        assert(s =~= quoted(items[0]) + rest);
        assert(s[0] == 34);
        assert(s.drop_first() =~= items[0] + seq![34u8] + rest);
        assert(plain_item(items[0]));
        lemma_take_item_plain_prefix(items[0], rest);
        assert(rest.len() > 0 && rest[0] == 44);
        assert(rest.drop_first() =~= joined_items(tail));
        assert(plain_items(tail)) by {
            assert(forall|i: int|
                0 <= i < tail.len() ==> tail[i] == items[i + 1] && plain_item(items[i + 1]));
        }
        lemma_dec_items_enc(tail, (fuel - 1) as nat);
        assert(tail.len() > 0);
        assert(seq![items[0]] + tail =~= items);
    }
}

/// The body of a nonempty canonical array is at least three bytes an item.
proof fn lemma_joined_items_len(items: Seq<Seq<u8>>)
    ensures
        items.len() > 0 ==> joined_items(items).len() >= 3 * items.len() - 1,
    decreases items.len(),
{
    if items.len() > 1 {
        lemma_joined_items_len(items.drop_first());
    }
}

/// Round trip: the documented double-encoding of a list of plain strings,
/// fed to the documented decoder, yields the original ordered list
/// exactly.
pub proof fn lemma_string_array_round_trip(items: Seq<Seq<u8>>)
    requires
        plain_items(items),
    ensures
        dec_string_array(json_string_array(items)) == Option::Some(items),
{
    let b = json_string_array(items);
    assert(b[0] == 91);
    assert(b[b.len() - 1] == 93);
    assert(b.subrange(1, b.len() - 1) =~= joined_items(items));
    lemma_joined_items_len(items);
    assert(b.len() >= items.len() + 1);
    lemma_dec_items_enc(items, b.len() as nat);
}

/// A decoded item is the literal's body: sound direction of the grammar.
proof fn lemma_take_item_sound(s: Seq<u8>, item: Seq<u8>, rest: Seq<u8>)
    requires
        take_item(s) == Option::<(Seq<u8>, Seq<u8>)>::Some((item, rest)),
    ensures
        s == item + seq![34u8] + rest,
        plain_item(item),
    decreases s.len(),
{
    if s[0] == 34 {
        assert(item =~= Seq::<u8>::empty());
        assert(s =~= item + seq![34u8] + rest);
    } else {
        let pair = take_item(s.drop_first()).unwrap();
        lemma_take_item_sound(s.drop_first(), pair.0, pair.1);
        assert(s =~= seq![s[0]] + s.drop_first());
        assert(item =~= seq![s[0]] + pair.0);
        assert(s =~= item + seq![34u8] + rest);
        assert(forall|i: int| 0 <= i < item.len() ==> json_plain_byte(item[i]));
    }
}

/// A decoded body is the canonical encoding of its items: sound direction.
proof fn lemma_dec_items_sound(s: Seq<u8>, fuel: nat, items: Seq<Seq<u8>>)
    requires
        dec_items(s, fuel) == Option::Some(items),
    ensures
        s == joined_items(items),
        plain_items(items),
    decreases fuel,
{
    if s.len() == 0 {
        assert(items =~= Seq::<Seq<u8>>::empty());
        assert(s =~= joined_items(items));
    } else {
        let pair = take_item(s.drop_first()).unwrap();
        lemma_take_item_sound(s.drop_first(), pair.0, pair.1);
        if pair.1.len() == 0 {
            assert(items =~= seq![pair.0]);
            assert(joined_items(items) =~= quoted(pair.0));
            assert(s =~= seq![s[0]] + s.drop_first());
            assert(s =~= joined_items(items));
        } else {
            let tail = dec_items(pair.1.drop_first(), (fuel - 1) as nat).unwrap();
            lemma_dec_items_sound(pair.1.drop_first(), (fuel - 1) as nat, tail);
            assert(items =~= seq![pair.0] + tail);
            assert(items.drop_first() =~= tail);
            assert(joined_items(items) =~= quoted(pair.0) + seq![44u8] + joined_items(tail));
            assert(s =~= seq![s[0]] + s.drop_first());
            assert(pair.1 =~= seq![44u8] + pair.1.drop_first());
            assert(s =~= joined_items(items));
            assert(forall|i: int|
                0 <= i < items.len() ==> #[trigger] plain_item(items[i])) by {
                assert(plain_item(items[0]));
                assert(forall|i: int|
                    1 <= i < items.len() ==> items[i] == tail[i - 1] && #[trigger] plain_item(
                        tail[i - 1],
                    ));
            }
        }
    }
}

/// Whatever the decoder accepts is the canonical encoding of what it
/// returns: no other byte string decodes to a given list.
pub proof fn lemma_dec_string_array_sound(b: Seq<u8>, items: Seq<Seq<u8>>)
    requires
        dec_string_array(b) == Option::Some(items),
    ensures
        b == json_string_array(items),
        plain_items(items),
{
    lemma_dec_items_sound(b.subrange(1, b.len() - 1), b.len() as nat, items);
    assert(b =~= seq![91u8] + b.subrange(1, b.len() - 1) + seq![93u8]);
}

/// The views of a list of byte vectors.
pub open spec fn byte_vecs_view(v: Seq<Vec<u8>>) -> Seq<Seq<u8>> {
    Seq::new(v.len(), |i: int| v[i]@)
}

/// Serializes a list of plain strings as a compact JSON array of string
/// literals.
pub fn encode_string_array(items: &Vec<Vec<u8>>) -> (r: Vec<u8>)
    requires
        plain_items(byte_vecs_view(items@)),
    ensures
        r@ == json_string_array(byte_vecs_view(items@)),
{
    let ghost views = byte_vecs_view(items@);
    let mut out: Vec<u8> = Vec::new();
    out.push(91u8);
    let mut i: usize = 0;
    while i < items.len()
        invariant
            i <= items@.len(),
            views == byte_vecs_view(items@),
            plain_items(views),
            out@ == seq![91u8] + joined_items(views.subrange(0, i as int)),
        decreases items@.len() - i,
    {
        if i > 0 {
            out.push(44u8);
        }
        out.push(34u8);
        let ghost mid = out@;
        let item = &items[i];
        let mut j: usize = 0;
        while j < item.len()
            invariant
                j <= item@.len(),
                out@ == mid + item@.subrange(0, j as int),
            decreases item@.len() - j,
        {
            out.push(item[j]);
            j = j + 1;
            proof {
                assert(out@ =~= mid + item@.subrange(0, j as int));
            }
        }
        out.push(34u8);
        i = i + 1;
        proof {
            assert(item@.subrange(0, item@.len() as int) =~= item@);
            lemma_joined_snoc(views.subrange(0, i as int));
            assert(views.subrange(0, i as int).drop_last() =~= views.subrange(0, i - 1));
            assert(views.subrange(0, i as int).last() == items@[i - 1]@);
            assert(out@ =~= seq![91u8] + joined_items(views.subrange(0, i as int)));
        }
    }
    out.push(93u8);
    proof {
        assert(views.subrange(0, views.len() as int) =~= views);
        assert(out@ =~= json_string_array(views));
    }
    out
}

/// A scan that runs past `m` plain bytes and then neither finds a quote
/// nor may go on never finds the literal's end.
proof fn lemma_take_item_stuck(s: Seq<u8>, m: int)
    requires
        0 <= m <= s.len(),
        forall|j: int| 0 <= j < m ==> json_plain_byte(s[j]),
        m == s.len() || (s[m] != 34 && !json_plain_byte(s[m])),
    ensures
        take_item(s) is None,
    decreases m,
{
    if m == 0 {
        if s.len() > 0 {
            assert(s[0] != 34 && !json_plain_byte(s[0]));
        }
    } else {
        assert(json_plain_byte(s[0]));
        lemma_take_item_stuck(s.drop_first(), m - 1);
    }
}

/// How a partial parse extends: the whole body decodes as the parsed
/// prefix followed by whatever the remaining suffix decodes to.
pub open spec fn combine_parse(k: nat, acc: Seq<Seq<u8>>, sub: Option<Seq<Seq<u8>>>) -> Option<
    Seq<Seq<u8>>,
> {
    match sub {
        Option::None => Option::None,
        Option::Some(tail) => {
            if k == 0 || tail.len() > 0 {
                Option::Some(acc + tail)
            } else {
                Option::None
            }
        },
    }
}

/// Parses a compact JSON array of plain string literals; returns exactly
/// what the documented decoder gives.
#[verifier::loop_isolation(false)]
pub fn parse_string_array(b: &Vec<u8>) -> (r: Option<Vec<Vec<u8>>>)
    ensures
        match r {
            Option::None => dec_string_array(b@) is None,
            Option::Some(items) => dec_string_array(b@) == Option::Some(byte_vecs_view(items@)),
        },
{
    let n = b.len();
    if n < 2 || b[0] != 91 || b[n - 1] != 93 {
        return None;
    }
    let ghost interior = b@.subrange(1, n - 1);
    let ghost fuel0 = b@.len() as nat;
    if n == 2 {
        proof {
            assert(interior.len() == 0);
            assert(byte_vecs_view(Seq::<Vec<u8>>::empty()) =~= Seq::<Seq<u8>>::empty());
        }
        return Some(Vec::new());
    }
    let mut acc: Vec<Vec<u8>> = Vec::new();
    let mut pos: usize = 1;
    proof {
        assert(b@.subrange(pos as int, n - 1) =~= interior);
        assert(byte_vecs_view(acc@) + dec_items(interior, fuel0).unwrap() =~= dec_items(
            interior,
            fuel0,
        ).unwrap()) by {
            if dec_items(interior, fuel0) is Some {
                assert(byte_vecs_view(acc@) =~= Seq::<Seq<u8>>::empty());
            }
        }
    }
    loop
        invariant
            2 < n == b@.len(),
            b@[0] == 91,
            b@[n - 1] == 93,
            interior == b@.subrange(1, n - 1),
            fuel0 == b@.len() as nat,
            1 <= pos <= n - 1,
            acc@.len() < pos,
            dec_items(interior, fuel0) == combine_parse(
                acc@.len() as nat,
                byte_vecs_view(acc@),
                dec_items(b@.subrange(pos as int, n - 1), (fuel0 - acc@.len()) as nat),
            ),
        decreases n - pos,
    {
        let ghost k = acc@.len() as nat;
        let ghost fuel = (fuel0 - acc@.len()) as nat;
        let ghost suffix = b@.subrange(pos as int, n - 1);
        proof {
            assert(fuel > 0);
        }
        if pos == n - 1 {
            // a separator with nothing after it: the decoder rejects this
            proof {
                assert(suffix.len() == 0);
                assert(dec_items(suffix, fuel) == Option::Some(Seq::<Seq<u8>>::empty()));
                assert(k > 0);
            }
            return None;
        }
        proof {
            assert(suffix.len() > 0);
            assert(suffix[0] == b@[pos as int]);
        }
        if b[pos] != 34 {
            return None;
        }
        // scan for the closing quote: 0 scanning, 1 found, 2 bad byte,
        // 3 ran off the body's end
        let mut q: usize = pos + 1;
        let mut scan: u8 = 0;
        while scan == 0
            invariant
                pos + 1 <= q <= n - 1,
                forall|j: int| pos + 1 <= j < q ==> json_plain_byte(b@[j]),
                scan == 1 ==> q <= n - 2 && b@[q as int] == 34,
                scan == 2 ==> q <= n - 2 && b@[q as int] != 34 && !json_plain_byte(b@[q as int]),
                scan == 3 ==> q == n - 1,
                scan <= 3,
            decreases 2 * (n - q) + (if scan == 0 { 1int } else { 0 }),
        {
            if q == n - 1 {
                scan = 3;
            } else {
                let c = b[q];
                if c == 34 {
                    scan = 1;
                } else if 32 <= c && c < 127 && c != 92 {
                    q = q + 1;
                } else {
                    scan = 2;
                }
            }
        }
        if scan != 1 {
            // the literal never closes, or holds a byte the wire form
            // never carries
            proof {
                assert(suffix.drop_first() =~= b@.subrange(pos + 1, n - 1));
                lemma_take_item_stuck(suffix.drop_first(), q - (pos + 1));
            }
            return None;
        }
        // copy the literal's body
        let mut item: Vec<u8> = Vec::new();
        let mut j: usize = pos + 1;
        while j < q
            invariant
                pos + 1 <= j <= q < n == b@.len(),
                item@ == b@.subrange(pos + 1, j as int),
            decreases q - j,
        {
            item.push(b[j]);
            j = j + 1;
            proof {
                assert(item@ =~= b@.subrange(pos + 1, j as int));
            }
        }
        proof {
            assert(plain_item(item@));
            assert(suffix.drop_first() =~= item@ + seq![34u8] + b@.subrange(q + 1, n - 1));
            lemma_take_item_plain_prefix(item@, b@.subrange(q + 1, n - 1));
        }
        let ghost old_acc = acc@;
        acc.push(item);
        proof {
            assert(byte_vecs_view(acc@) =~= byte_vecs_view(old_acc) + seq![item@]);
        }
        if q + 1 == n - 1 {
            // the literal closes the array body
            proof {
                let rest = b@.subrange(q + 1, n - 1);
                assert(rest.len() == 0);
                assert(dec_items(suffix, fuel) == Option::Some(seq![item@]));
                assert(byte_vecs_view(old_acc) + seq![item@] =~= byte_vecs_view(acc@));
                assert(dec_items(interior, fuel0) == Option::Some(byte_vecs_view(acc@)));
            }
            return Some(acc);
        }
        if b[q + 1] != 44 {
            proof {
                let rest = b@.subrange(q + 1, n - 1);
                assert(rest.len() > 0);
                assert(rest[0] == b@[q + 1]);
                assert(rest[0] != 44);
            }
            return None;
        }
        proof {
            let rest = b@.subrange(q + 1, n - 1);
            assert(rest.len() > 0 && rest[0] == 44);
            assert(rest.drop_first() =~= b@.subrange(q + 2, n - 1));
            let sub2 = dec_items(b@.subrange(q + 2, n - 1), (fuel - 1) as nat);
            assert(dec_items(suffix, fuel) == (match sub2 {
                Option::None => Option::<Seq<Seq<u8>>>::None,
                Option::Some(tail) => {
                    if tail.len() > 0 {
                        Option::Some(seq![item@] + tail)
                    } else {
                        Option::None
                    }
                },
            }));
            if sub2 is Some && sub2.unwrap().len() > 0 {
                assert(byte_vecs_view(old_acc) + (seq![item@] + sub2.unwrap())
                    =~= byte_vecs_view(acc@) + sub2.unwrap());
            }
            assert(dec_items(interior, fuel0) == combine_parse(
                acc@.len() as nat,
                byte_vecs_view(acc@),
                sub2,
            ));
        }
        pos = q + 2;
    }
}

/// The body of a list grows at the tail by a separator and one literal.
proof fn lemma_joined_snoc(items: Seq<Seq<u8>>)
    requires
        items.len() > 0,
    ensures
        joined_items(items) == if items.len() == 1 {
            quoted(items.last())
        } else {
            joined_items(items.drop_last()) + seq![44u8] + quoted(items.last())
        },
    decreases items.len(),
{
    if items.len() > 1 {
        lemma_joined_snoc(items.drop_first());
        assert(items.drop_first().drop_last() =~= items.drop_last().drop_first());
        if items.len() == 2 {
            assert(items.drop_last() =~= seq![items[0]]);
            assert(joined_items(items.drop_last()) == quoted(items[0]));
            assert(joined_items(items) =~= joined_items(items.drop_last()) + seq![44u8] + quoted(
                items.last(),
            ));
        } else {
            assert(items.drop_last().len() > 1);
            assert(joined_items(items.drop_last()) == quoted(items[0]) + seq![44u8] + joined_items(
                items.drop_last().drop_first(),
            ));
            assert(joined_items(items) =~= joined_items(items.drop_last()) + seq![44u8] + quoted(
                items.last(),
            ));
        }
    }
}

/// Every byte of a canonical array of plain strings is ASCII.
proof fn lemma_joined_items_ascii(items: Seq<Seq<u8>>)
    requires
        plain_items(items),
    ensures
        all_ascii(joined_items(items)),
    decreases items.len(),
{
    if items.len() == 0 {
    } else if items.len() == 1 {
        assert(plain_item(items[0]));
    } else {
        assert(plain_item(items[0]));
        assert(plain_items(items.drop_first())) by {
            assert(forall|i: int|
                0 <= i < items.drop_first().len() ==> items.drop_first()[i] == items[i + 1]
                    && plain_item(items[i + 1]));
        }
        lemma_joined_items_ascii(items.drop_first());
    }
}

/// The whole canonical array of plain strings is ASCII text.
pub proof fn lemma_json_string_array_ascii(items: Seq<Seq<u8>>)
    requires
        plain_items(items),
    ensures
        all_ascii(json_string_array(items)),
{
    lemma_joined_items_ascii(items);
}

/// A canonical address encoding needs no JSON escaping.
pub proof fn lemma_addr_bytes_plain(s: Seq<u8>)
    requires
        forall|i: int| 0 <= i < s.len() ==> addr_byte_ok(s[i]),
    ensures
        plain_item(s),
{
}

/// The documented double-encoding of an account list: the canonical
/// encodings of the addresses, in order, as a JSON array of strings.
pub fn encode_accounts(addrs: &Vec<Address>) -> (r: String)
    requires
        addrs_wf(addrs@),
    ensures
        r@ == ascii_chars(json_string_array(addr_views(addrs@))),
{
    let mut items: Vec<Vec<u8>> = Vec::new();
    let mut i: usize = 0;
    while i < addrs.len()
        invariant
            i <= addrs@.len(),
            addrs_wf(addrs@),
            items@.len() == i,
            forall|k: int| 0 <= k < i ==> #[trigger] items@[k]@ == addrs@[k]@,
        decreases addrs@.len() - i,
    {
        let item = crate::encoding::copy_bytes(addrs[i].encoded_bytes());
        items.push(item);
        i = i + 1;
    }
    proof {
        assert(byte_vecs_view(items@) =~= addr_views(addrs@));
        assert(plain_items(byte_vecs_view(items@))) by {
            assert(forall|k: int| 0 <= k < addrs@.len() ==> #[trigger] addrs@[k].wf());
            assert forall|k: int| 0 <= k < byte_vecs_view(items@).len() implies #[trigger]
                plain_item(byte_vecs_view(items@)[k]) by {
                assert(byte_vecs_view(items@)[k] == addrs@[k]@);
                assert(addrs@[k].wf());
                lemma_addr_bytes_plain(addrs@[k]@);
            }
        }
    }
    let encoded = encode_string_array(&items);
    proof {
        lemma_joined_items_ascii(byte_vecs_view(items@));
        assert(all_ascii(encoded@));
    }
    ascii_to_string(&encoded)
}

} // verus!
