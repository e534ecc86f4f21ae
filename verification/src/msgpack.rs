//! Canonical binary encoding of actions.
//!
//! The digest that gets signed covers a canonical, deterministic byte
//! encoding of the action: a compact tagged-map format in which a struct is
//! a map of short field names in declaration order, an unsigned integer uses
//! the smallest of five widths, and a string carries its length in the
//! smallest of three headers.  The byte layout is part of the wire contract:
//! the server recomputes the same bytes to verify the signature, so any
//! divergence invalidates the submission.  The layout is stated here as
//! specification functions; the executable encoder and decoder are proved
//! against them, and decoding an encoded action gives the action back.

use vstd::prelude::*;
use crate::order::{
    Action, BuilderInfo, Grouping, OrderDescription, OrderKind, Tif, cloid_bytes, grouping_bytes,
    tif_bytes, render_cloid,
};

verus! {

// --- Specification: primitive encodings ---
/// Two big-endian bytes of a value below 65536.
pub open spec fn be2(v: int) -> Seq<u8> {
    seq![((v / 256) % 256) as u8, (v % 256) as u8]
}

/// Four big-endian bytes of a value below 2^32.
pub open spec fn be4(v: int) -> Seq<u8> {
    seq![
        ((v / 0x1000000) % 256) as u8,
        ((v / 0x10000) % 256) as u8,
        ((v / 256) % 256) as u8,
        (v % 256) as u8,
    ]
}

/// Eight big-endian bytes of a value below 2^64.
pub open spec fn be8(v: int) -> Seq<u8> {
    seq![
        ((v / 0x100000000000000) % 256) as u8,
        ((v / 0x1000000000000) % 256) as u8,
        ((v / 0x10000000000) % 256) as u8,
        ((v / 0x100000000) % 256) as u8,
        ((v / 0x1000000) % 256) as u8,
        ((v / 0x10000) % 256) as u8,
        ((v / 256) % 256) as u8,
        (v % 256) as u8,
    ]
}

/// An unsigned integer in the smallest representation: a positive fixint, or
/// a marker `0xcc`/`0xcd`/`0xce`/`0xcf` followed by 1, 2, 4 or 8 big-endian
/// bytes.
#[verifier::opaque]
pub open spec fn enc_uint(v: u64) -> Seq<u8> {
    if v < 128 {
        seq![v as u8]
    } else if v < 256 {
        seq![0xccu8, v as u8]
    } else if v < 65536 {
        seq![0xcdu8] + be2(v as int)
    } else if v < 0x100000000 {
        seq![0xceu8] + be4(v as int)
    } else {
        seq![0xcfu8] + be8(v as int)
    }
}

/// A boolean: `0xc2` for false, `0xc3` for true.
#[verifier::opaque]
pub open spec fn enc_bool(b: bool) -> Seq<u8> {
    if b {
        seq![0xc3u8]
    } else {
        seq![0xc2u8]
    }
}

/// A string of fewer than 65536 bytes: a fixstr header for lengths below 32,
/// `0xd9` + length for lengths below 256, else `0xda` + two length bytes,
/// followed by the bytes themselves.
#[verifier::opaque]
pub open spec fn enc_str(s: Seq<u8>) -> Seq<u8> {
    if s.len() < 32 {
        seq![(0xa0 + s.len()) as u8] + s
    } else if s.len() < 256 {
        seq![0xd9u8, s.len() as u8] + s
    } else {
        seq![0xdau8] + be2(s.len() as int) + s
    }
}

/// A map header for fewer than 65536 entries: a fixmap header below 16
/// entries, else `0xde` + two length bytes.
#[verifier::opaque]
pub open spec fn enc_map_hdr(n: int) -> Seq<u8> {
    if n < 16 {
        seq![(0x80 + n) as u8]
    } else {
        seq![0xdeu8] + be2(n)
    }
}

/// An array header for fewer than 65536 elements: a fixarray header below 16
/// elements, else `0xdc` + two length bytes.
#[verifier::opaque]
pub open spec fn enc_arr_hdr(n: int) -> Seq<u8> {
    if n < 16 {
        seq![(0x90 + n) as u8]
    } else {
        seq![0xdcu8] + be2(n)
    }
}

// --- Specification: field names and tags ---
/// "a", "b", "p", "s", "r", "t", "c": the order's field names.
pub open spec fn key_a() -> Seq<u8> {
    seq![97u8]
}

pub open spec fn key_b() -> Seq<u8> {
    seq![98u8]
}

pub open spec fn key_p() -> Seq<u8> {
    seq![112u8]
}

pub open spec fn key_s() -> Seq<u8> {
    seq![115u8]
}

pub open spec fn key_r() -> Seq<u8> {
    seq![114u8]
}

pub open spec fn key_t() -> Seq<u8> {
    seq![116u8]
}

pub open spec fn key_c() -> Seq<u8> {
    seq![99u8]
}

pub open spec fn key_f() -> Seq<u8> {
    seq![102u8]
}

/// "limit"
pub open spec fn key_limit() -> Seq<u8> {
    seq![108u8, 105u8, 109u8, 105u8, 116u8]
}

/// "tif"
pub open spec fn key_tif() -> Seq<u8> {
    seq![116u8, 105u8, 102u8]
}

/// "type"
pub open spec fn key_type() -> Seq<u8> {
    seq![116u8, 121u8, 112u8, 101u8]
}

/// "order"
pub open spec fn tag_order() -> Seq<u8> {
    seq![111u8, 114u8, 100u8, 101u8, 114u8]
}

/// "orders"
pub open spec fn key_orders() -> Seq<u8> {
    seq![111u8, 114u8, 100u8, 101u8, 114u8, 115u8]
}

/// "grouping"
pub open spec fn key_grouping() -> Seq<u8> {
    seq![103u8, 114u8, 111u8, 117u8, 112u8, 105u8, 110u8, 103u8]
}

/// "builder"
pub open spec fn key_builder() -> Seq<u8> {
    seq![98u8, 117u8, 105u8, 108u8, 100u8, 101u8, 114u8]
}

// --- Specification: composite encodings ---
/// The order-type object: `{"limit": {"tif": <tag>}}`.
pub open spec fn enc_order_kind(k: OrderKind) -> Seq<u8> {
    match k {
        OrderKind::Limit { tif } => enc_map_hdr(1) + enc_str(key_limit()) + enc_map_hdr(1)
            + enc_str(key_tif()) + enc_str(tif_bytes(tif)),
    }
}

/// The number of fields an order serializes: the client order id is omitted
/// when absent.
pub open spec fn order_field_count(o: OrderDescription) -> int {
    if o.cloid is Some {
        7
    } else {
        6
    }
}

/// One order as a map of its fields in declaration order.
pub open spec fn enc_order(o: OrderDescription) -> Seq<u8> {
    enc_map_hdr(order_field_count(o)) + enc_str(key_a()) + enc_uint(o.asset as u64) + enc_str(
        key_b(),
    ) + enc_bool(o.is_buy) + enc_str(key_p()) + enc_str(o.limit_px@) + enc_str(key_s()) + enc_str(
        o.sz@,
    ) + enc_str(key_r()) + enc_bool(o.reduce_only) + enc_str(key_t()) + enc_order_kind(o.kind)
        + match o.cloid {
        Some(c) => enc_str(key_c()) + enc_str(cloid_bytes(c)),
        None => Seq::empty(),
    }
}

/// A batch of orders, in order.
pub open spec fn enc_orders(s: Seq<OrderDescription>) -> Seq<u8>
    decreases s.len(),
{
    if s.len() == 0 {
        Seq::empty()
    } else {
        enc_order(s.first()) + enc_orders(s.drop_first())
    }
}

/// The builder-fee object: `{"b": <address>, "f": <fee>}`.
pub open spec fn enc_builder(b: BuilderInfo) -> Seq<u8> {
    enc_map_hdr(2) + enc_str(key_b()) + enc_str(b.builder@) + enc_str(key_f()) + enc_uint(b.fee)
}

/// The whole action: a tagged map `{"type": "order", "orders": [...],
/// "grouping": <tag>}` with an optional trailing `"builder"` entry.
pub open spec fn enc_action(a: Action) -> Seq<u8> {
    enc_map_hdr(
        if a.builder is Some {
            4
        } else {
            3
        },
    ) + enc_str(key_type()) + enc_str(tag_order()) + enc_str(key_orders()) + enc_arr_hdr(
        a.orders@.len() as int,
    ) + enc_orders(a.orders@) + enc_str(key_grouping()) + enc_str(grouping_bytes(a.grouping))
        + match a.builder {
        Some(b) => enc_str(key_builder()) + enc_builder(b),
        None => Seq::empty(),
    }
}

/// Appending one order to a batch appends its encoding.
pub proof fn lemma_enc_orders_push(s: Seq<OrderDescription>, o: OrderDescription)
    ensures
        enc_orders(s.push(o)) == enc_orders(s) + enc_order(o),
    decreases s.len(),
{
    if s.len() == 0 {
        assert(s.push(o).drop_first() =~= Seq::<OrderDescription>::empty());
        assert(s.push(o).first() == o);
        assert(enc_orders(s.push(o)) == enc_order(o) + enc_orders(
            Seq::<OrderDescription>::empty(),
        ));
        assert(enc_orders(Seq::<OrderDescription>::empty()) == Seq::<u8>::empty());
        assert(enc_order(o) + Seq::<u8>::empty() =~= Seq::<u8>::empty() + enc_order(o));
    } else {
        assert(s.push(o).first() == s.first());
        assert(s.push(o).drop_first() =~= s.drop_first().push(o));
        lemma_enc_orders_push(s.drop_first(), o);
        assert(enc_orders(s.push(o)) == enc_order(s.first()) + (enc_orders(s.drop_first())
            + enc_order(o)));
        vstd::seq_lib::lemma_concat_associative(
            enc_order(s.first()),
            enc_orders(s.drop_first()),
            enc_order(o),
        );
    }
}

// --- Executable encoder ---
/// Append the bytes of a slice.
pub(crate) fn put_bytes(out: &mut Vec<u8>, s: &[u8])
    ensures
        final(out)@ == old(out)@ + s@,
{
    let mut i: usize = 0;
    while i < s.len()
        invariant
            0 <= i <= s@.len(),
            out@ == old(out)@ + s@.take(i as int),
        decreases s@.len() - i,
    {
        out.push(s[i]);
        proof {
            assert(s@.take(i as int + 1) =~= s@.take(i as int) + seq![s@[i as int]]);
            assert(old(out)@ + s@.take(i as int) + seq![s@[i as int]] =~= old(out)@ + s@.take(
                i as int + 1,
            ));
        }
        i = i + 1;
    }
    proof {
        assert(s@.take(s@.len() as int) =~= s@);
    }
}

/// Append an unsigned integer in its canonical encoding.
fn put_uint(out: &mut Vec<u8>, v: u64)
    ensures
        final(out)@ == old(out)@ + enc_uint(v),
{
    if v < 128 {
        out.push(v as u8);
        proof {
            reveal(enc_uint);
            assert(out@ =~= old(out)@ + enc_uint(v));
        }
    } else if v < 256 {
        out.push(0xcc);
        out.push(v as u8);
        proof {
            reveal(enc_uint);
            assert(out@ =~= old(out)@ + enc_uint(v));
        }
    } else if v < 65536 {
        out.push(0xcd);
        out.push(((v / 256) % 256) as u8);
        out.push((v % 256) as u8);
        proof {
            reveal(enc_uint);
            assert(out@ =~= old(out)@ + enc_uint(v));
        }
    } else if v < 0x100000000 {
        out.push(0xce);
        out.push(((v / 0x1000000) % 256) as u8);
        out.push(((v / 0x10000) % 256) as u8);
        out.push(((v / 256) % 256) as u8);
        out.push((v % 256) as u8);
        proof {
            reveal(enc_uint);
            assert(out@ =~= old(out)@ + enc_uint(v));
        }
    } else {
        out.push(0xcf);
        out.push(((v / 0x100000000000000) % 256) as u8);
        out.push(((v / 0x1000000000000) % 256) as u8);
        out.push(((v / 0x10000000000) % 256) as u8);
        out.push(((v / 0x100000000) % 256) as u8);
        out.push(((v / 0x1000000) % 256) as u8);
        out.push(((v / 0x10000) % 256) as u8);
        out.push(((v / 256) % 256) as u8);
        out.push((v % 256) as u8);
        proof {
            reveal(enc_uint);
            assert(out@ =~= old(out)@ + enc_uint(v));
        }
    }
}

/// Append a boolean.
fn put_bool(out: &mut Vec<u8>, b: bool)
    ensures
        final(out)@ == old(out)@ + enc_bool(b),
{
    if b {
        out.push(0xc3);
    } else {
        out.push(0xc2);
    }
    proof {
        reveal(enc_bool);
        assert(out@ =~= old(out)@ + enc_bool(b));
    }
}

/// Append a string header and the string bytes.
fn put_str(out: &mut Vec<u8>, s: &[u8])
    requires
        s@.len() < 65536,
    ensures
        final(out)@ == old(out)@ + enc_str(s@),
{
    let n = s.len();
    if n < 32 {
        out.push(0xa0 + (n as u8));
    } else if n < 256 {
        out.push(0xd9);
        out.push(n as u8);
    } else {
        out.push(0xda);
        out.push(((n / 256) % 256) as u8);
        out.push((n % 256) as u8);
    }
    put_bytes(out, s);
    proof {
        reveal(enc_str);
        assert(out@ =~= old(out)@ + enc_str(s@));
    }
}

/// Append a map header.
fn put_map_hdr(out: &mut Vec<u8>, n: usize)
    requires
        n < 65536,
    ensures
        final(out)@ == old(out)@ + enc_map_hdr(n as int),
{
    if n < 16 {
        out.push(0x80 + (n as u8));
    } else {
        out.push(0xde);
        out.push(((n / 256) % 256) as u8);
        out.push((n % 256) as u8);
    }
    proof {
        reveal(enc_map_hdr);
        assert(out@ =~= old(out)@ + enc_map_hdr(n as int));
    }
}

/// Append an array header.
fn put_arr_hdr(out: &mut Vec<u8>, n: usize)
    requires
        n < 65536,
    ensures
        final(out)@ == old(out)@ + enc_arr_hdr(n as int),
{
    if n < 16 {
        out.push(0x90 + (n as u8));
    } else {
        out.push(0xdc);
        out.push(((n / 256) % 256) as u8);
        out.push((n % 256) as u8);
    }
    proof {
        reveal(enc_arr_hdr);
        assert(out@ =~= old(out)@ + enc_arr_hdr(n as int));
    }
}

// --- Specification: decoding ---
//
// Each decoder consumes from position `i` of `b` and returns the decoded
// value with the position just past it, or `None` when the bytes at `i` do
// not start a well-formed item.
/// Decode an unsigned integer.
pub open spec fn dec_uint(b: Seq<u8>, i: int) -> Option<(int, int)> {
    if 0 <= i < b.len() {
        let m = b[i];
        if m < 0x80 {
            Some((m as int, i + 1))
        } else if m == 0xcc && i + 2 <= b.len() {
            Some((b[i + 1] as int, i + 2))
        } else if m == 0xcd && i + 3 <= b.len() {
            Some(((b[i + 1] as int) * 256 + (b[i + 2] as int), i + 3))
        } else if m == 0xce && i + 5 <= b.len() {
            Some(
                (
                    (b[i + 1] as int) * 0x1000000 + (b[i + 2] as int) * 0x10000 + (b[i + 3] as int)
                        * 256 + (b[i + 4] as int),
                    i + 5,
                ),
            )
        } else if m == 0xcf && i + 9 <= b.len() {
            Some(
                (
                    (b[i + 1] as int) * 0x100000000000000 + (b[i + 2] as int) * 0x1000000000000 + (
                    b[i + 3] as int) * 0x10000000000 + (b[i + 4] as int) * 0x100000000 + (b[i
                        + 5] as int) * 0x1000000 + (b[i + 6] as int) * 0x10000 + (b[i + 7] as int)
                        * 256 + (b[i + 8] as int),
                    i + 9,
                ),
            )
        } else {
            None
        }
    } else {
        None
    }
}

/// Decode a boolean.
pub open spec fn dec_bool(b: Seq<u8>, i: int) -> Option<(bool, int)> {
    if 0 <= i < b.len() {
        if b[i] == 0xc2 {
            Some((false, i + 1))
        } else if b[i] == 0xc3 {
            Some((true, i + 1))
        } else {
            None
        }
    } else {
        None
    }
}

/// Decode a string.
pub open spec fn dec_str(b: Seq<u8>, i: int) -> Option<(Seq<u8>, int)> {
    if 0 <= i < b.len() {
        let m = b[i];
        if 0xa0 <= m <= 0xbf {
            let l = m - 0xa0;
            if i + 1 + l <= b.len() {
                Some((b.subrange(i + 1, i + 1 + l), i + 1 + l))
            } else {
                None
            }
        } else if m == 0xd9 && i + 2 <= b.len() {
            let l = b[i + 1] as int;
            if i + 2 + l <= b.len() {
                Some((b.subrange(i + 2, i + 2 + l), i + 2 + l))
            } else {
                None
            }
        } else if m == 0xda && i + 3 <= b.len() {
            let l = (b[i + 1] as int) * 256 + (b[i + 2] as int);
            if i + 3 + l <= b.len() {
                Some((b.subrange(i + 3, i + 3 + l), i + 3 + l))
            } else {
                None
            }
        } else {
            None
        }
    } else {
        None
    }
}

/// Decode a map header.
pub open spec fn dec_map_hdr(b: Seq<u8>, i: int) -> Option<(int, int)> {
    if 0 <= i < b.len() {
        let m = b[i];
        if 0x80 <= m <= 0x8f {
            Some(((m - 0x80) as int, i + 1))
        } else if m == 0xde && i + 3 <= b.len() {
            Some(((b[i + 1] as int) * 256 + (b[i + 2] as int), i + 3))
        } else {
            None
        }
    } else {
        None
    }
}

/// Decode an array header.
pub open spec fn dec_arr_hdr(b: Seq<u8>, i: int) -> Option<(int, int)> {
    if 0 <= i < b.len() {
        let m = b[i];
        if 0x90 <= m <= 0x9f {
            Some(((m - 0x90) as int, i + 1))
        } else if m == 0xdc && i + 3 <= b.len() {
            Some(((b[i + 1] as int) * 256 + (b[i + 2] as int), i + 3))
        } else {
            None
        }
    } else {
        None
    }
}

/// Decode a string and require it to be the expected key.
pub open spec fn dec_key(b: Seq<u8>, i: int, k: Seq<u8>) -> Option<int> {
    match dec_str(b, i) {
        Some((s, j)) => if s == k {
            Some(j)
        } else {
            None
        },
        None => None,
    }
}

/// Decode a time-in-force tag.
pub open spec fn dec_tif(b: Seq<u8>, i: int) -> Option<(Tif, int)> {
    match dec_str(b, i) {
        Some((s, j)) => if s == tif_bytes(Tif::Alo) {
            Some((Tif::Alo, j))
        } else if s == tif_bytes(Tif::Ioc) {
            Some((Tif::Ioc, j))
        } else if s == tif_bytes(Tif::Gtc) {
            Some((Tif::Gtc, j))
        } else {
            None
        },
        None => None,
    }
}

/// Decode a grouping tag.
pub open spec fn dec_grouping(b: Seq<u8>, i: int) -> Option<(Grouping, int)> {
    match dec_str(b, i) {
        Some((s, j)) => if s == grouping_bytes(Grouping::Na) {
            Some((Grouping::Na, j))
        } else if s == grouping_bytes(Grouping::NormalTpsl) {
            Some((Grouping::NormalTpsl, j))
        } else if s == grouping_bytes(Grouping::PositionTpsl) {
            Some((Grouping::PositionTpsl, j))
        } else {
            None
        },
        None => None,
    }
}

/// Decode an order-type object.
pub open spec fn dec_kind(b: Seq<u8>, i: int) -> Option<(OrderKind, int)> {
    match dec_map_hdr(b, i) {
        Some((n1, i1)) => if n1 == 1 {
            match dec_key(b, i1, key_limit()) {
                Some(i2) => match dec_map_hdr(b, i2) {
                    Some((n2, i3)) => if n2 == 1 {
                        match dec_key(b, i3, key_tif()) {
                            Some(i4) => match dec_tif(b, i4) {
                                Some((t, i5)) => Some((OrderKind::Limit { tif: t }, i5)),
                                None => None,
                            },
                            None => None,
                        }
                    } else {
                        None
                    },
                    None => None,
                },
                None => None,
            }
        } else {
            None
        },
        None => None,
    }
}

/// Decode a client order id string.
pub open spec fn dec_cloid(b: Seq<u8>, i: int) -> Option<(int, int)> {
    match dec_str(b, i) {
        Some((s, j)) => if s.len() == 34 && s[0] == 48 && s[1] == 120 {
            match crate::ascii::spec_hex_parse(s.subrange(2, 34)) {
                Some(v) => Some((v, j)),
                None => None,
            }
        } else {
            None
        },
        None => None,
    }
}

/// Decode one order.
pub open spec fn dec_order(b: Seq<u8>, i: int) -> Option<(crate::order::OrderV, int)> {
    match dec_map_hdr(b, i) {
        Some((n, i1)) => if n == 6 || n == 7 {
            match dec_key(b, i1, key_a()) {
                Some(i2) => match dec_uint(b, i2) {
                    Some((av, i3)) => if 0 <= av < 0x100000000 {
                        match dec_key(b, i3, key_b()) {
                            Some(i4) => match dec_bool(b, i4) {
                                Some((buy, i5)) => match dec_key(b, i5, key_p()) {
                                    Some(i6) => match dec_str(b, i6) {
                                        Some((px, i7)) => match dec_key(b, i7, key_s()) {
                                            Some(i8) => match dec_str(b, i8) {
                                                Some((szv, i9)) => match dec_key(b, i9, key_r()) {
                                                    Some(i10) => match dec_bool(b, i10) {
                                                        Some((ro, i11)) => match dec_key(
                                                            b,
                                                            i11,
                                                            key_t(),
                                                        ) {
                                                            Some(i12) => match dec_kind(b, i12) {
                                                                Some((k, i13)) => dec_order_tail(
                                                                    b,
                                                                    i13,
                                                                    n,
                                                                    av,
                                                                    buy,
                                                                    ro,
                                                                    px,
                                                                    szv,
                                                                    k,
                                                                ),
                                                                None => None,
                                                            },
                                                            None => None,
                                                        },
                                                        None => None,
                                                    },
                                                    None => None,
                                                },
                                                None => None,
                                            },
                                            None => None,
                                        },
                                        None => None,
                                    },
                                    None => None,
                                },
                                None => None,
                            },
                            None => None,
                        }
                    } else {
                        None
                    },
                    None => None,
                },
                None => None,
            }
        } else {
            None
        },
        None => None,
    }
}

/// The optional trailing client-order-id field of an order.
pub open spec fn dec_order_tail(
    b: Seq<u8>,
    i: int,
    n: int,
    av: int,
    buy: bool,
    ro: bool,
    px: Seq<u8>,
    szv: Seq<u8>,
    k: OrderKind,
) -> Option<(crate::order::OrderV, int)> {
    if n == 6 {
        Some(
            (
                crate::order::OrderV {
                    asset: av as u32,
                    is_buy: buy,
                    reduce_only: ro,
                    limit_px: px,
                    sz: szv,
                    cloid: None,
                    kind: k,
                },
                i,
            ),
        )
    } else {
        match dec_key(b, i, key_c()) {
            Some(i14) => match dec_cloid(b, i14) {
                Some((cv, i15)) => Some(
                    (
                        crate::order::OrderV {
                            asset: av as u32,
                            is_buy: buy,
                            reduce_only: ro,
                            limit_px: px,
                            sz: szv,
                            cloid: Some(cv as u128),
                            kind: k,
                        },
                        i15,
                    ),
                ),
                None => None,
            },
            None => None,
        }
    }
}

/// Decode `n` orders in sequence.
pub open spec fn dec_orders(b: Seq<u8>, i: int, n: nat) -> Option<(Seq<crate::order::OrderV>, int)>
    decreases n,
{
    if n == 0 {
        Some((Seq::empty(), i))
    } else {
        match dec_order(b, i) {
            Some((o, j)) => match dec_orders(b, j, (n - 1) as nat) {
                Some((rest, k)) => Some((seq![o] + rest, k)),
                None => None,
            },
            None => None,
        }
    }
}

/// Decode a builder-fee object.
pub open spec fn dec_builder(b: Seq<u8>, i: int) -> Option<(crate::order::BuilderV, int)> {
    match dec_map_hdr(b, i) {
        Some((n, i1)) => if n == 2 {
            match dec_key(b, i1, key_b()) {
                Some(i2) => match dec_str(b, i2) {
                    Some((addr, i3)) => match dec_key(b, i3, key_f()) {
                        Some(i4) => match dec_uint(b, i4) {
                            Some((fv, i5)) => if 0 <= fv < 0x10000000000000000 {
                                Some(
                                    (
                                        crate::order::BuilderV { builder: addr, fee: fv as u64 },
                                        i5,
                                    ),
                                )
                            } else {
                                None
                            },
                            None => None,
                        },
                        None => None,
                    },
                    None => None,
                },
                None => None,
            }
        } else {
            None
        },
        None => None,
    }
}

/// Decode a whole action starting at `i`.
pub open spec fn dec_action_at(b: Seq<u8>, i: int) -> Option<(crate::order::ActionV, int)> {
    match dec_map_hdr(b, i) {
        Some((n, i1)) => if n == 3 || n == 4 {
            match dec_key(b, i1, key_type()) {
                Some(i2) => match dec_str(b, i2) {
                    Some((tag, i3)) => if tag == tag_order() {
                        match dec_key(b, i3, key_orders()) {
                            Some(i4) => match dec_arr_hdr(b, i4) {
                                Some((cnt, i5)) => if cnt >= 0 {
                                    match dec_orders(b, i5, cnt as nat) {
                                        Some((os, i6)) => match dec_key(b, i6, key_grouping()) {
                                            Some(i7) => match dec_grouping(b, i7) {
                                                Some((g, i8)) => dec_action_tail(b, i8, n, os, g),
                                                None => None,
                                            },
                                            None => None,
                                        },
                                        None => None,
                                    }
                                } else {
                                    None
                                },
                                None => None,
                            },
                            None => None,
                        }
                    } else {
                        None
                    },
                    None => None,
                },
                None => None,
            }
        } else {
            None
        },
        None => None,
    }
}

/// The optional trailing builder field of an action.
pub open spec fn dec_action_tail(
    b: Seq<u8>,
    i: int,
    n: int,
    os: Seq<crate::order::OrderV>,
    g: Grouping,
) -> Option<(crate::order::ActionV, int)> {
    if n == 3 {
        Some((crate::order::ActionV { orders: os, grouping: g, builder: None }, i))
    } else {
        match dec_key(b, i, key_builder()) {
            Some(i9) => match dec_builder(b, i9) {
                Some((bi, i10)) => Some(
                    (crate::order::ActionV { orders: os, grouping: g, builder: Some(bi) }, i10),
                ),
                None => None,
            },
            None => None,
        }
    }
}

/// Decode a complete byte string as an action; the bytes must be consumed
/// exactly.
pub open spec fn spec_decode_action(b: Seq<u8>) -> Option<crate::order::ActionV> {
    match dec_action_at(b, 0) {
        Some((a, j)) => if j == b.len() {
            Some(a)
        } else {
            None
        },
        None => None,
    }
}

/// The canonical encoding is injective: two well-formed actions with the
/// same canonical bytes are the same action.
pub proof fn lemma_enc_action_injective(a1: Action, a2: Action)
    requires
        a1.valid(),
        a2.valid(),
        enc_action(a1) == enc_action(a2),
    ensures
        a1@ == a2@,
{
    lemma_decode_encode(a1);
    lemma_decode_encode(a2);
}

// --- Round trip: primitive lemmas ---
/// A slice known to hold `x + y` holds `x` and then `y`.
proof fn lemma_slice_parts(b: Seq<u8>, i: int, x: Seq<u8>, y: Seq<u8>)
    requires
        0 <= i,
        i + x.len() + y.len() <= b.len(),
        b.subrange(i, i + x.len() + y.len()) == x + y,
    ensures
        b.subrange(i, i + x.len()) == x,
        b.subrange(i + x.len(), i + x.len() + y.len()) == y,
{
    let w = b.subrange(i, i + x.len() + y.len());
    assert forall|k: int| 0 <= k < x.len() implies b.subrange(i, i + x.len())[k] == x[k] by {
        assert(w[k] == (x + y)[k]);
    }
    assert(b.subrange(i, i + x.len()) =~= x);
    assert forall|k: int|
        0 <= k < y.len() implies b.subrange(i + x.len(), i + x.len() + y.len())[k] == y[k] by {
        assert(w[x.len() + k] == (x + y)[x.len() + k]);
    }
    assert(b.subrange(i + x.len(), i + x.len() + y.len()) =~= y);
}

proof fn lemma_recompose2(v: int)
    requires
        0 <= v < 0x10000,
    ensures
        ((v / 256) % 256) * 256 + (v % 256) == v,
{
    vstd::arithmetic::div_mod::lemma_fundamental_div_mod(v, 256);
    vstd::arithmetic::div_mod::lemma_small_mod((v / 256) as nat, 256);
}

proof fn lemma_recompose3(v: int)
    requires
        0 <= v < 0x1000000,
    ensures
        ((v / 0x10000) % 256) * 0x10000 + ((v / 256) % 256) * 256 + (v % 256) == v,
{
    let q = v / 256;
    vstd::arithmetic::div_mod::lemma_fundamental_div_mod(v, 256);
    vstd::arithmetic::div_mod::lemma_div_denominator(v, 256, 256);
    lemma_recompose2(q);
}

proof fn lemma_recompose4(v: int)
    requires
        0 <= v < 0x100000000,
    ensures
        ((v / 0x1000000) % 256) * 0x1000000 + ((v / 0x10000) % 256) * 0x10000 + ((v / 256) % 256)
            * 256 + (v % 256) == v,
{
    let q = v / 256;
    vstd::arithmetic::div_mod::lemma_fundamental_div_mod(v, 256);
    vstd::arithmetic::div_mod::lemma_div_denominator(v, 256, 256);
    vstd::arithmetic::div_mod::lemma_div_denominator(v, 256, 0x10000);
    lemma_recompose3(q);
}

proof fn lemma_recompose5(v: int)
    requires
        0 <= v < 0x10000000000,
    ensures
        ((v / 0x100000000) % 256) * 0x100000000 + ((v / 0x1000000) % 256) * 0x1000000 + ((v
            / 0x10000) % 256) * 0x10000 + ((v / 256) % 256) * 256 + (v % 256) == v,
{
    let q = v / 256;
    vstd::arithmetic::div_mod::lemma_fundamental_div_mod(v, 256);
    vstd::arithmetic::div_mod::lemma_div_denominator(v, 256, 256);
    vstd::arithmetic::div_mod::lemma_div_denominator(v, 256, 0x10000);
    vstd::arithmetic::div_mod::lemma_div_denominator(v, 256, 0x1000000);
    lemma_recompose4(q);
}

proof fn lemma_recompose6(v: int)
    requires
        0 <= v < 0x1000000000000,
    ensures
        ((v / 0x10000000000) % 256) * 0x10000000000 + ((v / 0x100000000) % 256) * 0x100000000 + ((
        v / 0x1000000) % 256) * 0x1000000 + ((v / 0x10000) % 256) * 0x10000 + ((v / 256) % 256)
            * 256 + (v % 256) == v,
{
    let q = v / 256;
    vstd::arithmetic::div_mod::lemma_fundamental_div_mod(v, 256);
    vstd::arithmetic::div_mod::lemma_div_denominator(v, 256, 256);
    vstd::arithmetic::div_mod::lemma_div_denominator(v, 256, 0x10000);
    vstd::arithmetic::div_mod::lemma_div_denominator(v, 256, 0x1000000);
    vstd::arithmetic::div_mod::lemma_div_denominator(v, 256, 0x100000000);
    lemma_recompose5(q);
}

proof fn lemma_recompose7(v: int)
    requires
        0 <= v < 0x100000000000000,
    ensures
        ((v / 0x1000000000000) % 256) * 0x1000000000000 + ((v / 0x10000000000) % 256)
            * 0x10000000000 + ((v / 0x100000000) % 256) * 0x100000000 + ((v / 0x1000000) % 256)
            * 0x1000000 + ((v / 0x10000) % 256) * 0x10000 + ((v / 256) % 256) * 256 + (v % 256)
            == v,
{
    let q = v / 256;
    vstd::arithmetic::div_mod::lemma_fundamental_div_mod(v, 256);
    vstd::arithmetic::div_mod::lemma_div_denominator(v, 256, 256);
    vstd::arithmetic::div_mod::lemma_div_denominator(v, 256, 0x10000);
    vstd::arithmetic::div_mod::lemma_div_denominator(v, 256, 0x1000000);
    vstd::arithmetic::div_mod::lemma_div_denominator(v, 256, 0x100000000);
    vstd::arithmetic::div_mod::lemma_div_denominator(v, 256, 0x10000000000);
    lemma_recompose6(q);
}

proof fn lemma_recompose8(v: int)
    requires
        0 <= v < 0x10000000000000000,
    ensures
        ((v / 0x100000000000000) % 256) * 0x100000000000000 + ((v / 0x1000000000000) % 256)
            * 0x1000000000000 + ((v / 0x10000000000) % 256) * 0x10000000000 + ((v / 0x100000000)
            % 256) * 0x100000000 + ((v / 0x1000000) % 256) * 0x1000000 + ((v / 0x10000) % 256)
            * 0x10000 + ((v / 256) % 256) * 256 + (v % 256) == v,
{
    let q = v / 256;
    vstd::arithmetic::div_mod::lemma_fundamental_div_mod(v, 256);
    vstd::arithmetic::div_mod::lemma_div_denominator(v, 256, 256);
    vstd::arithmetic::div_mod::lemma_div_denominator(v, 256, 0x10000);
    vstd::arithmetic::div_mod::lemma_div_denominator(v, 256, 0x1000000);
    vstd::arithmetic::div_mod::lemma_div_denominator(v, 256, 0x100000000);
    vstd::arithmetic::div_mod::lemma_div_denominator(v, 256, 0x10000000000);
    vstd::arithmetic::div_mod::lemma_div_denominator(v, 256, 0x1000000000000);
    lemma_recompose7(q);
}

/// Byte `k` of a slice known to hold `e` is byte `k` of `e`.
proof fn lemma_slice_byte(b: Seq<u8>, i: int, e: Seq<u8>, k: int)
    requires
        0 <= i,
        0 <= k < e.len(),
        i + e.len() <= b.len(),
        b.subrange(i, i + e.len()) == e,
    ensures
        b[i + k] == e[k],
{
    assert(b.subrange(i, i + e.len())[k] == e[k]);
}

/// All bytes of a slice known to hold `e`, for encodings of at most nine
/// bytes.
proof fn lemma_slice_bytes9(b: Seq<u8>, i: int, e: Seq<u8>)
    requires
        0 <= i,
        i + e.len() <= b.len(),
        b.subrange(i, i + e.len()) == e,
    ensures
        e.len() > 0 ==> b[i] == e[0],
        e.len() > 1 ==> b[i + 1] == e[1],
        e.len() > 2 ==> b[i + 2] == e[2],
        e.len() > 3 ==> b[i + 3] == e[3],
        e.len() > 4 ==> b[i + 4] == e[4],
        e.len() > 5 ==> b[i + 5] == e[5],
        e.len() > 6 ==> b[i + 6] == e[6],
        e.len() > 7 ==> b[i + 7] == e[7],
        e.len() > 8 ==> b[i + 8] == e[8],
{
    if e.len() > 0 {
        lemma_slice_byte(b, i, e, 0);
    }
    if e.len() > 1 {
        lemma_slice_byte(b, i, e, 1);
    }
    if e.len() > 2 {
        lemma_slice_byte(b, i, e, 2);
    }
    if e.len() > 3 {
        lemma_slice_byte(b, i, e, 3);
    }
    if e.len() > 4 {
        lemma_slice_byte(b, i, e, 4);
    }
    if e.len() > 5 {
        lemma_slice_byte(b, i, e, 5);
    }
    if e.len() > 6 {
        lemma_slice_byte(b, i, e, 6);
    }
    if e.len() > 7 {
        lemma_slice_byte(b, i, e, 7);
    }
    if e.len() > 8 {
        lemma_slice_byte(b, i, e, 8);
    }
}

/// Decoding an encoded unsigned integer gives it back.
proof fn lemma_dec_uint(b: Seq<u8>, i: int, v: u64)
    requires
        0 <= i,
        i + enc_uint(v).len() <= b.len(),
        b.subrange(i, i + enc_uint(v).len()) == enc_uint(v),
    ensures
        dec_uint(b, i) == Some((v as int, i + enc_uint(v).len())),
{
    reveal(enc_uint);
    let e = enc_uint(v);
    lemma_slice_bytes9(b, i, e);
    if v < 128 {
    } else if v < 256 {
    } else if v < 65536 {
        lemma_recompose2(v as int);
    } else if v < 0x100000000 {
        lemma_recompose4(v as int);
    } else {
        lemma_recompose8(v as int);
    }
}

/// Decoding an encoded boolean gives it back.
proof fn lemma_dec_bool(b: Seq<u8>, i: int, v: bool)
    requires
        0 <= i,
        i + enc_bool(v).len() <= b.len(),
        b.subrange(i, i + enc_bool(v).len()) == enc_bool(v),
    ensures
        dec_bool(b, i) == Some((v, i + enc_bool(v).len())),
{
    reveal(enc_bool);
    lemma_slice_bytes9(b, i, enc_bool(v));
}

/// Decoding an encoded string gives it back.
proof fn lemma_dec_str(b: Seq<u8>, i: int, s: Seq<u8>)
    requires
        0 <= i,
        s.len() < 65536,
        i + enc_str(s).len() <= b.len(),
        b.subrange(i, i + enc_str(s).len()) == enc_str(s),
    ensures
        dec_str(b, i) == Some((s, i + enc_str(s).len())),
{
    reveal(enc_str);
    let e = enc_str(s);
    lemma_slice_bytes9(b, i, e);
    if s.len() < 32 {
        lemma_slice_parts(b, i, seq![(0xa0 + s.len()) as u8], s);
    } else if s.len() < 256 {
        lemma_slice_parts(b, i, seq![0xd9u8, s.len() as u8], s);
    } else {
        lemma_recompose2(s.len() as int);
        lemma_slice_parts(b, i, seq![0xdau8] + be2(s.len() as int), s);
    }
}

/// Decoding an encoded key matches that key.
proof fn lemma_dec_key(b: Seq<u8>, i: int, k: Seq<u8>)
    requires
        0 <= i,
        k.len() < 65536,
        i + enc_str(k).len() <= b.len(),
        b.subrange(i, i + enc_str(k).len()) == enc_str(k),
    ensures
        dec_key(b, i, k) == Some(i + enc_str(k).len()),
{
    lemma_dec_str(b, i, k);
}

/// Decoding an encoded map header gives its count back.
proof fn lemma_dec_map_hdr(b: Seq<u8>, i: int, n: int)
    requires
        0 <= i,
        0 <= n < 65536,
        i + enc_map_hdr(n).len() <= b.len(),
        b.subrange(i, i + enc_map_hdr(n).len()) == enc_map_hdr(n),
    ensures
        dec_map_hdr(b, i) == Some((n, i + enc_map_hdr(n).len())),
{
    reveal(enc_map_hdr);
    lemma_slice_bytes9(b, i, enc_map_hdr(n));
    if n >= 16 {
        lemma_recompose2(n);
    }
}

/// Decoding an encoded array header gives its count back.
proof fn lemma_dec_arr_hdr(b: Seq<u8>, i: int, n: int)
    requires
        0 <= i,
        0 <= n < 65536,
        i + enc_arr_hdr(n).len() <= b.len(),
        b.subrange(i, i + enc_arr_hdr(n).len()) == enc_arr_hdr(n),
    ensures
        dec_arr_hdr(b, i) == Some((n, i + enc_arr_hdr(n).len())),
{
    reveal(enc_arr_hdr);
    lemma_slice_bytes9(b, i, enc_arr_hdr(n));
    if n >= 16 {
        lemma_recompose2(n);
    }
}

// --- Round trip: composite lemmas ---
/// Decoding an encoded order-type object gives it back.
proof fn lemma_dec_kind(b: Seq<u8>, i: int, k: OrderKind)
    requires
        0 <= i,
        i + enc_order_kind(k).len() <= b.len(),
        b.subrange(i, i + enc_order_kind(k).len()) == enc_order_kind(k),
    ensures
        dec_kind(b, i) == Some((k, i + enc_order_kind(k).len())),
{
    match k {
        OrderKind::Limit { tif } => {
            let a1 = enc_map_hdr(1);
            let a2 = enc_str(key_limit());
            let a3 = enc_map_hdr(1);
            let a4 = enc_str(key_tif());
            let a5 = enc_str(tif_bytes(tif));
            let p2 = a1 + a2;
            let p3 = p2 + a3;
            let p4 = p3 + a4;
            lemma_slice_parts(b, i, p4, a5);
            lemma_slice_parts(b, i, p3, a4);
            lemma_slice_parts(b, i, p2, a3);
            lemma_slice_parts(b, i, a1, a2);
            let i1 = i + a1.len();
            let i2 = i1 + a2.len();
            let i3 = i2 + a3.len();
            let i4 = i3 + a4.len();
            lemma_dec_map_hdr(b, i, 1);
            lemma_dec_key(b, i1, key_limit());
            lemma_dec_map_hdr(b, i2, 1);
            lemma_dec_key(b, i3, key_tif());
            assert(tif_bytes(tif).len() == 3);
            lemma_dec_str(b, i4, tif_bytes(tif));
            assert(tif_bytes(Tif::Alo)[0] == 65);
            assert(tif_bytes(Tif::Ioc)[0] == 73);
            assert(tif_bytes(Tif::Gtc)[0] == 71);
        },
    }
}

/// Decoding an encoded client order id gives it back.
proof fn lemma_dec_cloid(b: Seq<u8>, i: int, c: u128)
    requires
        0 <= i,
        i + enc_str(cloid_bytes(c)).len() <= b.len(),
        b.subrange(i, i + enc_str(cloid_bytes(c)).len()) == enc_str(cloid_bytes(c)),
    ensures
        dec_cloid(b, i) == Some((c as int, i + enc_str(cloid_bytes(c)).len())),
{
    crate::ascii::lemma_hex_fixed_len(c as int, 32);
    assert(cloid_bytes(c).len() == 34);
    lemma_dec_str(b, i, cloid_bytes(c));
    let s = cloid_bytes(c);
    assert(s[0] == 48);
    assert(s[1] == 120);
    assert(s.subrange(2, 34) =~= crate::ascii::spec_hex_fixed(c as int, 32));
    crate::ascii::lemma_u128_fits_hex(c);
    crate::ascii::lemma_hex_parse_of_fixed(c as int, 32);
}

/// The slice of an encoded order that each field occupies.
#[verifier::rlimit(100)]
proof fn lemma_order_slices(b: Seq<u8>, i: int, o: OrderDescription)
    requires
        o.valid(),
        0 <= i,
        i + enc_order(o).len() <= b.len(),
        b.subrange(i, i + enc_order(o).len()) == enc_order(o),
    ensures
        ({
            let a1 = enc_map_hdr(order_field_count(o));
            let i1 = i + a1.len();
            let i2 = i1 + enc_str(key_a()).len();
            let i3 = i2 + enc_uint(o.asset as u64).len();
            let i4 = i3 + enc_str(key_b()).len();
            let i5 = i4 + enc_bool(o.is_buy).len();
            let i6 = i5 + enc_str(key_p()).len();
            let i7 = i6 + enc_str(o.limit_px@).len();
            let i8 = i7 + enc_str(key_s()).len();
            let i9 = i8 + enc_str(o.sz@).len();
            let i10 = i9 + enc_str(key_r()).len();
            let i11 = i10 + enc_bool(o.reduce_only).len();
            let i12 = i11 + enc_str(key_t()).len();
            let i13 = i12 + enc_order_kind(o.kind).len();
            &&& b.subrange(i, i1) == enc_map_hdr(order_field_count(o))
            &&& b.subrange(i1, i2) == enc_str(key_a())
            &&& b.subrange(i2, i3) == enc_uint(o.asset as u64)
            &&& b.subrange(i3, i4) == enc_str(key_b())
            &&& b.subrange(i4, i5) == enc_bool(o.is_buy)
            &&& b.subrange(i5, i6) == enc_str(key_p())
            &&& b.subrange(i6, i7) == enc_str(o.limit_px@)
            &&& b.subrange(i7, i8) == enc_str(key_s())
            &&& b.subrange(i8, i9) == enc_str(o.sz@)
            &&& b.subrange(i9, i10) == enc_str(key_r())
            &&& b.subrange(i10, i11) == enc_bool(o.reduce_only)
            &&& b.subrange(i11, i12) == enc_str(key_t())
            &&& b.subrange(i12, i13) == enc_order_kind(o.kind)
            &&& match o.cloid {
                Some(c) => {
                    let i14 = i13 + enc_str(key_c()).len();
                    let i15 = i14 + enc_str(cloid_bytes(c)).len();
                    &&& b.subrange(i13, i14) == enc_str(key_c())
                    &&& b.subrange(i14, i15) == enc_str(cloid_bytes(c))
                    &&& i + enc_order(o).len() == i15
                },
                None => i + enc_order(o).len() == i13,
            }
        }),
{
    let a1 = enc_map_hdr(order_field_count(o));
    let a2 = enc_str(key_a());
    let a3 = enc_uint(o.asset as u64);
    let a4 = enc_str(key_b());
    let a5 = enc_bool(o.is_buy);
    let a6 = enc_str(key_p());
    let a7 = enc_str(o.limit_px@);
    let a8 = enc_str(key_s());
    let a9 = enc_str(o.sz@);
    let a10 = enc_str(key_r());
    let a11 = enc_bool(o.reduce_only);
    let a12 = enc_str(key_t());
    let a13 = enc_order_kind(o.kind);
    let p2 = a1 + a2;
    let p3 = p2 + a3;
    let p4 = p3 + a4;
    let p5 = p4 + a5;
    let p6 = p5 + a6;
    let p7 = p6 + a7;
    let p8 = p7 + a8;
    let p9 = p8 + a9;
    let p10 = p9 + a10;
    let p11 = p10 + a11;
    let p12 = p11 + a12;
    let p13 = p12 + a13;
    match o.cloid {
        Some(c) => {
            let a14 = enc_str(key_c());
            let a15 = enc_str(cloid_bytes(c));
            lemma_slice_parts(b, i, p13, a14 + a15);
            lemma_slice_parts(b, i + p13.len(), a14, a15);
        },
        None => {
            assert(p13 + Seq::<u8>::empty() =~= p13);
        },
    }
    lemma_slice_parts(b, i, p12, a13);
    lemma_slice_parts(b, i, p11, a12);
    lemma_slice_parts(b, i, p10, a11);
    lemma_slice_parts(b, i, p9, a10);
    lemma_slice_parts(b, i, p8, a9);
    lemma_slice_parts(b, i, p7, a8);
    lemma_slice_parts(b, i, p6, a7);
    lemma_slice_parts(b, i, p5, a6);
    lemma_slice_parts(b, i, p4, a5);
    lemma_slice_parts(b, i, p3, a4);
    lemma_slice_parts(b, i, p2, a3);
    lemma_slice_parts(b, i, a1, a2);
}

/// The leading field decodings inside an encoded order.
#[verifier::rlimit(100)]
proof fn lemma_order_decs_head(b: Seq<u8>, i: int, o: OrderDescription)
    requires
        o.valid(),
        0 <= i,
        i + enc_order(o).len() <= b.len(),
        b.subrange(i, i + enc_order(o).len()) == enc_order(o),
    ensures
        ({
            let i1 = i + enc_map_hdr(order_field_count(o)).len();
            let i2 = i1 + enc_str(key_a()).len();
            let i3 = i2 + enc_uint(o.asset as u64).len();
            let i4 = i3 + enc_str(key_b()).len();
            let i5 = i4 + enc_bool(o.is_buy).len();
            let i6 = i5 + enc_str(key_p()).len();
            let i7 = i6 + enc_str(o.limit_px@).len();
            &&& dec_map_hdr(b, i) == Some((order_field_count(o), i1))
            &&& dec_key(b, i1, key_a()) == Some(i2)
            &&& dec_uint(b, i2) == Some((o.asset as int, i3))
            &&& dec_key(b, i3, key_b()) == Some(i4)
            &&& dec_bool(b, i4) == Some((o.is_buy, i5))
            &&& dec_key(b, i5, key_p()) == Some(i6)
            &&& dec_str(b, i6) == Some((o.limit_px@, i7))
        }),
{
    lemma_order_slices(b, i, o);
    let i1 = i + enc_map_hdr(order_field_count(o)).len();
    let i2 = i1 + enc_str(key_a()).len();
    let i3 = i2 + enc_uint(o.asset as u64).len();
    let i4 = i3 + enc_str(key_b()).len();
    let i5 = i4 + enc_bool(o.is_buy).len();
    let i6 = i5 + enc_str(key_p()).len();
    lemma_dec_map_hdr(b, i, order_field_count(o));
    lemma_dec_key(b, i1, key_a());
    lemma_dec_uint(b, i2, o.asset as u64);
    lemma_dec_key(b, i3, key_b());
    lemma_dec_bool(b, i4, o.is_buy);
    lemma_dec_key(b, i5, key_p());
    lemma_dec_str(b, i6, o.limit_px@);
}

/// The trailing field decodings inside an encoded order.
#[verifier::rlimit(100)]
proof fn lemma_order_decs_tail(b: Seq<u8>, i: int, o: OrderDescription)
    requires
        o.valid(),
        0 <= i,
        i + enc_order(o).len() <= b.len(),
        b.subrange(i, i + enc_order(o).len()) == enc_order(o),
    ensures
        ({
            let i1 = i + enc_map_hdr(order_field_count(o)).len();
            let i2 = i1 + enc_str(key_a()).len();
            let i3 = i2 + enc_uint(o.asset as u64).len();
            let i4 = i3 + enc_str(key_b()).len();
            let i5 = i4 + enc_bool(o.is_buy).len();
            let i6 = i5 + enc_str(key_p()).len();
            let i7 = i6 + enc_str(o.limit_px@).len();
            let i8 = i7 + enc_str(key_s()).len();
            let i9 = i8 + enc_str(o.sz@).len();
            let i10 = i9 + enc_str(key_r()).len();
            let i11 = i10 + enc_bool(o.reduce_only).len();
            let i12 = i11 + enc_str(key_t()).len();
            let i13 = i12 + enc_order_kind(o.kind).len();
            &&& dec_key(b, i7, key_s()) == Some(i8)
            &&& dec_str(b, i8) == Some((o.sz@, i9))
            &&& dec_key(b, i9, key_r()) == Some(i10)
            &&& dec_bool(b, i10) == Some((o.reduce_only, i11))
            &&& dec_key(b, i11, key_t()) == Some(i12)
            &&& dec_kind(b, i12) == Some((o.kind, i13))
            &&& match o.cloid {
                Some(c) => {
                    let i14 = i13 + enc_str(key_c()).len();
                    let i15 = i14 + enc_str(cloid_bytes(c)).len();
                    &&& dec_key(b, i13, key_c()) == Some(i14)
                    &&& dec_cloid(b, i14) == Some((c as int, i15))
                    &&& i + enc_order(o).len() == i15
                },
                None => i + enc_order(o).len() == i13,
            }
        }),
{
    lemma_order_slices(b, i, o);
    let i1 = i + enc_map_hdr(order_field_count(o)).len();
    let i2 = i1 + enc_str(key_a()).len();
    let i3 = i2 + enc_uint(o.asset as u64).len();
    let i4 = i3 + enc_str(key_b()).len();
    let i5 = i4 + enc_bool(o.is_buy).len();
    let i6 = i5 + enc_str(key_p()).len();
    let i7 = i6 + enc_str(o.limit_px@).len();
    let i8 = i7 + enc_str(key_s()).len();
    let i9 = i8 + enc_str(o.sz@).len();
    let i10 = i9 + enc_str(key_r()).len();
    let i11 = i10 + enc_bool(o.reduce_only).len();
    let i12 = i11 + enc_str(key_t()).len();
    lemma_dec_key(b, i7, key_s());
    lemma_dec_str(b, i8, o.sz@);
    lemma_dec_key(b, i9, key_r());
    lemma_dec_bool(b, i10, o.reduce_only);
    lemma_dec_key(b, i11, key_t());
    lemma_dec_kind(b, i12, o.kind);
    match o.cloid {
        Some(c) => {
            let i13 = i12 + enc_order_kind(o.kind).len();
            let i14 = i13 + enc_str(key_c()).len();
            lemma_dec_key(b, i13, key_c());
            lemma_dec_cloid(b, i14, c);
        },
        None => {},
    }
}

/// Decoding an encoded order gives it back.
#[verifier::rlimit(100)]
proof fn lemma_dec_order(b: Seq<u8>, i: int, o: OrderDescription)
    requires
        o.valid(),
        0 <= i,
        i + enc_order(o).len() <= b.len(),
        b.subrange(i, i + enc_order(o).len()) == enc_order(o),
    ensures
        dec_order(b, i) == Some((o@, i + enc_order(o).len())),
{
    lemma_order_decs_head(b, i, o);
    lemma_order_decs_tail(b, i, o);
}

/// Prepending an order's view to the views of a batch gives the views of
/// the batch with that order in front.
proof fn lemma_views_cons(s: Seq<OrderDescription>)
    requires
        s.len() > 0,
    ensures
        seq![s.first()@] + Seq::new(s.drop_first().len(), |k: int| s.drop_first()[k]@) =~= Seq::new(
            s.len(),
            |k: int| s[k]@,
        ),
{
}

/// Decoding an encoded batch of orders gives it back.
proof fn lemma_dec_orders(b: Seq<u8>, i: int, s: Seq<OrderDescription>)
    requires
        forall|k: int| 0 <= k < s.len() ==> (#[trigger] s[k]).valid(),
        0 <= i,
        i + enc_orders(s).len() <= b.len(),
        b.subrange(i, i + enc_orders(s).len()) == enc_orders(s),
    ensures
        dec_orders(b, i, s.len()) == Some(
            (Seq::new(s.len(), |k: int| s[k]@), i + enc_orders(s).len()),
        ),
    decreases s.len(),
{
    if s.len() == 0 {
        assert(Seq::new(0, |k: int| s[k]@) =~= Seq::<crate::order::OrderV>::empty());
    } else {
        let hd = enc_order(s.first());
        let tl = enc_orders(s.drop_first());
        lemma_slice_parts(b, i, hd, tl);
        assert(s.first().valid());
        lemma_dec_order(b, i, s.first());
        let j = i + hd.len();
        assert(forall|k: int|
            0 <= k < s.drop_first().len() ==> (#[trigger] s.drop_first()[k]).valid());
        lemma_dec_orders(b, j, s.drop_first());
        lemma_views_cons(s);
    }
}

/// Decoding an encoded builder reference gives it back.
proof fn lemma_dec_builder(b: Seq<u8>, i: int, bi: BuilderInfo)
    requires
        bi.valid(),
        0 <= i,
        i + enc_builder(bi).len() <= b.len(),
        b.subrange(i, i + enc_builder(bi).len()) == enc_builder(bi),
    ensures
        dec_builder(b, i) == Some((bi@, i + enc_builder(bi).len())),
{
    let a1 = enc_map_hdr(2);
    let a2 = enc_str(key_b());
    let a3 = enc_str(bi.builder@);
    let a4 = enc_str(key_f());
    let a5 = enc_uint(bi.fee);
    let p2 = a1 + a2;
    let p3 = p2 + a3;
    let p4 = p3 + a4;
    lemma_slice_parts(b, i, p4, a5);
    lemma_slice_parts(b, i, p3, a4);
    lemma_slice_parts(b, i, p2, a3);
    lemma_slice_parts(b, i, a1, a2);
    let i1 = i + a1.len();
    let i2 = i1 + a2.len();
    let i3 = i2 + a3.len();
    let i4 = i3 + a4.len();
    lemma_dec_map_hdr(b, i, 2);
    lemma_dec_key(b, i1, key_b());
    lemma_dec_str(b, i2, bi.builder@);
    lemma_dec_key(b, i3, key_f());
    lemma_dec_uint(b, i4, bi.fee);
}

/// The slice of the encoded action that each item occupies.
#[verifier::rlimit(100)]
proof fn lemma_action_slices(a: Action)
    requires
        a.valid(),
    ensures
        ({
            let b = enc_action(a);
            let nn: int = if a.builder is Some {
                4
            } else {
                3
            };
            let i1 = enc_map_hdr(nn).len() as int;
            let i2 = i1 + enc_str(key_type()).len();
            let i3 = i2 + enc_str(tag_order()).len();
            let i4 = i3 + enc_str(key_orders()).len();
            let i5 = i4 + enc_arr_hdr(a.orders@.len() as int).len();
            let i6 = i5 + enc_orders(a.orders@).len();
            let i7 = i6 + enc_str(key_grouping()).len();
            let i8 = i7 + enc_str(grouping_bytes(a.grouping)).len();
            &&& b.subrange(0, i1) == enc_map_hdr(nn)
            &&& b.subrange(i1, i2) == enc_str(key_type())
            &&& b.subrange(i2, i3) == enc_str(tag_order())
            &&& b.subrange(i3, i4) == enc_str(key_orders())
            &&& b.subrange(i4, i5) == enc_arr_hdr(a.orders@.len() as int)
            &&& b.subrange(i5, i6) == enc_orders(a.orders@)
            &&& b.subrange(i6, i7) == enc_str(key_grouping())
            &&& b.subrange(i7, i8) == enc_str(grouping_bytes(a.grouping))
            &&& match a.builder {
                Some(bi) => {
                    let i9 = i8 + enc_str(key_builder()).len();
                    &&& b.subrange(i8, i9) == enc_str(key_builder())
                    &&& b.subrange(i9, i9 + enc_builder(bi).len()) == enc_builder(bi)
                    &&& b.len() == i9 + enc_builder(bi).len()
                },
                None => b.len() == i8,
            }
        }),
{
    let b = enc_action(a);
    assert(b.subrange(0, b.len() as int) =~= b);
    let c1 = enc_map_hdr(
        if a.builder is Some {
            4
        } else {
            3
        },
    );
    let c2 = enc_str(key_type());
    let c3 = enc_str(tag_order());
    let c4 = enc_str(key_orders());
    let c5 = enc_arr_hdr(a.orders@.len() as int);
    let c6 = enc_orders(a.orders@);
    let c7 = enc_str(key_grouping());
    let c8 = enc_str(grouping_bytes(a.grouping));
    let p2 = c1 + c2;
    let p3 = p2 + c3;
    let p4 = p3 + c4;
    let p5 = p4 + c5;
    let p6 = p5 + c6;
    let p7 = p6 + c7;
    let p8 = p7 + c8;
    match a.builder {
        Some(bi) => {
            let c9a = enc_str(key_builder());
            let c9b = enc_builder(bi);
            lemma_slice_parts(b, 0, p8, c9a + c9b);
            lemma_slice_parts(b, p8.len() as int, c9a, c9b);
            lemma_slice_parts(b, 0, p7, c8);
            lemma_slice_parts(b, 0, p6, c7);
            lemma_slice_parts(b, 0, p5, c6);
            lemma_slice_parts(b, 0, p4, c5);
            lemma_slice_parts(b, 0, p3, c4);
            lemma_slice_parts(b, 0, p2, c3);
            lemma_slice_parts(b, 0, c1, c2);
        },
        None => {
            assert(p8 + Seq::<u8>::empty() =~= p8);
            lemma_slice_parts(b, 0, p7, c8);
            lemma_slice_parts(b, 0, p6, c7);
            lemma_slice_parts(b, 0, p5, c6);
            lemma_slice_parts(b, 0, p4, c5);
            lemma_slice_parts(b, 0, p3, c4);
            lemma_slice_parts(b, 0, p2, c3);
            lemma_slice_parts(b, 0, c1, c2);
        },
    }
}

/// The first half of the item-level decodings inside an encoded action.
#[verifier::rlimit(100)]
proof fn lemma_action_decs_head(a: Action)
    requires
        a.valid(),
    ensures
        ({
            let b = enc_action(a);
            let nn: int = if a.builder is Some {
                4
            } else {
                3
            };
            let i1 = enc_map_hdr(nn).len() as int;
            let i2 = i1 + enc_str(key_type()).len();
            let i3 = i2 + enc_str(tag_order()).len();
            let i4 = i3 + enc_str(key_orders()).len();
            let i5 = i4 + enc_arr_hdr(a.orders@.len() as int).len();
            &&& dec_map_hdr(b, 0) == Some((nn, i1))
            &&& dec_key(b, i1, key_type()) == Some(i2)
            &&& dec_str(b, i2) == Some((tag_order(), i3))
            &&& dec_key(b, i3, key_orders()) == Some(i4)
            &&& dec_arr_hdr(b, i4) == Some((a.orders@.len() as int, i5))
        }),
{
    lemma_action_slices(a);
    let b = enc_action(a);
    let nn: int = if a.builder is Some {
        4
    } else {
        3
    };
    let i1 = enc_map_hdr(nn).len() as int;
    let i2 = i1 + enc_str(key_type()).len();
    let i3 = i2 + enc_str(tag_order()).len();
    let i4 = i3 + enc_str(key_orders()).len();
    lemma_dec_map_hdr(b, 0, nn);
    lemma_dec_key(b, i1, key_type());
    lemma_dec_str(b, i2, tag_order());
    lemma_dec_key(b, i3, key_orders());
    lemma_dec_arr_hdr(b, i4, a.orders@.len() as int);
}

/// The batch decoding inside an encoded action.
#[verifier::rlimit(100)]
proof fn lemma_action_decs_orders(a: Action)
    requires
        a.valid(),
    ensures
        ({
            let b = enc_action(a);
            let nn: int = if a.builder is Some {
                4
            } else {
                3
            };
            let i1 = enc_map_hdr(nn).len() as int;
            let i2 = i1 + enc_str(key_type()).len();
            let i3 = i2 + enc_str(tag_order()).len();
            let i4 = i3 + enc_str(key_orders()).len();
            let i5 = i4 + enc_arr_hdr(a.orders@.len() as int).len();
            let i6 = i5 + enc_orders(a.orders@).len();
            dec_orders(b, i5, a.orders@.len()) == Some(
                (Seq::new(a.orders@.len(), |k: int| a.orders@[k]@), i6),
            )
        }),
{
    lemma_action_slices(a);
    let b = enc_action(a);
    let nn: int = if a.builder is Some {
        4
    } else {
        3
    };
    let i1 = enc_map_hdr(nn).len() as int;
    let i2 = i1 + enc_str(key_type()).len();
    let i3 = i2 + enc_str(tag_order()).len();
    let i4 = i3 + enc_str(key_orders()).len();
    let i5 = i4 + enc_arr_hdr(a.orders@.len() as int).len();
    lemma_dec_orders(b, i5, a.orders@);
}

/// The trailing decodings inside an encoded action.
#[verifier::rlimit(100)]
proof fn lemma_action_decs_tail(a: Action)
    requires
        a.valid(),
    ensures
        ({
            let b = enc_action(a);
            let nn: int = if a.builder is Some {
                4
            } else {
                3
            };
            let i1 = enc_map_hdr(nn).len() as int;
            let i2 = i1 + enc_str(key_type()).len();
            let i3 = i2 + enc_str(tag_order()).len();
            let i4 = i3 + enc_str(key_orders()).len();
            let i5 = i4 + enc_arr_hdr(a.orders@.len() as int).len();
            let i6 = i5 + enc_orders(a.orders@).len();
            let i7 = i6 + enc_str(key_grouping()).len();
            let i8 = i7 + enc_str(grouping_bytes(a.grouping)).len();
            &&& dec_key(b, i6, key_grouping()) == Some(i7)
            &&& dec_grouping(b, i7) == Some((a.grouping, i8))
            &&& match a.builder {
                Some(bi) => {
                    let i9 = i8 + enc_str(key_builder()).len();
                    &&& dec_key(b, i8, key_builder()) == Some(i9)
                    &&& dec_builder(b, i9) == Some((bi@, b.len() as int))
                },
                None => b.len() == i8,
            }
        }),
{
    lemma_action_slices(a);
    let b = enc_action(a);
    let nn: int = if a.builder is Some {
        4
    } else {
        3
    };
    let i1 = enc_map_hdr(nn).len() as int;
    let i2 = i1 + enc_str(key_type()).len();
    let i3 = i2 + enc_str(tag_order()).len();
    let i4 = i3 + enc_str(key_orders()).len();
    let i5 = i4 + enc_arr_hdr(a.orders@.len() as int).len();
    let i6 = i5 + enc_orders(a.orders@).len();
    let i7 = i6 + enc_str(key_grouping()).len();
    lemma_dec_key(b, i6, key_grouping());
    assert(grouping_bytes(a.grouping).len() < 65536);
    lemma_dec_str(b, i7, grouping_bytes(a.grouping));
    assert(grouping_bytes(Grouping::Na).len() == 2);
    assert(grouping_bytes(Grouping::NormalTpsl).len() == 10);
    assert(grouping_bytes(Grouping::PositionTpsl).len() == 12);
    match a.builder {
        Some(bi) => {
            let i8 = i7 + enc_str(grouping_bytes(a.grouping)).len();
            let c9a = enc_str(key_builder());
            lemma_dec_key(b, i8, key_builder());
            lemma_dec_builder(b, i8 + c9a.len(), bi);
        },
        None => {},
    }
}

/// Canonical encoding round-trips: decoding the canonical bytes of any
/// well-formed action yields that action, field for field.
#[verifier::rlimit(100)]
pub proof fn lemma_decode_encode(a: Action)
    requires
        a.valid(),
    ensures
        spec_decode_action(enc_action(a)) == Some(a@),
{
    lemma_action_decs_head(a);
    lemma_action_decs_orders(a);
    lemma_action_decs_tail(a);
    let b = enc_action(a);
    assert(dec_action_at(b, 0) == Some((a@, b.len() as int)));
}

/// Reassociate one appended piece into a running left-nested chain.
proof fn lemma_chain_step(base: Seq<u8>, f: Seq<u8>, p: Seq<u8>, cur: Seq<u8>)
    requires
        cur == base + f + p,
    ensures
        cur == base + (f + p),
{
    vstd::seq_lib::lemma_concat_associative(base, f, p);
}

/// Append one order.
fn put_order(out: &mut Vec<u8>, o: &OrderDescription)
    requires
        o.valid(),
    ensures
        final(out)@ == old(out)@ + enc_order(*o),
{
    let field_count: usize = if o.cloid.is_some() {
        7
    } else {
        6
    };
    put_map_hdr(out, field_count);
    let ghost f = enc_map_hdr(order_field_count(*o));
    put_str(out, &[97u8]);
    proof {
        assert([97u8]@ =~= key_a());
        lemma_chain_step(old(out)@, f, enc_str(key_a()), out@);
    }
    let ghost f = f + enc_str(key_a());
    put_uint(out, o.asset as u64);
    proof {
        lemma_chain_step(old(out)@, f, enc_uint(o.asset as u64), out@);
    }
    let ghost f = f + enc_uint(o.asset as u64);
    put_str(out, &[98u8]);
    proof {
        assert([98u8]@ =~= key_b());
        lemma_chain_step(old(out)@, f, enc_str(key_b()), out@);
    }
    let ghost f = f + enc_str(key_b());
    put_bool(out, o.is_buy);
    proof {
        lemma_chain_step(old(out)@, f, enc_bool(o.is_buy), out@);
    }
    let ghost f = f + enc_bool(o.is_buy);
    put_str(out, &[112u8]);
    proof {
        assert([112u8]@ =~= key_p());
        lemma_chain_step(old(out)@, f, enc_str(key_p()), out@);
    }
    let ghost f = f + enc_str(key_p());
    put_str(out, o.limit_px.as_slice());
    proof {
        lemma_chain_step(old(out)@, f, enc_str(o.limit_px@), out@);
    }
    let ghost f = f + enc_str(o.limit_px@);
    put_str(out, &[115u8]);
    proof {
        assert([115u8]@ =~= key_s());
        lemma_chain_step(old(out)@, f, enc_str(key_s()), out@);
    }
    let ghost f = f + enc_str(key_s());
    put_str(out, o.sz.as_slice());
    proof {
        lemma_chain_step(old(out)@, f, enc_str(o.sz@), out@);
    }
    let ghost f = f + enc_str(o.sz@);
    put_str(out, &[114u8]);
    proof {
        assert([114u8]@ =~= key_r());
        lemma_chain_step(old(out)@, f, enc_str(key_r()), out@);
    }
    let ghost f = f + enc_str(key_r());
    put_bool(out, o.reduce_only);
    proof {
        lemma_chain_step(old(out)@, f, enc_bool(o.reduce_only), out@);
    }
    let ghost f = f + enc_bool(o.reduce_only);
    put_str(out, &[116u8]);
    proof {
        assert([116u8]@ =~= key_t());
        lemma_chain_step(old(out)@, f, enc_str(key_t()), out@);
    }
    let ghost f = f + enc_str(key_t());
    match o.kind {
        OrderKind::Limit { tif } => {
            let ghost b2 = old(out)@ + f;
            put_map_hdr(out, 1);
            let ghost g = enc_map_hdr(1);
            put_str(out, &[108u8, 105u8, 109u8, 105u8, 116u8]);
            proof {
                assert([108u8, 105u8, 109u8, 105u8, 116u8]@ =~= key_limit());
                lemma_chain_step(b2, g, enc_str(key_limit()), out@);
            }
            let ghost g = g + enc_str(key_limit());
            put_map_hdr(out, 1);
            proof {
                lemma_chain_step(b2, g, enc_map_hdr(1), out@);
            }
            let ghost g = g + enc_map_hdr(1);
            put_str(out, &[116u8, 105u8, 102u8]);
            proof {
                assert([116u8, 105u8, 102u8]@ =~= key_tif());
                lemma_chain_step(b2, g, enc_str(key_tif()), out@);
            }
            let ghost g = g + enc_str(key_tif());
            match tif {
                Tif::Alo => {
                    put_str(out, &[65u8, 108u8, 111u8]);
                    proof {
                        assert([65u8, 108u8, 111u8]@ =~= tif_bytes(tif));
                        lemma_chain_step(b2, g, enc_str(tif_bytes(tif)), out@);
                    }
                },
                Tif::Ioc => {
                    put_str(out, &[73u8, 111u8, 99u8]);
                    proof {
                        assert([73u8, 111u8, 99u8]@ =~= tif_bytes(tif));
                        lemma_chain_step(b2, g, enc_str(tif_bytes(tif)), out@);
                    }
                },
                Tif::Gtc => {
                    put_str(out, &[71u8, 116u8, 99u8]);
                    proof {
                        assert([71u8, 116u8, 99u8]@ =~= tif_bytes(tif));
                        lemma_chain_step(b2, g, enc_str(tif_bytes(tif)), out@);
                    }
                },
            }
            proof {
                assert(g + enc_str(tif_bytes(tif)) == enc_order_kind(o.kind));
                lemma_chain_step(old(out)@, f, enc_order_kind(o.kind), out@);
            }
        },
    }
    let ghost f = f + enc_order_kind(o.kind);
    match o.cloid {
        Some(c) => {
            let ghost b3 = old(out)@ + f;
            put_str(out, &[99u8]);
            let ghost g = enc_str(key_c());
            proof {
                assert([99u8]@ =~= key_c());
            }
            let rendered = render_cloid(c);
            assert(rendered@.len() == 34) by {
                crate::ascii::lemma_hex_fixed_len(c as int, 32);
            }
            put_str(out, rendered.as_slice());
            proof {
                lemma_chain_step(b3, g, enc_str(cloid_bytes(c)), out@);
                lemma_chain_step(old(out)@, f, g + enc_str(cloid_bytes(c)), out@);
                assert(f + (enc_str(key_c()) + enc_str(cloid_bytes(c))) == enc_order(*o));
            }
        },
        None => {
            proof {
                assert(f + Seq::<u8>::empty() =~= f);
                assert(enc_order(*o) == f + Seq::<u8>::empty());
            }
        },
    }
}

/// Encode a well-formed action into its canonical bytes.
pub fn encode_action(a: &Action) -> (r: Vec<u8>)
    requires
        a.valid(),
    ensures
        r@ == enc_action(*a),
{
    let mut out: Vec<u8> = Vec::new();
    let map_len: usize = if a.builder.is_some() {
        4
    } else {
        3
    };
    put_map_hdr(&mut out, map_len);
    let ghost f = enc_map_hdr(
        if a.builder is Some {
            4
        } else {
            3
        },
    );
    proof {
        assert(Seq::<u8>::empty() + f =~= f);
    }
    put_str(&mut out, &[116u8, 121u8, 112u8, 101u8]);
    proof {
        assert([116u8, 121u8, 112u8, 101u8]@ =~= key_type());
    }
    let ghost f = f + enc_str(key_type());
    put_str(&mut out, &[111u8, 114u8, 100u8, 101u8, 114u8]);
    proof {
        assert([111u8, 114u8, 100u8, 101u8, 114u8]@ =~= tag_order());
    }
    let ghost f = f + enc_str(tag_order());
    put_str(&mut out, &[111u8, 114u8, 100u8, 101u8, 114u8, 115u8]);
    proof {
        assert([111u8, 114u8, 100u8, 101u8, 114u8, 115u8]@ =~= key_orders());
    }
    let ghost f = f + enc_str(key_orders());
    put_arr_hdr(&mut out, a.orders.len());
    let ghost f = f + enc_arr_hdr(a.orders@.len() as int);
    let mut i: usize = 0;
    while i < a.orders.len()
        invariant
            0 <= i <= a.orders@.len(),
            a.valid(),
            out@ == f + enc_orders(a.orders@.take(i as int)),
        decreases a.orders@.len() - i,
    {
        put_order(&mut out, &a.orders[i]);
        proof {
            lemma_enc_orders_push(a.orders@.take(i as int), a.orders@[i as int]);
            assert(a.orders@.take(i as int + 1) =~= a.orders@.take(i as int).push(
                a.orders@[i as int],
            ));
            lemma_chain_step(f, enc_orders(a.orders@.take(i as int)), enc_order(
                a.orders@[i as int],
            ), out@);
        }
        i = i + 1;
    }
    proof {
        assert(a.orders@.take(a.orders@.len() as int) =~= a.orders@);
    }
    let ghost f = f + enc_orders(a.orders@);
    put_str(&mut out, &[103u8, 114u8, 111u8, 117u8, 112u8, 105u8, 110u8, 103u8]);
    proof {
        assert([103u8, 114u8, 111u8, 117u8, 112u8, 105u8, 110u8, 103u8]@ =~= key_grouping());
    }
    let ghost f = f + enc_str(key_grouping());
    match a.grouping {
        Grouping::Na => {
            put_str(&mut out, &[110u8, 97u8]);
            proof {
                assert([110u8, 97u8]@ =~= grouping_bytes(a.grouping));
            }
        },
        Grouping::NormalTpsl => {
            put_str(&mut out, &[110u8, 111u8, 114u8, 109u8, 97u8, 108u8, 84u8, 112u8, 115u8, 108u8]);
            proof {
                assert([110u8, 111u8, 114u8, 109u8, 97u8, 108u8, 84u8, 112u8, 115u8, 108u8]@
                    =~= grouping_bytes(a.grouping));
            }
        },
        Grouping::PositionTpsl => {
            put_str(
                &mut out,
                &[112u8, 111u8, 115u8, 105u8, 116u8, 105u8, 111u8, 110u8, 84u8, 112u8, 115u8, 108u8],
            );
            proof {
                assert([112u8, 111u8, 115u8, 105u8, 116u8, 105u8, 111u8, 110u8, 84u8, 112u8, 115u8,
                    108u8]@ =~= grouping_bytes(a.grouping));
            }
        },
    }
    let ghost f = f + enc_str(grouping_bytes(a.grouping));
    match &a.builder {
        Some(b) => {
            put_str(&mut out, &[98u8, 117u8, 105u8, 108u8, 100u8, 101u8, 114u8]);
            proof {
                assert([98u8, 117u8, 105u8, 108u8, 100u8, 101u8, 114u8]@ =~= key_builder());
            }
            let ghost b2 = f + enc_str(key_builder());
            put_map_hdr(&mut out, 2);
            let ghost g = enc_map_hdr(2);
            put_str(&mut out, &[98u8]);
            proof {
                assert([98u8]@ =~= key_b());
                lemma_chain_step(b2, g, enc_str(key_b()), out@);
            }
            let ghost g = g + enc_str(key_b());
            put_str(&mut out, b.builder.as_slice());
            proof {
                lemma_chain_step(b2, g, enc_str(b.builder@), out@);
            }
            let ghost g = g + enc_str(b.builder@);
            put_str(&mut out, &[102u8]);
            proof {
                assert([102u8]@ =~= key_f());
                lemma_chain_step(b2, g, enc_str(key_f()), out@);
            }
            let ghost g = g + enc_str(key_f());
            put_uint(&mut out, b.fee);
            proof {
                lemma_chain_step(b2, g, enc_uint(b.fee), out@);
                assert(g + enc_uint(b.fee) == enc_builder(*b));
                lemma_chain_step(f, enc_str(key_builder()), enc_builder(*b), out@);
                assert(out@ == enc_action(*a));
            }
        },
        None => {
            proof {
                assert(f + Seq::<u8>::empty() =~= f);
                assert(out@ == enc_action(*a));
            }
        },
    }
    out
}

// --- Executable decoder ---
/// Compare bytes with an expected literal.
fn eq_bytes(x: &Vec<u8>, lit: &[u8]) -> (r: bool)
    ensures
        r == (x@ == lit@),
{
    if x.len() != lit.len() {
        proof {
            assert(x@.len() != lit@.len());
        }
        return false;
    }
    let mut k: usize = 0;
    while k < x.len()
        invariant
            0 <= k <= x@.len(),
            x@.len() == lit@.len(),
            forall|j: int| 0 <= j < k ==> x@[j] == lit@[j],
        decreases x@.len() - k,
    {
        if x[k] != lit[k] {
            return false;
        }
        k = k + 1;
    }
    proof {
        assert(x@ =~= lit@);
    }
    true
}

/// Read an unsigned integer.
fn rd_uint(b: &Vec<u8>, i: usize) -> (r: Option<(u64, usize)>)
    ensures
        match r {
            Some((v, j)) => dec_uint(b@, i as int) == Some((v as int, j as int)),
            None => dec_uint(b@, i as int) is None,
        },
{
    if i >= b.len() {
        return None;
    }
    let m = b[i];
    if m < 0x80 {
        Some((m as u64, i + 1))
    } else if m == 0xcc && b.len() - i >= 2 {
        Some((b[i + 1] as u64, i + 2))
    } else if m == 0xcd && b.len() - i >= 3 {
        Some(((b[i + 1] as u64) * 256 + (b[i + 2] as u64), i + 3))
    } else if m == 0xce && b.len() - i >= 5 {
        Some(
            (
                (b[i + 1] as u64) * 0x1000000 + (b[i + 2] as u64) * 0x10000 + (b[i + 3] as u64)
                    * 256 + (b[i + 4] as u64),
                i + 5,
            ),
        )
    } else if m == 0xcf && b.len() - i >= 9 {
        Some(
            (
                (b[i + 1] as u64) * 0x100000000000000 + (b[i + 2] as u64) * 0x1000000000000 + (b[i
                    + 3] as u64) * 0x10000000000 + (b[i + 4] as u64) * 0x100000000 + (b[i
                    + 5] as u64) * 0x1000000 + (b[i + 6] as u64) * 0x10000 + (b[i + 7] as u64)
                    * 256 + (b[i + 8] as u64),
                i + 9,
            ),
        )
    } else {
        None
    }
}

/// Read a boolean.
fn rd_bool(b: &Vec<u8>, i: usize) -> (r: Option<(bool, usize)>)
    ensures
        match r {
            Some((v, j)) => dec_bool(b@, i as int) == Some((v, j as int)),
            None => dec_bool(b@, i as int) is None,
        },
{
    if i >= b.len() {
        return None;
    }
    if b[i] == 0xc2 {
        Some((false, i + 1))
    } else if b[i] == 0xc3 {
        Some((true, i + 1))
    } else {
        None
    }
}

/// Read a string.
fn rd_str(b: &Vec<u8>, i: usize) -> (r: Option<(Vec<u8>, usize)>)
    ensures
        match r {
            Some((s, j)) => dec_str(b@, i as int) matches Some((sv, jv)) && s@ == sv && j as int
                == jv,
            None => dec_str(b@, i as int) is None,
        },
{
    if i >= b.len() {
        return None;
    }
    let m = b[i];
    let (h, l): (usize, usize) = if 0xa0 <= m && m <= 0xbf {
        (1, (m - 0xa0) as usize)
    } else if m == 0xd9 && b.len() - i >= 2 {
        (2, b[i + 1] as usize)
    } else if m == 0xda && b.len() - i >= 3 {
        (3, (b[i + 1] as usize) * 256 + (b[i + 2] as usize))
    } else {
        return None;
    };
    if h > b.len() - i {
        return None;
    }
    let st = i + h;
    if l > b.len() - st {
        return None;
    }
    let n_ = b.len();
    let mut s: Vec<u8> = Vec::new();
    let mut k: usize = 0;
    while k < l
        invariant
            0 <= k <= l,
            st + l <= b@.len(),
            n_ == b@.len(),
            s@ == b@.subrange(st as int, st as int + k as int),
        decreases l - k,
    {
        s.push(b[st + k]);
        proof {
            assert(b@.subrange(st as int, st as int + k as int + 1) =~= b@.subrange(
                st as int,
                st as int + k as int,
            ).push(b@[st as int + k as int]));
        }
        k = k + 1;
    }
    Some((s, st + l))
}

/// Read a map header.
fn rd_map_hdr(b: &Vec<u8>, i: usize) -> (r: Option<(usize, usize)>)
    ensures
        match r {
            Some((n, j)) => dec_map_hdr(b@, i as int) == Some((n as int, j as int)),
            None => dec_map_hdr(b@, i as int) is None,
        },
{
    if i >= b.len() {
        return None;
    }
    let m = b[i];
    if 0x80 <= m && m <= 0x8f {
        Some(((m - 0x80) as usize, i + 1))
    } else if m == 0xde && b.len() - i >= 3 {
        Some(((b[i + 1] as usize) * 256 + (b[i + 2] as usize), i + 3))
    } else {
        None
    }
}

/// Read an array header.
fn rd_arr_hdr(b: &Vec<u8>, i: usize) -> (r: Option<(usize, usize)>)
    ensures
        match r {
            Some((n, j)) => dec_arr_hdr(b@, i as int) == Some((n as int, j as int)),
            None => dec_arr_hdr(b@, i as int) is None,
        },
{
    if i >= b.len() {
        return None;
    }
    let m = b[i];
    if 0x90 <= m && m <= 0x9f {
        Some(((m - 0x90) as usize, i + 1))
    } else if m == 0xdc && b.len() - i >= 3 {
        Some(((b[i + 1] as usize) * 256 + (b[i + 2] as usize), i + 3))
    } else {
        None
    }
}

/// Read a string and require it to be the expected key.
fn rd_key(b: &Vec<u8>, i: usize, k: &[u8]) -> (r: Option<usize>)
    ensures
        match r {
            Some(j) => dec_key(b@, i as int, k@) == Some(j as int),
            None => dec_key(b@, i as int, k@) is None,
        },
{
    match rd_str(b, i) {
        Some((s, j)) => if eq_bytes(&s, k) {
            Some(j)
        } else {
            None
        },
        None => None,
    }
}

/// Read an order-type object.
fn rd_kind(b: &Vec<u8>, i: usize) -> (r: Option<(OrderKind, usize)>)
    ensures
        match r {
            Some((k, j)) => dec_kind(b@, i as int) == Some((k, j as int)),
            None => dec_kind(b@, i as int) is None,
        },
{
    let (n1, i1) = match rd_map_hdr(b, i) {
        Some(x) => x,
        None => {
            return None;
        },
    };
    if n1 != 1 {
        return None;
    }
    let i2 = match rd_key(b, i1, &[108u8, 105u8, 109u8, 105u8, 116u8]) {
        Some(x) => x,
        None => {
            proof {
                assert([108u8, 105u8, 109u8, 105u8, 116u8]@ =~= key_limit());
            }
            return None;
        },
    };
    proof {
        assert([108u8, 105u8, 109u8, 105u8, 116u8]@ =~= key_limit());
    }
    let (n2, i3) = match rd_map_hdr(b, i2) {
        Some(x) => x,
        None => {
            return None;
        },
    };
    if n2 != 1 {
        return None;
    }
    let i4 = match rd_key(b, i3, &[116u8, 105u8, 102u8]) {
        Some(x) => x,
        None => {
            proof {
                assert([116u8, 105u8, 102u8]@ =~= key_tif());
            }
            return None;
        },
    };
    proof {
        assert([116u8, 105u8, 102u8]@ =~= key_tif());
    }
    let (s, i5) = match rd_str(b, i4) {
        Some(x) => x,
        None => {
            return None;
        },
    };
    let t: Tif = if eq_bytes(&s, &[65u8, 108u8, 111u8]) {
        proof {
            assert([65u8, 108u8, 111u8]@ =~= tif_bytes(Tif::Alo));
        }
        Tif::Alo
    } else if eq_bytes(&s, &[73u8, 111u8, 99u8]) {
        proof {
            assert([65u8, 108u8, 111u8]@ =~= tif_bytes(Tif::Alo));
            assert([73u8, 111u8, 99u8]@ =~= tif_bytes(Tif::Ioc));
        }
        Tif::Ioc
    } else if eq_bytes(&s, &[71u8, 116u8, 99u8]) {
        proof {
            assert([65u8, 108u8, 111u8]@ =~= tif_bytes(Tif::Alo));
            assert([73u8, 111u8, 99u8]@ =~= tif_bytes(Tif::Ioc));
            assert([71u8, 116u8, 99u8]@ =~= tif_bytes(Tif::Gtc));
        }
        Tif::Gtc
    } else {
        proof {
            assert([65u8, 108u8, 111u8]@ =~= tif_bytes(Tif::Alo));
            assert([73u8, 111u8, 99u8]@ =~= tif_bytes(Tif::Ioc));
            assert([71u8, 116u8, 99u8]@ =~= tif_bytes(Tif::Gtc));
        }
        return None;
    };
    Some((OrderKind::Limit { tif: t }, i5))
}

/// Read one order.
#[verifier::rlimit(100)]
fn rd_order(b: &Vec<u8>, i: usize) -> (r: Option<(OrderDescription, usize)>)
    ensures
        match r {
            Some((o, j)) => dec_order(b@, i as int) == Some((o@, j as int)),
            None => dec_order(b@, i as int) is None,
        },
{
    let (n, i1) = match rd_map_hdr(b, i) {
        Some(x) => x,
        None => {
            return None;
        },
    };
    if n != 6 && n != 7 {
        return None;
    }
    let i2 = match rd_key(b, i1, &[97u8]) {
        Some(x) => x,
        None => {
            proof {
                assert([97u8]@ =~= key_a());
            }
            return None;
        },
    };
    proof {
        assert([97u8]@ =~= key_a());
    }
    let (av, i3) = match rd_uint(b, i2) {
        Some(x) => x,
        None => {
            return None;
        },
    };
    if av >= 0x100000000 {
        return None;
    }
    let i4 = match rd_key(b, i3, &[98u8]) {
        Some(x) => x,
        None => {
            proof {
                assert([98u8]@ =~= key_b());
            }
            return None;
        },
    };
    proof {
        assert([98u8]@ =~= key_b());
    }
    let (buy, i5) = match rd_bool(b, i4) {
        Some(x) => x,
        None => {
            return None;
        },
    };
    let i6 = match rd_key(b, i5, &[112u8]) {
        Some(x) => x,
        None => {
            proof {
                assert([112u8]@ =~= key_p());
            }
            return None;
        },
    };
    proof {
        assert([112u8]@ =~= key_p());
    }
    let (px, i7) = match rd_str(b, i6) {
        Some(x) => x,
        None => {
            return None;
        },
    };
    let i8 = match rd_key(b, i7, &[115u8]) {
        Some(x) => x,
        None => {
            proof {
                assert([115u8]@ =~= key_s());
            }
            return None;
        },
    };
    proof {
        assert([115u8]@ =~= key_s());
    }
    let (szv, i9) = match rd_str(b, i8) {
        Some(x) => x,
        None => {
            return None;
        },
    };
    let i10 = match rd_key(b, i9, &[114u8]) {
        Some(x) => x,
        None => {
            proof {
                assert([114u8]@ =~= key_r());
            }
            return None;
        },
    };
    proof {
        assert([114u8]@ =~= key_r());
    }
    let (ro, i11) = match rd_bool(b, i10) {
        Some(x) => x,
        None => {
            return None;
        },
    };
    let i12 = match rd_key(b, i11, &[116u8]) {
        Some(x) => x,
        None => {
            proof {
                assert([116u8]@ =~= key_t());
            }
            return None;
        },
    };
    proof {
        assert([116u8]@ =~= key_t());
    }
    let (k, i13) = match rd_kind(b, i12) {
        Some(x) => x,
        None => {
            return None;
        },
    };
    if n == 6 {
        let o = OrderDescription {
            asset: av as u32,
            is_buy: buy,
            reduce_only: ro,
            limit_px: px,
            sz: szv,
            cloid: None,
            kind: k,
        };
        return Some((o, i13));
    }
    let i14 = match rd_key(b, i13, &[99u8]) {
        Some(x) => x,
        None => {
            proof {
                assert([99u8]@ =~= key_c());
            }
            return None;
        },
    };
    proof {
        assert([99u8]@ =~= key_c());
    }
    let (cs, i15) = match rd_str(b, i14) {
        Some(x) => x,
        None => {
            return None;
        },
    };
    if cs.len() != 34 {
        return None;
    }
    if cs[0] != 48 || cs[1] != 120 {
        return None;
    }
    let cv = match crate::ascii::parse_hex32(cs.as_slice(), 2) {
        Some(v) => v,
        None => {
            proof {
                assert(cs@.subrange(2, 34) =~= cs@.subrange(2int, 2int + 32));
            }
            return None;
        },
    };
    proof {
        assert(cs@.subrange(2, 34) =~= cs@.subrange(2int, 2int + 32));
    }
    let o = OrderDescription {
        asset: av as u32,
        is_buy: buy,
        reduce_only: ro,
        limit_px: px,
        sz: szv,
        cloid: Some(cv),
        kind: k,
    };
    Some((o, i15))
}

/// Read a builder-fee object.
fn rd_builder(b: &Vec<u8>, i: usize) -> (r: Option<(BuilderInfo, usize)>)
    ensures
        match r {
            Some((bi, j)) => dec_builder(b@, i as int) == Some((bi@, j as int)),
            None => dec_builder(b@, i as int) is None,
        },
{
    let (n, i1) = match rd_map_hdr(b, i) {
        Some(x) => x,
        None => {
            return None;
        },
    };
    if n != 2 {
        return None;
    }
    let i2 = match rd_key(b, i1, &[98u8]) {
        Some(x) => x,
        None => {
            proof {
                assert([98u8]@ =~= key_b());
            }
            return None;
        },
    };
    proof {
        assert([98u8]@ =~= key_b());
    }
    let (addr, i3) = match rd_str(b, i2) {
        Some(x) => x,
        None => {
            return None;
        },
    };
    let i4 = match rd_key(b, i3, &[102u8]) {
        Some(x) => x,
        None => {
            proof {
                assert([102u8]@ =~= key_f());
            }
            return None;
        },
    };
    proof {
        assert([102u8]@ =~= key_f());
    }
    let (fv, i5) = match rd_uint(b, i4) {
        Some(x) => x,
        None => {
            return None;
        },
    };
    Some((BuilderInfo { builder: addr, fee: fv }, i5))
}

/// The views of a batch of decoded orders.
pub open spec fn order_views(s: Seq<OrderDescription>) -> Seq<crate::order::OrderV> {
    Seq::new(s.len(), |k: int| s[k]@)
}

/// Decode a canonical byte string back into an action.  Succeeds exactly on
/// the strings that the specification-level decoder accepts, and then
/// returns the very action it describes.
#[verifier::rlimit(100)]
#[verifier::loop_isolation(false)]
pub fn decode_action(b: &Vec<u8>) -> (r: Option<Action>)
    ensures
        match r {
            Some(a) => spec_decode_action(b@) == Some(a@),
            None => spec_decode_action(b@) is None,
        },
{
    let (n, i1) = match rd_map_hdr(b, 0) {
        Some(x) => x,
        None => {
            return None;
        },
    };
    if n != 3 && n != 4 {
        return None;
    }
    let i2 = match rd_key(b, i1, &[116u8, 121u8, 112u8, 101u8]) {
        Some(x) => x,
        None => {
            proof {
                assert([116u8, 121u8, 112u8, 101u8]@ =~= key_type());
            }
            return None;
        },
    };
    proof {
        assert([116u8, 121u8, 112u8, 101u8]@ =~= key_type());
    }
    let (tag, i3) = match rd_str(b, i2) {
        Some(x) => x,
        None => {
            return None;
        },
    };
    if !eq_bytes(&tag, &[111u8, 114u8, 100u8, 101u8, 114u8]) {
        proof {
            assert([111u8, 114u8, 100u8, 101u8, 114u8]@ =~= tag_order());
        }
        return None;
    }
    proof {
        assert([111u8, 114u8, 100u8, 101u8, 114u8]@ =~= tag_order());
    }
    let i4 = match rd_key(b, i3, &[111u8, 114u8, 100u8, 101u8, 114u8, 115u8]) {
        Some(x) => x,
        None => {
            proof {
                assert([111u8, 114u8, 100u8, 101u8, 114u8, 115u8]@ =~= key_orders());
            }
            return None;
        },
    };
    proof {
        assert([111u8, 114u8, 100u8, 101u8, 114u8, 115u8]@ =~= key_orders());
    }
    let (cnt, i5) = match rd_arr_hdr(b, i4) {
        Some(x) => x,
        None => {
            return None;
        },
    };
    let mut orders: Vec<OrderDescription> = Vec::new();
    let mut cur: usize = i5;
    let mut k: usize = 0;
    while k < cnt
        invariant
            0 <= k <= cnt,
            orders@.len() == k,
            ({
                let full = dec_orders(b@, i5 as int, cnt as nat);
                match dec_orders(b@, cur as int, (cnt - k) as nat) {
                    Some((rest, j)) => full == Some((order_views(orders@) + rest, j)),
                    None => full is None,
                }
            }),
        decreases cnt - k,
    {
        let (o, j) = match rd_order(b, cur) {
            Some(x) => x,
            None => {
                return None;
            },
        };
        proof {
            let m = (cnt - k) as nat;
            assert(dec_orders(b@, cur as int, m) == match dec_orders(
                b@,
                j as int,
                (m - 1) as nat,
            ) {
                Some((rest2, j2)) => Some((seq![o@] + rest2, j2)),
                None => None::<(Seq<crate::order::OrderV>, int)>,
            });
            assert(order_views(orders@.push(o)) =~= order_views(orders@) + seq![o@]);
            match dec_orders(b@, j as int, (m - 1) as nat) {
                Some((rest2, j2)) => {
                    vstd::seq_lib::lemma_concat_associative(
                        order_views(orders@),
                        seq![o@],
                        rest2,
                    );
                },
                None => {},
            }
        }
        orders.push(o);
        cur = j;
        k = k + 1;
    }
    proof {
        assert(order_views(orders@) + Seq::<crate::order::OrderV>::empty() =~= order_views(
            orders@,
        ));
    }
    let i6 = cur;
    let i7 = match rd_key(b, i6, &[103u8, 114u8, 111u8, 117u8, 112u8, 105u8, 110u8, 103u8]) {
        Some(x) => x,
        None => {
            proof {
                assert([103u8, 114u8, 111u8, 117u8, 112u8, 105u8, 110u8, 103u8]@
                    =~= key_grouping());
            }
            return None;
        },
    };
    proof {
        assert([103u8, 114u8, 111u8, 117u8, 112u8, 105u8, 110u8, 103u8]@ =~= key_grouping());
    }
    let (gs, i8) = match rd_str(b, i7) {
        Some(x) => x,
        None => {
            return None;
        },
    };
    let g: Grouping = if eq_bytes(&gs, &[110u8, 97u8]) {
        proof {
            assert([110u8, 97u8]@ =~= grouping_bytes(Grouping::Na));
        }
        Grouping::Na
    } else if eq_bytes(&gs, &[110u8, 111u8, 114u8, 109u8, 97u8, 108u8, 84u8, 112u8, 115u8, 108u8]) {
        proof {
            assert([110u8, 97u8]@ =~= grouping_bytes(Grouping::Na));
            assert([110u8, 111u8, 114u8, 109u8, 97u8, 108u8, 84u8, 112u8, 115u8, 108u8]@
                =~= grouping_bytes(Grouping::NormalTpsl));
        }
        Grouping::NormalTpsl
    } else if eq_bytes(
        &gs,
        &[112u8, 111u8, 115u8, 105u8, 116u8, 105u8, 111u8, 110u8, 84u8, 112u8, 115u8, 108u8],
    ) {
        proof {
            assert([110u8, 97u8]@ =~= grouping_bytes(Grouping::Na));
            assert([110u8, 111u8, 114u8, 109u8, 97u8, 108u8, 84u8, 112u8, 115u8, 108u8]@
                =~= grouping_bytes(Grouping::NormalTpsl));
            assert([112u8, 111u8, 115u8, 105u8, 116u8, 105u8, 111u8, 110u8, 84u8, 112u8, 115u8,
                108u8]@ =~= grouping_bytes(Grouping::PositionTpsl));
        }
        Grouping::PositionTpsl
    } else {
        proof {
            assert([110u8, 97u8]@ =~= grouping_bytes(Grouping::Na));
            assert([110u8, 111u8, 114u8, 109u8, 97u8, 108u8, 84u8, 112u8, 115u8, 108u8]@
                =~= grouping_bytes(Grouping::NormalTpsl));
            assert([112u8, 111u8, 115u8, 105u8, 116u8, 105u8, 111u8, 110u8, 84u8, 112u8, 115u8,
                108u8]@ =~= grouping_bytes(Grouping::PositionTpsl));
        }
        return None;
    };
    if n == 3 {
        if i8 != b.len() {
            return None;
        }
        let a = Action { orders, grouping: g, builder: None };
        proof {
            assert(a@ =~~= spec_decode_action(b@).unwrap());
        }
        return Some(a);
    }
    let i9 = match rd_key(b, i8, &[98u8, 117u8, 105u8, 108u8, 100u8, 101u8, 114u8]) {
        Some(x) => x,
        None => {
            proof {
                assert([98u8, 117u8, 105u8, 108u8, 100u8, 101u8, 114u8]@ =~= key_builder());
            }
            return None;
        },
    };
    proof {
        assert([98u8, 117u8, 105u8, 108u8, 100u8, 101u8, 114u8]@ =~= key_builder());
    }
    let (bi, i10) = match rd_builder(b, i9) {
        Some(x) => x,
        None => {
            return None;
        },
    };
    if i10 != b.len() {
        return None;
    }
    let a = Action { orders, grouping: g, builder: Some(bi) };
    proof {
        assert(a@ =~~= spec_decode_action(b@).unwrap());
    }
    Some(a)
}

} // verus!
