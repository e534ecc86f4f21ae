//! The JSON wire envelope.
//!
//! The body sent over the wire is `{"action": ..., "nonce": N, "signature":
//! {"r": "0x...", "s": "0x...", "v": 27|28}}`: the action in its JSON form,
//! the nonce as a decimal literal, and the signature words as fixed-width
//! lowercase hex with the recovery value normalised to 27 or 28.  The exact
//! byte layout of the body is stated here and the builder is proved to
//! produce it.  Prices and sizes are canonical decimal strings, and tags are
//! fixed words, so no JSON escaping can ever be needed.

use vstd::prelude::*;
use crate::ascii::{spec_dec_u64, dec_u64, spec_hex_bytes, hex_bytes};
use crate::order::{Action, BuilderInfo, Grouping, OrderDescription, OrderKind, Tif, cloid_bytes,
    grouping_bytes, tif_bytes, render_cloid};
use crate::msgpack::put_bytes;
use crate::signing::Signature;

verus! {

/// `{"a":`
pub open spec fn fr_a() -> Seq<u8> {
    seq![123u8, 34u8, 97u8, 34u8, 58u8]
}

/// `,"b":`
pub open spec fn fr_b() -> Seq<u8> {
    seq![44u8, 34u8, 98u8, 34u8, 58u8]
}

/// `,"p":"`
pub open spec fn fr_p() -> Seq<u8> {
    seq![44u8, 34u8, 112u8, 34u8, 58u8, 34u8]
}

/// `","s":"`
pub open spec fn fr_s() -> Seq<u8> {
    seq![34u8, 44u8, 34u8, 115u8, 34u8, 58u8, 34u8]
}

/// `","r":`
pub open spec fn fr_r() -> Seq<u8> {
    seq![34u8, 44u8, 34u8, 114u8, 34u8, 58u8]
}

/// `,"t":{"limit":{"tif":"`
pub open spec fn fr_t() -> Seq<u8> {
    seq![
        44u8, 34u8, 116u8, 34u8, 58u8, 123u8, 34u8, 108u8, 105u8, 109u8, 105u8, 116u8, 34u8, 58u8,
        123u8, 34u8, 116u8, 105u8, 102u8, 34u8, 58u8, 34u8,
    ]
}

/// `"}}}`
pub open spec fn fr_end() -> Seq<u8> {
    seq![34u8, 125u8, 125u8, 125u8]
}

/// `"}},"c":"`
pub open spec fn fr_cloid_mid() -> Seq<u8> {
    seq![34u8, 125u8, 125u8, 44u8, 34u8, 99u8, 34u8, 58u8, 34u8]
}

/// `"}`
pub open spec fn fr_cloid_end() -> Seq<u8> {
    seq![34u8, 125u8]
}

/// `true` / `false`
pub open spec fn jbool(b: bool) -> Seq<u8> {
    if b {
        seq![116u8, 114u8, 117u8, 101u8]
    } else {
        seq![102u8, 97u8, 108u8, 115u8, 101u8]
    }
}

/// One order as a JSON object, fields in canonical order.
pub open spec fn json_order(o: OrderDescription) -> Seq<u8> {
    fr_a() + spec_dec_u64(o.asset as nat) + fr_b() + jbool(o.is_buy) + fr_p() + o.limit_px@ + fr_s()
        + o.sz@ + fr_r() + jbool(o.reduce_only) + fr_t() + (match o.kind {
        OrderKind::Limit { tif } => tif_bytes(tif),
    }) + match o.cloid {
        None => fr_end(),
        Some(c) => fr_cloid_mid() + cloid_bytes(c) + fr_cloid_end(),
    }
}

/// The orders joined with commas.
pub open spec fn json_orders(s: Seq<OrderDescription>) -> Seq<u8>
    decreases s.len(),
{
    if s.len() == 0 {
        Seq::empty()
    } else {
        json_order(s.first()) + json_orders_rest(s.drop_first())
    }
}

pub open spec fn json_orders_rest(s: Seq<OrderDescription>) -> Seq<u8>
    decreases s.len(),
{
    if s.len() == 0 {
        Seq::empty()
    } else {
        (seq![44u8] + json_order(s.first())) + json_orders_rest(s.drop_first())
    }
}

/// `{"type":"order","orders":[`
pub open spec fn fr_action_open() -> Seq<u8> {
    seq![
        123u8, 34u8, 116u8, 121u8, 112u8, 101u8, 34u8, 58u8, 34u8, 111u8, 114u8, 100u8, 101u8,
        114u8, 34u8, 44u8, 34u8, 111u8, 114u8, 100u8, 101u8, 114u8, 115u8, 34u8, 58u8, 91u8,
    ]
}

/// `],"grouping":"`
pub open spec fn fr_grouping() -> Seq<u8> {
    seq![93u8, 44u8, 34u8, 103u8, 114u8, 111u8, 117u8, 112u8, 105u8, 110u8, 103u8, 34u8, 58u8, 34u8]
}

/// `"}`
pub open spec fn fr_action_end() -> Seq<u8> {
    seq![34u8, 125u8]
}

/// `","builder":{"b":"`
pub open spec fn fr_builder() -> Seq<u8> {
    seq![
        34u8, 44u8, 34u8, 98u8, 117u8, 105u8, 108u8, 100u8, 101u8, 114u8, 34u8, 58u8, 123u8, 34u8,
        98u8, 34u8, 58u8, 34u8,
    ]
}

/// `","f":`
pub open spec fn fr_builder_fee() -> Seq<u8> {
    seq![34u8, 44u8, 34u8, 102u8, 34u8, 58u8]
}

/// `}}`
pub open spec fn fr_builder_end() -> Seq<u8> {
    seq![125u8, 125u8]
}

/// The action as a JSON object.
pub open spec fn json_action(a: Action) -> Seq<u8> {
    fr_action_open() + json_orders(a.orders@) + fr_grouping() + grouping_bytes(a.grouping)
        + match a.builder {
        None => fr_action_end(),
        Some(b) => fr_builder() + b.builder@ + fr_builder_fee() + spec_dec_u64(b.fee as nat)
            + fr_builder_end(),
    }
}

/// `{"action":`
pub open spec fn fr_env_action() -> Seq<u8> {
    seq![123u8, 34u8, 97u8, 99u8, 116u8, 105u8, 111u8, 110u8, 34u8, 58u8]
}

/// `,"nonce":`
pub open spec fn fr_env_nonce() -> Seq<u8> {
    seq![44u8, 34u8, 110u8, 111u8, 110u8, 99u8, 101u8, 34u8, 58u8]
}

/// `,"signature":{"r":"0x`
pub open spec fn fr_env_r() -> Seq<u8> {
    seq![
        44u8, 34u8, 115u8, 105u8, 103u8, 110u8, 97u8, 116u8, 117u8, 114u8, 101u8, 34u8, 58u8,
        123u8, 34u8, 114u8, 34u8, 58u8, 34u8, 48u8, 120u8,
    ]
}

/// `","s":"0x`
pub open spec fn fr_env_s() -> Seq<u8> {
    seq![34u8, 44u8, 34u8, 115u8, 34u8, 58u8, 34u8, 48u8, 120u8]
}

/// `","v":`
pub open spec fn fr_env_v() -> Seq<u8> {
    seq![34u8, 44u8, 34u8, 118u8, 34u8, 58u8]
}

/// `}}`
pub open spec fn fr_env_end() -> Seq<u8> {
    seq![125u8, 125u8]
}

/// The recovery value, normalised to 27 or 28.
pub open spec fn jrecovery(parity: bool) -> Seq<u8> {
    if parity {
        seq![50u8, 56u8]
    } else {
        seq![50u8, 55u8]
    }
}

/// The whole wire body: action, nonce and hex-encoded signature.
pub open spec fn spec_envelope(a: Action, nonce: u64, rr: Seq<u8>, ss: Seq<u8>, parity: bool) -> Seq<
    u8,
> {
    fr_env_action() + json_action(a) + fr_env_nonce() + spec_dec_u64(nonce as nat) + fr_env_r()
        + spec_hex_bytes(rr) + fr_env_s() + spec_hex_bytes(ss) + fr_env_v() + jrecovery(parity)
        + fr_env_end()
}

/// Appending one order to a batch appends its JSON, with a comma when the
/// batch was not empty.
proof fn lemma_json_orders_rest_push(s: Seq<OrderDescription>, o: OrderDescription)
    ensures
        json_orders_rest(s.push(o)) == json_orders_rest(s) + (seq![44u8] + json_order(o)),
    decreases s.len(),
{
    if s.len() == 0 {
        assert(s.push(o).drop_first() =~= Seq::<OrderDescription>::empty());
        assert(s.push(o).first() == o);
        assert(json_orders_rest(s.push(o)) == (seq![44u8] + json_order(o)) + json_orders_rest(
            Seq::<OrderDescription>::empty(),
        ));
        assert((seq![44u8] + json_order(o)) + Seq::<u8>::empty() =~= Seq::<u8>::empty() + (
        seq![44u8] + json_order(o)));
    } else {
        assert(s.push(o).first() == s.first());
        assert(s.push(o).drop_first() =~= s.drop_first().push(o));
        lemma_json_orders_rest_push(s.drop_first(), o);
        vstd::seq_lib::lemma_concat_associative(
            seq![44u8] + json_order(s.first()),
            json_orders_rest(s.drop_first()),
            seq![44u8] + json_order(o),
        );
    }
}

proof fn lemma_json_orders_push(s: Seq<OrderDescription>, o: OrderDescription)
    ensures
        json_orders(s.push(o)) == json_orders(s) + (if s.len() == 0 {
            json_order(o)
        } else {
            seq![44u8] + json_order(o)
        }),
    decreases s.len(),
{
    if s.len() == 0 {
        assert(s.push(o).drop_first() =~= Seq::<OrderDescription>::empty());
        assert(s.push(o).first() == o);
        assert(json_orders(s.push(o)) == json_order(o) + json_orders_rest(
            Seq::<OrderDescription>::empty(),
        ));
        assert(json_order(o) + Seq::<u8>::empty() =~= Seq::<u8>::empty() + json_order(o));
    } else {
        assert(s.push(o).first() == s.first());
        assert(s.push(o).drop_first() =~= s.drop_first().push(o));
        lemma_json_orders_rest_push(s.drop_first(), o);
        vstd::seq_lib::lemma_concat_associative(
            json_order(s.first()),
            json_orders_rest(s.drop_first()),
            seq![44u8] + json_order(o),
        );
    }
}

/// Reassociate one appended piece into a running left-nested chain.
proof fn chain(base: Seq<u8>, f: Seq<u8>, p: Seq<u8>, cur: Seq<u8>)
    requires
        cur == base + f + p,
    ensures
        cur == base + (f + p),
{
    vstd::seq_lib::lemma_concat_associative(base, f, p);
}

/// Append one order's JSON object.
#[verifier::rlimit(100)]
fn put_json_order(out: &mut Vec<u8>, o: &OrderDescription)
    ensures
        final(out)@ == old(out)@ + json_order(*o),
{
    put_bytes(out, &[123u8, 34u8, 97u8, 34u8, 58u8]);
    proof {
        assert([123u8, 34u8, 97u8, 34u8, 58u8]@ =~= fr_a());
    }
    let ghost f = fr_a();
    let n = dec_u64(o.asset as u64);
    put_bytes(out, n.as_slice());
    proof {
        chain(old(out)@, f, spec_dec_u64(o.asset as nat), out@);
    }
    let ghost f = f + spec_dec_u64(o.asset as nat);
    put_bytes(
        out,
        if o.is_buy {
            &[44u8, 34u8, 98u8, 34u8, 58u8, 116u8, 114u8, 117u8, 101u8]
        } else {
            &[44u8, 34u8, 98u8, 34u8, 58u8, 102u8, 97u8, 108u8, 115u8, 101u8]
        },
    );
    proof {
        assert([44u8, 34u8, 98u8, 34u8, 58u8, 116u8, 114u8, 117u8, 101u8]@ =~= fr_b() + jbool(
            true,
        ));
        assert([44u8, 34u8, 98u8, 34u8, 58u8, 102u8, 97u8, 108u8, 115u8, 101u8]@ =~= fr_b()
            + jbool(false));
        chain(old(out)@, f, fr_b() + jbool(o.is_buy), out@);
        vstd::seq_lib::lemma_concat_associative(f, fr_b(), jbool(o.is_buy));
    }
    let ghost f = f + fr_b() + jbool(o.is_buy);
    put_bytes(out, &[44u8, 34u8, 112u8, 34u8, 58u8, 34u8]);
    proof {
        assert([44u8, 34u8, 112u8, 34u8, 58u8, 34u8]@ =~= fr_p());
        chain(old(out)@, f, fr_p(), out@);
    }
    let ghost f = f + fr_p();
    put_bytes(out, o.limit_px.as_slice());
    proof {
        chain(old(out)@, f, o.limit_px@, out@);
    }
    let ghost f = f + o.limit_px@;
    put_bytes(out, &[34u8, 44u8, 34u8, 115u8, 34u8, 58u8, 34u8]);
    proof {
        assert([34u8, 44u8, 34u8, 115u8, 34u8, 58u8, 34u8]@ =~= fr_s());
        chain(old(out)@, f, fr_s(), out@);
    }
    let ghost f = f + fr_s();
    put_bytes(out, o.sz.as_slice());
    proof {
        chain(old(out)@, f, o.sz@, out@);
    }
    let ghost f = f + o.sz@;
    put_bytes(
        out,
        if o.reduce_only {
            &[34u8, 44u8, 34u8, 114u8, 34u8, 58u8, 116u8, 114u8, 117u8, 101u8]
        } else {
            &[34u8, 44u8, 34u8, 114u8, 34u8, 58u8, 102u8, 97u8, 108u8, 115u8, 101u8]
        },
    );
    proof {
        assert([34u8, 44u8, 34u8, 114u8, 34u8, 58u8, 116u8, 114u8, 117u8, 101u8]@ =~= fr_r()
            + jbool(true));
        assert([34u8, 44u8, 34u8, 114u8, 34u8, 58u8, 102u8, 97u8, 108u8, 115u8, 101u8]@ =~= fr_r()
            + jbool(false));
        chain(old(out)@, f, fr_r() + jbool(o.reduce_only), out@);
        vstd::seq_lib::lemma_concat_associative(f, fr_r(), jbool(o.reduce_only));
    }
    let ghost f = f + fr_r() + jbool(o.reduce_only);
    put_bytes(
        out,
        &[
            44u8, 34u8, 116u8, 34u8, 58u8, 123u8, 34u8, 108u8, 105u8, 109u8, 105u8, 116u8, 34u8,
            58u8, 123u8, 34u8, 116u8, 105u8, 102u8, 34u8, 58u8, 34u8,
        ],
    );
    proof {
        assert([
            44u8, 34u8, 116u8, 34u8, 58u8, 123u8, 34u8, 108u8, 105u8, 109u8, 105u8, 116u8, 34u8,
            58u8, 123u8, 34u8, 116u8, 105u8, 102u8, 34u8, 58u8, 34u8,
        ]@ =~= fr_t());
        chain(old(out)@, f, fr_t(), out@);
    }
    let ghost f = f + fr_t();
    match o.kind {
        OrderKind::Limit { tif } => {
            match tif {
                Tif::Alo => {
                    put_bytes(out, &[65u8, 108u8, 111u8]);
                    proof {
                        assert([65u8, 108u8, 111u8]@ =~= tif_bytes(tif));
                        chain(old(out)@, f, tif_bytes(tif), out@);
                    }
                },
                Tif::Ioc => {
                    put_bytes(out, &[73u8, 111u8, 99u8]);
                    proof {
                        assert([73u8, 111u8, 99u8]@ =~= tif_bytes(tif));
                        chain(old(out)@, f, tif_bytes(tif), out@);
                    }
                },
                Tif::Gtc => {
                    put_bytes(out, &[71u8, 116u8, 99u8]);
                    proof {
                        assert([71u8, 116u8, 99u8]@ =~= tif_bytes(tif));
                        chain(old(out)@, f, tif_bytes(tif), out@);
                    }
                },
            }
            proof {
                assert((match o.kind {
                    OrderKind::Limit { tif } => tif_bytes(tif),
                }) == tif_bytes(tif));
            }
        },
    }
    let ghost f = f + (match o.kind {
        OrderKind::Limit { tif } => tif_bytes(tif),
    });
    match o.cloid {
        None => {
            put_bytes(out, &[34u8, 125u8, 125u8, 125u8]);
            proof {
                assert([34u8, 125u8, 125u8, 125u8]@ =~= fr_end());
                chain(old(out)@, f, fr_end(), out@);
            }
        },
        Some(c) => {
            put_bytes(out, &[34u8, 125u8, 125u8, 44u8, 34u8, 99u8, 34u8, 58u8, 34u8]);
            proof {
                assert([34u8, 125u8, 125u8, 44u8, 34u8, 99u8, 34u8, 58u8, 34u8]@
                    =~= fr_cloid_mid());
            }
            let ghost b2 = old(out)@ + f;
            let ghost g = fr_cloid_mid();
            let rc = render_cloid(c);
            put_bytes(out, rc.as_slice());
            proof {
                chain(b2, g, cloid_bytes(c), out@);
            }
            let ghost g = g + cloid_bytes(c);
            put_bytes(out, &[34u8, 125u8]);
            proof {
                assert([34u8, 125u8]@ =~= fr_cloid_end());
                chain(b2, g, fr_cloid_end(), out@);
                chain(old(out)@, f, g + fr_cloid_end(), out@);
            }
        },
    }
}

/// Build the action's JSON form.
#[verifier::rlimit(100)]
#[verifier::loop_isolation(false)]
pub fn action_json(a: &Action) -> (r: Vec<u8>)
    ensures
        r@ == json_action(*a),
{
    let mut out: Vec<u8> = Vec::new();
    put_bytes(
        &mut out,
        &[
            123u8, 34u8, 116u8, 121u8, 112u8, 101u8, 34u8, 58u8, 34u8, 111u8, 114u8, 100u8, 101u8,
            114u8, 34u8, 44u8, 34u8, 111u8, 114u8, 100u8, 101u8, 114u8, 115u8, 34u8, 58u8, 91u8,
        ],
    );
    proof {
        assert([
            123u8, 34u8, 116u8, 121u8, 112u8, 101u8, 34u8, 58u8, 34u8, 111u8, 114u8, 100u8, 101u8,
            114u8, 34u8, 44u8, 34u8, 111u8, 114u8, 100u8, 101u8, 114u8, 115u8, 34u8, 58u8, 91u8,
        ]@ =~= fr_action_open());
        assert(Seq::<u8>::empty() + fr_action_open() =~= fr_action_open());
    }
    let ghost f = fr_action_open();
    let mut i: usize = 0;
    while i < a.orders.len()
        invariant
            0 <= i <= a.orders@.len(),
            out@ == f + json_orders(a.orders@.take(i as int)),
        decreases a.orders@.len() - i,
    {
        if i > 0 {
            out.push(44);
            proof {
                assert(out@ =~= f + json_orders(a.orders@.take(i as int)) + seq![44u8]);
            }
            put_json_order(&mut out, &a.orders[i]);
            proof {
                lemma_json_orders_push(a.orders@.take(i as int), a.orders@[i as int]);
                assert(a.orders@.take(i as int + 1) =~= a.orders@.take(i as int).push(
                    a.orders@[i as int],
                ));
                vstd::seq_lib::lemma_concat_associative(
                    f + json_orders(a.orders@.take(i as int)),
                    seq![44u8],
                    json_order(a.orders@[i as int]),
                );
                chain(
                    f,
                    json_orders(a.orders@.take(i as int)),
                    seq![44u8] + json_order(a.orders@[i as int]),
                    out@,
                );
            }
        } else {
            put_json_order(&mut out, &a.orders[0]);
            proof {
                lemma_json_orders_push(a.orders@.take(0), a.orders@[0]);
                assert(a.orders@.take(1) =~= a.orders@.take(0).push(a.orders@[0]));
                assert(json_orders(a.orders@.take(0)) == Seq::<u8>::empty());
                assert(f + json_orders(a.orders@.take(0)) =~= f);
                chain(f, json_orders(a.orders@.take(0)), json_order(a.orders@[0]), out@);
            }
        }
        i = i + 1;
    }
    proof {
        assert(a.orders@.take(a.orders@.len() as int) =~= a.orders@);
    }
    let ghost f = f + json_orders(a.orders@);
    put_bytes(
        &mut out,
        &[93u8, 44u8, 34u8, 103u8, 114u8, 111u8, 117u8, 112u8, 105u8, 110u8, 103u8, 34u8, 58u8,
            34u8],
    );
    proof {
        assert([93u8, 44u8, 34u8, 103u8, 114u8, 111u8, 117u8, 112u8, 105u8, 110u8, 103u8, 34u8,
            58u8, 34u8]@ =~= fr_grouping());
    }
    let ghost f = f + fr_grouping();
    match a.grouping {
        Grouping::Na => {
            put_bytes(&mut out, &[110u8, 97u8]);
            proof {
                assert([110u8, 97u8]@ =~= grouping_bytes(a.grouping));
            }
        },
        Grouping::NormalTpsl => {
            put_bytes(
                &mut out,
                &[110u8, 111u8, 114u8, 109u8, 97u8, 108u8, 84u8, 112u8, 115u8, 108u8],
            );
            proof {
                assert([110u8, 111u8, 114u8, 109u8, 97u8, 108u8, 84u8, 112u8, 115u8, 108u8]@
                    =~= grouping_bytes(a.grouping));
            }
        },
        Grouping::PositionTpsl => {
            put_bytes(
                &mut out,
                &[112u8, 111u8, 115u8, 105u8, 116u8, 105u8, 111u8, 110u8, 84u8, 112u8, 115u8,
                    108u8],
            );
            proof {
                assert([112u8, 111u8, 115u8, 105u8, 116u8, 105u8, 111u8, 110u8, 84u8, 112u8,
                    115u8, 108u8]@ =~= grouping_bytes(a.grouping));
            }
        },
    }
    let ghost f = f + grouping_bytes(a.grouping);
    match &a.builder {
        None => {
            put_bytes(&mut out, &[34u8, 125u8]);
            proof {
                assert([34u8, 125u8]@ =~= fr_action_end());
            }
        },
        Some(b) => {
            put_bytes(
                &mut out,
                &[
                    34u8, 44u8, 34u8, 98u8, 117u8, 105u8, 108u8, 100u8, 101u8, 114u8, 34u8, 58u8,
                    123u8, 34u8, 98u8, 34u8, 58u8, 34u8,
                ],
            );
            proof {
                assert([
                    34u8, 44u8, 34u8, 98u8, 117u8, 105u8, 108u8, 100u8, 101u8, 114u8, 34u8, 58u8,
                    123u8, 34u8, 98u8, 34u8, 58u8, 34u8,
                ]@ =~= fr_builder());
            }
            let ghost g = fr_builder();
            put_bytes(&mut out, b.builder.as_slice());
            proof {
                chain(f, g, b.builder@, out@);
            }
            let ghost g = g + b.builder@;
            put_bytes(&mut out, &[34u8, 44u8, 34u8, 102u8, 34u8, 58u8]);
            proof {
                assert([34u8, 44u8, 34u8, 102u8, 34u8, 58u8]@ =~= fr_builder_fee());
                chain(f, g, fr_builder_fee(), out@);
            }
            let ghost g = g + fr_builder_fee();
            let fee = dec_u64(b.fee);
            put_bytes(&mut out, fee.as_slice());
            proof {
                chain(f, g, spec_dec_u64(b.fee as nat), out@);
            }
            let ghost g = g + spec_dec_u64(b.fee as nat);
            put_bytes(&mut out, &[125u8, 125u8]);
            proof {
                assert([125u8, 125u8]@ =~= fr_builder_end());
                chain(f, g, fr_builder_end(), out@);
                assert(out@ == json_action(*a));
            }
        },
    }
    out
}

/// Build the wire body from the action, the nonce and the signature.
#[verifier::rlimit(100)]
pub fn build_envelope(a: &Action, nonce: u64, sig: &Signature) -> (r: Vec<u8>)
    ensures
        r@ == spec_envelope(*a, nonce, sig.r@, sig.s@, sig.parity),
{
    let mut out: Vec<u8> = Vec::new();
    put_bytes(
        &mut out,
        &[123u8, 34u8, 97u8, 99u8, 116u8, 105u8, 111u8, 110u8, 34u8, 58u8],
    );
    proof {
        assert([123u8, 34u8, 97u8, 99u8, 116u8, 105u8, 111u8, 110u8, 34u8, 58u8]@
            =~= fr_env_action());
        assert(Seq::<u8>::empty() + fr_env_action() =~= fr_env_action());
    }
    let ghost f = fr_env_action();
    let aj = action_json(a);
    put_bytes(&mut out, aj.as_slice());
    let ghost f = f + json_action(*a);
    put_bytes(&mut out, &[44u8, 34u8, 110u8, 111u8, 110u8, 99u8, 101u8, 34u8, 58u8]);
    proof {
        assert([44u8, 34u8, 110u8, 111u8, 110u8, 99u8, 101u8, 34u8, 58u8]@ =~= fr_env_nonce());
    }
    let ghost f = f + fr_env_nonce();
    let nb = dec_u64(nonce);
    put_bytes(&mut out, nb.as_slice());
    let ghost f = f + spec_dec_u64(nonce as nat);
    put_bytes(
        &mut out,
        &[
            44u8, 34u8, 115u8, 105u8, 103u8, 110u8, 97u8, 116u8, 117u8, 114u8, 101u8, 34u8, 58u8,
            123u8, 34u8, 114u8, 34u8, 58u8, 34u8, 48u8, 120u8,
        ],
    );
    proof {
        assert([
            44u8, 34u8, 115u8, 105u8, 103u8, 110u8, 97u8, 116u8, 117u8, 114u8, 101u8, 34u8, 58u8,
            123u8, 34u8, 114u8, 34u8, 58u8, 34u8, 48u8, 120u8,
        ]@ =~= fr_env_r());
    }
    let ghost f = f + fr_env_r();
    let rh = hex_bytes(&sig.r);
    put_bytes(&mut out, rh.as_slice());
    let ghost f = f + spec_hex_bytes(sig.r@);
    put_bytes(&mut out, &[34u8, 44u8, 34u8, 115u8, 34u8, 58u8, 34u8, 48u8, 120u8]);
    proof {
        assert([34u8, 44u8, 34u8, 115u8, 34u8, 58u8, 34u8, 48u8, 120u8]@ =~= fr_env_s());
    }
    let ghost f = f + fr_env_s();
    let sh = hex_bytes(&sig.s);
    put_bytes(&mut out, sh.as_slice());
    let ghost f = f + spec_hex_bytes(sig.s@);
    put_bytes(&mut out, &[34u8, 44u8, 34u8, 118u8, 34u8, 58u8]);
    proof {
        assert([34u8, 44u8, 34u8, 118u8, 34u8, 58u8]@ =~= fr_env_v());
    }
    let ghost f = f + fr_env_v();
    if sig.parity {
        put_bytes(&mut out, &[50u8, 56u8]);
        proof {
            assert([50u8, 56u8]@ =~= jrecovery(true));
        }
    } else {
        put_bytes(&mut out, &[50u8, 55u8]);
        proof {
            assert([50u8, 55u8]@ =~= jrecovery(false));
        }
    }
    let ghost f = f + jrecovery(sig.parity);
    put_bytes(&mut out, &[125u8, 125u8]);
    proof {
        assert([125u8, 125u8]@ =~= fr_env_end());
    }
    out
}

} // verus!
