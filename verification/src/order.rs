//! The order data model.
//!
//! An order description carries the asset index, side, reduce-only flag,
//! limit price and size as canonical decimal strings, an optional client
//! order id, and the order-type variant.  An action wraps one or more order
//! descriptions with a grouping tag and an optional builder-fee reference.
//! Prices and sizes are decimal strings because the wire formats carry them
//! verbatim: the caller rounds before construction and the pipeline never
//! re-rounds.  Construction validates the strings and the size precision and
//! rejects what cannot be represented.

use vstd::prelude::*;
use crate::ascii::{is_decimal_bytes, spec_frac_digits, check_decimal, spec_hex_fixed, hex_u128_fixed};

verus! {

/// Time-in-force of a limit order.
#[derive(Clone, Copy, PartialEq, Eq, Structural)]
pub enum Tif {
    /// Add liquidity only.
    Alo,
    /// Immediate or cancel.
    Ioc,
    /// Good till cancel.
    Gtc,
}

/// The wire tag of a time-in-force.
pub open spec fn tif_bytes(t: Tif) -> Seq<u8> {
    match t {
        Tif::Alo => seq![65u8, 108u8, 111u8],  // "Alo"
        Tif::Ioc => seq![73u8, 111u8, 99u8],  // "Ioc"
        Tif::Gtc => seq![71u8, 116u8, 99u8],  // "Gtc"
    }
}

/// The order-type variant.  Only limit orders exist today; the variant keeps
/// the wire shape, a tagged object, explicit.
#[derive(Clone, Copy, PartialEq, Eq, Structural)]
pub enum OrderKind {
    Limit { tif: Tif },
}

/// Grouping tag of an action.
#[derive(Clone, Copy, PartialEq, Eq, Structural)]
pub enum Grouping {
    Na,
    NormalTpsl,
    PositionTpsl,
}

/// The wire tag of a grouping.
pub open spec fn grouping_bytes(g: Grouping) -> Seq<u8> {
    match g {
        Grouping::Na => seq![110u8, 97u8],  // "na"
        Grouping::NormalTpsl => seq![
            110u8, 111u8, 114u8, 109u8, 97u8, 108u8, 84u8, 112u8, 115u8, 108u8,
        ],  // "normalTpsl"
        Grouping::PositionTpsl => seq![
            112u8, 111u8, 115u8, 105u8, 116u8, 105u8, 111u8, 110u8, 84u8, 112u8, 115u8, 108u8,
        ],  // "positionTpsl"
    }
}

/// A single order, ready for canonical encoding.
pub struct OrderDescription {
    /// Asset index, resolved from the symbol by the caller's catalog.
    pub asset: u32,
    /// True to buy, false to sell.
    pub is_buy: bool,
    /// Reduce-only flag.
    pub reduce_only: bool,
    /// Limit price as a canonical decimal string.
    pub limit_px: Vec<u8>,
    /// Size as a canonical decimal string.
    pub sz: Vec<u8>,
    /// Optional client order id: 128 bits, rendered as `0x` + 32 hex digits.
    pub cloid: Option<u128>,
    /// Order-type variant.
    pub kind: OrderKind,
}

/// The wire form of a client order id: `0x` followed by 32 lowercase hex
/// digits.
pub open spec fn cloid_bytes(c: u128) -> Seq<u8> {
    seq![48u8, 120u8] + spec_hex_fixed(c as int, 32)
}

/// Render a client order id in its wire form.
pub fn render_cloid(c: u128) -> (r: Vec<u8>)
    ensures
        r@ == cloid_bytes(c),
{
    let mut r: Vec<u8> = Vec::new();
    r.push(48);
    r.push(120);
    let mut hex = hex_u128_fixed(c, 32);
    let mut i: usize = 0;
    while i < hex.len()
        invariant
            0 <= i <= hex.len(),
            hex@ == spec_hex_fixed(c as int, 32),
            r@ == seq![48u8, 120u8] + hex@.take(i as int),
        decreases hex.len() - i,
    {
        r.push(hex[i]);
        proof {
            assert(hex@.take(i as int + 1) =~= hex@.take(i as int) + seq![hex@[i as int]]);
            assert(seq![48u8, 120u8] + hex@.take(i as int) + seq![hex@[i as int]] =~= seq![
                48u8,
                120u8,
            ] + hex@.take(i as int + 1));
        }
        i = i + 1;
    }
    proof {
        assert(hex@.take(hex@.len() as int) =~= hex@);
    }
    r
}

impl OrderDescription {
    /// A well-formed order: price and size are canonical decimal strings
    /// short enough for the canonical encoding.
    pub open spec fn valid(self) -> bool {
        &&& is_decimal_bytes(self.limit_px@)
        &&& self.limit_px@.len() < 65536
        &&& is_decimal_bytes(self.sz@)
        &&& self.sz@.len() < 65536
    }

    /// Build a validated order description.  Returns an encoding error when
    /// the price or the size is not a canonical decimal string, or when the
    /// size carries more fractional digits than the asset allows.
    pub fn new(
        asset: u32,
        is_buy: bool,
        reduce_only: bool,
        limit_px: Vec<u8>,
        sz: Vec<u8>,
        cloid: Option<u128>,
        kind: OrderKind,
        sz_decimals: u32,
    ) -> (r: Result<OrderDescription, EncodingError>)
        ensures
            match r {
                Ok(o) => {
                    &&& o.valid()
                    &&& o.asset == asset
                    &&& o.is_buy == is_buy
                    &&& o.reduce_only == reduce_only
                    &&& o.limit_px@ == limit_px@
                    &&& o.sz@ == sz@
                    &&& o.cloid == cloid
                    &&& o.kind == kind
                    &&& spec_frac_digits(sz@) <= sz_decimals
                },
                Err(EncodingError::InvalidPrice) => !(is_decimal_bytes(limit_px@) && limit_px@.len()
                    < 65536),
                Err(EncodingError::InvalidSize) => {
                    &&& is_decimal_bytes(limit_px@) && limit_px@.len() < 65536
                    &&& !(is_decimal_bytes(sz@) && spec_frac_digits(sz@) <= sz_decimals && sz@.len()
                        < 65536)
                },
            },
    {
        if !(check_decimal(&limit_px, u32::MAX) && limit_px.len() < 65536) {
            return Err(EncodingError::InvalidPrice);
        }
        if !(check_decimal(&sz, sz_decimals) && sz.len() < 65536) {
            return Err(EncodingError::InvalidSize);
        }
        Ok(OrderDescription { asset, is_buy, reduce_only, limit_px, sz, cloid, kind })
    }
}

/// The mathematical view of an order: the same fields with byte strings as
/// sequences.
pub ghost struct OrderV {
    pub asset: u32,
    pub is_buy: bool,
    pub reduce_only: bool,
    pub limit_px: Seq<u8>,
    pub sz: Seq<u8>,
    pub cloid: Option<u128>,
    pub kind: OrderKind,
}

impl View for OrderDescription {
    type V = OrderV;

    open spec fn view(&self) -> OrderV {
        OrderV {
            asset: self.asset,
            is_buy: self.is_buy,
            reduce_only: self.reduce_only,
            limit_px: self.limit_px@,
            sz: self.sz@,
            cloid: self.cloid,
            kind: self.kind,
        }
    }
}

/// The mathematical view of a builder-fee reference.
pub ghost struct BuilderV {
    pub builder: Seq<u8>,
    pub fee: u64,
}

impl View for BuilderInfo {
    type V = BuilderV;

    open spec fn view(&self) -> BuilderV {
        BuilderV { builder: self.builder@, fee: self.fee }
    }
}

/// The mathematical view of an action.
pub ghost struct ActionV {
    pub orders: Seq<OrderV>,
    pub grouping: Grouping,
    pub builder: Option<BuilderV>,
}

impl View for Action {
    type V = ActionV;

    open spec fn view(&self) -> ActionV {
        ActionV {
            orders: Seq::new(self.orders@.len(), |i: int| self.orders@[i]@),
            grouping: self.grouping,
            builder: match self.builder {
                Some(b) => Some(b@),
                None => None,
            },
        }
    }
}

/// Rejected input to the encoder: a field cannot be represented canonically.
#[derive(Clone, Copy, PartialEq, Eq, Structural, Debug)]
pub enum EncodingError {
    /// The limit price is not a canonical decimal string.
    InvalidPrice,
    /// The size is not a canonical decimal string within the asset's
    /// precision.
    InvalidSize,
}

/// Builder-fee reference: the builder's address in its wire form
/// (`0x` + 40 lowercase hex digits) and the fee in tenths of a basis point.
pub struct BuilderInfo {
    pub builder: Vec<u8>,
    pub fee: u64,
}

impl BuilderInfo {
    /// A well-formed builder reference: the address string is short enough
    /// for the canonical encoding.
    pub open spec fn valid(self) -> bool {
        self.builder@.len() < 65536
    }
}

/// The signable action: a batch of orders with a grouping tag and an
/// optional builder-fee reference.  Immutable once constructed.
pub struct Action {
    pub orders: Vec<OrderDescription>,
    pub grouping: Grouping,
    pub builder: Option<BuilderInfo>,
}

impl Action {
    /// A well-formed action: every order is well-formed and the batch is
    /// small enough for the canonical encoding.
    pub open spec fn valid(self) -> bool {
        &&& self.orders@.len() < 65536
        &&& (forall|i: int| 0 <= i < self.orders@.len() ==> (#[trigger] self.orders@[i]).valid())
        &&& match self.builder {
            Some(b) => b.valid(),
            None => true,
        }
    }
}

} // verus!
