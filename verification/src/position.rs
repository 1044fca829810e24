//! Fixed-point replicated positions: every spatial coordinate that crosses
//! the wire is a scaled 64-bit integer (60 integer bits, 4 fractional
//! bits), so encode/decode is exact and comparison is the total order of
//! the underlying integer on every machine — no floating-point rounding
//! divergence between peers.

use vstd::prelude::*;

verus! {

/// Number of fractional bits in a fixed-point coordinate: the represented
/// value is `bits` divided by 16.
pub const FRACTIONAL_BITS: u32 = 4;

/// One fixed-point coordinate, stored as its raw scaled bits.
#[derive(Clone, Copy, PartialEq, Eq, Structural, Debug, Hash)]
pub struct FixedPoint {
    pub bits: i64,
}

/// The wire form of a coordinate: its raw bits, unchanged.
pub open spec fn spec_encode(v: FixedPoint) -> i64 {
    v.bits
}

/// The coordinate a wire word stands for.
pub open spec fn spec_decode(bits: i64) -> FixedPoint {
    FixedPoint { bits }
}

impl FixedPoint {
    /// The coordinate whose value is `units + frac / 16`; every
    /// representable value has exactly one such form with `0 <= frac < 16`.
    pub fn from_parts(units: i64, frac: u8) -> (r: Option<FixedPoint>)
        requires
            frac < 16,
        ensures
            match r {
                Some(v) => v.bits == units * 16 + frac,
                None => units * 16 + frac < i64::MIN || units * 16 + frac > i64::MAX,
            },
    {
        if units <= (i64::MAX - 15) / 16 && units >= i64::MIN / 16 {
            Some(FixedPoint { bits: units * 16 + frac as i64 })
        } else {
            None
        }
    }

    /// Encodes the coordinate into its fixed-width wire word.
    pub fn encode(self) -> (r: i64)
        ensures
            r == spec_encode(self),
    {
        self.bits
    }

    /// Decodes a wire word back into a coordinate; total, with no
    /// precision loss.
    pub fn decode(bits: i64) -> (r: FixedPoint)
        ensures
            r == spec_decode(bits),
    {
        FixedPoint { bits }
    }

    /// Strict order: the total order of the underlying integer.
    pub fn lt(self, other: FixedPoint) -> (r: bool)
        ensures
            r == (self.bits < other.bits),
    {
        self.bits < other.bits
    }

    /// Non-strict order: the total order of the underlying integer.
    pub fn le(self, other: FixedPoint) -> (r: bool)
        ensures
            r == (self.bits <= other.bits),
    {
        self.bits <= other.bits
    }
}

impl PartialOrd for FixedPoint {
    fn partial_cmp(&self, other: &FixedPoint) -> (r: Option<core::cmp::Ordering>) {
        if self.bits < other.bits {
            Some(core::cmp::Ordering::Less)
        } else if self.bits == other.bits {
            Some(core::cmp::Ordering::Equal)
        } else {
            Some(core::cmp::Ordering::Greater)
        }
    }
}

impl vstd::std_specs::cmp::PartialOrdSpecImpl for FixedPoint {
    open spec fn obeys_partial_cmp_spec() -> bool {
        true
    }

    open spec fn partial_cmp_spec(&self, other: &FixedPoint) -> Option<core::cmp::Ordering> {
        if self.bits < other.bits {
            Some(core::cmp::Ordering::Less)
        } else if self.bits == other.bits {
            Some(core::cmp::Ordering::Equal)
        } else {
            Some(core::cmp::Ordering::Greater)
        }
    }
}

/// Round trip: decoding an encoded coordinate returns it unchanged, for
/// every representable value.
pub proof fn lemma_fixed_point_round_trip(v: FixedPoint)
    ensures
        spec_decode(spec_encode(v)) == v,
{
}

/// Round trip, wire side: encoding a decoded word returns the word, so
/// the wire form is unique for each value.
pub proof fn lemma_fixed_point_wire_round_trip(bits: i64)
    ensures
        spec_encode(spec_decode(bits)) == bits,
{
}

/// A replicated entity position: one fixed-point coordinate per axis.
#[derive(Clone, Copy, PartialEq, Eq, Structural, Debug, Hash)]
pub struct Position {
    pub x: FixedPoint,
    pub y: FixedPoint,
    pub z: FixedPoint,
}

/// The wire form of a position: the three coordinate words in axis order.
pub open spec fn spec_encode_position(p: Position) -> (i64, i64, i64) {
    (p.x.bits, p.y.bits, p.z.bits)
}

impl Position {
    pub fn new(x: FixedPoint, y: FixedPoint, z: FixedPoint) -> (p: Position)
        ensures
            p == (Position { x, y, z }),
    {
        Position { x, y, z }
    }

    /// Encodes the position into its three fixed-width wire words.
    pub fn encode(self) -> (r: (i64, i64, i64))
        ensures
            r == spec_encode_position(self),
    {
        (self.x.bits, self.y.bits, self.z.bits)
    }

    /// Decodes three wire words back into a position; total, with no
    /// precision loss.
    pub fn decode(x: i64, y: i64, z: i64) -> (p: Position)
        ensures
            p == (Position { x: spec_decode(x), y: spec_decode(y), z: spec_decode(z) }),
    {
        Position { x: FixedPoint { bits: x }, y: FixedPoint { bits: y }, z: FixedPoint { bits: z } }
    }
}

/// Round trip for whole positions: decode inverts encode on every axis.
pub proof fn lemma_position_round_trip(p: Position)
    ensures
        (Position {
            x: spec_decode(spec_encode_position(p).0),
            y: spec_decode(spec_encode_position(p).1),
            z: spec_decode(spec_encode_position(p).2),
        }) == p,
{
}

} // verus!
