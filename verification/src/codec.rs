//! Byte encoding of a memoized target position.
//!
//! Agent memory persists the target of a gathering run across ticks.  The
//! host store only keeps flat values, so the position travels as a short
//! fixed-width decimal byte string: two digits for each tile coordinate and
//! five for the zone id.  Parsing is total and rejects anything that the
//! encoder could not have produced.

use vstd::prelude::*;

use crate::model::{Pos, ZONE_SIDE};

verus! {

/// A tile addressed globally: a zone id plus a coordinate inside that zone.
#[derive(Clone, Copy, PartialEq, Eq, Structural, Debug)]
pub struct ZonePos {
    pub zone: u16,
    pub x: u8,
    pub y: u8,
}

impl ZonePos {
    pub open spec fn wf(self) -> bool {
        self.x < ZONE_SIDE && self.y < ZONE_SIDE
    }

    /// The coordinate part, dropping the zone.
    pub open spec fn spec_tile(self) -> Pos {
        Pos { x: self.x, y: self.y }
    }

    pub fn tile(self) -> (r: Pos)
        ensures
            r == self.spec_tile(),
    {
        Pos { x: self.x, y: self.y }
    }
}

/// ASCII digit for a value below ten.
pub open spec fn digit(d: int) -> u8 {
    (48 + d) as u8
}

/// The nine-byte encoding of a position: `xx yy zzzzz`.
pub open spec fn spec_encode_pos(p: ZonePos) -> Seq<u8> {
    seq![
        digit(p.x as int / 10),
        digit(p.x as int % 10),
        digit(p.y as int / 10),
        digit(p.y as int % 10),
        digit(p.zone as int / 10000),
        digit(p.zone as int / 1000 % 10),
        digit(p.zone as int / 100 % 10),
        digit(p.zone as int / 10 % 10),
        digit(p.zone as int % 10),
    ]
}

/// Whether `b` is an ASCII digit.
pub open spec fn is_digit(b: u8) -> bool {
    48 <= b <= 57
}

/// Numeric value of a digit byte.
pub open spec fn digit_val(b: u8) -> int {
    b as int - 48
}

/// The position a nine-byte string denotes, if it is a well-formed encoding.
pub open spec fn spec_parse_pos(s: Seq<u8>) -> Option<ZonePos> {
    if s.len() == 9 && (forall|i: int| 0 <= i < 9 ==> is_digit(#[trigger] s[i])) {
        let x = digit_val(s[0]) * 10 + digit_val(s[1]);
        let y = digit_val(s[2]) * 10 + digit_val(s[3]);
        let z = digit_val(s[4]) * 10000 + digit_val(s[5]) * 1000 + digit_val(s[6]) * 100
            + digit_val(s[7]) * 10 + digit_val(s[8]);
        if x < ZONE_SIDE as int && y < ZONE_SIDE as int && z <= u16::MAX as int {
            Some(ZonePos { zone: z as u16, x: x as u8, y: y as u8 })
        } else {
            None
        }
    } else {
        None
    }
}

/// Serialize a target position for agent memory.
pub fn encode_pos(p: ZonePos) -> (r: Vec<u8>)
    requires
        p.wf(),
    ensures
        r@ == spec_encode_pos(p),
{
    let mut out: Vec<u8> = Vec::new();
    out.push(48 + p.x / 10);
    out.push(48 + p.x % 10);
    out.push(48 + p.y / 10);
    out.push(48 + p.y % 10);
    out.push(48 + (p.zone / 10000) as u8);
    out.push(48 + (p.zone / 1000 % 10) as u8);
    out.push(48 + (p.zone / 100 % 10) as u8);
    out.push(48 + (p.zone / 10 % 10) as u8);
    out.push(48 + (p.zone % 10) as u8);
    assert(out@ =~= spec_encode_pos(p));
    out
}

/// Read a target position back from agent memory; anything that is not a
/// well-formed encoding parses to nothing.
pub fn parse_pos(s: &Vec<u8>) -> (r: Option<ZonePos>)
    ensures
        r == spec_parse_pos(s@),
        r is Some ==> r.unwrap().wf(),
{
    if s.len() != 9 {
        return None;
    }
    let mut i: usize = 0;
    while i < 9
        invariant
            i <= 9,
            s@.len() == 9,
            forall|j: int| 0 <= j < i ==> is_digit(#[trigger] s@[j]),
        decreases 9 - i,
    {
        let b = s[i];
        if b < 48 || b > 57 {
            return None;
        }
        i = i + 1;
    }
    let x: u16 = (s[0] - 48) as u16 * 10 + (s[1] - 48) as u16;
    let y: u16 = (s[2] - 48) as u16 * 10 + (s[3] - 48) as u16;
    let z: u32 = (s[4] - 48) as u32 * 10000 + (s[5] - 48) as u32 * 1000
        + (s[6] - 48) as u32 * 100 + (s[7] - 48) as u32 * 10 + (s[8] - 48) as u32;
    if x < ZONE_SIDE as u16 && y < ZONE_SIDE as u16 && z <= u16::MAX as u32 {
        Some(ZonePos { zone: z as u16, x: x as u8, y: y as u8 })
    } else {
        None
    }
}

/// A position written to memory and read back is the identical position.
pub proof fn lemma_pos_round_trip(p: ZonePos)
    requires
        p.wf(),
    ensures
        spec_parse_pos(spec_encode_pos(p)) == Some(p),
{
    let s = spec_encode_pos(p);
    assert(forall|i: int| 0 <= i < 9 ==> is_digit(#[trigger] s[i]));
    assert(digit_val(s[0]) * 10 + digit_val(s[1]) == p.x as int);
    assert(digit_val(s[2]) * 10 + digit_val(s[3]) == p.y as int);
    let z = p.zone as int;
    assert(z / 10000 * 10000 + z / 1000 % 10 * 1000 + z / 100 % 10 * 100 + z / 10 % 10 * 10
        + z % 10 == z) by (nonlinear_arith)
        requires 0 <= z <= 65535;
    assert(digit_val(s[4]) * 10000 + digit_val(s[5]) * 1000 + digit_val(s[6]) * 100
        + digit_val(s[7]) * 10 + digit_val(s[8]) == z);
}

/// The encoding is canonical: a byte string that parses at all is exactly
/// the encoding of what it parses to.
pub proof fn lemma_pos_encoding_canonical(s: Seq<u8>, p: ZonePos)
    requires
        spec_parse_pos(s) == Some(p),
    ensures
        spec_encode_pos(p) == s,
{
    assert(digit_val(s[0]) == p.x as int / 10 && digit_val(s[1]) == p.x as int % 10) by {
        assert(digit_val(s[0]) * 10 + digit_val(s[1]) == p.x as int);
        assert(0 <= digit_val(s[1]) < 10);
    }
    assert(digit_val(s[2]) == p.y as int / 10 && digit_val(s[3]) == p.y as int % 10) by {
        assert(digit_val(s[2]) * 10 + digit_val(s[3]) == p.y as int);
        assert(0 <= digit_val(s[3]) < 10);
    }
    let z = p.zone as int;
    let low = digit_val(s[5]) * 1000 + digit_val(s[6]) * 100 + digit_val(s[7]) * 10
        + digit_val(s[8]);
    assert(digit_val(s[4]) * 10000 + low == z);
    assert(0 <= low < 10000);
    assert(digit_val(s[4]) == z / 10000);
    assert(low == z % 10000);
    assert(digit_val(s[5]) == z / 1000 % 10 && digit_val(s[6]) == z / 100 % 10
        && digit_val(s[7]) == z / 10 % 10 && digit_val(s[8]) == z % 10) by {
        assert(low == z % 10000);
        assert(z / 1000 % 10 == z % 10000 / 1000) by (nonlinear_arith);
        assert(z / 100 % 10 == z % 10000 % 1000 / 100) by (nonlinear_arith)
            requires z >= 0;
        assert(z / 10 % 10 == z % 10000 % 1000 % 100 / 10) by (nonlinear_arith)
            requires z >= 0;
        assert(z % 10 == z % 10000 % 1000 % 100 % 10) by (nonlinear_arith)
            requires z >= 0;
    }
    assert(spec_encode_pos(p) =~= s);
}

} // verus!
