//! Bit and nibble utilities: the 4-bit and 12-bit fields that CHIP-8
//! instruction words are built from.

use vstd::prelude::*;

verus! {

/// A 4-bit value, the natural field width of CHIP-8 opcodes.
#[derive(Clone, Copy, Debug, PartialEq, Eq, Structural)]
pub struct Nibble(pub u8);

impl Nibble {
    /// A nibble is well formed when it fits in 4 bits.
    pub open spec fn wf(self) -> bool {
        self.0 <= 0xF
    }

    /// Validates a byte as a 4-bit value.
    pub fn new(val: u8) -> (r: Option<Nibble>)
        ensures
            r is Some <==> val <= 0xF,
            r matches Some(n) ==> n.0 == val && n.wf(),
    {
        if val > 0xF {
            None
        } else {
            Some(Nibble(val))
        }
    }

    pub fn val(&self) -> (r: u8)
        ensures
            r == self.0,
    {
        self.0
    }

    /// Reassembles a byte from its high and low 4-bit fields.
    pub fn byte(hi: Nibble, lo: Nibble) -> (r: u8)
        requires
            hi.wf(),
            lo.wf(),
        ensures
            r == hi.0 * 0x10 + lo.0,
    {
        hi.0 * 0x10 + lo.0
    }
}

/// Splits a byte into its high and low 4-bit fields; decomposition cannot
/// fail, so both results are well formed.
pub fn nibbles(byte: u8) -> (r: (Nibble, Nibble))
    ensures
        r == ((Nibble(byte >> 4u8), Nibble(byte & 0xF))),
        r.0.wf(),
        r.1.wf(),
{
    proof {
        assert((byte >> 4u8) <= 0xF && (byte & 0xF) <= 0xF) by (bit_vector);
    }
    (Nibble(byte >> 4u8), Nibble(byte & 0xF))
}

/// A validated 12-bit address or immediate, assembled from three nibbles.
#[derive(Clone, Copy, Debug, PartialEq, Eq, Structural)]
pub struct Datum(pub u16);

impl Datum {
    /// A datum is well formed when it fits in 12 bits.
    pub open spec fn wf(self) -> bool {
        self.0 <= 0xFFF
    }

    /// Validates a 16-bit value as a 12-bit one. The failure path is a
    /// defensive invariant: it cannot fire on honestly 4-bit inputs.
    pub fn new(val: u16) -> (r: Option<Datum>)
        ensures
            r is Some <==> val <= 0xFFF,
            r matches Some(d) ==> d.0 == val && d.wf(),
    {
        if val > 0xFFF {
            None
        } else {
            Some(Datum(val))
        }
    }

    /// The 12-bit value three 4-bit fields assemble to, high field first.
    pub open spec fn spec_from_nibbles(n0: Nibble, n1: Nibble, n2: Nibble) -> int {
        n0.0 * 0x100 + n1.0 * 0x10 + n2.0
    }

    /// Assembles a 12-bit value from three 4-bit fields; this cannot fail for
    /// well-formed nibbles.
    pub fn from_nibbles(n0: Nibble, n1: Nibble, n2: Nibble) -> (r: Option<Datum>)
        requires
            n0.wf(),
            n1.wf(),
            n2.wf(),
        ensures
            r matches Some(d) && d.0 == Self::spec_from_nibbles(n0, n1, n2) && d.wf(),
    {
        Datum::new((n0.val() as u16) * 0x100 + (n1.val() as u16) * 0x10 + (n2.val() as u16))
    }

    pub fn val(&self) -> (r: u16)
        ensures
            r == self.0,
    {
        self.0
    }
}

/// Whether bit `n` of `input` is set, counting from the least significant
/// bit; false for any position past the top of the byte.
pub open spec fn spec_bit_at(input: u8, n: u8) -> bool {
    n < 8 && (input >> n) & 1 == 1
}

/// Tests one bit of a byte.
pub fn bit_at(input: u8, n: u8) -> (r: bool)
    ensures
        r == spec_bit_at(input, n),
{
    if n < 8 {
        proof {
            assert((input & (1u8 << n) != 0) == ((input >> n) & 1 == 1)) by (bit_vector)
                requires
                    n < 8,
            ;
        }
        input & (1u8 << n) != 0
    } else {
        false
    }
}

} // verus!
