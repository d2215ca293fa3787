//! Operand shapes sliced out of a 16-bit instruction word.
//!
//! Three shapes cover the whole instruction set: a single register index
//! (`Nybble`), a register pair (`TwoNybbles`), and the immediate/address
//! form holding a register index plus a full low byte (`ThreeNybbles`).

use vstd::prelude::*;

verus! {

/// A single 4-bit operand.
#[derive(Debug, Clone, Copy, PartialEq, Eq, Structural)]
pub struct Nybble(pub u8);

impl Nybble {
    /// The stored byte really occupies only its low 4 bits.
    pub open spec fn wf(self) -> bool {
        self.0 < 0x10
    }

    /// Constructing a nybble from a byte whose upper 4 bits are set is a
    /// decode-time invariant violation, ruled out by the precondition.
    pub fn new(arg: [u8; 1]) -> (r: Nybble)
        requires
            arg[0] < 0x10,
        ensures
            r.0 == arg[0],
            r.wf(),
    {
        Nybble(arg[0])
    }

    /// The X nybble (bits 8..12) of an instruction word.
    pub fn from_word(op: u16) -> (r: Nybble)
        ensures
            r == spec_x_nybble(op),
            r.wf(),
    {
        proof {
            assert(((op >> 8) & 0x0F) < 0x10) by (bit_vector);
        }
        Nybble(((op >> 8) & 0x0F) as u8)
    }

    pub fn to_u8(&self) -> (r: u8)
        ensures
            r == self.0,
    {
        self.0
    }

    pub fn to_u64(&self) -> (r: u64)
        ensures
            r == self.0,
    {
        self.0 as u64
    }

    pub fn to_usize(&self) -> (r: usize)
        ensures
            r == self.0,
    {
        self.0 as usize
    }
}

/// The X nybble of an instruction word, as a spec value.
pub open spec fn spec_x_nybble(op: u16) -> Nybble {
    Nybble(((op >> 8) & 0x0F) as u8)
}

/// A register pair X (high nybble) and Y (low nybble), stored as the
/// middle byte of the instruction word.
#[derive(Debug, Clone, Copy, PartialEq, Eq, Structural)]
pub struct TwoNybbles(pub u8);

impl TwoNybbles {
    /// The middle byte (bits 4..12) of an instruction word.
    pub fn from_word(op: u16) -> (r: TwoNybbles)
        ensures
            r == spec_two_nybbles(op),
    {
        TwoNybbles(((op >> 4) & 0x0FF) as u8)
    }

    pub fn x(&self) -> (r: Nybble)
        ensures
            r.0 == self.0 >> 4,
            r.wf(),
    {
        proof {
            let b = self.0;
            assert((b >> 4) < 0x10) by (bit_vector);
        }
        Nybble(self.0 >> 4)
    }

    pub fn y(&self) -> (r: Nybble)
        ensures
            r.0 == self.0 & 0x0F,
            r.wf(),
    {
        proof {
            let b = self.0;
            assert((b & 0x0F) < 0x10) by (bit_vector);
        }
        Nybble(self.0 & 0x0F)
    }
}

/// The middle byte of an instruction word, as a spec value.
pub open spec fn spec_two_nybbles(op: u16) -> TwoNybbles {
    TwoNybbles(((op >> 4) & 0x0FF) as u8)
}

/// The X register index together with the low byte of the instruction
/// word; the low byte doubles as the KK immediate, as the Y/N nybbles,
/// and as the tail of the 12-bit address X<<8 | KK.
#[derive(Debug, Clone, Copy, PartialEq, Eq, Structural)]
pub struct ThreeNybbles(pub u8, pub u8);

impl ThreeNybbles {
    /// The X byte really occupies only its low 4 bits.
    pub open spec fn wf(self) -> bool {
        self.0 < 0x10
    }

    /// The 12-bit address X<<8 | KK carried by this operand.
    pub open spec fn spec_addr(self) -> u16 {
        ((self.0 as u16) << 8) | (self.1 as u16)
    }

    pub fn new(arg: [u8; 2]) -> (r: ThreeNybbles)
        requires
            arg[0] < 0x10,
        ensures
            r.0 == arg[0],
            r.1 == arg[1],
            r.wf(),
    {
        ThreeNybbles(arg[0], arg[1])
    }

    /// Bits 8..12 and the low byte of an instruction word.
    pub fn from_word(op: u16) -> (r: ThreeNybbles)
        ensures
            r == spec_three_nybbles(op),
            r.wf(),
    {
        proof {
            assert(((op & 0x0F00) >> 8) < 0x10) by (bit_vector);
        }
        ThreeNybbles(((op & 0x0F00) >> 8) as u8, (op & 0x00FF) as u8)
    }

    pub fn to_addr(&self) -> (r: u16)
        ensures
            r == self.spec_addr(),
            self.wf() ==> r <= 0xFFF,
    {
        proof {
            let a = self.0;
            let b = self.1;
            assert(a < 0x10 ==> (((a as u16) << 8) | (b as u16)) <= 0xFFF) by (bit_vector);
        }
        ((self.0 as u16) << 8) | (self.1 as u16)
    }

    pub fn x(&self) -> (r: Nybble)
        ensures
            r.0 == self.0,
            self.wf() ==> r.wf(),
    {
        Nybble(self.0)
    }

    pub fn y(&self) -> (r: Nybble)
        ensures
            r.0 == self.1 >> 4,
            r.wf(),
    {
        proof {
            let b = self.1;
            assert((b >> 4) < 0x10) by (bit_vector);
        }
        Nybble(self.1 >> 4)
    }

    pub fn last_nybble(&self) -> (r: u8)
        ensures
            r == self.1 & 0x0F,
            r < 0x10,
    {
        proof {
            let b = self.1;
            assert((b & 0x0F) < 0x10) by (bit_vector);
        }
        self.1 & 0x0F
    }

    pub fn get_byte(&self) -> (r: u8)
        ensures
            r == self.1,
    {
        self.1
    }
}

/// The X nybble and low byte of an instruction word, as a spec value.
pub open spec fn spec_three_nybbles(op: u16) -> ThreeNybbles {
    ThreeNybbles(((op & 0x0F00) >> 8) as u8, (op & 0x00FF) as u8)
}

} // verus!
