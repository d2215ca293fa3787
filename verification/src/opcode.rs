//! The closed instruction set and the opcode decoder.
//!
//! A raw 16-bit word is classified into one of 35 tagged variants, grouped
//! by operand arity.  The two fixed zero-operand codes are matched
//! literally; every other group is selected by its high nybble and, where
//! the group shares a high nybble, by its sub-code, so that more specific
//! patterns always win over more general ones.  A word that matches no
//! entry of the table is a decode failure carrying the offending word.

use vstd::prelude::*;

use crate::nybble::Nybble;
use crate::nybble::ThreeNybbles;
use crate::nybble::TwoNybbles;
use crate::nybble::spec_three_nybbles;
use crate::nybble::spec_two_nybbles;
use crate::nybble::spec_x_nybble;

verus! {

/// The two zero-operand instructions.
#[derive(Debug, Clone, Copy, PartialEq, Eq, Structural)]
pub enum NoArg {
    /// 00E0: blank every pixel of the display.
    ClearScreen,
    /// 00EE: return from a subroutine.
    ReturnSubrt,
}

/// Instructions taking a single register index.
#[derive(Debug, Clone, Copy, PartialEq, Eq, Structural)]
pub enum OneArg {
    /// Ex9E: skip the next instruction if the key numbered Vx is down.
    SkipIfVx(Nybble),
    /// ExA1: skip the next instruction if the key numbered Vx is up.
    SkipIfNVx(Nybble),
    /// Fx07: Vx = delay timer.
    SetVxDT(Nybble),
    /// Fx0A: block until a key press lands in Vx.
    WaitForKey(Nybble),
    /// Fx15: delay timer = Vx.
    SetDT(Nybble),
    /// Fx18: sound timer = Vx.
    SetST(Nybble),
    /// Fx1E: I = I + Vx, without touching the flag register.
    SetI(Nybble),
    /// Fx29: I = start address of the digit glyph for Vx.
    SetSpriteI(Nybble),
    /// Fx33: store the decimal digits of Vx at I, I+1, I+2.
    StoreDecVx(Nybble),
    /// Fx55: spill registers 0..=x to memory starting at I.
    StoreV0Vx(Nybble),
    /// Fx65: fill registers 0..=x from memory starting at I.
    ReadV0Vx(Nybble),
}

/// Instructions taking a register pair.
#[derive(Debug, Clone, Copy, PartialEq, Eq, Structural)]
pub enum TwoArg {
    /// 5xy0: skip if Vx == Vy.
    SkipEqVxVy(TwoNybbles),
    /// 8xy0: Vx = Vy.
    VxEqVy(TwoNybbles),
    /// 8xy1: Vx |= Vy.
    VxOREqVy(TwoNybbles),
    /// 8xy2: Vx &= Vy.
    VxANDEqVy(TwoNybbles),
    /// 8xy3: Vx ^= Vy.
    VxXOREqVy(TwoNybbles),
    /// 8xy4: Vx += Vy, flag register = carry.
    VxPlusEqVySetF(TwoNybbles),
    /// 8xy5: Vx -= Vy, flag register = NOT borrow.
    VxSubEqVySetF(TwoNybbles),
    /// 8xy6: flag register = low bit of Vx, then Vx >>= 1.  The shifts
    /// deliberately read and write Vx and ignore Y, the convention of
    /// the widespread later interpreters; programs written for the
    /// original shift-Vy-into-Vx convention are not supported.
    ShiftVxR(TwoNybbles),
    /// 8xy7: Vx = Vy - Vx, flag register = NOT borrow.
    VxEqVySubVxSetF(TwoNybbles),
    /// 8xyE: flag register = high bit of Vx, then Vx <<= 1; the same
    /// Vx-only compatibility choice as 8xy6.
    ShiftVxL(TwoNybbles),
    /// 9xy0: skip if Vx != Vy.
    SkipVxNEqVy(TwoNybbles),
}

/// Instructions carrying an immediate byte or a 12-bit address.
#[derive(Debug, Clone, Copy, PartialEq, Eq, Structural)]
pub enum ThreeArg {
    /// 0nnn: historic machine-code routine call; executes as a no-op.
    JumpToCodeRout(ThreeNybbles),
    /// 1nnn: jump to nnn.
    JumpToAddr(ThreeNybbles),
    /// 2nnn: call the subroutine at nnn.
    CallSubAt(ThreeNybbles),
    /// 3xkk: skip if Vx == kk.
    SkipVxEqKK(ThreeNybbles),
    /// 4xkk: skip if Vx != kk.
    SkipVxNEqKK(ThreeNybbles),
    /// 6xkk: Vx = kk.
    SetVxKK(ThreeNybbles),
    /// 7xkk: Vx += kk, wrapping, no flag.
    VxEqVxPlusKK(ThreeNybbles),
    /// Annn: I = nnn.
    SetIToNNN(ThreeNybbles),
    /// Bnnn: jump to V0 + nnn; out-of-range targets are an error.
    PCEqNNNPlusV0(ThreeNybbles),
    /// Cxkk: Vx = random byte AND kk.
    VxEqRandANDKK(ThreeNybbles),
    /// Dxyn: draw the n-byte sprite at I at coordinates (Vx, Vy).
    DrawVxVyNib(ThreeNybbles),
}

/// One decoded instruction, grouped by operand arity.
#[derive(Debug, Clone, Copy, PartialEq, Eq, Structural)]
pub enum Opcode {
    NoArg(NoArg),
    OneArg(OneArg),
    TwoArg(TwoArg),
    ThreeArg(ThreeArg),
}

/// Every failure a single step can report.  Each kind carries the decoded
/// instruction (or, where none exists yet, the offending raw value) so a
/// host can diagnose the faulting step; all of them abort only that step.
#[derive(Debug, Clone, Copy, PartialEq, Eq, Structural)]
pub enum InvalidOpcode {
    /// The word matches no entry of the instruction table.
    DoesntExist(u16),
    /// A call found all 15 stack slots in use.
    StackOverflow(Opcode),
    /// A return found the stack empty.
    StackUnderflow(Opcode),
    /// A computed address left the valid region.
    OutOfBoundsAddress(Opcode),
    /// The program counter itself left the fetchable region, so no
    /// instruction could be read.
    PcOutOfBounds(u16),
    /// A digit-glyph lookup was asked for a value above 0xF.
    NoSuchDigitSprite(Opcode),
    /// A sprite draw was requested at coordinates off the grid; carries
    /// the offending coordinates.
    OutOfScreenBounds(u8, u8, Opcode),
    /// A key-skip instruction read a register value above 0xF.
    InvalidKeyIndex(Opcode),
}

/// Every operand nybble of the instruction fits in 4 bits.
pub open spec fn op_wf(op: Opcode) -> bool {
    match op {
        Opcode::NoArg(_) => true,
        Opcode::OneArg(a) => match a {
            OneArg::SkipIfVx(n) => n.wf(),
            OneArg::SkipIfNVx(n) => n.wf(),
            OneArg::SetVxDT(n) => n.wf(),
            OneArg::WaitForKey(n) => n.wf(),
            OneArg::SetDT(n) => n.wf(),
            OneArg::SetST(n) => n.wf(),
            OneArg::SetI(n) => n.wf(),
            OneArg::SetSpriteI(n) => n.wf(),
            OneArg::StoreDecVx(n) => n.wf(),
            OneArg::StoreV0Vx(n) => n.wf(),
            OneArg::ReadV0Vx(n) => n.wf(),
        },
        Opcode::TwoArg(_) => true,
        Opcode::ThreeArg(a) => match a {
            ThreeArg::JumpToCodeRout(t) => t.wf(),
            ThreeArg::JumpToAddr(t) => t.wf(),
            ThreeArg::CallSubAt(t) => t.wf(),
            ThreeArg::SkipVxEqKK(t) => t.wf(),
            ThreeArg::SkipVxNEqKK(t) => t.wf(),
            ThreeArg::SetVxKK(t) => t.wf(),
            ThreeArg::VxEqVxPlusKK(t) => t.wf(),
            ThreeArg::SetIToNNN(t) => t.wf(),
            ThreeArg::PCEqNNNPlusV0(t) => t.wf(),
            ThreeArg::VxEqRandANDKK(t) => t.wf(),
            ThreeArg::DrawVxVyNib(t) => t.wf(),
        },
    }
}

/// The instruction table as a function: what a raw word decodes to.
pub open spec fn spec_decode(op: u16) -> Result<Opcode, InvalidOpcode> {
    if op == 0x00E0 {
        Ok(Opcode::NoArg(NoArg::ClearScreen))
    } else if op == 0x00EE {
        Ok(Opcode::NoArg(NoArg::ReturnSubrt))
    } else {
        let hi = op >> 12;
        let lo = op & 0x000F;
        let kk = op & 0x00FF;
        if hi == 0x0 {
            Ok(Opcode::ThreeArg(ThreeArg::JumpToCodeRout(spec_three_nybbles(op))))
        } else if hi == 0x1 {
            Ok(Opcode::ThreeArg(ThreeArg::JumpToAddr(spec_three_nybbles(op))))
        } else if hi == 0x2 {
            Ok(Opcode::ThreeArg(ThreeArg::CallSubAt(spec_three_nybbles(op))))
        } else if hi == 0x3 {
            Ok(Opcode::ThreeArg(ThreeArg::SkipVxEqKK(spec_three_nybbles(op))))
        } else if hi == 0x4 {
            Ok(Opcode::ThreeArg(ThreeArg::SkipVxNEqKK(spec_three_nybbles(op))))
        } else if hi == 0x5 {
            if lo == 0x0 {
                Ok(Opcode::TwoArg(TwoArg::SkipEqVxVy(spec_two_nybbles(op))))
            } else {
                Err(InvalidOpcode::DoesntExist(op))
            }
        } else if hi == 0x6 {
            Ok(Opcode::ThreeArg(ThreeArg::SetVxKK(spec_three_nybbles(op))))
        } else if hi == 0x7 {
            Ok(Opcode::ThreeArg(ThreeArg::VxEqVxPlusKK(spec_three_nybbles(op))))
        } else if hi == 0x8 {
            if lo == 0x0 {
                Ok(Opcode::TwoArg(TwoArg::VxEqVy(spec_two_nybbles(op))))
            } else if lo == 0x1 {
                Ok(Opcode::TwoArg(TwoArg::VxOREqVy(spec_two_nybbles(op))))
            } else if lo == 0x2 {
                Ok(Opcode::TwoArg(TwoArg::VxANDEqVy(spec_two_nybbles(op))))
            } else if lo == 0x3 {
                Ok(Opcode::TwoArg(TwoArg::VxXOREqVy(spec_two_nybbles(op))))
            } else if lo == 0x4 {
                Ok(Opcode::TwoArg(TwoArg::VxPlusEqVySetF(spec_two_nybbles(op))))
            } else if lo == 0x5 {
                Ok(Opcode::TwoArg(TwoArg::VxSubEqVySetF(spec_two_nybbles(op))))
            } else if lo == 0x6 {
                Ok(Opcode::TwoArg(TwoArg::ShiftVxR(spec_two_nybbles(op))))
            } else if lo == 0x7 {
                Ok(Opcode::TwoArg(TwoArg::VxEqVySubVxSetF(spec_two_nybbles(op))))
            } else if lo == 0xE {
                Ok(Opcode::TwoArg(TwoArg::ShiftVxL(spec_two_nybbles(op))))
            } else {
                Err(InvalidOpcode::DoesntExist(op))
            }
        } else if hi == 0x9 {
            if lo == 0x0 {
                Ok(Opcode::TwoArg(TwoArg::SkipVxNEqVy(spec_two_nybbles(op))))
            } else {
                Err(InvalidOpcode::DoesntExist(op))
            }
        } else if hi == 0xA {
            Ok(Opcode::ThreeArg(ThreeArg::SetIToNNN(spec_three_nybbles(op))))
        } else if hi == 0xB {
            Ok(Opcode::ThreeArg(ThreeArg::PCEqNNNPlusV0(spec_three_nybbles(op))))
        } else if hi == 0xC {
            Ok(Opcode::ThreeArg(ThreeArg::VxEqRandANDKK(spec_three_nybbles(op))))
        } else if hi == 0xD {
            Ok(Opcode::ThreeArg(ThreeArg::DrawVxVyNib(spec_three_nybbles(op))))
        } else if hi == 0xE {
            if kk == 0x9E {
                Ok(Opcode::OneArg(OneArg::SkipIfVx(spec_x_nybble(op))))
            } else if kk == 0xA1 {
                Ok(Opcode::OneArg(OneArg::SkipIfNVx(spec_x_nybble(op))))
            } else {
                Err(InvalidOpcode::DoesntExist(op))
            }
        } else {
            if kk == 0x07 {
                Ok(Opcode::OneArg(OneArg::SetVxDT(spec_x_nybble(op))))
            } else if kk == 0x0A {
                Ok(Opcode::OneArg(OneArg::WaitForKey(spec_x_nybble(op))))
            } else if kk == 0x15 {
                Ok(Opcode::OneArg(OneArg::SetDT(spec_x_nybble(op))))
            } else if kk == 0x18 {
                Ok(Opcode::OneArg(OneArg::SetST(spec_x_nybble(op))))
            } else if kk == 0x1E {
                Ok(Opcode::OneArg(OneArg::SetI(spec_x_nybble(op))))
            } else if kk == 0x29 {
                Ok(Opcode::OneArg(OneArg::SetSpriteI(spec_x_nybble(op))))
            } else if kk == 0x33 {
                Ok(Opcode::OneArg(OneArg::StoreDecVx(spec_x_nybble(op))))
            } else if kk == 0x55 {
                Ok(Opcode::OneArg(OneArg::StoreV0Vx(spec_x_nybble(op))))
            } else if kk == 0x65 {
                Ok(Opcode::OneArg(OneArg::ReadV0Vx(spec_x_nybble(op))))
            } else {
                Err(InvalidOpcode::DoesntExist(op))
            }
        }
    }
}

impl Opcode {
    /// Classify a raw instruction word, or fail with the offending word.
    pub fn decode_op(op: u16) -> (r: Result<Opcode, InvalidOpcode>)
        ensures
            r == spec_decode(op),
            r is Ok ==> op_wf(r->Ok_0),
    {
        if op == 0x00E0 {
            Ok(Opcode::NoArg(NoArg::ClearScreen))
        } else if op == 0x00EE {
            Ok(Opcode::NoArg(NoArg::ReturnSubrt))
        } else {
            let hi: u16 = op >> 12;
            let lo: u16 = op & 0x000F;
            let kk: u16 = op & 0x00FF;
            if hi == 0x0 {
                Ok(Opcode::ThreeArg(ThreeArg::JumpToCodeRout(ThreeNybbles::from_word(op))))
            } else if hi == 0x1 {
                Ok(Opcode::ThreeArg(ThreeArg::JumpToAddr(ThreeNybbles::from_word(op))))
            } else if hi == 0x2 {
                Ok(Opcode::ThreeArg(ThreeArg::CallSubAt(ThreeNybbles::from_word(op))))
            } else if hi == 0x3 {
                Ok(Opcode::ThreeArg(ThreeArg::SkipVxEqKK(ThreeNybbles::from_word(op))))
            } else if hi == 0x4 {
                Ok(Opcode::ThreeArg(ThreeArg::SkipVxNEqKK(ThreeNybbles::from_word(op))))
            } else if hi == 0x5 {
                if lo == 0x0 {
                    Ok(Opcode::TwoArg(TwoArg::SkipEqVxVy(TwoNybbles::from_word(op))))
                } else {
                    Err(InvalidOpcode::DoesntExist(op))
                }
            } else if hi == 0x6 {
                Ok(Opcode::ThreeArg(ThreeArg::SetVxKK(ThreeNybbles::from_word(op))))
            } else if hi == 0x7 {
                Ok(Opcode::ThreeArg(ThreeArg::VxEqVxPlusKK(ThreeNybbles::from_word(op))))
            } else if hi == 0x8 {
                if lo == 0x0 {
                    Ok(Opcode::TwoArg(TwoArg::VxEqVy(TwoNybbles::from_word(op))))
                } else if lo == 0x1 {
                    Ok(Opcode::TwoArg(TwoArg::VxOREqVy(TwoNybbles::from_word(op))))
                } else if lo == 0x2 {
                    Ok(Opcode::TwoArg(TwoArg::VxANDEqVy(TwoNybbles::from_word(op))))
                } else if lo == 0x3 {
                    Ok(Opcode::TwoArg(TwoArg::VxXOREqVy(TwoNybbles::from_word(op))))
                } else if lo == 0x4 {
                    Ok(Opcode::TwoArg(TwoArg::VxPlusEqVySetF(TwoNybbles::from_word(op))))
                } else if lo == 0x5 {
                    Ok(Opcode::TwoArg(TwoArg::VxSubEqVySetF(TwoNybbles::from_word(op))))
                } else if lo == 0x6 {
                    Ok(Opcode::TwoArg(TwoArg::ShiftVxR(TwoNybbles::from_word(op))))
                } else if lo == 0x7 {
                    Ok(Opcode::TwoArg(TwoArg::VxEqVySubVxSetF(TwoNybbles::from_word(op))))
                } else if lo == 0xE {
                    Ok(Opcode::TwoArg(TwoArg::ShiftVxL(TwoNybbles::from_word(op))))
                } else {
                    Err(InvalidOpcode::DoesntExist(op))
                }
            } else if hi == 0x9 {
                if lo == 0x0 {
                    Ok(Opcode::TwoArg(TwoArg::SkipVxNEqVy(TwoNybbles::from_word(op))))
                } else {
                    Err(InvalidOpcode::DoesntExist(op))
                }
            } else if hi == 0xA {
                Ok(Opcode::ThreeArg(ThreeArg::SetIToNNN(ThreeNybbles::from_word(op))))
            } else if hi == 0xB {
                Ok(Opcode::ThreeArg(ThreeArg::PCEqNNNPlusV0(ThreeNybbles::from_word(op))))
            } else if hi == 0xC {
                Ok(Opcode::ThreeArg(ThreeArg::VxEqRandANDKK(ThreeNybbles::from_word(op))))
            } else if hi == 0xD {
                Ok(Opcode::ThreeArg(ThreeArg::DrawVxVyNib(ThreeNybbles::from_word(op))))
            } else if hi == 0xE {
                if kk == 0x9E {
                    Ok(Opcode::OneArg(OneArg::SkipIfVx(Nybble::from_word(op))))
                } else if kk == 0xA1 {
                    Ok(Opcode::OneArg(OneArg::SkipIfNVx(Nybble::from_word(op))))
                } else {
                    Err(InvalidOpcode::DoesntExist(op))
                }
            } else {
                if kk == 0x07 {
                    Ok(Opcode::OneArg(OneArg::SetVxDT(Nybble::from_word(op))))
                } else if kk == 0x0A {
                    Ok(Opcode::OneArg(OneArg::WaitForKey(Nybble::from_word(op))))
                } else if kk == 0x15 {
                    Ok(Opcode::OneArg(OneArg::SetDT(Nybble::from_word(op))))
                } else if kk == 0x18 {
                    Ok(Opcode::OneArg(OneArg::SetST(Nybble::from_word(op))))
                } else if kk == 0x1E {
                    Ok(Opcode::OneArg(OneArg::SetI(Nybble::from_word(op))))
                } else if kk == 0x29 {
                    Ok(Opcode::OneArg(OneArg::SetSpriteI(Nybble::from_word(op))))
                } else if kk == 0x33 {
                    Ok(Opcode::OneArg(OneArg::StoreDecVx(Nybble::from_word(op))))
                } else if kk == 0x55 {
                    Ok(Opcode::OneArg(OneArg::StoreV0Vx(Nybble::from_word(op))))
                } else if kk == 0x65 {
                    Ok(Opcode::OneArg(OneArg::ReadV0Vx(Nybble::from_word(op))))
                } else {
                    Err(InvalidOpcode::DoesntExist(op))
                }
            }
        }
    }
}

} // verus!
