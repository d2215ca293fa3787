//! The register file, memory bank, call stack and the machine itself.
//!
//! `Cpu` binds every component; one `step` fetches a 16-bit word at the
//! program counter, decodes it and executes exactly one instruction.  The
//! whole transition relation is written down once, as the spec-level
//! interpreter `spec_execute`, and every executable path is proved
//! against it.

use vstd::prelude::*;

use crate::keyboard::Keyboard;
use crate::nybble::Nybble;
use crate::nybble::ThreeNybbles;
use crate::opcode::InvalidOpcode;
use crate::opcode::NoArg;
use crate::opcode::OneArg;
use crate::opcode::Opcode;
use crate::opcode::ThreeArg;
use crate::opcode::TwoArg;
use crate::opcode::op_wf;
use crate::opcode::spec_decode;
use crate::screen::SCREEN_HEIGHT;
use crate::screen::SCREEN_WIDTH;
use crate::screen::Screen;
use crate::screen::spec_blank_screen;
use crate::screen::spec_collision;
use crate::screen::spec_draw;

verus! {

/// Relies on rand::random of the rand crate: one value drawn from the
/// thread-local generator.  Nothing is promised of the value, so every
/// caller must be correct for all of them.
pub assume_specification<T>[ rand::random::<T> ]() -> (r: T)
    where
        rand::distributions::Standard: rand::distributions::Distribution<T>,
;

/// Index of the flag register: several instructions overwrite V15 with a
/// carry, borrow or collision bit.  It is ordinary storage; only the
/// dispatch table gives it that role.
pub const FLAG_REG: usize = 0xF;

/// Size of the memory bank in bytes; addresses 0x000..0xFFE are usable.
pub const RAM_SIZE: usize = 0xFFF;

/// First address of the loaded program, and the initial program counter.
pub const PROGRAM_START: usize = 0x200;

/// Start address of each built-in digit glyph: glyph d begins at 5*d.
pub const SPR_ZERO_START: u16 = 0;
pub const SPR_ONE_START: u16 = 5;
pub const SPR_TWO_START: u16 = 10;
pub const SPR_THREE_START: u16 = 15;
pub const SPR_FOUR_START: u16 = 20;
pub const SPR_FIVE_START: u16 = 25;
pub const SPR_SIX_START: u16 = 30;
pub const SPR_SEVEN_START: u16 = 35;
pub const SPR_EIGHT_START: u16 = 40;
pub const SPR_NINE_START: u16 = 45;
pub const SPR_A_START: u16 = 50;
pub const SPR_B_START: u16 = 55;
pub const SPR_C_START: u16 = 60;
pub const SPR_D_START: u16 = 65;
pub const SPR_E_START: u16 = 70;
pub const SPR_F_START: u16 = 75;

/// The 16 built-in digit glyphs, 5 bytes per digit, 0x0 through 0xF.
pub const DIGIT_SPRITES: [u8; 80] = [
    0xF0, 0x90, 0x90, 0x90, 0xF0,  // 0
    0x20, 0x60, 0x20, 0x20, 0x70,  // 1
    0xF0, 0x10, 0xF0, 0x80, 0xF0,  // 2
    0xF0, 0x10, 0xF0, 0x10, 0xF0,  // 3
    0x90, 0x90, 0xF0, 0x10, 0x10,  // 4
    0xF0, 0x80, 0xF0, 0x10, 0xF0,  // 5
    0xF0, 0x80, 0xF0, 0x90, 0xF0,  // 6
    0xF0, 0x10, 0x20, 0x40, 0x40,  // 7
    0xF0, 0x90, 0xF0, 0x90, 0xF0,  // 8
    0xF0, 0x90, 0xF0, 0x10, 0xF0,  // 9
    0xF0, 0x90, 0xF0, 0x90, 0x90,  // A
    0xE0, 0x90, 0xE0, 0x90, 0xE0,  // B
    0xF0, 0x80, 0x80, 0x80, 0xF0,  // C
    0xE0, 0x90, 0x90, 0x90, 0xE0,  // D
    0xF0, 0x80, 0xF0, 0x80, 0xF0,  // E
    0xF0, 0x80, 0xF0, 0x80, 0x80,  // F
];

/// The program counter: advanced by 2 after every non-jumping
/// instruction, set directly by jumps, calls and returns.
#[derive(Debug, Clone, Copy, PartialEq, Eq, Structural)]
pub struct ProgramCounter(pub u16);

impl ProgramCounter {
    /// The normal advance past one 2-byte instruction.
    pub fn update(&mut self)
        requires
            old(self).0 <= 0xFFFD,
        ensures
            final(self).0 == old(self).0 + 2,
    {
        self.0 = self.0 + 2;
    }

    pub fn set_addr(&mut self, addr: u16)
        ensures
            final(self).0 == addr,
    {
        self.0 = addr;
    }

    pub fn get_addr(&self) -> (r: u16)
        ensures
            r == self.0,
    {
        self.0
    }
}

/// The register file: 16 general-purpose byte registers, the 16-bit index
/// register, the two timers, the stack pointer and the program counter.
#[derive(Debug, Clone, Copy)]
pub struct Registers {
    pub pc: ProgramCounter,
    pub delay: u8,
    pub sound: u8,
    pub sp: u8,
    pub i_reg: u16,
    pub v_regs: [u8; 16],
}

impl Registers {
    pub fn new() -> (r: Registers)
        ensures
            r.pc.0 == 0x200,
            r.delay == 0,
            r.sound == 0,
            r.sp == 0,
            r.i_reg == 0,
            forall|k: int| 0 <= k < 16 ==> r.v_regs@[k] == 0,
    {
        let chip_8_adrr: u16 = 0x200;
        Registers {
            pc: ProgramCounter(chip_8_adrr),
            delay: 0,
            sound: 0,
            i_reg: 0,
            sp: 0,
            v_regs: [0; 16],
        }
    }
}

/// What the memory bank holds right after construction: the digit glyphs
/// at the bottom, the program image at 0x200, zeroes everywhere else.
pub open spec fn spec_initial_ram(bytes: Seq<u8>) -> Seq<u8> {
    Seq::new(
        0xFFF,
        |a: int|
            if 0 <= a < 80 {
                DIGIT_SPRITES@[a]
            } else if 0x200 <= a < 0x200 + bytes.len() {
                bytes[a - 0x200]
            } else {
                0u8
            },
    )
}

/// The memory bank: a fixed byte array, never resized.
#[derive(Clone, Copy)]
pub struct Ram(pub [u8; RAM_SIZE]);

impl Ram {
    /// Zero-fill the bank, copy in the digit glyphs, then copy the
    /// program image verbatim starting at 0x200.  The caller must supply
    /// a program that fits in the bank.
    pub fn initialize_ram(bytes: &[u8]) -> (r: Ram)
        requires
            bytes@.len() <= 0xDFF,
        ensures
            r.0@ == spec_initial_ram(bytes@),
    {
        let mut ram = Ram([0; RAM_SIZE]);
        ram.load_digit_data();
        let n: usize = bytes.len();
        for k in 0..n
            invariant
                n == bytes@.len(),
                n <= 0xDFF,
                forall|t: int| 0 <= t < 80 ==> ram.0@[t] == DIGIT_SPRITES@[t],
                forall|t: int| 80 <= t < 0x200 ==> ram.0@[t] == 0,
                forall|t: int| 0 <= t < k ==> ram.0@[0x200 + t] == bytes@[t],
                forall|t: int| 0x200 + k <= t < 0xFFF ==> ram.0@[t] == 0,
        {
            ram.0[PROGRAM_START + k] = bytes[k];
        }
        proof {
            assert(ram.0@ =~= spec_initial_ram(bytes@));
        }
        ram
    }

    /// Copy the 16 digit glyphs into addresses 0x000..0x050.
    fn load_digit_data(&mut self)
        ensures
            forall|t: int| 0 <= t < 80 ==> final(self).0@[t] == DIGIT_SPRITES@[t],
            forall|t: int| 80 <= t < 0xFFF ==> final(self).0@[t] == old(self).0@[t],
    {
        for k in 0..80usize
            invariant
                forall|t: int| 0 <= t < k ==> self.0@[t] == DIGIT_SPRITES@[t],
                forall|t: int| k <= t < 0xFFF ==> self.0@[t] == old(self).0@[t],
        {
            self.0[k] = DIGIT_SPRITES[k];
        }
    }

    /// Read `amount` consecutive bytes starting at `index`.
    pub fn retrieve_bytes(&self, index: u16, amount: Nybble) -> (r: Vec<u8>)
        requires
            index + amount.0 <= 0xFFF,
        ensures
            r@ == self.0@.subrange(index as int, index as int + amount.0 as int),
    {
        let mut byte_vec: Vec<u8> = Vec::new();
        let n: usize = amount.to_usize();
        let start: usize = index as usize;
        for k in 0..n
            invariant
                n == amount.0,
                start == index,
                start + n <= 0xFFF,
                byte_vec@.len() == k,
                forall|t: int| 0 <= t < k ==> byte_vec@[t] == self.0@[start + t],
        {
            byte_vec.push(self.0[start + k]);
        }
        proof {
            assert(byte_vec@ =~= self.0@.subrange(index as int, index as int + amount.0 as int));
        }
        byte_vec
    }
}

/// The stack and pointer after a successful push: advance the pointer,
/// then write at the new slot.
pub open spec fn spec_push(stack: Seq<u16>, sp: u8, addr: u16) -> (Seq<u16>, u8) {
    (stack.update(sp + 1, addr), (sp + 1) as u8)
}

/// The return address a successful pop yields: the slot under the
/// pointer, read before the pointer moves down.
pub open spec fn spec_pop_value(stack: Seq<u16>, sp: u8) -> u16 {
    stack[sp as int]
}

/// The bounded call stack: 16 slots, pointer 0 is the empty sentinel, so
/// 15 return addresses fit.
#[derive(Debug, Clone, Copy)]
pub struct Stack(pub [u16; 16]);

impl Stack {
    pub fn new() -> (r: Stack)
        ensures
            forall|k: int| 0 <= k < 16 ==> r.0@[k] == 0,
    {
        Stack([0; 16])
    }

    /// Push a return address: increment the pointer, then write.  A full
    /// stack fails without changing anything.
    pub fn push(&mut self, sp: &mut u8, pc: &ProgramCounter) -> (r: Result<(), ()>)
        ensures
            *old(sp) >= 15 ==> r is Err && final(self).0@ == old(self).0@ && *final(sp) == *old(sp),
            *old(sp) < 15 ==> r is Ok
                && final(self).0@ == spec_push(old(self).0@, *old(sp), pc.0).0
                && *final(sp) == spec_push(old(self).0@, *old(sp), pc.0).1,
    {
        if *sp >= 15 {
            return Err(());
        }
        *sp = *sp + 1;
        self.0[*sp as usize] = pc.get_addr();
        Ok(())
    }

    /// Pop a return address: read under the pointer, then decrement.  An
    /// empty stack (pointer 0) fails without changing anything.
    pub fn pop(&self, sp: &mut u8) -> (r: Result<ProgramCounter, ()>)
        requires
            *old(sp) <= 15,
        ensures
            *old(sp) == 0 ==> r is Err && *final(sp) == 0,
            *old(sp) > 0 ==> r == Ok::<ProgramCounter, ()>(
                ProgramCounter(spec_pop_value(self.0@, *old(sp))),
            ) && *final(sp) == *old(sp) - 1,
    {
        let temp = ProgramCounter(self.0[*sp as usize]);
        if *sp == 0 {
            return Err(());
        }
        *sp = *sp - 1;
        Ok(temp)
    }
}

/// Point the index register at the digit glyph for `v_reg`: the fixed
/// table maps nybble d to start address 5*d; any value above 0xF is an
/// error and leaves the register unchanged.
pub fn i_eq_spr_digit_vx(v_reg: u8, i_reg: &mut u16) -> (r: Result<(), ()>)
    ensures
        v_reg < 0x10 ==> r is Ok && *final(i_reg) == 5 * (v_reg as int),
        v_reg >= 0x10 ==> r is Err && *final(i_reg) == *old(i_reg),
{
    match v_reg {
        0x0 => {
            *i_reg = SPR_ZERO_START;
            Ok(())
        },
        0x1 => {
            *i_reg = SPR_ONE_START;
            Ok(())
        },
        0x2 => {
            *i_reg = SPR_TWO_START;
            Ok(())
        },
        0x3 => {
            *i_reg = SPR_THREE_START;
            Ok(())
        },
        0x4 => {
            *i_reg = SPR_FOUR_START;
            Ok(())
        },
        0x5 => {
            *i_reg = SPR_FIVE_START;
            Ok(())
        },
        0x6 => {
            *i_reg = SPR_SIX_START;
            Ok(())
        },
        0x7 => {
            *i_reg = SPR_SEVEN_START;
            Ok(())
        },
        0x8 => {
            *i_reg = SPR_EIGHT_START;
            Ok(())
        },
        0x9 => {
            *i_reg = SPR_NINE_START;
            Ok(())
        },
        0xA => {
            *i_reg = SPR_A_START;
            Ok(())
        },
        0xB => {
            *i_reg = SPR_B_START;
            Ok(())
        },
        0xC => {
            *i_reg = SPR_C_START;
            Ok(())
        },
        0xD => {
            *i_reg = SPR_D_START;
            Ok(())
        },
        0xE => {
            *i_reg = SPR_E_START;
            Ok(())
        },
        0xF => {
            *i_reg = SPR_F_START;
            Ok(())
        },
        _ => Err(()),
    }
}

/// The abstract state of the whole machine: plain values and sequences,
/// one field per component.
#[verifier::ext_equal]
pub struct MachineView {
    pub ram: Seq<u8>,
    pub v: Seq<u8>,
    pub i: u16,
    pub pc: u16,
    pub sp: u8,
    pub stack: Seq<u16>,
    pub delay: u8,
    pub sound: u8,
    pub screen: Seq<Seq<bool>>,
    pub keys: Seq<bool>,
    pub waiting: Option<u8>,
}

/// The program counter after the normal advance past one instruction.
pub open spec fn spec_adv(pc: u16) -> u16 {
    (pc + 2) as u16
}

/// The program counter after a skip instruction: the normal advance,
/// plus one extra instruction when the condition holds.
pub open spec fn spec_skip(pc: u16, cond: bool) -> u16 {
    if cond {
        (pc + 4) as u16
    } else {
        (pc + 2) as u16
    }
}

/// Memory after spilling registers 0..=x to addresses i..=i+x.
pub open spec fn spec_spill(ram: Seq<u8>, v: Seq<u8>, i: int, x: int) -> Seq<u8> {
    Seq::new(0xFFF, |a: int| if i <= a <= i + x { v[a - i] } else { ram[a] })
}

/// Registers after filling 0..=x from addresses i..=i+x.
pub open spec fn spec_fill(v: Seq<u8>, ram: Seq<u8>, i: int, x: int) -> Seq<u8> {
    Seq::new(16, |k: int| if k <= x { ram[i + k] } else { v[k] })
}

/// The 16-bit word fetched at the program counter: high byte first.
pub open spec fn spec_fetch(ram: Seq<u8>, pc: u16) -> u16 {
    ((ram[pc as int] as u16) << 8) | (ram[pc as int + 1] as u16)
}

/// What one decoded instruction does to the machine: the whole
/// instruction table as a transition function.  `rnd` is the byte the
/// random-number instruction consumes; every other instruction ignores
/// it.  An error leaves the machine exactly as it was.
pub open spec fn spec_execute(pre: MachineView, op: Opcode, rnd: u8) -> Result<
    MachineView,
    InvalidOpcode,
> {
    match op {
        Opcode::NoArg(a) => match a {
            NoArg::ClearScreen => Ok(
                MachineView { screen: spec_blank_screen(), pc: spec_adv(pre.pc), ..pre },
            ),
            NoArg::ReturnSubrt => if pre.sp == 0 {
                Err(InvalidOpcode::StackUnderflow(op))
            } else {
                Ok(
                    MachineView {
                        pc: (spec_pop_value(pre.stack, pre.sp) + 2) as u16,
                        sp: (pre.sp - 1) as u8,
                        ..pre
                    },
                )
            },
        },
        Opcode::OneArg(a) => match a {
            OneArg::SkipIfVx(n) => {
                let vx = pre.v[n.0 as int];
                if vx >= 16 {
                    Err(InvalidOpcode::InvalidKeyIndex(op))
                } else {
                    Ok(MachineView { pc: spec_skip(pre.pc, pre.keys[vx as int]), ..pre })
                }
            },
            OneArg::SkipIfNVx(n) => {
                let vx = pre.v[n.0 as int];
                if vx >= 16 {
                    Err(InvalidOpcode::InvalidKeyIndex(op))
                } else {
                    Ok(MachineView { pc: spec_skip(pre.pc, !pre.keys[vx as int]), ..pre })
                }
            },
            OneArg::SetVxDT(n) => Ok(
                MachineView { v: pre.v.update(n.0 as int, pre.delay), pc: spec_adv(pre.pc), ..pre },
            ),
            OneArg::WaitForKey(n) => Ok(
                MachineView { waiting: Some(n.0), pc: spec_adv(pre.pc), ..pre },
            ),
            OneArg::SetDT(n) => Ok(
                MachineView { delay: pre.v[n.0 as int], pc: spec_adv(pre.pc), ..pre },
            ),
            OneArg::SetST(n) => Ok(
                MachineView { sound: pre.v[n.0 as int], pc: spec_adv(pre.pc), ..pre },
            ),
            OneArg::SetI(n) => Ok(
                MachineView {
                    i: ((pre.i + pre.v[n.0 as int]) % 0x10000) as u16,
                    pc: spec_adv(pre.pc),
                    ..pre
                },
            ),
            OneArg::SetSpriteI(n) => {
                let vx = pre.v[n.0 as int];
                if vx >= 16 {
                    Err(InvalidOpcode::NoSuchDigitSprite(op))
                } else {
                    Ok(MachineView { i: (5 * vx) as u16, pc: spec_adv(pre.pc), ..pre })
                }
            },
            OneArg::StoreDecVx(n) => {
                let vx = pre.v[n.0 as int];
                if pre.i + 2 >= 0xFFF {
                    Err(InvalidOpcode::OutOfBoundsAddress(op))
                } else {
                    Ok(
                        MachineView {
                            ram: pre.ram.update(pre.i as int, (vx / 100) as u8).update(
                                pre.i as int + 1,
                                ((vx % 100) / 10) as u8,
                            ).update(pre.i as int + 2, (vx % 10) as u8),
                            pc: spec_adv(pre.pc),
                            ..pre
                        },
                    )
                }
            },
            OneArg::StoreV0Vx(n) => if pre.i + n.0 >= 0xFFF {
                Err(InvalidOpcode::OutOfBoundsAddress(op))
            } else {
                Ok(
                    MachineView {
                        ram: spec_spill(pre.ram, pre.v, pre.i as int, n.0 as int),
                        pc: spec_adv(pre.pc),
                        ..pre
                    },
                )
            },
            OneArg::ReadV0Vx(n) => if pre.i + n.0 >= 0xFFF {
                Err(InvalidOpcode::OutOfBoundsAddress(op))
            } else {
                Ok(
                    MachineView {
                        v: spec_fill(pre.v, pre.ram, pre.i as int, n.0 as int),
                        pc: spec_adv(pre.pc),
                        ..pre
                    },
                )
            },
        },
        Opcode::TwoArg(a) => match a {
            TwoArg::SkipEqVxVy(t) => {
                let vx = pre.v[(t.0 >> 4) as int];
                let vy = pre.v[(t.0 & 0x0F) as int];
                Ok(MachineView { pc: spec_skip(pre.pc, vx == vy), ..pre })
            },
            TwoArg::VxEqVy(t) => Ok(
                MachineView {
                    v: pre.v.update((t.0 >> 4) as int, pre.v[(t.0 & 0x0F) as int]),
                    pc: spec_adv(pre.pc),
                    ..pre
                },
            ),
            TwoArg::VxOREqVy(t) => {
                let vx = pre.v[(t.0 >> 4) as int];
                let vy = pre.v[(t.0 & 0x0F) as int];
                Ok(
                    MachineView {
                        v: pre.v.update((t.0 >> 4) as int, vx | vy),
                        pc: spec_adv(pre.pc),
                        ..pre
                    },
                )
            },
            TwoArg::VxANDEqVy(t) => {
                let vx = pre.v[(t.0 >> 4) as int];
                let vy = pre.v[(t.0 & 0x0F) as int];
                Ok(
                    MachineView {
                        v: pre.v.update((t.0 >> 4) as int, vx & vy),
                        pc: spec_adv(pre.pc),
                        ..pre
                    },
                )
            },
            TwoArg::VxXOREqVy(t) => {
                let vx = pre.v[(t.0 >> 4) as int];
                let vy = pre.v[(t.0 & 0x0F) as int];
                Ok(
                    MachineView {
                        v: pre.v.update((t.0 >> 4) as int, vx ^ vy),
                        pc: spec_adv(pre.pc),
                        ..pre
                    },
                )
            },
            TwoArg::VxPlusEqVySetF(t) => {
                let vx = pre.v[(t.0 >> 4) as int];
                let vy = pre.v[(t.0 & 0x0F) as int];
                let carry: u8 = if vx + vy >= 256 {
                    1
                } else {
                    0
                };
                Ok(
                    MachineView {
                        v: pre.v.update(15, carry).update(
                            (t.0 >> 4) as int,
                            ((vx + vy) % 256) as u8,
                        ),
                        pc: spec_adv(pre.pc),
                        ..pre
                    },
                )
            },
            TwoArg::VxSubEqVySetF(t) => {
                let vx = pre.v[(t.0 >> 4) as int];
                let vy = pre.v[(t.0 & 0x0F) as int];
                let no_borrow: u8 = if vx >= vy {
                    1
                } else {
                    0
                };
                Ok(
                    MachineView {
                        v: pre.v.update(15, no_borrow).update(
                            (t.0 >> 4) as int,
                            ((vx + 256 - vy) % 256) as u8,
                        ),
                        pc: spec_adv(pre.pc),
                        ..pre
                    },
                )
            },
            TwoArg::ShiftVxR(t) => {
                let vx = pre.v[(t.0 >> 4) as int];
                let low: u8 = if vx & 1 == 1 {
                    1
                } else {
                    0
                };
                Ok(
                    MachineView {
                        v: pre.v.update(15, low).update((t.0 >> 4) as int, vx >> 1),
                        pc: spec_adv(pre.pc),
                        ..pre
                    },
                )
            },
            TwoArg::VxEqVySubVxSetF(t) => {
                let vx = pre.v[(t.0 >> 4) as int];
                let vy = pre.v[(t.0 & 0x0F) as int];
                let no_borrow: u8 = if vy >= vx {
                    1
                } else {
                    0
                };
                Ok(
                    MachineView {
                        v: pre.v.update(15, no_borrow).update(
                            (t.0 >> 4) as int,
                            ((vy + 256 - vx) % 256) as u8,
                        ),
                        pc: spec_adv(pre.pc),
                        ..pre
                    },
                )
            },
            TwoArg::ShiftVxL(t) => {
                let vx = pre.v[(t.0 >> 4) as int];
                Ok(
                    MachineView {
                        v: pre.v.update(15, (0x80 & vx) >> 7).update((t.0 >> 4) as int, vx << 1),
                        pc: spec_adv(pre.pc),
                        ..pre
                    },
                )
            },
            TwoArg::SkipVxNEqVy(t) => {
                let vx = pre.v[(t.0 >> 4) as int];
                let vy = pre.v[(t.0 & 0x0F) as int];
                Ok(MachineView { pc: spec_skip(pre.pc, vx != vy), ..pre })
            },
        },
        Opcode::ThreeArg(a) => match a {
            ThreeArg::JumpToCodeRout(_) => Ok(MachineView { pc: spec_adv(pre.pc), ..pre }),
            ThreeArg::JumpToAddr(t) => Ok(MachineView { pc: t.spec_addr(), ..pre }),
            ThreeArg::CallSubAt(t) => if pre.sp >= 15 {
                Err(InvalidOpcode::StackOverflow(op))
            } else {
                Ok(
                    MachineView {
                        stack: spec_push(pre.stack, pre.sp, pre.pc).0,
                        sp: spec_push(pre.stack, pre.sp, pre.pc).1,
                        pc: t.spec_addr(),
                        ..pre
                    },
                )
            },
            ThreeArg::SkipVxEqKK(t) => Ok(
                MachineView { pc: spec_skip(pre.pc, pre.v[t.0 as int] == t.1), ..pre },
            ),
            ThreeArg::SkipVxNEqKK(t) => Ok(
                MachineView { pc: spec_skip(pre.pc, pre.v[t.0 as int] != t.1), ..pre },
            ),
            ThreeArg::SetVxKK(t) => Ok(
                MachineView { v: pre.v.update(t.0 as int, t.1), pc: spec_adv(pre.pc), ..pre },
            ),
            ThreeArg::VxEqVxPlusKK(t) => {
                let vx = pre.v[t.0 as int];
                Ok(
                    MachineView {
                        v: pre.v.update(t.0 as int, ((vx + t.1) % 256) as u8),
                        pc: spec_adv(pre.pc),
                        ..pre
                    },
                )
            },
            ThreeArg::SetIToNNN(t) => Ok(
                MachineView { i: t.spec_addr(), pc: spec_adv(pre.pc), ..pre },
            ),
            ThreeArg::PCEqNNNPlusV0(t) => {
                let sum = pre.v[0] + t.spec_addr();
                if sum > 0xFFE || sum < 0x200 {
                    Err(InvalidOpcode::OutOfBoundsAddress(op))
                } else {
                    Ok(MachineView { pc: sum as u16, ..pre })
                }
            },
            ThreeArg::VxEqRandANDKK(t) => Ok(
                MachineView { v: pre.v.update(t.0 as int, t.1 & rnd), pc: spec_adv(pre.pc), ..pre },
            ),
            ThreeArg::DrawVxVyNib(t) => {
                let vx = pre.v[t.0 as int];
                let vy = pre.v[(t.1 >> 4) as int];
                let nn = (t.1 & 0x0F) as int;
                if vx >= 64 || vy >= 32 {
                    Err(InvalidOpcode::OutOfScreenBounds(vx, vy, op))
                } else if pre.i + nn > 0xFFF {
                    Err(InvalidOpcode::OutOfBoundsAddress(op))
                } else {
                    let sprite = pre.ram.subrange(pre.i as int, pre.i + nn);
                    let coll: u8 = if spec_collision(pre.screen, sprite, vx, vy) {
                        1
                    } else {
                        0
                    };
                    Ok(
                        MachineView {
                            screen: spec_draw(pre.screen, sprite, vx, vy),
                            v: pre.v.update(15, coll),
                            pc: spec_adv(pre.pc),
                            ..pre
                        },
                    )
                }
            },
        },
    }
}

/// What one whole step does: fail if the program counter cannot address
/// a full instruction, else fetch, decode and execute.
pub open spec fn spec_step(pre: MachineView, rnd: u8) -> Result<MachineView, InvalidOpcode> {
    if pre.pc > 0xFFD {
        Err(InvalidOpcode::PcOutOfBounds(pre.pc))
    } else {
        match spec_decode(spec_fetch(pre.ram, pre.pc)) {
            Ok(op) => spec_execute(pre, op, rnd),
            Err(e) => Err(e),
        }
    }
}

/// How an execution result and final state relate to `spec_execute`.
pub open spec fn spec_exec_post(
    pre: MachineView,
    op: Opcode,
    rnd: u8,
    r: Result<(), InvalidOpcode>,
    post: MachineView,
) -> bool {
    match spec_execute(pre, op, rnd) {
        Ok(v) => r is Ok && post == v,
        Err(e) => r == Err::<(), InvalidOpcode>(e) && post == pre,
    }
}

/// How a step result and final state relate to `spec_step`.
pub open spec fn spec_step_post(
    pre: MachineView,
    rnd: u8,
    r: Result<(), InvalidOpcode>,
    post: MachineView,
) -> bool {
    match spec_step(pre, rnd) {
        Ok(v) => r is Ok && post == v,
        Err(e) => r == Err::<(), InvalidOpcode>(e) && post == pre,
    }
}

/// The machine state right after construction.
pub open spec fn spec_boot(bytes: Seq<u8>) -> MachineView {
    MachineView {
        ram: spec_initial_ram(bytes),
        v: Seq::new(16, |k: int| 0u8),
        i: 0,
        pc: 0x200,
        sp: 0,
        stack: Seq::new(16, |k: int| 0u16),
        delay: 0,
        sound: 0,
        screen: spec_blank_screen(),
        keys: Seq::new(16, |k: int| false),
        waiting: None,
    }
}

/// Writing a value to any register and reading it back yields that
/// value, and no other register moves: the flag register is ordinary
/// storage that certain instructions merely happen to target.
pub proof fn lemma_register_write_read(pre: MachineView, x: Nybble, kk: u8, rnd: u8)
    requires
        x.wf(),
        pre.v.len() == 16,
    ensures
        ({
            let r = spec_execute(pre, Opcode::ThreeArg(ThreeArg::SetVxKK(ThreeNybbles(x.0, kk))), rnd);
            &&& r is Ok
            &&& r->Ok_0.v[x.0 as int] == kk
            &&& forall|q: int| 0 <= q < 16 && q != x.0 ==> r->Ok_0.v[q] == pre.v[q]
            &&& r->Ok_0.ram == pre.ram
        }),
{
}

/// Filling registers 0..=x from memory and then spilling them back to
/// the same region reproduces the original memory exactly, for any x.
pub proof fn lemma_fill_spill_inverse(pre: MachineView, x: Nybble, rnd: u8)
    requires
        x.wf(),
        pre.ram.len() == 0xFFF,
        pre.v.len() == 16,
        pre.i + x.0 < 0xFFF,
    ensures
        ({
            let r1 = spec_execute(pre, Opcode::OneArg(OneArg::ReadV0Vx(x)), rnd);
            &&& r1 is Ok
            &&& spec_execute(r1->Ok_0, Opcode::OneArg(OneArg::StoreV0Vx(x)), rnd) is Ok
            &&& spec_execute(r1->Ok_0, Opcode::OneArg(OneArg::StoreV0Vx(x)), rnd)->Ok_0.ram
                == pre.ram
        }),
{
    let m1 = spec_execute(pre, Opcode::OneArg(OneArg::ReadV0Vx(x)), rnd)->Ok_0;
    let back = spec_execute(m1, Opcode::OneArg(OneArg::StoreV0Vx(x)), rnd)->Ok_0.ram;
    assert forall|a: int| 0 <= a < 0xFFF implies back[a] == pre.ram[a] by {
        if pre.i <= a <= pre.i + x.0 {
            assert(m1.v[a - pre.i] == pre.ram[a]);
        }
    }
    assert(back =~= pre.ram);
}

/// A push followed by a pop returns the pushed address and restores the
/// stack pointer to its pre-push value.
pub proof fn lemma_stack_round_trip(stack: Seq<u16>, sp: u8, addr: u16)
    requires
        sp < 15,
        stack.len() == 16,
    ensures
        spec_pop_value(spec_push(stack, sp, addr).0, spec_push(stack, sp, addr).1) == addr,
        spec_push(stack, sp, addr).1 - 1 == sp,
{
}

/// The machine: every component, owned together, stepped as one.
pub struct Cpu {
    pub regs: Registers,
    pub ram: Ram,
    pub stack: Stack,
    pub screen: Screen,
    pub keyboard: Keyboard,
}

impl View for Cpu {
    type V = MachineView;

    open spec fn view(&self) -> MachineView {
        MachineView {
            ram: self.ram.0@,
            v: self.regs.v_regs@,
            i: self.regs.i_reg,
            pc: self.regs.pc.0,
            sp: self.regs.sp,
            stack: self.stack.0@,
            delay: self.regs.delay,
            sound: self.regs.sound,
            screen: self.screen.rows(),
            keys: self.keyboard.key_buffer@,
            waiting: self.keyboard.wait_press,
        }
    }
}

impl Cpu {
    /// The invariant every step preserves: the stack pointer stays in
    /// range, stacked return addresses are fetchable, and a pending key
    /// wait names a real register.
    pub open spec fn wf(self) -> bool {
        &&& self.regs.sp <= 15
        &&& forall|k: int| 0 <= k < 16 ==> self.stack.0@[k] <= 0xFFD
        &&& self.keyboard.wf()
    }

    /// Build a machine with the program image loaded at 0x200.
    pub fn new(bytes: &[u8]) -> (r: Cpu)
        requires
            bytes@.len() <= 0xDFF,
        ensures
            r.wf(),
            r@ == spec_boot(bytes@),
    {
        let c = Cpu {
            regs: Registers::new(),
            ram: Ram::initialize_ram(bytes),
            stack: Stack::new(),
            keyboard: Keyboard::new(),
            screen: Screen::new(),
        };
        proof {
            assert(c.regs.v_regs@ =~= spec_boot(bytes@).v);
            assert(c.stack.0@ =~= spec_boot(bytes@).stack);
            assert(c.keyboard.key_buffer@ =~= spec_boot(bytes@).keys);
            assert(c@ =~~= spec_boot(bytes@));
        }
        c
    }

    /// The 16-bit word under the program counter, high byte first.
    fn fetch_opcode(&self) -> (r: u16)
        requires
            self.regs.pc.0 <= 0xFFD,
        ensures
            r == spec_fetch(self.ram.0@, self.regs.pc.0),
    {
        let l_byte: u8 = self.ram.0[self.regs.pc.get_addr() as usize];
        let r_byte: u8 = self.ram.0[(self.regs.pc.get_addr() + 1) as usize];
        ((l_byte as u16) << 8) | (r_byte as u16)
    }

    /// Fetch, decode and execute exactly one instruction.
    pub fn step(&mut self) -> (r: Result<(), InvalidOpcode>)
        requires
            old(self).wf(),
        ensures
            final(self).wf(),
            exists|rnd: u8| #[trigger] spec_step_post(old(self)@, rnd, r, final(self)@),
    {
        let pc: u16 = self.regs.pc.get_addr();
        if pc > 0xFFD {
            let r = Err::<(), InvalidOpcode>(InvalidOpcode::PcOutOfBounds(pc));
            proof {
                assert(spec_step_post(old(self)@, 0u8, r, self@));
            }
            return r;
        }
        let w: u16 = self.fetch_opcode();
        match Opcode::decode_op(w) {
            Err(e) => {
                let r = Err::<(), InvalidOpcode>(e);
                proof {
                    assert(spec_step_post(old(self)@, 0u8, r, self@));
                }
                r
            },
            Ok(op) => {
                let rnd: u8 = rand::random();
                let r = self.execute(op, rnd);
                proof {
                    assert(spec_step_post(old(self)@, rnd, r, self@));
                }
                r
            },
        }
    }

    /// Dispatch one decoded instruction.
    fn execute(&mut self, op: Opcode, rnd: u8) -> (r: Result<(), InvalidOpcode>)
        requires
            old(self).wf(),
            op_wf(op),
            old(self).regs.pc.0 <= 0xFFD,
        ensures
            final(self).wf(),
            spec_exec_post(old(self)@, op, rnd, r, final(self)@),
    {
        match op {
            Opcode::NoArg(a) => self.exec_no_arg(a, rnd),
            Opcode::OneArg(a) => self.exec_one_arg(a, rnd),
            Opcode::TwoArg(a) => self.exec_two_arg(a, rnd),
            Opcode::ThreeArg(a) => self.exec_three_arg(a, rnd),
        }
    }

    fn exec_no_arg(&mut self, a: NoArg, rnd: u8) -> (r: Result<(), InvalidOpcode>)
        requires
            old(self).wf(),
            old(self).regs.pc.0 <= 0xFFD,
        ensures
            final(self).wf(),
            spec_exec_post(old(self)@, Opcode::NoArg(a), rnd, r, final(self)@),
    {
        match a {
            NoArg::ClearScreen => {
                self.screen.buffer = [[false; SCREEN_WIDTH]; SCREEN_HEIGHT];
                self.regs.pc.update();
                proof {
                    assert forall|rr: int| 0 <= rr < 32 implies self.screen.rows()[rr]
                        =~= spec_blank_screen()[rr] by {
                        assert forall|cc: int| 0 <= cc < 64 implies self.screen.rows()[rr][cc]
                            == spec_blank_screen()[rr][cc] by {
                            assert(self.screen.buffer@[rr]@[cc] == false);
                        }
                    }
                    assert(self.screen.rows() =~= spec_blank_screen());
                    assert(self@ =~~= spec_execute(old(self)@, Opcode::NoArg(a), rnd)->Ok_0);
                }
                Ok(())
            },
            NoArg::ReturnSubrt => {
                match self.stack.pop(&mut self.regs.sp) {
                    Ok(pc) => {
                        proof {
                            assert(old(self).stack.0@[old(self).regs.sp as int] <= 0xFFD);
                        }
                        self.regs.pc = pc;
                        self.regs.pc.update();
                        proof {
                            assert(self@ =~~= spec_execute(
                                old(self)@,
                                Opcode::NoArg(a),
                                rnd,
                            )->Ok_0);
                        }
                        Ok(())
                    },
                    Err(_) => Err(InvalidOpcode::StackUnderflow(Opcode::NoArg(a))),
                }
            },
        }
    }

    fn exec_one_arg(&mut self, a: OneArg, rnd: u8) -> (r: Result<(), InvalidOpcode>)
        requires
            old(self).wf(),
            op_wf(Opcode::OneArg(a)),
            old(self).regs.pc.0 <= 0xFFD,
        ensures
            final(self).wf(),
            spec_exec_post(old(self)@, Opcode::OneArg(a), rnd, r, final(self)@),
    {
        match a {
            OneArg::SkipIfVx(n) => {
                let vx: u8 = self.regs.v_regs[n.to_usize()];
                if vx >= 16 {
                    return Err(InvalidOpcode::InvalidKeyIndex(Opcode::OneArg(a)));
                }
                if self.keyboard.key_buffer[vx as usize] {
                    self.regs.pc.update();
                }
                self.regs.pc.update();
                proof {
                    assert(self@ =~~= spec_execute(old(self)@, Opcode::OneArg(a), rnd)->Ok_0);
                }
                Ok(())
            },
            OneArg::SkipIfNVx(n) => {
                let vx: u8 = self.regs.v_regs[n.to_usize()];
                if vx >= 16 {
                    return Err(InvalidOpcode::InvalidKeyIndex(Opcode::OneArg(a)));
                }
                if !self.keyboard.key_buffer[vx as usize] {
                    self.regs.pc.update();
                }
                self.regs.pc.update();
                proof {
                    assert(self@ =~~= spec_execute(old(self)@, Opcode::OneArg(a), rnd)->Ok_0);
                }
                Ok(())
            },
            OneArg::SetVxDT(n) => {
                let d: u8 = self.regs.delay;
                self.regs.v_regs[n.to_usize()] = d;
                self.regs.pc.update();
                proof {
                    assert(self@ =~~= spec_execute(old(self)@, Opcode::OneArg(a), rnd)->Ok_0);
                }
                Ok(())
            },
            OneArg::WaitForKey(n) => {
                self.keyboard.wait_press = Some(n.to_u8());
                self.regs.pc.update();
                proof {
                    assert(self@ =~~= spec_execute(old(self)@, Opcode::OneArg(a), rnd)->Ok_0);
                }
                Ok(())
            },
            OneArg::SetDT(n) => {
                let vx: u8 = self.regs.v_regs[n.to_usize()];
                self.regs.delay = vx;
                self.regs.pc.update();
                proof {
                    assert(self@ =~~= spec_execute(old(self)@, Opcode::OneArg(a), rnd)->Ok_0);
                }
                Ok(())
            },
            OneArg::SetST(n) => {
                let vx: u8 = self.regs.v_regs[n.to_usize()];
                self.regs.sound = vx;
                self.regs.pc.update();
                proof {
                    assert(self@ =~~= spec_execute(old(self)@, Opcode::OneArg(a), rnd)->Ok_0);
                }
                Ok(())
            },
            OneArg::SetI(n) => {
                let vx: u8 = self.regs.v_regs[n.to_usize()];
                let s: u32 = self.regs.i_reg as u32 + vx as u32;
                self.regs.i_reg = (s % 0x10000) as u16;
                self.regs.pc.update();
                proof {
                    assert(self@ =~~= spec_execute(old(self)@, Opcode::OneArg(a), rnd)->Ok_0);
                }
                Ok(())
            },
            OneArg::SetSpriteI(n) => {
                let vx: u8 = self.regs.v_regs[n.to_usize()];
                match i_eq_spr_digit_vx(vx, &mut self.regs.i_reg) {
                    Ok(_) => {
                        self.regs.pc.update();
                        proof {
                            assert(self@ =~~= spec_execute(
                                old(self)@,
                                Opcode::OneArg(a),
                                rnd,
                            )->Ok_0);
                        }
                        Ok(())
                    },
                    Err(_) => Err(InvalidOpcode::NoSuchDigitSprite(Opcode::OneArg(a))),
                }
            },
            OneArg::StoreDecVx(n) => {
                let tmp: u8 = self.regs.v_regs[n.to_usize()];
                let idx: usize = self.regs.i_reg as usize;
                if idx + 2 >= 0xFFF {
                    return Err(InvalidOpcode::OutOfBoundsAddress(Opcode::OneArg(a)));
                }
                self.ram.0[idx] = tmp / 100;
                self.ram.0[idx + 1] = (tmp % 100) / 10;
                self.ram.0[idx + 2] = tmp % 10;
                self.regs.pc.update();
                proof {
                    assert(self@ =~~= spec_execute(old(self)@, Opcode::OneArg(a), rnd)->Ok_0);
                }
                Ok(())
            },
            OneArg::StoreV0Vx(n) => {
                let x: usize = n.to_usize();
                let idx: usize = self.regs.i_reg as usize;
                if idx + x >= 0xFFF {
                    return Err(InvalidOpcode::OutOfBoundsAddress(Opcode::OneArg(a)));
                }
                let ghost pre = *self;
                for index in 0..(x + 1)
                    invariant
                        x <= 15,
                        idx + x < 0xFFF,
                        idx == pre.regs.i_reg,
                        self.regs == pre.regs,
                        self.stack == pre.stack,
                        self.screen == pre.screen,
                        self.keyboard == pre.keyboard,
                        forall|t: int|
                            0 <= t < index ==> self.ram.0@[idx + t] == pre.regs.v_regs@[t],
                        forall|t: int|
                            0 <= t < 0xFFF && !(idx <= t < idx + index) ==> self.ram.0@[t]
                                == pre.ram.0@[t],
                {
                    let b: u8 = self.regs.v_regs[index];
                    self.ram.0[idx + index] = b;
                }
                self.regs.pc.update();
                proof {
                    assert(self.ram.0@ =~= spec_spill(
                        pre.ram.0@,
                        pre.regs.v_regs@,
                        idx as int,
                        x as int,
                    ));
                    assert(self@ =~~= spec_execute(old(self)@, Opcode::OneArg(a), rnd)->Ok_0);
                }
                Ok(())
            },
            OneArg::ReadV0Vx(n) => {
                let x: usize = n.to_usize();
                let idx: usize = self.regs.i_reg as usize;
                if idx + x >= 0xFFF {
                    return Err(InvalidOpcode::OutOfBoundsAddress(Opcode::OneArg(a)));
                }
                let ghost pre = *self;
                for index in 0..(x + 1)
                    invariant
                        x <= 15,
                        idx + x < 0xFFF,
                        idx == pre.regs.i_reg,
                        self.regs.pc == pre.regs.pc,
                        self.regs.delay == pre.regs.delay,
                        self.regs.sound == pre.regs.sound,
                        self.regs.sp == pre.regs.sp,
                        self.regs.i_reg == pre.regs.i_reg,
                        self.ram == pre.ram,
                        self.stack == pre.stack,
                        self.screen == pre.screen,
                        self.keyboard == pre.keyboard,
                        forall|t: int|
                            0 <= t < index ==> self.regs.v_regs@[t] == pre.ram.0@[idx + t],
                        forall|t: int|
                            index <= t < 16 ==> self.regs.v_regs@[t] == pre.regs.v_regs@[t],
                {
                    let b: u8 = self.ram.0[idx + index];
                    self.regs.v_regs[index] = b;
                }
                self.regs.pc.update();
                proof {
                    assert(self.regs.v_regs@ =~= spec_fill(
                        pre.regs.v_regs@,
                        pre.ram.0@,
                        idx as int,
                        x as int,
                    ));
                    assert(self@ =~~= spec_execute(old(self)@, Opcode::OneArg(a), rnd)->Ok_0);
                }
                Ok(())
            },
        }
    }

    fn exec_two_arg(&mut self, a: TwoArg, rnd: u8) -> (r: Result<(), InvalidOpcode>)
        requires
            old(self).wf(),
            old(self).regs.pc.0 <= 0xFFD,
        ensures
            final(self).wf(),
            spec_exec_post(old(self)@, Opcode::TwoArg(a), rnd, r, final(self)@),
    {
        match a {
            TwoArg::SkipEqVxVy(t) => {
                let vx: u8 = self.regs.v_regs[t.x().to_usize()];
                let vy: u8 = self.regs.v_regs[t.y().to_usize()];
                if vx == vy {
                    self.regs.pc.update();
                }
                self.regs.pc.update();
                proof {
                    assert(self@ =~~= spec_execute(old(self)@, Opcode::TwoArg(a), rnd)->Ok_0);
                }
                Ok(())
            },
            TwoArg::VxEqVy(t) => {
                let vy: u8 = self.regs.v_regs[t.y().to_usize()];
                self.regs.v_regs[t.x().to_usize()] = vy;
                self.regs.pc.update();
                proof {
                    assert(self@ =~~= spec_execute(old(self)@, Opcode::TwoArg(a), rnd)->Ok_0);
                }
                Ok(())
            },
            TwoArg::VxOREqVy(t) => {
                let vx: u8 = self.regs.v_regs[t.x().to_usize()];
                let vy: u8 = self.regs.v_regs[t.y().to_usize()];
                self.regs.v_regs[t.x().to_usize()] = vx | vy;
                self.regs.pc.update();
                proof {
                    assert(self@ =~~= spec_execute(old(self)@, Opcode::TwoArg(a), rnd)->Ok_0);
                }
                Ok(())
            },
            TwoArg::VxANDEqVy(t) => {
                let vx: u8 = self.regs.v_regs[t.x().to_usize()];
                let vy: u8 = self.regs.v_regs[t.y().to_usize()];
                self.regs.v_regs[t.x().to_usize()] = vx & vy;
                self.regs.pc.update();
                proof {
                    assert(self@ =~~= spec_execute(old(self)@, Opcode::TwoArg(a), rnd)->Ok_0);
                }
                Ok(())
            },
            TwoArg::VxXOREqVy(t) => {
                let vx: u8 = self.regs.v_regs[t.x().to_usize()];
                let vy: u8 = self.regs.v_regs[t.y().to_usize()];
                self.regs.v_regs[t.x().to_usize()] = vx ^ vy;
                self.regs.pc.update();
                proof {
                    assert(self@ =~~= spec_execute(old(self)@, Opcode::TwoArg(a), rnd)->Ok_0);
                }
                Ok(())
            },
            TwoArg::VxPlusEqVySetF(t) => {
                let vx: u8 = self.regs.v_regs[t.x().to_usize()];
                let vy: u8 = self.regs.v_regs[t.y().to_usize()];
                let sum: u16 = vx as u16 + vy as u16;
                let carry: u8 = if sum >= 256 {
                    1
                } else {
                    0
                };
                self.regs.v_regs[FLAG_REG] = carry;
                self.regs.v_regs[t.x().to_usize()] = (sum % 256) as u8;
                self.regs.pc.update();
                proof {
                    assert(self@ =~~= spec_execute(old(self)@, Opcode::TwoArg(a), rnd)->Ok_0);
                }
                Ok(())
            },
            TwoArg::VxSubEqVySetF(t) => {
                let vx: u8 = self.regs.v_regs[t.x().to_usize()];
                let vy: u8 = self.regs.v_regs[t.y().to_usize()];
                let no_borrow: u8 = if vx >= vy {
                    1
                } else {
                    0
                };
                let diff: u16 = (vx as u16 + 256) - vy as u16;
                self.regs.v_regs[FLAG_REG] = no_borrow;
                self.regs.v_regs[t.x().to_usize()] = (diff % 256) as u8;
                self.regs.pc.update();
                proof {
                    assert(self@ =~~= spec_execute(old(self)@, Opcode::TwoArg(a), rnd)->Ok_0);
                }
                Ok(())
            },
            TwoArg::ShiftVxR(t) => {
                let vx: u8 = self.regs.v_regs[t.x().to_usize()];
                let low: u8 = if vx & 1 == 1 {
                    1
                } else {
                    0
                };
                self.regs.v_regs[FLAG_REG] = low;
                self.regs.v_regs[t.x().to_usize()] = vx >> 1;
                self.regs.pc.update();
                proof {
                    assert(self@ =~~= spec_execute(old(self)@, Opcode::TwoArg(a), rnd)->Ok_0);
                }
                Ok(())
            },
            TwoArg::VxEqVySubVxSetF(t) => {
                let vx: u8 = self.regs.v_regs[t.x().to_usize()];
                let vy: u8 = self.regs.v_regs[t.y().to_usize()];
                let no_borrow: u8 = if vy >= vx {
                    1
                } else {
                    0
                };
                let diff: u16 = (vy as u16 + 256) - vx as u16;
                self.regs.v_regs[FLAG_REG] = no_borrow;
                self.regs.v_regs[t.x().to_usize()] = (diff % 256) as u8;
                self.regs.pc.update();
                proof {
                    assert(self@ =~~= spec_execute(old(self)@, Opcode::TwoArg(a), rnd)->Ok_0);
                }
                Ok(())
            },
            TwoArg::ShiftVxL(t) => {
                let vx: u8 = self.regs.v_regs[t.x().to_usize()];
                self.regs.v_regs[FLAG_REG] = (0x80 & vx) >> 7;
                self.regs.v_regs[t.x().to_usize()] = vx << 1;
                self.regs.pc.update();
                proof {
                    assert(self@ =~~= spec_execute(old(self)@, Opcode::TwoArg(a), rnd)->Ok_0);
                }
                Ok(())
            },
            TwoArg::SkipVxNEqVy(t) => {
                let vx: u8 = self.regs.v_regs[t.x().to_usize()];
                let vy: u8 = self.regs.v_regs[t.y().to_usize()];
                if vx != vy {
                    self.regs.pc.update();
                }
                self.regs.pc.update();
                proof {
                    assert(self@ =~~= spec_execute(old(self)@, Opcode::TwoArg(a), rnd)->Ok_0);
                }
                Ok(())
            },
        }
    }

    fn exec_three_arg(&mut self, a: ThreeArg, rnd: u8) -> (r: Result<(), InvalidOpcode>)
        requires
            old(self).wf(),
            op_wf(Opcode::ThreeArg(a)),
            old(self).regs.pc.0 <= 0xFFD,
        ensures
            final(self).wf(),
            spec_exec_post(old(self)@, Opcode::ThreeArg(a), rnd, r, final(self)@),
    {
        match a {
            ThreeArg::JumpToCodeRout(_) => {
                self.regs.pc.update();
                proof {
                    assert(self@ =~~= spec_execute(old(self)@, Opcode::ThreeArg(a), rnd)->Ok_0);
                }
                Ok(())
            },
            ThreeArg::JumpToAddr(t) => {
                let addr: u16 = t.to_addr();
                self.regs.pc.set_addr(addr);
                proof {
                    assert(self@ =~~= spec_execute(old(self)@, Opcode::ThreeArg(a), rnd)->Ok_0);
                }
                Ok(())
            },
            ThreeArg::CallSubAt(t) => {
                match self.stack.push(&mut self.regs.sp, &self.regs.pc) {
                    Ok(_) => {
                        let addr: u16 = t.to_addr();
                        self.regs.pc.set_addr(addr);
                        proof {
                            assert forall|k: int| 0 <= k < 16 implies self.stack.0@[k] <= 0xFFD by {
                                assert(old(self).stack.0@[k] <= 0xFFD);
                            }
                            assert(self@ =~~= spec_execute(
                                old(self)@,
                                Opcode::ThreeArg(a),
                                rnd,
                            )->Ok_0);
                        }
                        Ok(())
                    },
                    Err(_) => Err(InvalidOpcode::StackOverflow(Opcode::ThreeArg(a))),
                }
            },
            ThreeArg::SkipVxEqKK(t) => {
                let vx: u8 = self.regs.v_regs[t.x().to_usize()];
                if vx == t.get_byte() {
                    self.regs.pc.update();
                }
                self.regs.pc.update();
                proof {
                    assert(self@ =~~= spec_execute(old(self)@, Opcode::ThreeArg(a), rnd)->Ok_0);
                }
                Ok(())
            },
            ThreeArg::SkipVxNEqKK(t) => {
                let vx: u8 = self.regs.v_regs[t.x().to_usize()];
                if vx != t.get_byte() {
                    self.regs.pc.update();
                }
                self.regs.pc.update();
                proof {
                    assert(self@ =~~= spec_execute(old(self)@, Opcode::ThreeArg(a), rnd)->Ok_0);
                }
                Ok(())
            },
            ThreeArg::SetVxKK(t) => {
                let kk: u8 = t.get_byte();
                self.regs.v_regs[t.x().to_usize()] = kk;
                self.regs.pc.update();
                proof {
                    assert(self@ =~~= spec_execute(old(self)@, Opcode::ThreeArg(a), rnd)->Ok_0);
                }
                Ok(())
            },
            ThreeArg::VxEqVxPlusKK(t) => {
                let vx: u8 = self.regs.v_regs[t.x().to_usize()];
                let sum: u16 = vx as u16 + t.get_byte() as u16;
                self.regs.v_regs[t.x().to_usize()] = (sum % 256) as u8;
                self.regs.pc.update();
                proof {
                    assert(self@ =~~= spec_execute(old(self)@, Opcode::ThreeArg(a), rnd)->Ok_0);
                }
                Ok(())
            },
            ThreeArg::SetIToNNN(t) => {
                self.regs.i_reg = t.to_addr();
                self.regs.pc.update();
                proof {
                    assert(self@ =~~= spec_execute(old(self)@, Opcode::ThreeArg(a), rnd)->Ok_0);
                }
                Ok(())
            },
            ThreeArg::PCEqNNNPlusV0(t) => {
                let sum: usize = self.regs.v_regs[0] as usize + t.to_addr() as usize;
                if sum > 0xFFE || sum < 0x200 {
                    return Err(InvalidOpcode::OutOfBoundsAddress(Opcode::ThreeArg(a)));
                }
                self.regs.pc.set_addr(sum as u16);
                proof {
                    assert(self@ =~~= spec_execute(old(self)@, Opcode::ThreeArg(a), rnd)->Ok_0);
                }
                Ok(())
            },
            ThreeArg::VxEqRandANDKK(t) => {
                let kk: u8 = t.get_byte();
                self.regs.v_regs[t.x().to_usize()] = kk & rnd;
                self.regs.pc.update();
                proof {
                    assert(self@ =~~= spec_execute(old(self)@, Opcode::ThreeArg(a), rnd)->Ok_0);
                }
                Ok(())
            },
            ThreeArg::DrawVxVyNib(t) => {
                let vx: u8 = self.regs.v_regs[t.x().to_usize()];
                let vy: u8 = self.regs.v_regs[t.y().to_usize()];
                let nn: u8 = t.last_nybble();
                if vx >= 64 || vy >= 32 {
                    return Err(InvalidOpcode::OutOfScreenBounds(vx, vy, Opcode::ThreeArg(a)));
                }
                if self.regs.i_reg as usize + nn as usize > 0xFFF {
                    return Err(InvalidOpcode::OutOfBoundsAddress(Opcode::ThreeArg(a)));
                }
                let mut flag: u8 = self.regs.v_regs[FLAG_REG];
                let num = Nybble::new([nn]);
                match self.screen.draw_nybble(vx, vy, self.regs.i_reg, num, &mut flag, &self.ram) {
                    Ok(_) => {},
                    Err(_) => {
                        return vstd::pervasive::unreached();
                    },
                }
                self.regs.v_regs[FLAG_REG] = flag;
                self.regs.pc.update();
                proof {
                    assert(self@ =~~= spec_execute(old(self)@, Opcode::ThreeArg(a), rnd)->Ok_0);
                }
                Ok(())
            },
        }
    }
}

} // verus!
