//! A verified CHIP-8 virtual machine.
//!
//! The machine fetches 16-bit instruction words from a 4095-byte memory
//! bank, decodes them into a closed instruction set and executes each one
//! against a register file, a bounded call stack, a 64x32 monochrome
//! display and a 16-key input latch.  Every state transition is specified
//! by a spec-level interpreter and proved against it.
//!
//! The host drives the machine: it loads a program image, calls `tick`
//! with an instruction budget once per frame, feeds key events in and
//! reads the display out.

pub mod cpu;
pub mod keyboard;
pub mod nybble;
pub mod opcode;
pub mod screen;

use vstd::prelude::*;

use crate::cpu::Cpu;
use crate::cpu::MachineView;
use crate::cpu::spec_boot;
use crate::cpu::spec_step;
use crate::cpu::spec_step_post;
use crate::keyboard::InputError;
use crate::opcode::InvalidOpcode;

verus! {

/// The timers after one host tick: each counts down once, stopping at
/// zero.
pub open spec fn spec_dec_timers(m: MachineView) -> MachineView {
    MachineView {
        delay: if m.delay > 0 {
            (m.delay - 1) as u8
        } else {
            0
        },
        sound: if m.sound > 0 {
            (m.sound - 1) as u8
        } else {
            0
        },
        ..m
    }
}

/// Running steps in sequence, one random byte per slot: a pending key
/// wait stops the batch without consuming anything further, and the
/// first error stops it with the machine as it was before the failing
/// step.
pub open spec fn spec_run(pre: MachineView, rnds: Seq<u8>) -> (MachineView, Option<InvalidOpcode>)
    decreases rnds.len(),
{
    if rnds.len() == 0 || pre.waiting is Some {
        (pre, None)
    } else {
        match spec_step(pre, rnds[0]) {
            Ok(v) => spec_run(v, rnds.subrange(1, rnds.len() as int)),
            Err(e) => (pre, Some(e)),
        }
    }
}

/// A batch that ran without error continues from where it stopped.
proof fn lemma_run_append(pre: MachineView, r1: Seq<u8>, r2: Seq<u8>)
    requires
        spec_run(pre, r1).1 is None,
    ensures
        spec_run(pre, r1 + r2) == spec_run(spec_run(pre, r1).0, r2),
    decreases r1.len(),
{
    if r1.len() == 0 {
        assert(r1 + r2 =~= r2);
    } else if pre.waiting is Some {
        assert(spec_run(pre, r1 + r2) == (pre, None::<InvalidOpcode>));
        assert(spec_run(pre, r2) == (pre, None::<InvalidOpcode>));
    } else {
        match spec_step(pre, r1[0]) {
            Ok(v) => {
                assert((r1 + r2).subrange(1, (r1 + r2).len() as int) =~= r1.subrange(
                    1,
                    r1.len() as int,
                ) + r2);
                assert((r1 + r2)[0] == r1[0]);
                lemma_run_append(v, r1.subrange(1, r1.len() as int), r2);
            },
            Err(_) => {
                assert(false);
            },
        }
    }
}

/// A batch that already failed is unaffected by lengthening it.
proof fn lemma_run_error_append(pre: MachineView, r1: Seq<u8>, r2: Seq<u8>)
    requires
        spec_run(pre, r1).1 is Some,
    ensures
        spec_run(pre, r1 + r2) == spec_run(pre, r1),
    decreases r1.len(),
{
    match spec_step(pre, r1[0]) {
        Ok(v) => {
            assert((r1 + r2).subrange(1, (r1 + r2).len() as int) =~= r1.subrange(
                1,
                r1.len() as int,
            ) + r2);
            assert((r1 + r2)[0] == r1[0]);
            lemma_run_error_append(v, r1.subrange(1, r1.len() as int), r2);
        },
        Err(_) => {
            assert((r1 + r2)[0] == r1[0]);
        },
    }
}

/// The virtual machine, with the entry points a host drives.
pub struct Chip8 {
    pub cpu: Cpu,
}

impl View for Chip8 {
    type V = MachineView;

    open spec fn view(&self) -> MachineView {
        self.cpu@
    }
}

impl Chip8 {
    pub open spec fn wf(self) -> bool {
        self.cpu.wf()
    }

    /// Build a machine with the program image loaded at 0x200.
    pub fn new(rom_bytes: &[u8]) -> (r: Chip8)
        requires
            rom_bytes@.len() <= 0xDFF,
        ensures
            r.wf(),
            r@ == spec_boot(rom_bytes@),
    {
        Chip8 { cpu: Cpu::new(rom_bytes) }
    }

    /// One guarded step: while a key wait is pending, do nothing.
    pub fn run_cycle(&mut self) -> (r: Result<(), InvalidOpcode>)
        requires
            old(self).wf(),
        ensures
            final(self).wf(),
            old(self)@.waiting is Some ==> r is Ok && final(self)@ == old(self)@,
            old(self)@.waiting is None ==> exists|rnd: u8|
                #[trigger] spec_step_post(old(self)@, rnd, r, final(self)@),
    {
        if self.cpu.keyboard.wait_press.is_none() {
            let res = self.cpu.step();
            proof {
                let rnd = choose|rnd: u8| spec_step_post(old(self).cpu@, rnd, res, self.cpu@);
                assert(spec_step_post(old(self)@, rnd, res, self@));
            }
            res
        } else {
            Ok(())
        }
    }

    /// The delay timer counts down once, stopping at zero.
    pub fn decrement_delay(&mut self)
        ensures
            final(self)@ == (MachineView {
                delay: if old(self)@.delay > 0 {
                    (old(self)@.delay - 1) as u8
                } else {
                    0
                },
                ..old(self)@
            }),
            old(self).wf() ==> final(self).wf(),
    {
        if self.cpu.regs.delay != 0 {
            self.cpu.regs.delay = self.cpu.regs.delay - 1;
        }
    }

    /// The sound timer counts down once, stopping at zero.
    pub fn decrement_sound(&mut self)
        ensures
            final(self)@ == (MachineView {
                sound: if old(self)@.sound > 0 {
                    (old(self)@.sound - 1) as u8
                } else {
                    0
                },
                ..old(self)@
            }),
            old(self).wf() ==> final(self).wf(),
    {
        if self.cpu.regs.sound != 0 {
            self.cpu.regs.sound = self.cpu.regs.sound - 1;
        }
    }

    /// Host key event: press or release `button`.  A press resolves a
    /// pending key wait by writing the key index into the destination
    /// register.
    pub fn set_ctrl_state(&mut self, button: usize, pressed: bool) -> (r: Result<(), InputError>)
        requires
            old(self).wf(),
        ensures
            final(self).wf(),
            button > 15 ==> r == Err::<(), InputError>(InputError::InvalidKeyIndex(button))
                && final(self)@ == old(self)@,
            button <= 15 && pressed ==> r is Ok && final(self)@ == (MachineView {
                keys: old(self)@.keys.update(button as int, true),
                v: match old(self)@.waiting {
                    Some(w) => old(self)@.v.update(w as int, button as u8),
                    None => old(self)@.v,
                },
                waiting: None,
                ..old(self)@
            }),
            button <= 15 && !pressed ==> r is Ok && final(self)@ == (MachineView {
                keys: old(self)@.keys.update(button as int, false),
                ..old(self)@
            }),
    {
        if pressed {
            let r = self.cpu.keyboard.press_key(button, &mut self.cpu.regs.v_regs);
            proof {
                if button <= 15 {
                    assert(self@ =~~= (MachineView {
                        keys: old(self)@.keys.update(button as int, true),
                        v: match old(self)@.waiting {
                            Some(w) => old(self)@.v.update(w as int, button as u8),
                            None => old(self)@.v,
                        },
                        waiting: None,
                        ..old(self)@
                    }));
                } else {
                    assert(self@ =~~= old(self)@);
                }
            }
            r
        } else {
            let r = self.cpu.keyboard.release_key(button);
            proof {
                if button <= 15 {
                    assert(self@ =~~= (MachineView {
                        keys: old(self)@.keys.update(button as int, false),
                        ..old(self)@
                    }));
                } else {
                    assert(self@ =~~= old(self)@);
                }
            }
            r
        }
    }

    /// One host tick: decrement both timers once, then run up to
    /// `instruction_budget` steps, stopping early on a pending key wait
    /// or returning the first error with the machine as the failing
    /// step found it.
    pub fn tick(&mut self, instruction_budget: usize) -> (r: Result<(), InvalidOpcode>)
        requires
            old(self).wf(),
        ensures
            final(self).wf(),
            exists|rnds: Seq<u8>|
                #![trigger spec_run(spec_dec_timers(old(self)@), rnds)]
                rnds.len() == instruction_budget && {
                    let m = spec_run(spec_dec_timers(old(self)@), rnds).0;
                    match spec_run(spec_dec_timers(old(self)@), rnds).1 {
                        None => r is Ok && final(self)@ == m,
                        Some(err) => r == Err::<(), InvalidOpcode>(err) && final(self)@ == m,
                    }
                },
    {
        self.decrement_delay();
        self.decrement_sound();
        let ghost start = self@;
        proof {
            assert(start =~~= spec_dec_timers(old(self)@));
        }
        let ghost mut rnds: Seq<u8> = Seq::empty();
        let mut k: usize = 0;
        while k < instruction_budget
            invariant
                k <= instruction_budget,
                self.wf(),
                rnds.len() == k,
                spec_run(start, rnds) == (self@, None::<InvalidOpcode>),
                start == spec_dec_timers(old(self)@),
            decreases instruction_budget - k,
        {
            let ghost mid = self@;
            if self.cpu.keyboard.wait_press.is_none() {
                let res = self.cpu.step();
                proof {
                    let rnd = choose|rnd: u8| spec_step_post(mid, rnd, res, self@);
                    lemma_run_append(start, rnds, seq![rnd]);
                    assert(rnds.push(rnd) =~= rnds + seq![rnd]);
                    assert(seq![rnd].subrange(1, 1) =~= Seq::<u8>::empty());
                    rnds = rnds.push(rnd);
                    if res is Ok {
                        assert(spec_run(self@, Seq::<u8>::empty()) == (
                            self@,
                            None::<InvalidOpcode>,
                        ));
                        assert(spec_run(mid, seq![rnd]) == (self@, None::<InvalidOpcode>));
                    }
                }
                match res {
                    Ok(_) => {},
                    Err(e) => {
                        proof {
                            let rnd = rnds[rnds.len() - 1];
                            assert(spec_run(mid, seq![rnd]) == (self@, Some(e)));
                            let pad = Seq::new((instruction_budget - k - 1) as nat, |q: int| 0u8);
                            lemma_run_error_append(start, rnds, pad);
                            assert((rnds + pad).len() == instruction_budget);
                            assert(spec_run(start, rnds + pad) == (self@, Some(e)));
                            rnds = rnds + pad;
                        }
                        return Err(e);
                    },
                }
            } else {
                proof {
                    lemma_run_append(start, rnds, seq![0u8]);
                    assert(rnds.push(0u8) =~= rnds + seq![0u8]);
                    rnds = rnds.push(0u8);
                }
            }
            k = k + 1;
        }
        Ok(())
    }
}

} // verus!
