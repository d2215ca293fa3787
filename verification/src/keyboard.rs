//! The 16-key input latch, plus the "waiting for a key" state.

use vstd::prelude::*;

verus! {

/// A failure of the host-facing key interface.
#[derive(Debug, Clone, Copy, PartialEq, Eq, Structural)]
pub enum InputError {
    /// The host supplied a key index at or above 16.
    InvalidKeyIndex(usize),
}

/// 16 boolean key states and an optional destination register awaiting a
/// key press.  While a wait is pending the engine does not execute.
#[derive(Debug, Clone, Copy)]
pub struct Keyboard {
    pub key_buffer: [bool; 16],
    pub wait_press: Option<u8>,
}

impl Keyboard {
    /// A pending wait names a real register.
    pub open spec fn wf(self) -> bool {
        self.wait_press is Some ==> self.wait_press->0 < 16
    }

    pub fn new() -> (r: Keyboard)
        ensures
            r.wf(),
            r.wait_press is None,
            forall|k: int| 0 <= k < 16 ==> r.key_buffer@[k] == false,
    {
        Keyboard { key_buffer: [false; 16], wait_press: None }
    }

    /// Latch a key down.  If a wait is pending, resolve it by writing the
    /// key index into the destination register and clearing the wait.
    pub fn press_key(&mut self, key: usize, vreg: &mut [u8; 16]) -> (r: Result<(), InputError>)
        requires
            old(self).wf(),
        ensures
            final(self).wf(),
            key > 15 ==> r == Err::<(), InputError>(InputError::InvalidKeyIndex(key))
                && final(self).key_buffer@ == old(self).key_buffer@
                && final(self).wait_press == old(self).wait_press
                && final(vreg)@ == old(vreg)@,
            key <= 15 ==> r is Ok
                && final(self).key_buffer@ == old(self).key_buffer@.update(key as int, true)
                && final(self).wait_press is None
                && (match old(self).wait_press {
                    Some(w) => final(vreg)@ == old(vreg)@.update(w as int, key as u8),
                    None => final(vreg)@ == old(vreg)@,
                }),
    {
        if key > 15 {
            return Err(InputError::InvalidKeyIndex(key));
        }
        self.key_buffer[key] = true;
        match self.wait_press {
            Some(w) => {
                vreg[w as usize] = key as u8;
                self.wait_press = None;
            },
            None => {},
        }
        Ok(())
    }

    /// Latch a key up.  A pending wait stays pending: only a press
    /// resolves it.
    pub fn release_key(&mut self, key: usize) -> (r: Result<(), InputError>)
        requires
            old(self).wf(),
        ensures
            final(self).wf(),
            key > 15 ==> r == Err::<(), InputError>(InputError::InvalidKeyIndex(key))
                && final(self).key_buffer@ == old(self).key_buffer@
                && final(self).wait_press == old(self).wait_press,
            key <= 15 ==> r is Ok
                && final(self).key_buffer@ == old(self).key_buffer@.update(key as int, false)
                && final(self).wait_press == old(self).wait_press,
    {
        if key > 15 {
            return Err(InputError::InvalidKeyIndex(key));
        }
        self.key_buffer[key] = false;
        Ok(())
    }
}

} // verus!
