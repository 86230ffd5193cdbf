use vstd::prelude::*;

verus! {

use crate::errors::VmError;

/// The CPU's register file: sixteen 8-bit general-purpose registers
/// `V0..VF` (VF doubles as the flags register), the 16-bit index register
/// `I`, the 8-bit delay and sound timers, the program counter starting at
/// `0x200`, and a call stack bounded at 16 return addresses.
pub struct Registers {
    pub i: u16,
    pub dt: u8,
    pub st: u8,
    pub pc: u16,
    pub v: [u8; 16],
    pub stack: Vec<u16>,
}

impl Registers {
    /// The call stack never holds more than 16 return addresses.
    pub open spec fn wf(&self) -> bool {
        self.stack@.len() <= 16
    }

    /// A fresh register file: everything zero but the program counter,
    /// which points at the canonical program start.
    pub fn new() -> (r: Registers)
        ensures
            r.wf(),
            r.i == 0,
            r.dt == 0,
            r.st == 0,
            r.pc == 0x200,
            r.v@ == Seq::new(16, |j: int| 0u8),
            r.stack@ == Seq::<u16>::empty(),
    {
        let r = Registers { i: 0, dt: 0, st: 0, pc: 0x200, v: [0u8; 16], stack: Vec::new() };
        proof {
            assert(r.v@ =~= Seq::new(16, |j: int| 0u8));
            assert(r.stack@ =~= Seq::<u16>::empty());
        }
        r
    }

    /// Whether `i` names one of the sixteen general-purpose registers.
    pub fn valid_register_index(i: usize) -> (r: bool)
        ensures
            r == (i <= 0xF),
    {
        i <= 0xF
    }

    /// The value of `Vi`, or `InvalidRegister` when `i` is out of bounds.
    pub fn v(&self, i: usize) -> (r: Result<u8, VmError>)
        ensures
            i <= 0xF ==> r == Ok::<u8, VmError>(self.v@[i as int]),
            i > 0xF ==> r == Err::<u8, VmError>(VmError::InvalidRegister),
    {
        if Registers::valid_register_index(i) {
            Ok(self.v[i])
        } else {
            Err(VmError::InvalidRegister)
        }
    }

    /// Writes `Vi`; fails with `InvalidRegister`, leaving the file
    /// untouched, when `i` is out of bounds.
    pub fn set_v(&mut self, i: usize, val: u8) -> (r: Result<(), VmError>)
        ensures
            i <= 0xF ==> r == Ok::<(), VmError>(()) && final(self).v@ == old(self).v@.update(
                i as int,
                val,
            ),
            i > 0xF ==> r == Err::<(), VmError>(VmError::InvalidRegister)
                && final(self).v@ == old(self).v@,
            final(self).i == old(self).i,
            final(self).dt == old(self).dt,
            final(self).st == old(self).st,
            final(self).pc == old(self).pc,
            final(self).stack@ == old(self).stack@,
    {
        if Registers::valid_register_index(i) {
            self.v[i] = val;
            Ok(())
        } else {
            Err(VmError::InvalidRegister)
        }
    }

    /// Pushes a return address; fails with `StackOverflow`, leaving the
    /// stack untouched, when it already holds 16 entries.
    pub fn push(&mut self, addr: u16) -> (r: Result<(), VmError>)
        ensures
            old(self).stack@.len() < 16 ==> r == Ok::<(), VmError>(())
                && final(self).stack@ == old(self).stack@.push(addr),
            old(self).stack@.len() >= 16 ==> r == Err::<(), VmError>(VmError::StackOverflow)
                && final(self).stack@ == old(self).stack@,
            final(self).i == old(self).i,
            final(self).dt == old(self).dt,
            final(self).st == old(self).st,
            final(self).pc == old(self).pc,
            final(self).v@ == old(self).v@,
    {
        if self.stack.len() < 16 {
            self.stack.push(addr);
            Ok(())
        } else {
            Err(VmError::StackOverflow)
        }
    }

    /// Pops the most recent return address; fails with `StackUnderflow` on
    /// an empty stack.
    pub fn pop(&mut self) -> (r: Result<u16, VmError>)
        ensures
            old(self).stack@.len() == 0 ==> r == Err::<u16, VmError>(VmError::StackUnderflow)
                && final(self).stack@ == old(self).stack@,
            old(self).stack@.len() > 0 ==> r == Ok::<u16, VmError>(old(self).stack@.last())
                && final(self).stack@ == old(self).stack@.drop_last(),
            final(self).i == old(self).i,
            final(self).dt == old(self).dt,
            final(self).st == old(self).st,
            final(self).pc == old(self).pc,
            final(self).v@ == old(self).v@,
    {
        match self.stack.pop() {
            Some(addr) => Ok(addr),
            None => Err(VmError::StackUnderflow),
        }
    }
}

} // verus!
