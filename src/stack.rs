use vstd::prelude::*;

use crate::error::Error;

verus! {

/// The number of return addresses the call stack holds.
pub const STACK_DEPTH: usize = 16;

/// The call stack: sixteen 16-bit slots and a stack pointer. Its view is the
/// sequence of live return addresses, oldest first.
pub struct Stack {
    slots: [u16; 16],
    depth: u8,
}

impl View for Stack {
    type V = Seq<u16>;

    closed spec fn view(&self) -> Seq<u16> {
        self.slots@.subrange(0, self.depth as int)
    }
}

impl Stack {
    /// The stack pointer never passes the last slot.
    pub closed spec fn wf(&self) -> bool {
        self.depth <= 16
    }

    /// An empty stack.
    pub fn new() -> (s: Self)
        ensures
            s.wf(),
            s@ == Seq::<u16>::empty(),
    {
        Stack { slots: [0u16; 16], depth: 0 }
    }

    /// The number of live return addresses.
    pub fn depth(&self) -> (d: u8)
        requires
            self.wf(),
        ensures
            d == self@.len(),
            d <= 16,
    {
        self.depth
    }

    /// Pushes a return address, or fails when all slots are in use.
    pub fn push(&mut self, address: u16) -> (r: Result<(), Error>)
        requires
            old(self).wf(),
        ensures
            final(self).wf(),
            final(self)@.len() <= 16,
            old(self)@.len() < 16 ==> r is Ok && final(self)@ == old(self)@.push(address),
            old(self)@.len() >= 16 ==> r == Err::<(), Error>(Error::StackOverflow)
                && final(self)@ == old(self)@,
    {
        if self.depth >= 16 {
            return Err(Error::StackOverflow);
        }
        let d = self.depth as usize;
        self.slots[d] = address;
        self.depth = self.depth + 1;
        assert(self@ =~= old(self)@.push(address));
        Ok(())
    }

    /// Pops the most recent return address, or fails when the stack is empty.
    pub fn pop(&mut self) -> (r: Result<u16, Error>)
        requires
            old(self).wf(),
        ensures
            final(self).wf(),
            final(self)@.len() <= 16,
            old(self)@.len() > 0 ==> r == Ok::<u16, Error>(old(self)@.last())
                && final(self)@ == old(self)@.drop_last(),
            old(self)@.len() == 0 ==> r == Err::<u16, Error>(Error::StackUnderflow)
                && final(self)@ == old(self)@,
    {
        if self.depth == 0 {
            return Err(Error::StackUnderflow);
        }
        self.depth = self.depth - 1;
        let address = self.slots[self.depth as usize];
        assert(self@ =~= old(self)@.drop_last());
        Ok(address)
    }
}

} // verus!
