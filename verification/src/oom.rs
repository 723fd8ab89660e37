//! The memory reserve that lets a call report exhaustion instead of crashing.

use vstd::prelude::*;
use crate::error::ErrorKind;

verus! {

/// What the guard is, as plain values.
pub struct OomState {
    /// The size of the reserve, in bytes.
    pub margin_size: usize,
    /// The reserve is in place.
    pub held: bool,
    /// Memory ran out since the flag was last cleared.
    pub oom_happened: bool,
}

impl OomState {
    /// The state after an attempt to arm the guard. `granted` says whether
    /// the allocator gave the reserve; it is only asked where the reserve is
    /// not in place.
    pub open spec fn register(self, granted: bool) -> (OomState, Result<(), ErrorKind>) {
        if self.held || granted {
            (OomState { held: true, oom_happened: false, ..self }, Ok(()))
        } else {
            (self, Err(ErrorKind::OutOfMemory))
        }
    }

    /// The state after an attempt to replenish the reserve.
    pub open spec fn restore(self, granted: bool) -> (OomState, Result<(), ErrorKind>) {
        if self.held || granted {
            (OomState { held: true, ..self }, Ok(()))
        } else {
            (self, Err(ErrorKind::OutOfMemory))
        }
    }

    /// The state after memory ran out: the reserve is given up so that the
    /// call can unwind, and the flag is set.
    pub open spec fn exhausted(self) -> OomState {
        OomState { held: false, oom_happened: true, ..self }
    }

    /// The state after the flag was read and cleared.
    pub open spec fn cleared(self) -> OomState {
        OomState { oom_happened: false, ..self }
    }
}

/// The reserve of one enclave, with the flag that records exhaustion.
pub struct OomGuard {
    margin_size: usize,
    margin: Option<Vec<u8>>,
    oom_happened: bool,
}

impl View for OomGuard {
    type V = OomState;

    closed spec fn view(&self) -> OomState {
        OomState {
            margin_size: self.margin_size,
            held: self.margin is Some,
            oom_happened: self.oom_happened,
        }
    }
}

impl OomGuard {
    /// A guard for a reserve of `margin_size` bytes, not yet in place.
    pub fn new(margin_size: usize) -> (guard: OomGuard)
        ensures
            guard@ == (OomState { margin_size, held: false, oom_happened: false }),
    {
        OomGuard { margin_size, margin: None, oom_happened: false }
    }

    pub fn margin_size(&self) -> (size: usize)
        ensures
            size == self@.margin_size,
    {
        self.margin_size
    }

    pub fn holds_margin(&self) -> (held: bool)
        ensures
            held == self@.held,
    {
        self.margin.is_some()
    }

    /// Asks the allocator for a block of `size` bytes; `None` where it has
    /// none to give. The block that comes back is room only: it holds no
    /// bytes. Whether one comes back is the allocator's to decide.
    fn reserve_block(size: usize) -> (block: Option<Vec<u8>>)
        ensures
            block is Some ==> block.unwrap()@ == Seq::<u8>::empty(),
    {
        let mut block: Vec<u8> = Vec::new();
        match block.try_reserve(size) {
            Ok(_) => Some(block),
            Err(_) => None,
        }
    }

    /// Arms the guard with the allocator's answer to a request for the
    /// reserve. The answer is dropped where the reserve is in place already.
    pub fn register_with(&mut self, block: Option<Vec<u8>>) -> (outcome: Result<(), ErrorKind>)
        ensures
            final(self)@ == old(self)@.register(block is Some).0,
            outcome == old(self)@.register(block is Some).1,
    {
        if self.margin.is_none() {
            if block.is_none() {
                return Err(ErrorKind::OutOfMemory);
            }
            self.margin = block;
        }
        self.oom_happened = false;
        Ok(())
    }

    /// Replenishes the reserve with the allocator's answer to a request for
    /// it. The answer is dropped where the reserve is in place already.
    pub fn restore_with(&mut self, block: Option<Vec<u8>>) -> (outcome: Result<(), ErrorKind>)
        ensures
            final(self)@ == old(self)@.restore(block is Some).0,
            outcome == old(self)@.restore(block is Some).1,
    {
        if self.margin.is_none() {
            if block.is_none() {
                return Err(ErrorKind::OutOfMemory);
            }
            self.margin = block;
        }
        Ok(())
    }

    /// Arms the guard before work that may allocate: puts the reserve in
    /// place and clears the flag. Fails, and changes nothing, only where the
    /// reserve was not in place and the allocator refused it.
    pub fn register(&mut self) -> (outcome: Result<(), ErrorKind>)
        ensures
            exists|granted: bool|
                final(self)@ == old(self)@.register(granted).0 && outcome == old(self)@.register(
                    granted,
                ).1,
            old(self)@.held ==> outcome is Ok,
    {
        if self.margin.is_some() {
            let outcome = self.register_with(None);
            assert(final(self)@ == old(self)@.register(false).0);
            outcome
        } else {
            let block = OomGuard::reserve_block(self.margin_size);
            let ghost granted = block is Some;
            let outcome = self.register_with(block);
            assert(final(self)@ == old(self)@.register(granted).0);
            outcome
        }
    }

    /// Replenishes the reserve after the protected work. Fails, and changes
    /// nothing, only where the reserve was given up and the allocator refused
    /// a new one. With the reserve in place it succeeds and changes nothing.
    pub fn restore(&mut self) -> (outcome: Result<(), ErrorKind>)
        ensures
            exists|granted: bool|
                final(self)@ == old(self)@.restore(granted).0 && outcome == old(self)@.restore(
                    granted,
                ).1,
            old(self)@.held ==> outcome is Ok && final(self)@ == old(self)@,
    {
        if self.margin.is_some() {
            let outcome = self.restore_with(None);
            assert(final(self)@ == old(self)@.restore(false).0);
            outcome
        } else {
            let block = OomGuard::reserve_block(self.margin_size);
            let ghost granted = block is Some;
            let outcome = self.restore_with(block);
            assert(final(self)@ == old(self)@.restore(granted).0);
            outcome
        }
    }

    /// Records that memory ran out: gives up the reserve, so that the call
    /// has room to unwind, and sets the flag.
    pub fn record_exhaustion(&mut self)
        ensures
            final(self)@ == old(self)@.exhausted(),
    {
        self.margin = None;
        self.oom_happened = true;
    }

    /// Reads the flag and clears it in one step.
    pub fn get_then_clear_oom_happened(&mut self) -> (happened: bool)
        ensures
            happened == old(self)@.oom_happened,
            final(self)@ == old(self)@.cleared(),
    {
        let happened = self.oom_happened;
        self.oom_happened = false;
        happened
    }
}

/// Where arming the guard succeeded, replenishing the reserve right after it
/// succeeds too, whatever the allocator would answer, and leaves the guard as
/// it was: the reserve in place, at its size.
pub proof fn lemma_register_then_restore(state: OomState, first: bool, second: bool)
    requires
        state.register(first).1 is Ok,
    ensures
        state.register(first).0.held,
        state.register(first).0.margin_size == state.margin_size,
        state.register(first).0.restore(second) == (state.register(first).0, Ok::<(), ErrorKind>(())),
{
}

/// Arming a guard whose reserve is in place succeeds whatever the allocator
/// would answer.
pub proof fn lemma_register_with_margin_succeeds(state: OomState, granted: bool)
    requires
        state.held,
    ensures
        state.register(granted).1 is Ok,
{
}

} // verus!
