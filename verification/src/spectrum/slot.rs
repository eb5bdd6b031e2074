//! The buffer the spectrum thread fills on its next tick.
//!
//! The graphic thread hands a buffer back for every spectrum it takes, so at
//! most one is ever waiting. A second one, or a tick with none, means the two
//! threads lost step.

use vstd::prelude::*;

verus! {

/// Why the spectrum thread could not go on with a buffer event.
#[derive(Debug, Clone, Copy, PartialEq, Eq, Structural)]
pub enum SlotError {
    /// A buffer arrived while one was already waiting.
    ReceivedUnexpectedBuffer,
    /// A tick came with no buffer to fill.
    NoBuffer,
}

/// The buffer waiting to be filled, if one is.
#[derive(Debug)]
pub struct BufferSlot<B> {
    current: Option<B>,
}

impl<B> View for BufferSlot<B> {
    type V = Option<B>;

    closed spec fn view(&self) -> Option<B> {
        self.current
    }
}

impl<B> BufferSlot<B> {
    /// A slot with no buffer waiting.
    pub fn new() -> (slot: Self)
        ensures
            slot@ is None,
    {
        BufferSlot { current: None }
    }

    /// Takes in a buffer handed back by the graphic thread. One already
    /// waiting is kept, and the new one is refused.
    pub fn receive(&mut self, buffer: B) -> (result: Result<(), SlotError>)
        ensures
            old(self)@ is None ==> result is Ok && final(self)@ == Some(buffer),
            old(self)@ is Some ==> result == Err::<(), SlotError>(SlotError::ReceivedUnexpectedBuffer)
                && final(self)@ == old(self)@,
    {
        if self.current.is_some() {
            Err(SlotError::ReceivedUnexpectedBuffer)
        } else {
            self.current = Some(buffer);
            Ok(())
        }
    }

    /// The buffer to fill on this tick, leaving the slot empty.
    pub fn take_for_tick(&mut self) -> (buffer: Result<B, SlotError>)
        ensures
            final(self)@ is None,
            match old(self)@ {
                Some(b) => buffer == Ok::<B, SlotError>(b),
                None => buffer == Err::<B, SlotError>(SlotError::NoBuffer),
            },
    {
        match self.current.take() {
            Some(buffer) => Ok(buffer),
            None => Err(SlotError::NoBuffer),
        }
    }
}

} // verus!
