//! The writer behind a sink: one scratch buffer that every event is
//! formatted into, written from, and cleared for the next.

use vstd::prelude::*;

verus! {

/// How many events may wait for the writer.
pub const CHANNEL_BOUND: usize = 100;

/// The room that the scratch buffer starts with.
pub const SCRATCH_CAPACITY: usize = 64;

/// The place of the scratch buffer: the buffer lies there, empty, from one
/// event to the next, and is taken out while an event is worked on.
pub struct Scratch {
    pub slot: Option<Vec<u8>>,
}

/// What to do with an event after formatting: write the bytes, or drop the
/// event and report why.
#[derive(Debug)]
pub enum Prepared<SE> {
    Write(Vec<u8>),
    Drop(SE),
}

impl Scratch {
    /// The buffer is in its place and empty.
    pub open spec fn available(&self) -> bool {
        self.slot matches Some(buf) && buf@.len() == 0
    }

    /// The buffer is out.
    pub open spec fn taken(&self) -> bool {
        self.slot is None
    }

    /// Whether the buffer is in its place and empty.
    pub fn is_available(&self) -> (ok: bool)
        ensures
            ok == self.available(),
    {
        match &self.slot {
            Some(buf) => buf.len() == 0,
            None => false,
        }
    }

    /// Whether the buffer is out.
    pub fn is_taken(&self) -> (ok: bool)
        ensures
            ok == self.taken(),
    {
        self.slot.is_none()
    }

    /// A place with a new buffer in it.
    pub fn new() -> (scratch: Scratch)
        ensures
            scratch.available(),
    {
        Scratch { slot: Some(Vec::with_capacity(SCRATCH_CAPACITY)) }
    }

    /// Takes the buffer out for the next event.
    pub fn take(&mut self) -> (buf: Vec<u8>)
        requires
            old(self).available(),
        ensures
            buf@.len() == 0,
            final(self).taken(),
    {
        let mut slot: Option<Vec<u8>> = None;
        core::mem::swap(&mut self.slot, &mut slot);
        match slot {
            Some(buf) => buf,
            None => Vec::new(),
        }
    }

    /// Clears the buffer and puts it back in its place.
    pub fn put_back(&mut self, buf: Vec<u8>)
        ensures
            final(self).available(),
    {
        let mut buf = buf;
        buf.clear();
        self.slot = Some(buf);
    }

    /// Decides what becomes of an event once it was formatted into the
    /// buffer. Where formatting went well the bytes are to be written, and
    /// the buffer comes back through `put_back` after that. Where it failed
    /// the event is dropped with the error, and the buffer goes back to its
    /// place at once, cleared.
    pub fn prepared<SE>(&mut self, buf: Vec<u8>, formatted: Result<(), SE>) -> (r: Prepared<SE>)
        requires
            old(self).taken(),
        ensures
            match formatted {
                Ok(()) => r == Prepared::<SE>::Write(buf) && final(self).taken(),
                Err(e) => r == Prepared::<SE>::Drop(e) && final(self).available(),
            },
    {
        match formatted {
            Ok(()) => Prepared::Write(buf),
            Err(e) => {
                self.put_back(buf);
                Prepared::Drop(e)
            },
        }
    }
}

} // verus!
