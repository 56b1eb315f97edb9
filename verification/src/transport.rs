//! The serial transport the driver speaks through.
//!
//! A transport owns one chip behind a chip-select line and offers the
//! two transaction shapes the protocol needs: clocking a frame out,
//! and clocking a frame out followed immediately by reading bytes
//! back, both inside a single chip-select-bounded transaction.
//!
//! The contract of a transport is stated against the chip model of
//! [`crate::chip`]: the ghost functions `chip` and `hist` give the
//! state of the chip behind the transport and the list of frames sent
//! to it so far, and every transaction appends its frame and steps the
//! chip as the model says.  The work-in-progress flag may clear at any
//! transaction, so a contract never promises *when* the chip becomes
//! ready, only what holds once a poll reports it ready.
//!
//! [`crate::sim::SimTransport`] is a verified implementation; an
//! adapter over a real serial bus lives outside the verified library
//! and must maintain the same view.

use vstd::prelude::*;

use crate::chip::{clear_wip, read_resp, step_write, ChipState};

verus! {

/// A serial transport carrying the command protocol to one chip.
pub trait Transport: Sized {
    /// The transport's own fault type, passed through the driver
    /// unchanged as [`crate::error::Error::Spi`].
    type Fault;

    /// Ghost view of the chip behind this transport.
    spec fn chip(&self) -> ChipState;

    /// Ghost history of the frames sent so far, in order.  A rejected
    /// request never grows it; every transaction grows it by one.
    spec fn hist(&self) -> Seq<Seq<u8>>;

    /// Ghost bound on how many more polls may still find the chip
    /// busy: a started operation completes after finitely many polls,
    /// so every poll that still reports work in progress strictly
    /// decreases this measure.  The busy-wait loop terminates by it.
    spec fn busy_bound(&self) -> nat;

    /// Clocks `frame` out in one transaction.  On success the chip
    /// steps exactly as the model interprets the frame; a faulted
    /// transaction is treated as not delivered.
    fn transact_write(&mut self, frame: &[u8]) -> (r: Result<(), Self::Fault>)
        ensures
            final(self).hist() == old(self).hist().push(frame@),
            match r {
                Ok(()) => final(self).chip() == step_write(old(self).chip(), frame@),
                Err(_) => final(self).chip() == old(self).chip(),
            },
    ;

    /// Clocks `frame` out, then reads `n` bytes back, in one
    /// transaction.  The chip's only possible state change is its
    /// work-in-progress flag clearing, and the bytes read back answer
    /// the frame in the state the chip then is in.
    fn transact_write_read(&mut self, frame: &[u8], n: usize) -> (r: Result<Vec<u8>, Self::Fault>)
        ensures
            final(self).hist() == old(self).hist().push(frame@),
            final(self).chip() == old(self).chip()
                || final(self).chip() == clear_wip(old(self).chip()),
            final(self).chip().wip ==> final(self).busy_bound() < old(self).busy_bound(),
            match r {
                Ok(data) => data@ == read_resp(final(self).chip(), frame@, n as nat)
                    && data@.len() == n,
                Err(_) => true,
            },
    ;
}

} // verus!
