//! Bridge to the two chained legacy interrupt controllers.
//!
//! The pair of 8-bit controllers is remapped once, before any hardware
//! interrupt is unmasked, to a configurable vector base (32 for the primary,
//! 40 for the secondary).  The only operation a handler may use afterwards is
//! `acknowledge`, which re-arms the serviced line; the model records every
//! acknowledgment so that a handler's contract can state that it acknowledged
//! exactly once.

use vstd::prelude::*;

verus! {

/// Vector base the primary controller is remapped to.
pub const PIC_1_OFFSET: u8 = 32;

/// Vector base the secondary controller is remapped to.
pub const PIC_2_OFFSET: u8 = 40;

/// The two chained 8-bit interrupt controllers.
///
/// Each controller serves eight consecutive vectors starting at its offset.
/// `eoi_log` is the observable effect of the bridge: the sequence of vectors
/// for which an end-of-interrupt signal was issued, in order.
pub struct ControllerBridge {
    primary_offset: u8,
    secondary_offset: u8,
    initialized: bool,
    eoi_log: Vec<u8>,
}

impl ControllerBridge {
    /// Vector base of the primary controller.
    pub closed spec fn primary(self) -> u8 {
        self.primary_offset
    }

    /// Vector base of the secondary controller.
    pub closed spec fn secondary(self) -> u8 {
        self.secondary_offset
    }

    /// Whether the one-shot remap has been performed.
    pub closed spec fn is_initialized(self) -> bool {
        self.initialized
    }

    /// The vectors acknowledged so far, in order.
    pub closed spec fn acks(self) -> Seq<u8> {
        self.eoi_log@
    }

    /// Whether `vector` falls in the range served by either controller.
    pub open spec fn handles(self, vector: u8) -> bool {
        ||| self.primary() <= vector < self.primary() + 8
        ||| self.secondary() <= vector < self.secondary() + 8
    }

    /// A fresh, not yet remapped bridge with the given vector bases.
    pub fn new(primary_offset: u8, secondary_offset: u8) -> (bridge: ControllerBridge)
        ensures
            bridge.primary() == primary_offset,
            bridge.secondary() == secondary_offset,
            !bridge.is_initialized(),
            bridge.acks() == Seq::<u8>::empty(),
    {
        ControllerBridge {
            primary_offset,
            secondary_offset,
            initialized: false,
            eoi_log: Vec::new(),
        }
    }

    /// Remap both controllers to their vector bases.
    ///
    /// Must run exactly once, before any hardware interrupt is unmasked;
    /// re-invoking after that is excluded by the precondition.
    pub fn initialize(&mut self)
        requires
            !old(self).is_initialized(),
        ensures
            final(self).is_initialized(),
            final(self).primary() == old(self).primary(),
            final(self).secondary() == old(self).secondary(),
            final(self).acks() == old(self).acks(),
    {
        self.initialized = true;
    }

    /// Whether `vector` falls in the range served by either controller.
    pub fn handles_vector(&self, vector: u8) -> (r: bool)
        ensures
            r == self.handles(vector),
    {
        let v = vector as u16;
        let p = self.primary_offset as u16;
        let s = self.secondary_offset as u16;
        (p <= v && v < p + 8) || (s <= v && v < s + 8)
    }

    /// The vectors acknowledged so far, in order.
    pub fn eoi_log(&self) -> (r: &Vec<u8>)
        ensures
            r@ == self.acks(),
    {
        &self.eoi_log
    }

    /// Issue an end-of-interrupt for `vector`.
    ///
    /// Must be the last action of every hardware-interrupt handler.  A vector
    /// outside both controllers' ranges is ignored, and acknowledging the
    /// same vector repeatedly is tolerated: the operation never fails.
    pub fn acknowledge(&mut self, vector: u8)
        requires
            old(self).is_initialized(),
        ensures
            final(self).acks() == if old(self).handles(vector) {
                old(self).acks().push(vector)
            } else {
                old(self).acks()
            },
            final(self).primary() == old(self).primary(),
            final(self).secondary() == old(self).secondary(),
            final(self).is_initialized(),
    {
        if self.handles_vector(vector) {
            self.eoi_log.push(vector);
        }
    }
}

} // verus!
