//! The explosion's particle buffers ping-pong between two banks: each draw
//! reads the particles through the current vertex array and captures the
//! updated particles, through transform feedback, into the other bank.

use vstd::prelude::*;

verus! {

/// One of the two particle banks: a vertex array, a transform feedback
/// object and their position and velocity buffers.
#[derive(Clone, Copy, Debug, PartialEq, Eq, Structural)]
pub enum Bank {
    A,
    B,
}

/// The bank that is not `bank`.
pub open spec fn other(bank: Bank) -> Bank {
    match bank {
        Bank::A => Bank::B,
        Bank::B => Bank::A,
    }
}

/// Which banks the next explosion draw uses.
#[derive(Clone, Copy, Debug, PartialEq, Eq, Structural)]
pub struct ExplosionCycle {
    /// Set when the next draw captures into bank B.
    pub switch: bool,
    /// The vertex array the next draw binds, that is the bank it reads.
    pub vertex_array: Bank,
    /// The transform feedback object the next draw binds.
    pub transform_feedback: Bank,
}

impl ExplosionCycle {
    /// The bank whose buffers the next draw captures into.
    pub open spec fn capture(self) -> Bank {
        if self.switch {
            Bank::B
        } else {
            Bank::A
        }
    }

    /// The banks after one draw.
    pub open spec fn after_draw(self) -> ExplosionCycle {
        if self.switch {
            ExplosionCycle { switch: false, vertex_array: Bank::B, transform_feedback: Bank::A }
        } else {
            ExplosionCycle { switch: true, vertex_array: Bank::A, transform_feedback: Bank::B }
        }
    }

    /// The draw reads one bank, and its transform feedback object and
    /// captured buffers both belong to the other bank.
    pub open spec fn coherent(self) -> bool {
        &&& self.transform_feedback == self.capture()
        &&& self.vertex_array == other(self.capture())
    }

    /// The banks when the explosion is prepared: read bank A, capture into
    /// bank B.
    pub fn new() -> (cycle: ExplosionCycle)
        ensures
            cycle == (ExplosionCycle { switch: true, vertex_array: Bank::A, transform_feedback: Bank::B }),
    {
        ExplosionCycle { switch: true, vertex_array: Bank::A, transform_feedback: Bank::B }
    }

    /// The bank whose position and velocity buffers the next draw binds as
    /// transform feedback targets.
    pub fn capture_bank(&self) -> (bank: Bank)
        ensures
            bank == self.capture(),
            bank == (if self.switch { Bank::B } else { Bank::A }),
    {
        if self.switch {
            Bank::B
        } else {
            Bank::A
        }
    }

    /// After a draw: the bank just written becomes the one read, and the
    /// switch flips.
    pub fn advance(&mut self)
        ensures
            *final(self) == old(self).after_draw(),
            final(self).switch == !old(self).switch,
            final(self).vertex_array == (if old(self).switch { Bank::B } else { Bank::A }),
            final(self).transform_feedback == (if old(self).switch { Bank::A } else { Bank::B }),
    {
        if self.switch {
            self.vertex_array = Bank::B;
            self.transform_feedback = Bank::A;
        } else {
            self.vertex_array = Bank::A;
            self.transform_feedback = Bank::B;
        }
        self.switch = !self.switch;
    }

    /// After the particles are reseeded: read bank A through its vertex
    /// array and bind bank B's transform feedback; the switch is left as
    /// it was.
    pub fn reset(&mut self)
        ensures
            *final(self) == (ExplosionCycle {
                switch: old(self).switch,
                vertex_array: Bank::A,
                transform_feedback: Bank::B,
            }),
    {
        self.vertex_array = Bank::A;
        self.transform_feedback = Bank::B;
    }
}

/// The prepared explosion is coherent, every draw keeps it coherent, and in
/// a coherent state the draw never reads the bank it writes.
pub proof fn lemma_cycle_stays_coherent(cycle: ExplosionCycle)
    ensures
        (ExplosionCycle { switch: true, vertex_array: Bank::A, transform_feedback: Bank::B }).coherent(),
        cycle.coherent() ==> cycle.after_draw().coherent(),
        cycle.coherent() ==> cycle.vertex_array != cycle.capture(),
{
}

/// Two draws bring the banks back to where they were.
pub proof fn lemma_two_draws_restore(cycle: ExplosionCycle)
    requires
        cycle.coherent(),
    ensures
        cycle.after_draw().after_draw() == cycle,
{
}

/// Reseeding keeps the banks coherent when the next draw captures into bank
/// B; with the switch clear it would read and write bank A.
pub proof fn lemma_reset_coherent(cycle: ExplosionCycle)
    requires
        cycle.switch,
    ensures
        (ExplosionCycle { switch: cycle.switch, vertex_array: Bank::A, transform_feedback: Bank::B }).coherent(),
{
}


/// Every draw, from any state (coherent or not, such as the state a reseed
/// leaves with the switch clear), flips the switch and picks the banks from
/// the old switch alone: with the switch set the next draw reads bank B
/// through its vertex array and binds bank A's transform feedback,
/// otherwise the reverse. So the state after a draw is always coherent, and
/// the next draw captures into the bank it does not read.
pub proof fn lemma_draw_sets_banks_from_switch(cycle: ExplosionCycle)
    ensures
        cycle.after_draw().switch == !cycle.switch,
        cycle.after_draw().vertex_array == (if cycle.switch { Bank::B } else { Bank::A }),
        cycle.after_draw().transform_feedback == (if cycle.switch { Bank::A } else { Bank::B }),
        cycle.after_draw().coherent(),
        cycle.after_draw().vertex_array != (if cycle.after_draw().switch { Bank::B } else { Bank::A }),
        cycle.after_draw().transform_feedback == (if cycle.after_draw().switch { Bank::B } else { Bank::A }),
{
}

} // verus!
