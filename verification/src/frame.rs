//! Per-frame bookkeeping of the render loop: the frame clock, the record of
//! where a torpedo killed each vehicle, and what is drawn for each vehicle.

use vstd::prelude::*;

verus! {

/// Milliseconds since the previous frame, and the new cursor.
pub fn advance_clock(cursor: u128, now: u128) -> (step: (u128, u128))
    requires
        cursor <= now,
    ensures
        step.0 == now - cursor,
        step.1 == now,
{
    (now - cursor, now)
}

/// The frame deltas of consecutive frames add up to the time elapsed over
/// all of them.
pub proof fn lemma_deltas_telescope(start: u128, first: u128, second: u128)
    requires
        start <= first <= second,
    ensures
        (first - start) + (second - first) == second - start,
{
}

/// Whether a torpedo has killed a vehicle, and where the vehicle was when
/// it was last hit.
#[derive(Clone, Copy, Debug)]
pub struct KillRecord<P> {
    pub killed: bool,
    pub at: P,
}

impl<P: Copy> KillRecord<P> {
    /// The record after a frame in which the vehicle at `position` was hit
    /// or not: a hit marks it killed at `position`, a miss leaves it as it
    /// was.
    pub open spec fn after_frame(self, hit: bool, position: P) -> KillRecord<P> {
        if hit {
            KillRecord { killed: true, at: position }
        } else {
            self
        }
    }

    /// A vehicle not yet killed, with `origin` as its recorded position.
    pub fn new(origin: P) -> (record: KillRecord<P>)
        ensures
            !record.killed,
            record.at == origin,
    {
        KillRecord { killed: false, at: origin }
    }

    /// Records the outcome of one frame's collision scan.
    pub fn record(&mut self, hit: bool, position: P)
        ensures
            *final(self) == old(self).after_frame(hit, position),
            final(self).killed == (old(self).killed || hit),
            final(self).at == (if hit { position } else { old(self).at }),
    {
        if hit {
            self.killed = true;
            self.at = position;
        }
    }
}

/// A killed vehicle stays killed whatever later frames bring.
pub proof fn lemma_kill_is_final<P: Copy>(record: KillRecord<P>, hit: bool, position: P)
    requires
        record.killed,
    ensures
        record.after_frame(hit, position).killed,
        record.after_frame(hit, position).at == (if hit { position } else { record.at }),
{
}

/// What the render loop draws in a vehicle's place.
#[derive(Clone, Copy, Debug, PartialEq, Eq, Structural)]
pub enum VehicleDraw {
    /// The vehicle itself.
    Vehicle,
    /// The explosion, centred where the vehicle was killed.
    Explosion,
}

/// A killed vehicle is drawn as its explosion, a living one as itself.
pub fn vehicle_draw(killed: bool) -> (draw: VehicleDraw)
    ensures
        draw == (if killed { VehicleDraw::Explosion } else { VehicleDraw::Vehicle }),
{
    if killed {
        VehicleDraw::Explosion
    } else {
        VehicleDraw::Vehicle
    }
}

} // verus!
