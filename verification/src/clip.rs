//! One grid cell: its clip state machine and its derived display intensity.

use vstd::prelude::*;
use crate::message::ClipEvent;

verus! {

/// The launcher state of one clip cell.
#[derive(Debug, Clone, Copy, PartialEq, Eq, Structural)]
pub enum ClipState {
    Empty,
    Filled,
    Playing,
    Queued,
    Stopping,
}

/// One cell of the grid: its state and the LED intensity derived from it.
#[derive(Debug, Clone, Copy, PartialEq, Eq, Structural)]
pub struct Clip {
    pub state: ClipState,
    pub intensity: u8,
}

/// The clip state machine: total and deterministic over every
/// (state, event, active) combination; combinations outside the table's
/// explicit rows leave the state unchanged.
pub open spec fn spec_next(s: ClipState, e: ClipEvent, active: bool) -> ClipState {
    match (e, active) {
        (ClipEvent::Playing, true) => ClipState::Playing,
        (ClipEvent::Playing, false) => if s == ClipState::Playing {
            ClipState::Filled
        } else {
            s
        },
        (ClipEvent::Stopping, true) => ClipState::Stopping,
        (ClipEvent::Stopping, false) => if s == ClipState::Playing || s == ClipState::Stopping {
            ClipState::Filled
        } else {
            s
        },
        (ClipEvent::Content, true) => ClipState::Filled,
        (ClipEvent::Content, false) => ClipState::Empty,
        (ClipEvent::Queued, true) => ClipState::Queued,
        (ClipEvent::Queued, false) => if s == ClipState::Playing || s == ClipState::Queued {
            ClipState::Filled
        } else {
            s
        },
        (ClipEvent::Selected, _) => s,
    }
}

/// The display intensity that one tick derives from a cell's state and its
/// previous intensity: fixed levels for the settled states, a wrapping
/// ramp up or down for the pending ones.
pub open spec fn spec_next_intensity(s: ClipState, prev: u8) -> u8 {
    match s {
        ClipState::Empty => 0,
        ClipState::Filled => 100,
        ClipState::Playing => 255,
        ClipState::Queued => if prev == 255 {
            0
        } else {
            (prev + 1) as u8
        },
        ClipState::Stopping => if prev == 0 {
            255
        } else {
            (prev - 1) as u8
        },
    }
}

impl Clip {
    /// A fresh cell: no content, LED off.
    pub fn new() -> (r: Self)
        ensures
            r == (Clip { state: ClipState::Empty, intensity: 0u8 }),
    {
        Self { state: ClipState::Empty, intensity: 0 }
    }

    /// Apply one notification to this cell's state; the intensity is left
    /// for the tick's recompute phase.
    pub fn apply(&mut self, event: ClipEvent, active: bool)
        ensures
            final(self).state == spec_next(old(self).state, event, active),
            final(self).intensity == old(self).intensity,
    {
        match (event, active) {
            (ClipEvent::Playing, true) => self.state = ClipState::Playing,
            (ClipEvent::Playing, false) => {
                match self.state {
                    ClipState::Playing => self.state = ClipState::Filled,
                    _ => {},
                }
            },
            (ClipEvent::Stopping, true) => self.state = ClipState::Stopping,
            (ClipEvent::Stopping, false) => {
                match self.state {
                    ClipState::Playing | ClipState::Stopping => self.state = ClipState::Filled,
                    _ => {},
                }
            },
            (ClipEvent::Content, true) => self.state = ClipState::Filled,
            (ClipEvent::Content, false) => self.state = ClipState::Empty,
            (ClipEvent::Queued, true) => self.state = ClipState::Queued,
            (ClipEvent::Queued, false) => {
                match self.state {
                    ClipState::Playing | ClipState::Queued => self.state = ClipState::Filled,
                    _ => {},
                }
            },
            (ClipEvent::Selected, _) => {},
        }
    }

    /// Recompute the LED intensity from the current state alone.
    pub fn update_intensity(&mut self)
        ensures
            final(self).state == old(self).state,
            final(self).intensity == spec_next_intensity(old(self).state, old(self).intensity),
    {
        match self.state {
            ClipState::Empty => self.intensity = 0,
            ClipState::Filled => self.intensity = 100,
            ClipState::Playing => self.intensity = 255,
            ClipState::Queued => self.intensity = self.intensity.wrapping_add(1),
            ClipState::Stopping => self.intensity = self.intensity.wrapping_sub(1),
        }
    }
}

/// The transition function matches the state machine's table row by row,
/// and every combination outside the explicit rows is a no-op.
pub proof fn lemma_next_matches_table(s: ClipState, e: ClipEvent, active: bool)
    ensures
        active && e == ClipEvent::Playing ==> spec_next(s, e, active) == ClipState::Playing,
        !active && e == ClipEvent::Playing && s == ClipState::Playing ==> spec_next(s, e, active)
            == ClipState::Filled,
        !active && e == ClipEvent::Playing && s != ClipState::Playing ==> spec_next(s, e, active)
            == s,
        active && e == ClipEvent::Stopping ==> spec_next(s, e, active) == ClipState::Stopping,
        !active && e == ClipEvent::Stopping && (s == ClipState::Playing || s == ClipState::Stopping)
            ==> spec_next(s, e, active) == ClipState::Filled,
        !active && e == ClipEvent::Stopping && !(s == ClipState::Playing || s
            == ClipState::Stopping) ==> spec_next(s, e, active) == s,
        active && e == ClipEvent::Content ==> spec_next(s, e, active) == ClipState::Filled,
        !active && e == ClipEvent::Content ==> spec_next(s, e, active) == ClipState::Empty,
        active && e == ClipEvent::Queued ==> spec_next(s, e, active) == ClipState::Queued,
        !active && e == ClipEvent::Queued && (s == ClipState::Playing || s == ClipState::Queued)
            ==> spec_next(s, e, active) == ClipState::Filled,
        !active && e == ClipEvent::Queued && !(s == ClipState::Playing || s == ClipState::Queued)
            ==> spec_next(s, e, active) == s,
        e == ClipEvent::Selected ==> spec_next(s, e, active) == s,
{
}

/// Repeating a notification settles: a second (Content, false) still leaves
/// the cell Empty, and a second (Playing, true) still leaves it Playing; in
/// general one application of either already reaches a fixed point.
pub proof fn lemma_next_idempotent(s: ClipState)
    ensures
        spec_next(s, ClipEvent::Content, false) == ClipState::Empty,
        spec_next(spec_next(s, ClipEvent::Content, false), ClipEvent::Content, false)
            == ClipState::Empty,
        spec_next(s, ClipEvent::Playing, true) == ClipState::Playing,
        spec_next(spec_next(s, ClipEvent::Playing, true), ClipEvent::Playing, true)
            == ClipState::Playing,
{
}

/// The intensity view is pure in the state and previous intensity: the
/// settled states map to fixed levels whatever came before, and the pending
/// states ramp by one with wrap-around at the 0/255 boundary.
pub proof fn lemma_intensity_view(prev: u8)
    ensures
        spec_next_intensity(ClipState::Empty, prev) == 0,
        spec_next_intensity(ClipState::Filled, prev) == 100,
        spec_next_intensity(ClipState::Playing, prev) == 255,
        prev < 255 ==> spec_next_intensity(ClipState::Queued, prev) == prev + 1,
        spec_next_intensity(ClipState::Queued, 255) == 0,
        prev > 0 ==> spec_next_intensity(ClipState::Stopping, prev) == prev - 1,
        spec_next_intensity(ClipState::Stopping, 0) == 255,
{
}

} // verus!
