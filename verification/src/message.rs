//! Domain events and commands moved by value between the translator, the
//! grid loop and the outbound encoder.

use vstd::prelude::*;

verus! {

/// One state-change notification decoded from the remote control surface.
#[derive(Debug, Clone, Copy, PartialEq, Eq, Structural)]
pub enum BitwigMessage {
    Clip(ClipMessage),
    Track(TrackMessage),
    Primary(DeviceMessage),
}

/// A device-parameter change: `param` names one remote control, `value` its
/// new position.
#[derive(Debug, Clone, Copy, PartialEq, Eq, Structural)]
pub struct DeviceMessage {
    pub param: u8,
    pub value: i32,
}

impl DeviceMessage {
    pub fn new(param: u8, value: i32) -> (r: Self)
        ensures
            r == (DeviceMessage { param, value }),
    {
        Self { param, value }
    }
}

/// A notification about one clip cell, addressed by its 1-indexed
/// (track, scene) coordinates.
#[derive(Debug, Clone, Copy, PartialEq, Eq, Structural)]
pub struct ClipMessage {
    pub track: u8,
    pub scene: u8,
    pub active: bool,
    pub event: ClipEvent,
}

impl ClipMessage {
    pub fn new(track: u8, scene: u8, active: bool, event: ClipEvent) -> (r: Self)
        ensures
            r == (ClipMessage { track, scene, active, event }),
    {
        Self { track, scene, active, event }
    }
}

/// What a clip notification reports about its cell.
#[derive(Debug, Clone, Copy, PartialEq, Eq, Structural)]
pub enum ClipEvent {
    Playing,
    Queued,
    Stopping,
    Content,
    Selected,
}

/// A notification about one whole track.
#[derive(Debug, Clone, Copy, PartialEq, Eq, Structural)]
pub struct TrackMessage {
    pub track: u8,
    pub active: bool,
    pub event: TrackEvent,
}

impl TrackMessage {
    pub fn new(track: u8, active: bool, event: TrackEvent) -> (r: Self)
        ensures
            r == (TrackMessage { track, active, event }),
    {
        Self { track, active, event }
    }
}

/// What a track notification reports.
#[derive(Debug, Clone, Copy, PartialEq, Eq, Structural)]
pub enum TrackEvent {
    Selected,
}

/// A transport command destined for the remote DAW.
#[derive(Debug, Clone, Copy, PartialEq, Eq, Structural)]
pub enum ControlMessage {
    Refresh,
    Launch(u8, u8),
    Stop(u8, u8),
}

} // verus!
