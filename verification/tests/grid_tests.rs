use bitwig_monome::clip::ClipState;
use bitwig_monome::grid::{coords_ok, Grid};
use bitwig_monome::message::{BitwigMessage, ClipEvent, ClipMessage, ControlMessage};

fn clip_event(track: u8, scene: u8, active: bool, event: ClipEvent) -> BitwigMessage {
    BitwigMessage::Clip(ClipMessage::new(track, scene, active, event))
}

#[test]
fn startup_emits_one_refresh_then_the_initial_frame() {
    let grid = Grid::new();
    let (cmds, frame) = grid.startup();
    assert_eq!(cmds, vec![ControlMessage::Refresh]);
    assert_eq!(frame.len(), 128);
    assert!(frame.iter().all(|&b| b == 0));
}

#[test]
fn same_tick_event_before_press() {
    // A queued inbound event fills cell (2, 1) while the same tick carries a
    // press on that cell: the press must see Filled and launch.
    let mut grid = Grid::new();
    let events = vec![clip_event(2, 1, true, ClipEvent::Content)];
    let presses = vec![(1u8, 0u8)];
    let (cmds, _frame) = grid.tick(&events, &presses);
    assert_eq!(cmds, vec![ControlMessage::Launch(2, 1)]);
}

#[test]
fn press_gating_by_state() {
    let mut grid = Grid::new();
    // Put five cells of scene 1 into the five states.
    let events = vec![
        clip_event(2, 1, true, ClipEvent::Content),
        clip_event(3, 1, true, ClipEvent::Playing),
        clip_event(4, 1, true, ClipEvent::Queued),
        clip_event(5, 1, true, ClipEvent::Stopping),
    ];
    let presses = vec![(0u8, 0u8), (1, 0), (2, 0), (3, 0), (4, 0)];
    let (cmds, _frame) = grid.tick(&events, &presses);
    // Empty, Queued and Stopping emit nothing; Filled launches, Playing stops.
    assert_eq!(cmds, vec![ControlMessage::Launch(2, 1), ControlMessage::Stop(3, 1)]);
}

#[test]
fn tick_applies_events_in_arrival_order() {
    let mut grid = Grid::new();
    let events = vec![
        clip_event(1, 1, true, ClipEvent::Playing),
        clip_event(1, 1, false, ClipEvent::Playing),
    ];
    let (cmds, _frame) = grid.tick(&events, &vec![]);
    assert!(cmds.is_empty());
    assert_eq!(grid.clip(1, 1).state, ClipState::Filled);
}

#[test]
fn tick_frame_reflects_fresh_intensities() {
    let mut grid = Grid::new();
    let events = vec![
        clip_event(3, 5, true, ClipEvent::Content),
        clip_event(1, 1, true, ClipEvent::Playing),
    ];
    let (_cmds, frame) = grid.tick(&events, &vec![]);
    // Cell (3, 5) sits at index (5-1)*16 + (3-1) = 66 and shows Filled.
    assert_eq!(frame[66], 100);
    assert_eq!(frame[0], 255);
    assert_eq!(frame[1], 0);
}

#[test]
fn queued_cell_pulses_across_ticks() {
    let mut grid = Grid::new();
    let events = vec![clip_event(1, 1, true, ClipEvent::Queued)];
    let (_c, frame1) = grid.tick(&events, &vec![]);
    assert_eq!(frame1[0], 1);
    let (_c, frame2) = grid.tick(&vec![], &vec![]);
    assert_eq!(frame2[0], 2);
}

#[test]
fn non_clip_events_leave_the_grid_alone() {
    let mut grid = Grid::new();
    let events = vec![
        BitwigMessage::Track(bitwig_monome::message::TrackMessage::new(
            1,
            true,
            bitwig_monome::message::TrackEvent::Selected,
        )),
        BitwigMessage::Primary(bitwig_monome::message::DeviceMessage::new(0, 10)),
    ];
    let (cmds, frame) = grid.tick(&events, &vec![]);
    assert!(cmds.is_empty());
    assert!(frame.iter().all(|&b| b == 0));
}

#[test]
fn coords_check_accepts_the_grid_and_rejects_outside() {
    assert!(coords_ok(&vec![clip_event(1, 1, true, ClipEvent::Content)]));
    assert!(coords_ok(&vec![clip_event(16, 8, true, ClipEvent::Content)]));
    assert!(!coords_ok(&vec![clip_event(0, 1, true, ClipEvent::Content)]));
    assert!(!coords_ok(&vec![clip_event(17, 1, true, ClipEvent::Content)]));
    assert!(!coords_ok(&vec![clip_event(1, 9, true, ClipEvent::Content)]));
    assert!(coords_ok(&vec![BitwigMessage::Primary(
        bitwig_monome::message::DeviceMessage::new(200, 9),
    )]));
}
