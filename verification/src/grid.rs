//! The grid: 128 clip cells and the decision logic of the fixed-rate event
//! loop. Each tick applies the queued inbound events first, then judges the
//! hardware presses against that updated state, then recomputes the LED
//! intensities and hands back the full frame; the surrounding I/O loop only
//! moves values in and out.

use vstd::prelude::*;
use crate::clip::{Clip, ClipState, spec_next, spec_next_intensity};
use crate::message::{BitwigMessage, ClipMessage, ControlMessage};

verus! {

/// Tracks run 1..=16, scenes 1..=8; anything else is an addressing error.
pub open spec fn valid_coords(track: u8, scene: u8) -> bool {
    1 <= track <= 16 && 1 <= scene <= 8
}

/// The cell index of 1-indexed coordinates in the row-major 16 x 8 matrix.
pub open spec fn spec_cell_index(track: u8, scene: u8) -> int {
    (scene - 1) * 16 + (track - 1)
}

/// All 128 cells as the grid first sees them: empty, LED off.
pub open spec fn initial_cells() -> Seq<Clip> {
    Seq::new(128, |i: int| Clip { state: ClipState::Empty, intensity: 0u8 })
}

/// One inbound notification applied to its target cell's state.
pub open spec fn spec_apply_event(cells: Seq<Clip>, m: ClipMessage) -> Seq<Clip> {
    let i = spec_cell_index(m.track, m.scene);
    cells.update(
        i,
        Clip { state: spec_next(cells[i].state, m.event, m.active), intensity: cells[i].intensity },
    )
}

/// One inbound notification of any kind: only clip notifications touch the
/// grid, the rest pass through it unchanged.
pub open spec fn spec_grid_step(cells: Seq<Clip>, m: BitwigMessage) -> Seq<Clip> {
    match m {
        BitwigMessage::Clip(c) => spec_apply_event(cells, c),
        _ => cells,
    }
}

/// A clip notification addresses a cell the grid has.
pub open spec fn clip_coords_ok(m: BitwigMessage) -> bool {
    match m {
        BitwigMessage::Clip(c) => valid_coords(c.track, c.scene),
        _ => true,
    }
}

/// A queue of notifications applied in arrival order.
pub open spec fn spec_apply_events(cells: Seq<Clip>, evs: Seq<BitwigMessage>) -> Seq<Clip>
    decreases evs.len(),
{
    if evs.len() == 0 {
        cells
    } else {
        spec_grid_step(spec_apply_events(cells, evs.drop_last()), evs.last())
    }
}

/// The command a press at zero-indexed (x, y) earns, judged against the
/// current state of its cell: Filled launches, Playing stops, every other
/// state emits nothing.
pub open spec fn spec_press_cmd(cells: Seq<Clip>, x: u8, y: u8) -> Option<ControlMessage> {
    let track = (x + 1) as u8;
    let scene = (y + 1) as u8;
    match cells[spec_cell_index(track, scene)].state {
        ClipState::Filled => Some(ControlMessage::Launch(track, scene)),
        ClipState::Playing => Some(ControlMessage::Stop(track, scene)),
        _ => None,
    }
}

/// The commands a burst of presses earns, in press order, all judged
/// against the same state.
pub open spec fn spec_press_cmds(cells: Seq<Clip>, presses: Seq<(u8, u8)>) -> Seq<ControlMessage>
    decreases presses.len(),
{
    if presses.len() == 0 {
        Seq::empty()
    } else {
        let rest = spec_press_cmds(cells, presses.drop_last());
        match spec_press_cmd(cells, presses.last().0, presses.last().1) {
            Some(c) => rest.push(c),
            None => rest,
        }
    }
}

/// Every cell's intensity recomputed from its state.
pub open spec fn spec_refresh(cells: Seq<Clip>) -> Seq<Clip> {
    cells.map_values(
        |c: Clip| Clip { state: c.state, intensity: spec_next_intensity(c.state, c.intensity) },
    )
}

/// The 128-byte LED frame: each cell's intensity in index order.
pub open spec fn spec_frame(cells: Seq<Clip>) -> Seq<u8> {
    cells.map_values(|c: Clip| c.intensity)
}

/// The ordered collection of exactly 128 clip cells, owned by the event
/// loop alone.
pub struct Grid {
    cells: Vec<Clip>,
}

impl View for Grid {
    type V = Seq<Clip>;

    closed spec fn view(&self) -> Seq<Clip> {
        self.cells@
    }
}

impl Grid {
    /// A grid holds exactly 128 cells.
    pub open spec fn wf(&self) -> bool {
        self@.len() == 128
    }

    /// All cells start Empty with the LED off.
    pub fn new() -> (r: Self)
        ensures
            r.wf(),
            r@ == initial_cells(),
    {
        let mut cells: Vec<Clip> = Vec::new();
        let mut i: usize = 0;
        while i < 128
            invariant
                i <= 128,
                cells@.len() == i,
                forall|j: int|
                    0 <= j < i ==> cells@[j] == (Clip {
                        state: ClipState::Empty,
                        intensity: 0u8,
                    }),
            decreases 128 - i,
        {
            cells.push(Clip::new());
            i = i + 1;
        }
        proof {
            assert(cells@ =~= initial_cells());
        }
        Grid { cells }
    }

    /// Read one cell by its 1-indexed coordinates.
    pub fn clip(&self, track: u8, scene: u8) -> (r: Clip)
        requires
            self.wf(),
            valid_coords(track, scene),
        ensures
            r == self@[spec_cell_index(track, scene)],
    {
        let idx: usize = (scene as usize - 1) * 16 + (track as usize - 1);
        self.cells[idx]
    }

    /// Apply one inbound notification to its target cell's state; the
    /// intensity waits for the recompute phase.
    pub fn apply_message(&mut self, msg: &ClipMessage)
        requires
            old(self).wf(),
            valid_coords(msg.track, msg.scene),
        ensures
            final(self).wf(),
            final(self)@ == spec_apply_event(old(self)@, *msg),
    {
        let idx: usize = (msg.scene as usize - 1) * 16 + (msg.track as usize - 1);
        let mut c = self.cells[idx];
        c.apply(msg.event, msg.active);
        self.cells[idx] = c;
    }

    /// Judge one hardware press at zero-indexed (x, y) against the current
    /// state of its cell.
    pub fn on_press(&self, x: u8, y: u8) -> (r: Option<ControlMessage>)
        requires
            self.wf(),
            x < 16,
            y < 8,
        ensures
            r == spec_press_cmd(self@, x, y),
    {
        let track = x + 1;
        let scene = y + 1;
        let c = self.clip(track, scene);
        match c.state {
            ClipState::Filled => Some(ControlMessage::Launch(track, scene)),
            ClipState::Playing => Some(ControlMessage::Stop(track, scene)),
            _ => None,
        }
    }

    /// Recompute every cell's intensity from its state.
    pub fn update_intensities(&mut self)
        requires
            old(self).wf(),
        ensures
            final(self).wf(),
            final(self)@ == spec_refresh(old(self)@),
    {
        let n = self.cells.len();
        let mut i: usize = 0;
        while i < n
            invariant
                i <= n,
                n == old(self)@.len(),
                self@.len() == n,
                forall|j: int| 0 <= j < i ==> self@[j] == spec_refresh(old(self)@)[j],
                forall|j: int| i <= j < n ==> self@[j] == old(self)@[j],
            decreases n - i,
        {
            let mut c = self.cells[i];
            c.update_intensity();
            self.cells[i] = c;
            i = i + 1;
        }
        proof {
            assert(self@ =~= spec_refresh(old(self)@));
        }
    }

    /// The full LED frame, one intensity byte per cell in index order.
    pub fn get_intensities(&self) -> (r: Vec<u8>)
        ensures
            r@ == spec_frame(self@),
    {
        let n = self.cells.len();
        let mut r: Vec<u8> = Vec::new();
        let mut i: usize = 0;
        while i < n
            invariant
                i <= n,
                n == self@.len(),
                r@.len() == i,
                forall|j: int| 0 <= j < i ==> r@[j] == spec_frame(self@)[j],
            decreases n - i,
        {
            r.push(self.cells[i].intensity);
            i = i + 1;
        }
        proof {
            assert(r@ =~= spec_frame(self@));
        }
        r
    }

    /// What startup owes the outside world before any tick runs: exactly
    /// one Refresh command, and the initial LED frame to publish after it.
    pub fn startup(&self) -> (r: (Vec<ControlMessage>, Vec<u8>))
        ensures
            r.0@ == seq![ControlMessage::Refresh],
            r.1@ == spec_frame(self@),
    {
        let mut cmds: Vec<ControlMessage> = Vec::new();
        cmds.push(ControlMessage::Refresh);
        proof {
            assert(cmds@ =~= seq![ControlMessage::Refresh]);
        }
        (cmds, self.get_intensities())
    }

    /// One tick of the event loop: drain the inbound notifications in
    /// arrival order, then judge the presses against that updated state,
    /// then recompute all intensities; the returned commands and LED frame
    /// are what the tick sends out.
    pub fn tick(&mut self, events: &Vec<BitwigMessage>, presses: &Vec<(u8, u8)>) -> (r: (
        Vec<ControlMessage>,
        Vec<u8>,
    ))
        requires
            old(self).wf(),
            forall|i: int| 0 <= i < events@.len() ==> clip_coords_ok(#[trigger] events@[i]),
            forall|i: int| 0 <= i < presses@.len() ==> presses@[i].0 < 16 && presses@[i].1 < 8,
        ensures
            final(self).wf(),
            final(self)@ == spec_refresh(spec_apply_events(old(self)@, events@)),
            r.0@ == spec_press_cmds(spec_apply_events(old(self)@, events@), presses@),
            r.1@ == spec_frame(final(self)@),
    {
        let ne = events.len();
        let mut i: usize = 0;
        while i < ne
            invariant
                i <= ne,
                ne == events@.len(),
                old(self).wf(),
                self.wf(),
                forall|k: int| 0 <= k < events@.len() ==> clip_coords_ok(#[trigger] events@[k]),
                self@ == spec_apply_events(old(self)@, events@.take(i as int)),
            decreases ne - i,
        {
            let msg = events[i];
            proof {
                lemma_apply_events_step(old(self)@, events@, i as int);
            }
            match msg {
                BitwigMessage::Clip(c) => {
                    self.apply_message(&c);
                },
                _ => {},
            }
            i = i + 1;
        }
        proof {
            assert(events@.take(ne as int) =~= events@);
        }
        let ghost mid: Seq<Clip> = self@;

        let np = presses.len();
        let mut cmds: Vec<ControlMessage> = Vec::new();
        let mut p: usize = 0;
        while p < np
            invariant
                p <= np,
                np == presses@.len(),
                self.wf(),
                self@ == mid,
                forall|k: int| 0 <= k < presses@.len() ==> presses@[k].0 < 16 && presses@[k].1 < 8,
                cmds@ == spec_press_cmds(mid, presses@.take(p as int)),
            decreases np - p,
        {
            let (x, y) = presses[p];
            proof {
                lemma_press_cmds_step(mid, presses@, p as int);
            }
            match self.on_press(x, y) {
                Some(c) => cmds.push(c),
                None => {},
            }
            p = p + 1;
        }
        proof {
            assert(presses@.take(np as int) =~= presses@);
        }

        self.update_intensities();
        let frame = self.get_intensities();
        (cmds, frame)
    }
}

/// Whether every clip notification in a drained queue addresses a cell the
/// grid has; the event loop owes this check before a tick.
pub fn coords_ok(events: &Vec<BitwigMessage>) -> (r: bool)
    ensures
        r == forall|i: int| 0 <= i < events@.len() ==> clip_coords_ok(#[trigger] events@[i]),
{
    let n = events.len();
    let mut i: usize = 0;
    while i < n
        invariant
            i <= n,
            n == events@.len(),
            forall|k: int| 0 <= k < i ==> clip_coords_ok(#[trigger] events@[k]),
        decreases n - i,
    {
        match events[i] {
            BitwigMessage::Clip(c) => {
                if c.track < 1 || c.track > 16 || c.scene < 1 || c.scene > 8 {
                    assert(!clip_coords_ok(events@[i as int]));
                    return false;
                }
            },
            _ => {},
        }
        i = i + 1;
    }
    true
}

/// Press-gating: a press on a cell in state Empty, Queued or Stopping
/// emits no command; a press on a Filled cell emits exactly one Launch for
/// that cell; a press on a Playing cell emits exactly one Stop for it.
pub proof fn lemma_press_gating(cells: Seq<Clip>, x: u8, y: u8)
    requires
        x < 16,
        y < 8,
        cells.len() == 128,
    ensures
        ({
            let c = cells[spec_cell_index((x + 1) as u8, (y + 1) as u8)];
            &&& c.state == ClipState::Filled ==> spec_press_cmd(cells, x, y) == Some(
                ControlMessage::Launch((x + 1) as u8, (y + 1) as u8),
            )
            &&& c.state == ClipState::Playing ==> spec_press_cmd(cells, x, y) == Some(
                ControlMessage::Stop((x + 1) as u8, (y + 1) as u8),
            )
            &&& (c.state == ClipState::Empty || c.state == ClipState::Queued || c.state
                == ClipState::Stopping) ==> spec_press_cmd(cells, x, y) is None
        }),
{
}

/// Applying a queue one event longer is applying the queue, then its last
/// event.
proof fn lemma_apply_events_step(cells: Seq<Clip>, evs: Seq<BitwigMessage>, i: int)
    requires
        0 <= i < evs.len(),
    ensures
        spec_apply_events(cells, evs.take(i + 1)) == spec_grid_step(
            spec_apply_events(cells, evs.take(i)),
            evs[i],
        ),
{
    assert(evs.take(i + 1).drop_last() =~= evs.take(i));
    assert(evs.take(i + 1).last() == evs[i]);
}

/// Judging one press more appends that press's command, if any.
proof fn lemma_press_cmds_step(cells: Seq<Clip>, presses: Seq<(u8, u8)>, i: int)
    requires
        0 <= i < presses.len(),
    ensures
        spec_press_cmds(cells, presses.take(i + 1)) == (match spec_press_cmd(
            cells,
            presses[i].0,
            presses[i].1,
        ) {
            Some(c) => spec_press_cmds(cells, presses.take(i)).push(c),
            None => spec_press_cmds(cells, presses.take(i)),
        }),
{
    assert(presses.take(i + 1).drop_last() =~= presses.take(i));
    assert(presses.take(i + 1).last() == presses[i]);
}

} // verus!
