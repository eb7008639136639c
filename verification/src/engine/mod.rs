//! The engine: what a machine does with captured input and with what its peers say.
use vstd::prelude::*;

use crate::binary32::F32;
use crate::layout::Edge;
use crate::proto::InputEvent;

pub mod action;
pub mod client;
pub mod clipsync;
pub mod crossing;
pub mod driven;
pub mod events;
pub mod host;
pub mod laws;
pub mod model;
pub mod panel;
pub mod panel_promises;
pub mod promises;
pub mod search;
pub mod session;
pub mod tablet_promises;

verus! {

/// What the capture side reports.
#[derive(Clone, Copy, Debug, PartialEq, Eq, Structural)]
pub enum Captured {
    /// Input while forwarding.
    Input(InputEvent),
    /// The local cursor pushed through an armed edge; local input is already being
    /// swallowed.
    EdgeHit { edge: Edge, ratio: F32 },
    /// The panic escape was pressed.
    Panic,
    /// The shared-panel hotkey was pressed.
    SharedHotkey,
    /// The tablet hotkey was pressed.
    TabletHotkey,
    /// The local cursor moved onto the shared panel, which shows the peer.
    SharedEnter { fx: F32, fy: F32 },
}

/// A burst of queued mouse moves, summed into one, so that a network hiccup never
/// builds a backlog of stale motion.
#[derive(Clone, Copy, Debug, PartialEq, Eq, Structural)]
pub struct Burst {
    pub dx: i32,
    pub dy: i32,
}

impl Burst {
    /// Takes in the next captured event. A move is added to the burst (a sum beyond
    /// the range of a delta is held to it); anything else ends the burst and is
    /// handed back.
    pub fn absorb(&mut self, next: Captured) -> (r: Option<Captured>)
        ensures
            match next {
                Captured::Input(InputEvent::MouseMove { dx, dy }) => r is None && final(self).dx
                    == panel::coord(old(self).dx + dx) && final(self).dy == panel::coord(
                    old(self).dy + dy,
                ),
                _ => r == Some(next) && *final(self) == *old(self),
            },
    {
        match next {
            Captured::Input(InputEvent::MouseMove { dx, dy }) => {
                self.dx = panel::to_coord(self.dx as i64 + dx as i64);
                self.dy = panel::to_coord(self.dy as i64 + dy as i64);
                None
            },
            _ => Some(next),
        }
    }

    /// The one move that the burst amounts to.
    pub fn event(self) -> (r: Captured)
        ensures
            r == Captured::Input(InputEvent::MouseMove { dx: self.dx, dy: self.dy }),
    {
        Captured::Input(InputEvent::MouseMove { dx: self.dx, dy: self.dy })
    }
}

} // verus!
