//! The receiving side: injects received input, reports when the cursor pushes back
//! through a portal edge.
//!
//! This side owns its cursor position (integer accumulation of relative deltas,
//! held to its own desktop bounds), which is what lets machines with different
//! resolutions and scaling factors interoperate.
use vstd::prelude::*;

use crate::binary32::F32;
use crate::engine::action::Injection;
use crate::engine::panel::{self, to_coord, EDGE_INSET};
use crate::layout::{self, halve, hold, place_on_edge, ratio_on_edge, Edge};
use crate::proto::{InputEvent, Msg, Rect};

verus! {

/// Where the cursor of a driven machine is, and whether input applies.
#[derive(Debug)]
pub struct ClientState {
    pub bounds: Rect,
    pub portal_edges: Vec<Edge>,
    pub pos: (i32, i32),
    pub active: bool,
}

/// The state of a driven machine.
#[verifier::ext_equal]
pub ghost struct ClientView {
    pub bounds: Rect,
    pub portal_edges: Seq<Edge>,
    pub pos: (i32, i32),
    pub active: bool,
}

impl View for ClientState {
    type V = ClientView;

    open spec fn view(&self) -> ClientView {
        ClientView {
            bounds: self.bounds,
            portal_edges: self.portal_edges@,
            pos: self.pos,
            active: self.active,
        }
    }
}

/// What one input event brings about.
#[derive(Clone, Copy, Debug, PartialEq, Eq, Structural)]
pub enum Outcome {
    /// The event came when no input applies.
    Dropped,
    Inject(Injection),
    /// The cursor pushed through a portal edge.
    Left { edge: Edge, ratio: F32 },
}

/// Something to be done about a message.
#[derive(Clone, Copy, Debug, PartialEq, Eq, Structural)]
pub enum Response {
    Inject(Injection),
    /// Show whether this machine has the cursor.
    Indicator { active: bool },
    Pong(u64),
    CursorLeft { edge: Edge, ratio: F32 },
    /// Attach or detach a display.
    Power { index: u32, expect: Rect, on: bool },
    /// End the session.
    Close,
    /// The message has no business here.
    Unexpected,
}

impl ClientView {
    /// Where a motion to `(nx, ny)` puts the cursor.
    pub open spec fn held_at(self, nx: int, ny: int) -> (int, int) {
        (
            panel::coord(layout::held(nx, self.bounds.x as int, self.bounds.end_x() - 1)),
            panel::coord(layout::held(ny, self.bounds.y as int, self.bounds.end_y() - 1)),
        )
    }

    /// The portal edge that a motion to `(nx, ny)` pushes through, and where.
    pub open spec fn portal_at(self, nx: int, ny: int) -> Option<(Edge, F32)> {
        match crate::engine::model::crossed_edge(self.portal_edges, self.bounds, nx, ny, 0) {
            Some(e) => {
                let p = self.held_at(nx, ny);
                Some((e, layout::edge_ratio(self.bounds, e, p.0, p.1)))
            },
            None => None,
        }
    }

    /// One input event is applied.
    pub open spec fn applied(self, ev: InputEvent) -> (ClientView, Outcome) {
        if !self.active {
            (self, Outcome::Dropped)
        } else {
            match ev {
                InputEvent::MouseMove { dx, dy } => {
                    let nx = self.pos.0 + dx;
                    let ny = self.pos.1 + dy;
                    match self.portal_at(nx, ny) {
                        Some((edge, ratio)) => (self, Outcome::Left { edge, ratio }),
                        None => {
                            let p = self.held_at(nx, ny);
                            let q = (p.0 as i32, p.1 as i32);
                            (
                                ClientView { pos: q, ..self },
                                Outcome::Inject(Injection::MouseTo { x: q.0, y: q.1, dx, dy }),
                            )
                        },
                    }
                },
                InputEvent::MouseButton { button, pressed } => (
                    self,
                    Outcome::Inject(Injection::Button { button, pressed }),
                ),
                InputEvent::Wheel { dx, dy } => (
                    self,
                    Outcome::Inject(Injection::Wheel { dx, dy }),
                ),
                InputEvent::Key { key, pressed } => (
                    self,
                    Outcome::Inject(Injection::Key { key, pressed }),
                ),
            }
        }
    }

    /// The middle of the desktop.
    pub open spec fn middle(bounds: Rect) -> (int, int) {
        crate::engine::model::centre(bounds)
    }

    /// One message is answered.
    pub open spec fn answered(self, msg: crate::proto::MsgView) -> (ClientView, Seq<Response>) {
        match msg {
            crate::proto::MsgView::Enter { edge, ratio } => {
                let p = layout::edge_point(self.bounds, edge, ratio, EDGE_INSET as int);
                let q = (panel::coord(p.0) as i32, panel::coord(p.1) as i32);
                (
                    ClientView { pos: q, active: true, ..self },
                    seq![
                        Response::Inject(Injection::MouseTo { x: q.0, y: q.1, dx: 0, dy: 0 }),
                        Response::Indicator { active: true },
                    ],
                )
            },
            crate::proto::MsgView::Leave => (
                ClientView { active: false, ..self },
                seq![
                    Response::Inject(Injection::ReleaseAll),
                    Response::Indicator { active: false },
                ],
            ),
            crate::proto::MsgView::Input(ev) => {
                let (s, out) = self.applied(ev);
                match out {
                    Outcome::Dropped => (s, seq![]),
                    Outcome::Inject(i) => (s, seq![Response::Inject(i)]),
                    Outcome::Left { edge, ratio } => (
                        ClientView { active: false, ..s },
                        seq![
                            Response::Inject(Injection::ReleaseAll),
                            Response::Indicator { active: false },
                            Response::CursorLeft { edge, ratio },
                        ],
                    ),
                }
            },
            crate::proto::MsgView::Ping(n) => (self, seq![Response::Pong(n)]),
            crate::proto::MsgView::DisplayPower { index, expect, on } => (
                self,
                seq![Response::Power { index, expect, on }],
            ),
            crate::proto::MsgView::Bye => (self, seq![Response::Close]),
            _ => (self, seq![Response::Unexpected]),
        }
    }
}

impl ClientState {
    /// A machine that no one drives yet, with its cursor in the middle.
    pub fn new(bounds: Rect, portal_edges: Vec<Edge>) -> (r: ClientState)
        ensures
            r@ == (ClientView {
                bounds,
                portal_edges: portal_edges@,
                pos: (
                    ClientView::middle(bounds).0 as i32,
                    ClientView::middle(bounds).1 as i32,
                ),
                active: false,
            }),
    {
        let pos: (i32, i32) = (
            to_coord(bounds.x as i64 + halve(bounds.w)),
            to_coord(bounds.y as i64 + halve(bounds.h)),
        );
        ClientState { bounds, portal_edges, pos, active: false }
    }

    /// The desktop geometry changed: crossing and injection use the new bounds.
    pub fn refresh(&mut self, bounds: Rect)
        ensures
            final(self)@ == (ClientView {
                bounds,
                pos: (
                    ClientView::middle(bounds).0 as i32,
                    ClientView::middle(bounds).1 as i32,
                ),
                ..old(self)@
            }),
    {
        self.bounds = bounds;
        self.pos = (
            to_coord(bounds.x as i64 + halve(bounds.w)),
            to_coord(bounds.y as i64 + halve(bounds.h)),
        );
    }

    fn hold_at(&self, nx: i64, ny: i64) -> (r: (i32, i32))
        ensures
            (r.0 as int, r.1 as int) == self@.held_at(nx as int, ny as int),
    {
        let b: Rect = self.bounds;
        (
            to_coord(hold(nx, b.x as i64, b.x as i64 + b.w as i64 - 1)),
            to_coord(hold(ny, b.y as i64, b.y as i64 + b.h as i64 - 1)),
        )
    }

    /// The portal edge that a motion to `(nx, ny)` pushes through, and where.
    pub fn portal_hit(&self, nx: i64, ny: i64) -> (r: Option<(Edge, F32)>)
        ensures
            r == self@.portal_at(nx as int, ny as int),
    {
        let b: Rect = self.bounds;
        let mut i: usize = 0;
        while i < self.portal_edges.len()
            invariant
                i <= self.portal_edges@.len(),
                b == self.bounds,
                crate::engine::model::crossed_edge(
                    self.portal_edges@,
                    b,
                    nx as int,
                    ny as int,
                    0,
                ) == crate::engine::model::crossed_edge(
                    self.portal_edges@,
                    b,
                    nx as int,
                    ny as int,
                    i as int,
                ),
            decreases self.portal_edges@.len() - i,
        {
            let e: Edge = self.portal_edges[i];
            let out: bool = match e {
                Edge::Left => nx < b.x as i64,
                Edge::Right => nx >= b.x as i64 + b.w as i64,
                Edge::Top => ny < b.y as i64,
                Edge::Bottom => ny >= b.y as i64 + b.h as i64,
            };
            if out {
                let (cx, cy): (i32, i32) = self.hold_at(nx, ny);
                return Some((e, ratio_on_edge(b, e, cx, cy)));
            }
            i = i + 1;
        }
        None
    }

    /// Applies one input event. Events already in flight when control was handed
    /// back are dropped, so the cursor doesn't twitch after the handoff.
    pub fn apply(&mut self, ev: InputEvent) -> (r: Outcome)
        ensures
            (final(self)@, r) == old(self)@.applied(ev),
    {
        if !self.active {
            return Outcome::Dropped;
        }
        match ev {
            InputEvent::MouseMove { dx, dy } => {
                let nx: i64 = self.pos.0 as i64 + dx as i64;
                let ny: i64 = self.pos.1 as i64 + dy as i64;
                if let Some((edge, ratio)) = self.portal_hit(nx, ny) {
                    return Outcome::Left { edge, ratio };
                }
                let p: (i32, i32) = self.hold_at(nx, ny);
                self.pos = p;
                Outcome::Inject(Injection::MouseTo { x: p.0, y: p.1, dx, dy })
            },
            InputEvent::MouseButton { button, pressed } => Outcome::Inject(
                Injection::Button { button, pressed },
            ),
            InputEvent::Wheel { dx, dy } => Outcome::Inject(Injection::Wheel { dx, dy }),
            InputEvent::Key { key, pressed } => Outcome::Inject(Injection::Key { key, pressed }),
        }
    }

    /// Answers one message of the driving machine.
    pub fn on_message(&mut self, msg: &Msg) -> (r: Vec<Response>)
        ensures
            (final(self)@, r@) == old(self)@.answered(msg@),
    {
        let mut out: Vec<Response> = Vec::new();
        match msg {
            Msg::Enter { edge, ratio } => {
                let (x, y): (i64, i64) = place_on_edge(self.bounds, *edge, *ratio, EDGE_INSET);
                self.pos = (to_coord(x), to_coord(y));
                self.active = true;
                out.push(
                    Response::Inject(
                        Injection::MouseTo { x: self.pos.0, y: self.pos.1, dx: 0, dy: 0 },
                    ),
                );
                out.push(Response::Indicator { active: true });
            },
            Msg::Leave => {
                self.active = false;
                out.push(Response::Inject(Injection::ReleaseAll));
                out.push(Response::Indicator { active: false });
            },
            Msg::Input(ev) => {
                match self.apply(*ev) {
                    Outcome::Dropped => {},
                    Outcome::Inject(i) => {
                        out.push(Response::Inject(i));
                    },
                    Outcome::Left { edge, ratio } => {
                        self.active = false;
                        out.push(Response::Inject(Injection::ReleaseAll));
                        out.push(Response::Indicator { active: false });
                        out.push(Response::CursorLeft { edge, ratio });
                    },
                }
            },
            Msg::Ping(n) => {
                out.push(Response::Pong(*n));
            },
            Msg::DisplayPower { index, expect, on } => {
                out.push(Response::Power { index: *index, expect: *expect, on: *on });
            },
            Msg::Bye => {
                out.push(Response::Close);
            },
            _ => {
                out.push(Response::Unexpected);
            },
        }
        out
    }
}

/// The cursor of a driven machine never leaves its desktop, whatever is sent, once it
/// is on it; and it enters on it.
pub proof fn law_cursor_stays_on_the_desktop(s: ClientView, msg: crate::proto::MsgView)
    requires
        s.bounds.solid(),
        s.bounds.holds(s.pos.0 as int, s.pos.1 as int),
    ensures
        ({
            let t = s.answered(msg).0;
            t.bounds == s.bounds && t.bounds.holds(t.pos.0 as int, t.pos.1 as int)
        }),
{
    reveal(layout::edge_point);
}

/// Once control was handed back, input is dropped until the cursor enters again.
pub proof fn law_input_is_dropped_after_the_handoff(
    s: ClientView,
    ev: InputEvent,
    later: InputEvent,
)
    requires
        s.applied(ev).1 is Left,
    ensures
        ({
            let t = s.answered(crate::proto::MsgView::Input(ev)).0;
            !t.active && t.answered(crate::proto::MsgView::Input(later)) == (t, Seq::<
                Response,
            >::empty())
        }),
{
}

} // verus!
