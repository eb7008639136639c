//! Platform abstraction: what the capture side decides, and what injection sends.
//!
//! The capture side flips `CaptureCtl::forwarding` *synchronously*, inside the OS
//! callback, when the cursor crosses a portal edge. That is the core latency trick: no
//! round trip to the router before events are swallowed, so nothing ever double-applies
//! locally and remotely.
use vstd::prelude::*;

use crate::binary32::F32;
use crate::config::{self, Config};
use crate::engine::action::Action;
use crate::engine::events::{modifier_settings, tablet_setting};
use crate::engine::model;
use crate::engine::panel::{self, to_coord, union_rect};
use crate::layout::{self, entry_on_rect, point_in, skip_past, touches_edge, Edge};
use crate::proto::Rect;

pub mod display;
pub mod macos;
pub mod macos_injector;
pub mod permissions;
pub mod promises;
pub mod sim;
pub mod stub;
pub mod tray;
pub mod windows;
pub mod windows_injector;

verus! {

/// Portal triggers are held off for this long after the cursor returned, in
/// nanoseconds, to stop instant re-triggering on the same edge.
pub const RETURN_COOLDOWN: u64 = 300_000_000;

/// Three presses of Esc within this time yank input back, in nanoseconds.
pub const PANIC_WINDOW: u64 = 900_000_000;

/// What the router tells the capture side. Times are nanoseconds of one clock.
#[derive(Debug)]
pub struct CaptureCtl {
    /// True while input is being forwarded to a remote machine.
    pub forwarding: bool,
    /// True while a PEER is driving this machine. Local hooks deliberately keep
    /// passing input through (a dying session must never leave this desk with a
    /// frozen mouse), so this is what stops the cursor guard and the portal edges
    /// from also reacting and starting a control fight.
    pub driven: bool,
    /// Edges that currently lead to a *connected* peer. Only these trigger, so the
    /// cursor never disappears into a dead screen whose machine is offline.
    pub portals: Vec<Edge>,
    /// Portal triggers are ignored until this instant.
    pub cooldown_until: u64,
    /// When set, Cmd/Ctrl+Alt+M is swallowed and reported (shared-monitor ownership
    /// toggle).
    pub shared_hotkey: bool,
    /// Milliseconds the cursor must rest against a portal edge before it crosses. 0 =
    /// cross instantly (the default). A dwell guards against accidental crossings from
    /// brushing the edge.
    pub edge_dwell_ms: u64,
    /// Shared monitor this machine must NOT show right now: the cursor skips over this
    /// rect (never rests on it) so it can't sit on a screen that's physically displaying
    /// the other machine. None = no block.
    pub blocked: Option<Rect>,
    /// Desktop edge that leads to the Android tablet, if placed. Crossing it hands control
    /// to the tablet (like a peer portal, but local).
    pub tablet_edge: Option<Edge>,
    /// macOS host: remap Mac modifiers while a Windows peer has focus.
    pub mac_shortcuts: bool,
    /// The left modifiers that control, option and command send to Windows peers.
    pub win_mods: (u16, u16, u16),
    pub bounds: Rect,
}

/// What the capture side is told.
#[verifier::ext_equal]
pub ghost struct CtlView {
    pub forwarding: bool,
    pub driven: bool,
    pub portals: Seq<Edge>,
    pub cooldown_until: u64,
    pub shared_hotkey: bool,
    pub edge_dwell_ms: u64,
    pub blocked: Option<Rect>,
    pub tablet_edge: Option<Edge>,
    pub mac_shortcuts: bool,
    pub win_mods: (u16, u16, u16),
    pub bounds: Rect,
}

impl View for CaptureCtl {
    type V = CtlView;

    open spec fn view(&self) -> CtlView {
        CtlView {
            forwarding: self.forwarding,
            driven: self.driven,
            portals: self.portals@,
            cooldown_until: self.cooldown_until,
            shared_hotkey: self.shared_hotkey,
            edge_dwell_ms: self.edge_dwell_ms,
            blocked: self.blocked,
            tablet_edge: self.tablet_edge,
            mac_shortcuts: self.mac_shortcuts,
            win_mods: self.win_mods,
            bounds: self.bounds,
        }
    }
}

/// An instant some time later, held to the last one.
pub open spec fn later(now: u64, by: u64) -> u64 {
    if now + by > u64::MAX {
        u64::MAX
    } else {
        (now + by) as u64
    }
}

/// An instant some time later.
fn later_than(now: u64, by: u64) -> (r: u64)
    ensures
        r == later(now, by),
{
    if now > u64::MAX - by {
        u64::MAX
    } else {
        now + by
    }
}

/// The time from `then` to `now`; none where `then` lies ahead.
pub open spec fn since(now: u64, then: u64) -> u64 {
    if now >= then {
        (now - then) as u64
    } else {
        0
    }
}

/// The time from `then` to `now`.
pub fn elapsed(now: u64, then: u64) -> (r: u64)
    ensures
        r == since(now, then),
{
    if now >= then {
        now - then
    } else {
        0
    }
}

impl CtlView {
    /// With the settings of a configuration.
    pub open spec fn configured(self, c: config::ConfigView) -> CtlView {
        CtlView {
            edge_dwell_ms: c.edge_dwell_ms,
            mac_shortcuts: c.mac_shortcuts,
            win_mods: model::modifiers_of(c),
            tablet_edge: model::edge_setting(c.tablet_edge),
            ..self
        }
    }

    /// After the router asked for something.
    pub open spec fn told(self, a: crate::engine::action::ActionView, now: u64) -> CtlView {
        match a {
            crate::engine::action::ActionView::EnterForwarding => CtlView {
                forwarding: true,
                ..self
            },
            crate::engine::action::ActionView::ExitForwarding => CtlView {
                forwarding: false,
                cooldown_until: later(now, RETURN_COOLDOWN),
                ..self
            },
            crate::engine::action::ActionView::Cooldown => CtlView {
                cooldown_until: later(now, RETURN_COOLDOWN),
                ..self
            },
            crate::engine::action::ActionView::Portals(p) => CtlView { portals: p, ..self },
            crate::engine::action::ActionView::Blocked(b) => CtlView { blocked: b, ..self },
            crate::engine::action::ActionView::Driven(d) => CtlView { driven: d, ..self },
            crate::engine::action::ActionView::SharedHotkey(h) => CtlView {
                shared_hotkey: h,
                ..self
            },
            crate::engine::action::ActionView::EdgeDwell(ms) => CtlView {
                edge_dwell_ms: ms,
                ..self
            },
            _ => self,
        }
    }
}

impl CaptureCtl {
    /// Nothing is armed, nothing is blocked, input is local; no tablet is placed, and to a
    /// Windows peer control sends Ctrl, option Win and command Ctrl.
    pub fn new(bounds: Rect, now: u64) -> (r: CaptureCtl)
        ensures
            r@ == (CtlView {
                forwarding: false,
                driven: false,
                portals: seq![],
                cooldown_until: now,
                shared_hotkey: false,
                edge_dwell_ms: 0,
                blocked: None,
                tablet_edge: None,
                mac_shortcuts: true,
                win_mods: (0xE0, 0xE3, 0xE0),
                bounds,
            }),
    {
        let r: CaptureCtl = CaptureCtl {
            forwarding: false,
            driven: false,
            portals: Vec::new(),
            cooldown_until: now,
            shared_hotkey: false,
            edge_dwell_ms: 0,
            blocked: None,
            tablet_edge: None,
            mac_shortcuts: true,
            win_mods: (0xE0, 0xE3, 0xE0),
            bounds,
        };
        assert(r@.portals =~= seq![]);
        r
    }

    /// Takes over the settings of a configuration.
    pub fn configure(&mut self, cfg: &Config)
        ensures
            final(self)@ == old(self)@.configured(cfg@),
    {
        self.edge_dwell_ms = cfg.edge_dwell_ms;
        self.mac_shortcuts = cfg.mac_shortcuts;
        self.win_mods = modifier_settings(cfg);
        self.tablet_edge = tablet_setting(cfg);
    }

    /// Takes in what the router asked for.
    pub fn tell(&mut self, a: &Action, now: u64)
        ensures
            final(self)@ == old(self)@.told(a@, now),
    {
        match a {
            Action::EnterForwarding => {
                self.forwarding = true;
            },
            Action::ExitForwarding => {
                self.forwarding = false;
                self.cooldown_until = later_than(now, RETURN_COOLDOWN);
            },
            Action::Cooldown => {
                self.cooldown_until = later_than(now, RETURN_COOLDOWN);
            },
            Action::Portals(p) => {
                self.portals = copy_edges(p);
            },
            Action::Blocked(b) => {
                self.blocked = *b;
            },
            Action::Driven(d) => {
                self.driven = *d;
            },
            Action::SharedHotkey(h) => {
                self.shared_hotkey = *h;
            },
            Action::EdgeDwell(ms) => {
                self.edge_dwell_ms = *ms;
            },
            _ => {},
        }
    }
}

/// The capture side and the router go by the same settings, when they start and after the
/// configuration was read again.
pub proof fn law_the_control_goes_by_the_routers_settings(
    ctl: CtlView,
    s: model::RouterView,
    c: config::ConfigView,
    bounds: Rect,
    macos: bool,
)
    ensures
        ({
            let (k, a, b) = (
                ctl.configured(c),
                model::RouterView::started(c, bounds, macos),
                s.reloaded(c),
            );
            &&& k.mac_shortcuts == a.mac_shortcuts && k.mac_shortcuts == b.mac_shortcuts
            &&& k.win_mods == a.win_mods && k.win_mods == b.win_mods
            &&& k.tablet_edge == a.tablet_edge && k.tablet_edge == b.tablet_edge
        }),
{
}

/// A copy of some edges.
pub fn copy_edges(v: &Vec<Edge>) -> (r: Vec<Edge>)
    ensures
        r@ == v@,
{
    let mut out: Vec<Edge> = Vec::new();
    for i in 0..v.len()
        invariant
            out@ =~= v@.take(i as int),
    {
        out.push(v[i]);
    }
    assert(v@.take(v@.len() as int) =~= v@);
    out
}

/// Is an edge among these?
pub fn has_edge(v: &Vec<Edge>, e: Edge) -> (r: bool)
    ensures
        r == v@.contains(e),
{
    for i in 0..v.len()
        invariant
            forall|j: int| 0 <= j < i ==> v@[j] != e,
    {
        if v[i] == e {
            return true;
        }
    }
    false
}

/// The bounding box of all monitors, top-left origin; a common desktop where there are
/// none.
pub open spec fn desktop_of(mons: Seq<Rect>) -> Rect {
    match panel::union_of(mons) {
        Some(u) => u,
        None => Rect { x: 0, y: 0, w: 1920, h: 1080 },
    }
}

/// The bounding box of all monitors.
pub fn desktop_bounds(mons: &Vec<Rect>) -> (r: Rect)
    ensures
        r == desktop_of(mons@),
{
    match union_rect(mons.as_slice()) {
        Some(u) => u,
        None => Rect { x: 0, y: 0, w: 1920, h: 1080 },
    }
}

/// The box holds the whole of each of some monitors.
pub open spec fn encloses(r: Rect, mons: Seq<Rect>) -> bool {
    forall|i: int|
        0 <= i < mons.len() ==> {
            let m = #[trigger] mons[i];
            r.x <= m.x && r.y <= m.y && m.end_x() <= r.end_x() && m.end_y() <= r.end_y()
        }
}

/// Each side of the box is a side of one of some monitors.
pub open spec fn is_tight(r: Rect, mons: Seq<Rect>) -> bool {
    &&& exists|i: int| 0 <= i < mons.len() && (#[trigger] mons[i]).x == r.x
    &&& exists|i: int| 0 <= i < mons.len() && (#[trigger] mons[i]).y == r.y
    &&& exists|i: int| 0 <= i < mons.len() && (#[trigger] mons[i]).end_x() == r.end_x()
    &&& exists|i: int| 0 <= i < mons.len() && (#[trigger] mons[i]).end_y() == r.end_y()
}

/// Whether from the left of any monitor to the right of any other, and from the top to the
/// bottom, is a size that a box can have.
pub open spec fn spans_fit(mons: Seq<Rect>) -> bool {
    forall|i: int, j: int|
        0 <= i < mons.len() && 0 <= j < mons.len() ==> {
            let (a, b) = (#[trigger] mons[i], #[trigger] mons[j]);
            b.end_x() - a.x <= i32::MAX && b.end_y() - a.y <= i32::MAX
        }
}

/// The desktop is the smallest box around all monitors: it holds each of them, and each of
/// its sides is a side of one of them, so that no box that holds them all is smaller.
pub proof fn law_desktop_is_the_smallest_box(mons: Seq<Rect>)
    requires
        mons.len() > 0,
        spans_fit(mons),
    ensures
        encloses(desktop_of(mons), mons),
        is_tight(desktop_of(mons), mons),
        forall|b: Rect| encloses(b, mons) ==> #[trigger] encloses(b, seq![desktop_of(mons)]),
{
    panel::lemma_extent(mons);
    let e = panel::extent_of(mons);
    let r = desktop_of(mons);
    let l = choose|i: int| 0 <= i < mons.len() && (#[trigger] mons[i]).x == e.x0;
    let t = choose|i: int| 0 <= i < mons.len() && (#[trigger] mons[i]).y == e.y0;
    let f = choose|i: int| 0 <= i < mons.len() && (#[trigger] mons[i]).end_x() == e.x1;
    let b = choose|i: int| 0 <= i < mons.len() && (#[trigger] mons[i]).end_y() == e.y1;
    assert(mons[f].end_x() - mons[l].x <= i32::MAX);
    assert(mons[b].end_y() - mons[t].y <= i32::MAX);
    assert(mons[l].end_x() <= e.x1 && mons[t].end_y() <= e.y1);
    assert(r.end_x() == e.x1 && r.end_y() == e.y1);
    assert(mons[l].x == r.x && mons[t].y == r.y);
    assert forall|b: Rect| encloses(b, mons) implies #[trigger] encloses(b, seq![r]) by {
        assert(b.x <= mons[l].x && b.y <= mons[t].y);
        assert(mons[f].end_x() <= b.end_x());
    }
}

/// The first of some edges that the point touches.
pub open spec fn touched_of(edges: Seq<Edge>, bounds: Rect, x: int, y: int) -> Option<Edge>
    decreases edges.len(),
{
    if edges.len() == 0 {
        None
    } else if layout::at_edge(bounds, edges[0], x, y) {
        Some(edges[0])
    } else {
        touched_of(edges.skip(1), bounds, x, y)
    }
}

/// The first of some edges that the point touches.
pub fn touched(edges: &Vec<Edge>, bounds: Rect, x: i32, y: i32) -> (r: Option<Edge>)
    ensures
        r == touched_of(edges@, bounds, x as int, y as int),
{
    assert(edges@.skip(0) =~= edges@);
    for i in 0..edges.len()
        invariant
            touched_of(edges@, bounds, x as int, y as int) == touched_of(
                edges@.skip(i as int),
                bounds,
                x as int,
                y as int,
            ),
    {
        let e: Edge = edges[i];
        if touches_edge(bounds, e, x, y) {
            return Some(e);
        }
        assert(edges@.skip(i as int).skip(1) =~= edges@.skip(i + 1));
    }
    None
}

/// Only armed edges trigger, and only where the cursor is.
pub proof fn law_only_armed_edges_trigger(edges: Seq<Edge>, bounds: Rect, x: int, y: int)
    ensures
        match touched_of(edges, bounds, x, y) {
            Some(e) => edges.contains(e) && layout::at_edge(bounds, e, x, y),
            None => forall|i: int|
                0 <= i < edges.len() ==> !layout::at_edge(bounds, #[trigger] edges[i], x, y),
        },
    decreases edges.len(),
{
    if edges.len() > 0 {
        if layout::at_edge(bounds, edges[0], x, y) {
            assert(edges.contains(edges[0]));
        } else {
            law_only_armed_edges_trigger(edges.skip(1), bounds, x, y);
            match touched_of(edges.skip(1), bounds, x, y) {
                Some(e) => {
                    let i = choose|i: int| 0 <= i < edges.skip(1).len() && edges.skip(1)[i] == e;
                    assert(edges[i + 1] == e);
                },
                None => {
                    assert forall|i: int| 0 <= i < edges.len() implies !layout::at_edge(
                        bounds,
                        #[trigger] edges[i],
                        x,
                        y,
                    ) by {
                        if i > 0 {
                            assert(edges[i] == edges.skip(1)[i - 1]);
                        }
                    }
                },
            }
        }
    }
}

// ---------------------------------------------------------------- panic ----

/// The last two presses of Esc.
#[derive(Clone, Copy, Debug, PartialEq, Eq, Structural)]
pub struct Escape {
    pub first: Option<u64>,
    pub second: Option<u64>,
}

/// A press was recent.
pub open spec fn recent_press(p: Option<u64>, now: u64) -> bool {
    match p {
        Some(t) => since(now, t) < PANIC_WINDOW,
        None => false,
    }
}

impl Escape {
    /// Nothing was pressed.
    pub open spec fn none() -> Escape {
        Escape { first: None, second: None }
    }

    /// A press now is the third within the window.
    pub open spec fn hits(self, now: u64) -> bool {
        recent_press(self.first, now) && recent_press(self.second, now)
    }

    /// After a press.
    pub open spec fn pressed(self, now: u64) -> Escape {
        if self.hits(now) {
            Escape::none()
        } else {
            Escape { first: self.second, second: Some(now) }
        }
    }

    /// Nothing was pressed.
    pub fn new() -> (r: Escape)
        ensures
            r == Escape::none(),
    {
        Escape { first: None, second: None }
    }

    /// Esc was pressed: is it the third time within the window? Triple-Esc yanks input
    /// back to the host even if the remote side is wedged.
    pub fn press(&mut self, now: u64) -> (r: bool)
        ensures
            r == old(self).hits(now),
            *final(self) == old(self).pressed(now),
    {
        let a: bool = match self.first {
            Some(t) => elapsed(now, t) < PANIC_WINDOW,
            None => false,
        };
        let b: bool = match self.second {
            Some(t) => elapsed(now, t) < PANIC_WINDOW,
            None => false,
        };
        if a && b {
            self.first = None;
            self.second = None;
            true
        } else {
            self.first = self.second;
            self.second = Some(now);
            false
        }
    }
}

/// Three presses within the window escape, no sooner: whatever went before that did not
/// itself escape, the press after two recent ones does.
pub proof fn law_third_press_escapes(e: Escape, t1: u64, t2: u64, t3: u64)
    requires
        t1 <= t2 <= t3,
        t3 - t1 < PANIC_WINDOW,
        !e.hits(t1),
        !e.pressed(t1).hits(t2),
    ensures
        e.pressed(t1).pressed(t2).hits(t3),
        e.pressed(t1).pressed(t2).pressed(t3) == Escape::none(),
{
}

/// Slow presses never escape: where two presses lie a window or more apart, the third
/// one does not escape.
pub proof fn law_slow_presses_stay(t1: u64, t2: u64, t3: u64)
    requires
        t1 <= t2 <= t3,
        t3 - t1 >= PANIC_WINDOW,
    ensures
        !Escape::none().hits(t1),
        !Escape::none().pressed(t1).hits(t2),
        !Escape::none().pressed(t1).pressed(t2).hits(t3),
{
}

// ---------------------------------------------------------------- guard ----

/// Watches the local cursor and, when it moves onto the "blocked" shared-monitor rect
/// (which is showing the peer), hands control to the peer.
#[derive(Clone, Copy, Debug, PartialEq, Eq)]
pub struct Guard {
    pub prev: (i32, i32),
    pub inside: bool,
    pub last_block: Option<Rect>,
}

/// A handover: where the cursor entered the panel, as fractions across it, and where
/// the local cursor is parked, just outside the side that it came in through.
#[derive(Clone, Copy, Debug, PartialEq, Eq)]
pub struct Handover {
    pub fx: F32,
    pub fy: F32,
    pub park: (i32, i32),
}

/// The handover of an entry into a rect.
pub open spec fn handover_of(b: Rect, prev: (i32, i32), cur: (i32, i32)) -> Handover {
    let (fx, fy) = layout::entry_fractions(b, prev, cur);
    let (px, py) = layout::skipped(
        b,
        cur.0 as int,
        cur.1 as int,
        prev.0 - cur.0,
        prev.1 - cur.1,
    );
    Handover { fx, fy, park: (panel::coord(px) as i32, panel::coord(py) as i32) }
}

impl Guard {
    /// After one look at the cursor, and the handover that it asks for. Only a real
    /// outside-to-inside move hands over: while input is forwarded or this desk is
    /// driven, and where the block has just appeared or moved, the cursor did not MOVE
    /// onto the panel, wherever it is.
    pub open spec fn looked(
        self,
        busy: bool,
        blocked: Option<Rect>,
        cur: (i32, i32),
    ) -> (Guard, Option<Handover>) {
        if busy {
            (Guard { prev: cur, inside: true, ..self }, None)
        } else {
            match blocked {
                None => (Guard { prev: cur, inside: false, last_block: None }, None),
                Some(b) => {
                    let on = b.holds(cur.0 as int, cur.1 as int);
                    if self.last_block != Some(b) {
                        (Guard { prev: cur, inside: on, last_block: Some(b) }, None)
                    } else if !on {
                        (Guard { prev: cur, inside: false, ..self }, None)
                    } else if self.inside {
                        (self, None)
                    } else {
                        let h = handover_of(b, self.prev, cur);
                        (Guard { prev: h.park, inside: true, ..self }, Some(h))
                    }
                },
            }
        }
    }

    /// A guard that starts with the cursor here.
    pub fn new(cursor: (i32, i32)) -> (r: Guard)
        ensures
            r == (Guard { prev: cursor, inside: false, last_block: None }),
    {
        Guard { prev: cursor, inside: false, last_block: None }
    }

    /// One look at the cursor.
    pub fn look(&mut self, ctl: &CaptureCtl, cur: (i32, i32)) -> (r: Option<Handover>)
        ensures
            (*final(self), r) == old(self).looked(
                ctl@.forwarding || ctl@.driven,
                ctl@.blocked,
                cur,
            ),
    {
        if ctl.forwarding || ctl.driven {
            self.prev = cur;
            self.inside = true;
            return None;
        }
        let b: Rect = match ctl.blocked {
            Some(b) => b,
            None => {
                self.prev = cur;
                self.inside = false;
                self.last_block = None;
                return None;
            },
        };
        let on: bool = point_in(b, cur.0, cur.1);
        if self.last_block != Some(b) {
            self.last_block = Some(b);
            self.inside = on;
            self.prev = cur;
            return None;
        }
        if !on {
            self.inside = false;
            self.prev = cur;
            return None;
        }
        if self.inside {
            return None;
        }
        self.inside = true;
        let (fx, fy): (F32, F32) = entry_on_rect(b, self.prev, cur);
        let (px, py): (i64, i64) = skip_past(
            b,
            cur.0,
            cur.1,
            self.prev.0 as i64 - cur.0 as i64,
            self.prev.1 as i64 - cur.1 as i64,
        );
        let h: Handover = Handover { fx, fy, park: (to_coord(px), to_coord(py)) };
        self.prev = h.park;
        Some(h)
    }
}

/// Only a real entry hands over: the desk is neither forwarding nor driven, the block
/// was there at the last look, the cursor was outside of it then and is inside now.
pub proof fn law_only_an_entry_hands_over(
    g: Guard,
    busy: bool,
    blocked: Option<Rect>,
    cur: (i32, i32),
)
    requires
        g.looked(busy, blocked, cur).1 is Some,
    ensures
        !busy,
        !g.inside,
        g.last_block == blocked,
        blocked matches Some(b) && b.holds(cur.0 as int, cur.1 as int),
{
}

/// A cursor that rests on the panel hands over at most once, and never because the
/// block appeared under it, or because the peer gave up this desk with the cursor still
/// there: after a look that found the panel blocked or the desk busy, the next look that
/// finds the cursor in the same place hands nothing over.
pub proof fn law_a_resting_cursor_stays(
    g: Guard,
    busy: bool,
    blocked: Option<Rect>,
    cur: (i32, i32),
    busy_after: bool,
)
    requires
        blocked is Some,
    ensures
        g.looked(busy, blocked, cur).0.looked(busy_after, blocked, cur).1 is None,
{
}

/// The cursor is parked off the panel that it entered: a handover leaves the local
/// cursor outside of the blocked rect, where its far edges are coordinates.
pub proof fn law_parked_off_the_panel(b: Rect, prev: (i32, i32), cur: (i32, i32))
    requires
        b.solid(),
        b.x > i32::MIN,
        b.y > i32::MIN,
        b.holds(cur.0 as int, cur.1 as int),
    ensures
        ({
            let p = handover_of(b, prev, cur).park;
            !b.holds(p.0 as int, p.1 as int)
        }),
{
}

} // verus!
