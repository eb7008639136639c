//! One session: the greeting, what each message means, the heartbeat, and the registry of
//! live sessions.
use vstd::prelude::*;

use crate::config::{copy_rects, same_rects, Config, Peer};
use crate::engine::model::SessionEvent;
use crate::layout::Edge;
use crate::proto::{Intro, Msg, Rect, PROTOCOL_VERSION};
use crate::text::{self, joined, same_text};

verus! {

/// A session that is silent for this long is dead.
pub const SESSION_TIMEOUT_MS: u64 = 15_000;

/// After control came home, no crossing for this long.
pub const RETURN_COOLDOWN_MS: u64 = 300;

/// Fast-ping cadence that keeps a Wi-Fi radio out of doze while input is (or is about
/// to be) flowing.
pub const HEARTBEAT_INTERVAL_MS: u64 = 8;

/// Keep the radio hot this long after forwarding ends.
pub const HEARTBEAT_TAIL_MS: u64 = 60_000;

/// Idle tick: how often the heartbeat re-checks whether to go fast.
pub const HEARTBEAT_TICK_MS: u64 = 100;

/// One ping is sent every tenth idle tick.
pub const TICKS_PER_PING: u32 = 10;

/// Pre-warm distance: the cursor this close to a portal edge (or the shared panel)
/// starts fast pings.
pub const WARM_EDGE_PX: i64 = 100;

/// What the session does about a message.
#[derive(Debug)]
pub enum Handling {
    /// Hand it to the router.
    Report(SessionEvent),
    /// Answer it.
    Answer(Msg),
    /// A pong: measure the round trip of this ping.
    RoundTrip(u64),
    /// The peer's desktop geometry changed: cache it and let the router re-derive.
    Screens(Vec<Rect>),
    /// Mirror the clipboard.
    Clipboard(String),
    /// Open a URL.
    OpenUrl(String),
    /// Remember the address and reconnect there.
    Reconnect(String),
    /// End the session.
    Close,
}

/// What the session with `name` does about a message: it consumes what is its own
/// business, and hands everything else to the router, notably the messages by which
/// the peer drives this machine.
pub fn on_message(name: &str, msg: Msg) -> (r: Handling)
    ensures
        match msg {
            Msg::CursorLeft { edge, ratio } => {
                &&& r matches Handling::Report(SessionEvent::CursorLeft { name: n, edge: e, ratio: q })
                &&& n@ == name@ && e == edge && q == ratio
            },
            Msg::SharedCross { fx, fy } => {
                &&& r matches Handling::Report(SessionEvent::SharedCross { name: n, fx: x, fy: y })
                &&& n@ == name@ && x == fx && y == fy
            },
            Msg::SharedRequest { owner } => {
                &&& r matches Handling::Report(SessionEvent::SharedRequest { name: n, owner: o })
                &&& n@ == name@ && o == owner
            },
            Msg::Pong(seq) => r == Handling::RoundTrip(seq),
            Msg::Ping(n) => r == Handling::Answer(Msg::Pong(n)),
            Msg::Monitors { monitors, .. } => r == Handling::Screens(monitors),
            Msg::Clipboard { text } => r == Handling::Clipboard(text),
            Msg::OpenUrl { url } => r == Handling::OpenUrl(url),
            Msg::UseAddr { addr } => r == Handling::Reconnect(addr),
            Msg::Bye => r is Close,
            _ => {
                &&& r matches Handling::Report(SessionEvent::Inbound { name: n, msg: m })
                &&& n@ == name@ && m == msg
            },
        },
{
    match msg {
        Msg::CursorLeft { edge, ratio } => Handling::Report(
            SessionEvent::CursorLeft { name: name.to_owned(), edge, ratio },
        ),
        Msg::SharedCross { fx, fy } => Handling::Report(
            SessionEvent::SharedCross { name: name.to_owned(), fx, fy },
        ),
        Msg::SharedRequest { owner } => Handling::Report(
            SessionEvent::SharedRequest { name: name.to_owned(), owner },
        ),
        Msg::Pong(seq) => Handling::RoundTrip(seq),
        Msg::Ping(n) => Handling::Answer(Msg::Pong(n)),
        Msg::Monitors { screen, monitors } => Handling::Screens(monitors),
        Msg::Clipboard { text } => Handling::Clipboard(text),
        Msg::OpenUrl { url } => Handling::OpenUrl(url),
        Msg::UseAddr { addr } => Handling::Reconnect(addr),
        Msg::Bye => Handling::Close,
        other => Handling::Report(SessionEvent::Inbound { name: name.to_owned(), msg: other }),
    }
}

/// Why a greeting was refused.
#[derive(Debug)]
pub enum Refusal {
    /// The peer speaks another version.
    Version(u16),
    /// Another message than the expected one came.
    Unexpected(Msg),
    /// No such peer is paired.
    UnknownPeer(String),
    /// Pairing is only served by its own command: a running machine must never
    /// silently accept new devices.
    PairingWhileRunning,
}

/// What a Hello says about the machine that dialed.
#[derive(Debug)]
pub struct Greeting {
    pub os: String,
    pub screen: Rect,
    pub monitors: Vec<Rect>,
}

/// The text about a version that is not this one's.
pub open spec fn version_text(version: u16) -> Seq<char> {
    "protocol version mismatch: "@ + text::decimal_of(version as nat) + " != "@ + text::decimal_of(
        PROTOCOL_VERSION as nat,
    )
}

/// The text about a version that is not this one's.
pub fn version_mismatch(version: u16) -> (r: String)
    ensures
        r@ == version_text(version),
{
    let a: String = joined("protocol version mismatch: ", text::decimal(version as u64).as_str());
    joined(joined(a.as_str(), " != ").as_str(), text::decimal(PROTOCOL_VERSION as u64).as_str())
}

/// Takes the first message of a machine that dialed: a Hello of this version.
pub fn accept_hello(msg: Msg) -> (r: Result<Greeting, Refusal>)
    ensures
        match msg {
            Msg::Hello { version, name, os, screen, monitors } => if version == PROTOCOL_VERSION {
                r matches Ok(g) && g.os == os && g.screen == screen && g.monitors == monitors
            } else {
                r == Err::<Greeting, Refusal>(Refusal::Version(version))
            },
            _ => r == Err::<Greeting, Refusal>(Refusal::Unexpected(msg)),
        },
{
    match msg {
        Msg::Hello { version, name, os, screen, monitors } => {
            if version == PROTOCOL_VERSION {
                Ok(Greeting { os, screen, monitors })
            } else {
                Err(Refusal::Version(version))
            }
        },
        other => Err(Refusal::Unexpected(other)),
    }
}

/// Takes the reply to a Hello: a Welcome of this version, with this machine's own
/// edges that lead to the other one.
pub fn accept_welcome(msg: Msg) -> (r: Result<Vec<Edge>, Refusal>)
    ensures
        match msg {
            Msg::Welcome { version, name, portal_edges } => if version == PROTOCOL_VERSION {
                r == Ok::<Vec<Edge>, Refusal>(portal_edges)
            } else {
                r == Err::<Vec<Edge>, Refusal>(Refusal::Version(version))
            },
            _ => r == Err::<Vec<Edge>, Refusal>(Refusal::Unexpected(msg)),
        },
{
    match msg {
        Msg::Welcome { version, name, portal_edges } => {
            if version == PROTOCOL_VERSION {
                Ok(portal_edges)
            } else {
                Err(Refusal::Version(version))
            }
        },
        other => Err(Refusal::Unexpected(other)),
    }
}

/// The paired peer that an introduction names.
pub fn identify<'a>(cfg: &'a Config, intro: &Intro) -> (r: Result<&'a Peer, Refusal>)
    ensures
        match intro {
            Intro::Pair => r matches Err(e) && e is PairingWhileRunning,
            Intro::Session { name } => match crate::config::peer_index(cfg@.peers, name@, 0) {
                Some(i) => r matches Ok(p) && p@ == cfg@.peers[i] && p@.name == name@,
                None => r matches Err(Refusal::UnknownPeer(n)) && n@ == name@,
            },
        },
{
    match intro {
        Intro::Pair => Err(Refusal::PairingWhileRunning),
        Intro::Session { name } => match cfg.peer(name.as_str()) {
            Some(p) => Ok(p),
            None => Err(Refusal::UnknownPeer(name.clone())),
        },
    }
}

/// How eagerly pings are sent.
#[derive(Clone, Copy, Debug, PartialEq, Eq, Structural)]
pub enum Cadence {
    Always,
    Off,
    Adaptive,
}

/// The cadence that a setting names.
pub fn cadence(setting: &str) -> (r: Cadence)
    ensures
        r == (if setting@ == "always"@ {
            Cadence::Always
        } else if setting@ == "off"@ {
            Cadence::Off
        } else {
            Cadence::Adaptive
        }),
{
    if same_text(setting, "always") {
        Cadence::Always
    } else if same_text(setting, "off") {
        Cadence::Off
    } else {
        Cadence::Adaptive
    }
}

/// A point in time `ms` milliseconds after another.
pub open spec fn after(now: u64, ms: u64) -> u64 {
    if now + ms > u64::MAX {
        u64::MAX
    } else {
        (now + ms) as u64
    }
}

fn later(now: u64, ms: u64) -> (r: u64)
    ensures
        r == after(now, ms),
{
    if now > u64::MAX - ms {
        u64::MAX
    } else {
        now + ms
    }
}

/// The heartbeat of a session. The cadence is adaptive: one ping a second while idle,
/// but 125 a second while forwarding, near a portal edge, or for a while after.
#[derive(Clone, Copy, Debug, PartialEq, Eq, Structural)]
pub struct Heartbeat {
    pub cadence: Cadence,
    /// The number of the last ping.
    pub seq: u64,
    /// Fast pings until then.
    pub warm_until: u64,
    pub idle_ticks: u32,
    /// The current round is a fast one.
    pub fast: bool,
}

impl Heartbeat {
    pub open spec fn wf(self) -> bool {
        self.idle_ticks < TICKS_PER_PING
    }

    /// A heartbeat that has not pinged yet.
    pub fn new(cadence: Cadence, now: u64) -> (r: Heartbeat)
        ensures
            r.wf(),
            r == (Heartbeat { cadence, seq: 0, warm_until: now, idle_ticks: 0, fast: false }),
    {
        Heartbeat { cadence, seq: 0, warm_until: now, idle_ticks: 0, fast: false }
    }

    /// Begins a round: how long to wait before it ends.
    pub fn begin(&mut self, now: u64, forwarding: bool) -> (r: u64)
        requires
            old(self).wf(),
        ensures
            final(self).wf(),
            ({
                let warm = if forwarding {
                    after(now, HEARTBEAT_TAIL_MS)
                } else {
                    old(self).warm_until
                };
                let fast = match old(self).cadence {
                    Cadence::Always => true,
                    Cadence::Off => false,
                    Cadence::Adaptive => forwarding || now < warm,
                };
                *final(self) == (Heartbeat { warm_until: warm, fast, ..*old(self) })
            }),
            r == if final(self).fast {
                HEARTBEAT_INTERVAL_MS
            } else {
                HEARTBEAT_TICK_MS
            },
    {
        if forwarding {
            self.warm_until = later(now, HEARTBEAT_TAIL_MS);
        }
        self.fast = match self.cadence {
            Cadence::Always => true,
            Cadence::Off => false,
            Cadence::Adaptive => forwarding || now < self.warm_until,
        };
        if self.fast {
            HEARTBEAT_INTERVAL_MS
        } else {
            HEARTBEAT_TICK_MS
        }
    }

    /// Ends a round: the number of the ping that is to be sent, if one is. `near` tells
    /// whether a crossing may be imminent, which warms the radio up.
    pub fn end(&mut self, now: u64, near: bool) -> (r: Option<u64>)
        requires
            old(self).wf(),
            old(self).seq < u64::MAX,
        ensures
            final(self).wf(),
            ({
                let o = *old(self);
                let warm = if !o.fast && o.cadence != Cadence::Off && near {
                    after(now, HEARTBEAT_TAIL_MS)
                } else {
                    o.warm_until
                };
                if o.fast || o.idle_ticks + 1 >= TICKS_PER_PING {
                    &&& r == Some((o.seq + 1) as u64)
                    &&& *final(self) == (Heartbeat {
                        seq: (o.seq + 1) as u64,
                        warm_until: warm,
                        idle_ticks: 0,
                        ..o
                    })
                } else {
                    &&& r is None
                    &&& *final(self) == (Heartbeat {
                        warm_until: warm,
                        idle_ticks: (o.idle_ticks + 1) as u32,
                        ..o
                    })
                }
            }),
    {
        if !self.fast {
            if self.cadence != Cadence::Off && near {
                // The radio wakes while the cursor is still approaching the edge, so
                // the crossing itself is hot.
                self.warm_until = later(now, HEARTBEAT_TAIL_MS);
            }
            self.idle_ticks = self.idle_ticks + 1;
            if self.idle_ticks < TICKS_PER_PING {
                return None;
            }
        }
        self.idle_ticks = 0;
        self.seq = self.seq + 1;
        Some(self.seq)
    }
}

/// A ping that is older than this, in nanoseconds, is a dead measurement.
pub const PING_KEPT: u64 = 5_000_000_000;

/// The pings that were not answered yet, with the time at which each was sent, in
/// nanoseconds.
#[derive(Debug)]
pub struct Pending {
    pub sent: Vec<(u64, u64)>,
}

/// Every ping but this one.
pub open spec fn not_ping(seq: u64) -> spec_fn((u64, u64)) -> bool {
    |p: (u64, u64)| p.0 != seq
}

/// The pings sent in the last five seconds.
pub open spec fn recent(now: u64) -> spec_fn((u64, u64)) -> bool {
    |p: (u64, u64)| p.1 + PING_KEPT > now
}

/// The pings that are waited for once one more was sent: beyond 64 of them, those of
/// more than five seconds ago are dead measurements.
pub open spec fn with_ping(sent: Seq<(u64, u64)>, seq: u64, now: u64) -> Seq<(u64, u64)> {
    let all = sent.filter(not_ping(seq)).push((seq, now));
    if all.len() > 64 {
        all.filter(recent(now))
    } else {
        all
    }
}

/// When the first ping with this number, from `from` on, was sent.
pub open spec fn sent_at(sent: Seq<(u64, u64)>, seq: u64, from: int) -> Option<u64>
    decreases sent.len() - from,
{
    if from < 0 || from >= sent.len() {
        None
    } else if sent[from].0 == seq {
        Some(sent[from].1)
    } else {
        sent_at(sent, seq, from + 1)
    }
}

/// The pings without one number.
fn drop_ping(v: &Vec<(u64, u64)>, seq: u64) -> (r: Vec<(u64, u64)>)
    ensures
        r@ == v@.filter(not_ping(seq)),
{
    let mut out: Vec<(u64, u64)> = Vec::new();
    assert(v@.take(0).filter(not_ping(seq)) =~= seq![]) by {
        reveal(Seq::filter);
    }
    for i in 0..v.len()
        invariant
            out@ == v@.take(i as int).filter(not_ping(seq)),
    {
        proof {
            let t = v@.take(i + 1);
            assert(t.drop_last() =~= v@.take(i as int));
            assert(t.last() == v@[i as int]);
            reveal(Seq::filter);
        }
        let p: (u64, u64) = v[i];
        if p.0 != seq {
            out.push(p);
        }
    }
    assert(v@.take(v@.len() as int) =~= v@);
    out
}

/// The pings of the last five seconds.
fn keep_recent(v: &Vec<(u64, u64)>, now: u64) -> (r: Vec<(u64, u64)>)
    ensures
        r@ == v@.filter(recent(now)),
{
    let mut out: Vec<(u64, u64)> = Vec::new();
    assert(v@.take(0).filter(recent(now)) =~= seq![]) by {
        reveal(Seq::filter);
    }
    for i in 0..v.len()
        invariant
            out@ == v@.take(i as int).filter(recent(now)),
    {
        proof {
            let t = v@.take(i + 1);
            assert(t.drop_last() =~= v@.take(i as int));
            assert(t.last() == v@[i as int]);
            reveal(Seq::filter);
        }
        let p: (u64, u64) = v[i];
        if now < PING_KEPT || p.1 > now - PING_KEPT {
            out.push(p);
        }
    }
    assert(v@.take(v@.len() as int) =~= v@);
    out
}

impl Pending {
    /// Nothing is waited for.
    pub fn new() -> (r: Pending)
        ensures
            r.sent@ == Seq::<(u64, u64)>::empty(),
    {
        Pending { sent: Vec::new() }
    }

    /// A ping was sent.
    pub fn note(&mut self, seq: u64, now: u64)
        ensures
            final(self).sent@ == with_ping(old(self).sent@, seq, now),
    {
        let mut all: Vec<(u64, u64)> = drop_ping(&self.sent, seq);
        all.push((seq, now));
        if all.len() > 64 {
            all = keep_recent(&all, now);
        }
        self.sent = all;
    }

    /// A pong came: when its ping was sent, if it was waited for. It no longer is.
    pub fn answer(&mut self, seq: u64) -> (r: Option<u64>)
        ensures
            r == sent_at(old(self).sent@, seq, 0),
            final(self).sent@ == old(self).sent@.filter(not_ping(seq)),
    {
        let mut found: Option<u64> = None;
        let mut i: usize = 0;
        while i < self.sent.len() && found.is_none()
            invariant
                i <= self.sent@.len(),
                found is None ==> sent_at(self.sent@, seq, 0) == sent_at(
                    self.sent@,
                    seq,
                    i as int,
                ),
                found is Some ==> sent_at(self.sent@, seq, 0) == found,
            decreases self.sent@.len() - i,
        {
            let p: (u64, u64) = self.sent[i];
            if p.0 == seq {
                found = Some(p.1);
            }
            i = i + 1;
        }
        self.sent = drop_ping(&self.sent, seq);
        found
    }
}

/// A pong is counted once: answering it takes its ping off the list.
pub proof fn law_pong_counts_once(sent: Seq<(u64, u64)>, seq: u64)
    ensures
        sent_at(sent.filter(not_ping(seq)), seq, 0) is None,
{
    let rest = sent.filter(not_ping(seq));
    assert forall|i: int| 0 <= i < rest.len() implies (#[trigger] rest[i]).0 != seq by {
        sent.lemma_filter_pred(not_ping(seq), i);
    }
    lemma_never_sent(rest, seq, 0);
}

proof fn lemma_never_sent(sent: Seq<(u64, u64)>, seq: u64, from: int)
    requires
        0 <= from,
        forall|i: int| 0 <= i < sent.len() ==> (#[trigger] sent[i]).0 != seq,
    ensures
        sent_at(sent, seq, from) is None,
    decreases sent.len() - from,
{
    if from < sent.len() {
        lemma_never_sent(sent, seq, from + 1);
    }
}

/// True while the cursor loiters within reach of an armed portal edge or the blocked
/// rect of the shared panel: a crossing may be imminent.
pub open spec fn is_near(
    portals: Seq<Edge>,
    b: Rect,
    blocked: Option<Rect>,
    x: int,
    y: int,
) -> bool {
    ||| exists|i: int| 0 <= i < portals.len() && near_edge(b, #[trigger] portals[i], x, y)
    ||| blocked matches Some(r) && r.x - WARM_EDGE_PX <= x < r.end_x() + WARM_EDGE_PX && r.y
        - WARM_EDGE_PX <= y < r.end_y() + WARM_EDGE_PX
}

/// The point lies within reach of an edge.
pub open spec fn near_edge(b: Rect, e: Edge, x: int, y: int) -> bool {
    match e {
        Edge::Left => x - b.x < WARM_EDGE_PX,
        Edge::Right => b.end_x() - x < WARM_EDGE_PX,
        Edge::Top => y - b.y < WARM_EDGE_PX,
        Edge::Bottom => b.end_y() - y < WARM_EDGE_PX,
    }
}

/// Does the cursor loiter near an armed portal edge or the blocked panel?
pub fn cursor_near_portal(
    portals: &[Edge],
    b: Rect,
    blocked: Option<Rect>,
    cursor: (i32, i32),
) -> (r: bool)
    ensures
        r == is_near(portals@, b, blocked, cursor.0 as int, cursor.1 as int),
{
    let x: i64 = cursor.0 as i64;
    let y: i64 = cursor.1 as i64;
    for i in 0..portals.len()
        invariant
            x == cursor.0,
            y == cursor.1,
            forall|j: int|
                0 <= j < i ==> !near_edge(b, #[trigger] portals@[j], x as int, y as int),
    {
        let close: bool = match portals[i] {
            Edge::Left => x - (b.x as i64) < WARM_EDGE_PX,
            Edge::Right => b.x as i64 + b.w as i64 - x < WARM_EDGE_PX,
            Edge::Top => y - (b.y as i64) < WARM_EDGE_PX,
            Edge::Bottom => b.y as i64 + b.h as i64 - y < WARM_EDGE_PX,
        };
        if close {
            assert(near_edge(b, portals@[i as int], x as int, y as int));
            return true;
        }
    }
    match blocked {
        Some(r) => x >= r.x as i64 - WARM_EDGE_PX && x < r.x as i64 + r.w as i64 + WARM_EDGE_PX && y
            >= r.y as i64 - WARM_EDGE_PX && y < r.y as i64 + r.h as i64 + WARM_EDGE_PX,
        None => false,
    }
}

/// How long to wait before the next attempt, in milliseconds: a second after a session
/// that worked, else twice as long as before, at most five seconds.
pub fn next_backoff(current: u64, worked: bool) -> (r: u64)
    ensures
        r == (if worked {
            1000u64
        } else if 2 * current < 5000 {
            (2 * current) as u64
        } else {
            5000u64
        }),
{
    if worked {
        1000
    } else if current < 2500 {
        current * 2
    } else {
        5000
    }
}

/// How long to wait before a peer is dialed, in milliseconds, given whether a session
/// with it is live and whether it is known; nothing where it is dialed at once.
pub fn dial_wait(live: bool, known: bool) -> (r: Option<u64>)
    ensures
        r == (if live {
            Some(1000u64)
        } else if !known {
            Some(5000u64)
        } else {
            None
        }),
{
    if live {
        Some(1000)
    } else if !known {
        Some(5000)
    } else {
        None
    }
}

/// What comes of an attempt to dial: how long to wait before the next one, in
/// milliseconds, and the link error that is shown until then. A session that worked and
/// ended is no failure.
pub fn after_dial(backoff: u64, failure: Option<String>) -> (r: (u64, String))
    ensures
        match failure {
            None => r.0 == 1000 && r.1@ == "session ended — reconnecting"@,
            Some(e) => r.0 == (if 2 * backoff < 5000 {
                2 * backoff
            } else {
                5000
            }) && r.1@ == e@,
        },
{
    match failure {
        None => (next_backoff(backoff, true), "session ended — reconnecting".to_owned()),
        Some(e) => (next_backoff(backoff, false), e),
    }
}

/// The link error while a session is moved to another address.
pub fn moving_text(addr: &str) -> (r: String)
    ensures
        r@ == "address changed — reconnecting via "@ + addr@,
{
    joined("address changed — reconnecting via ", addr)
}

/// Watches a desk's geometry: what was reported last, and the pair of geometry and
/// desired arrangement that was tried last.
#[derive(Debug)]
pub struct GeometryWatch {
    pub last: Vec<Rect>,
    pub tried: Option<(Vec<Rect>, Vec<Rect>)>,
}

impl GeometryWatch {
    pub open spec fn tried_view(self) -> Option<(Seq<Rect>, Seq<Rect>)> {
        match self.tried {
            Some((a, b)) => Some((a@, b@)),
            None => None,
        }
    }

    /// Starts with the geometry that the greeting carried.
    pub fn new(monitors: Vec<Rect>) -> (r: GeometryWatch)
        ensures
            r.last@ == monitors@,
            r.tried_view() is None,
    {
        GeometryWatch { last: monitors, tried: None }
    }

    /// Is the desired arrangement to be applied to this geometry? Once for each pair,
    /// so an OS that refuses cannot keep it retrying, but a NEW arrangement (or the OS
    /// forgetting again) is always tried.
    pub fn wants_arrangement(&mut self, monitors: &[Rect], desired: &[Rect]) -> (r: bool)
        ensures
            r == (desired@.len() > 0 && old(self).tried_view() != Some((monitors@, desired@))),
            final(self).last@ == old(self).last@,
            final(self).tried_view() == if r {
                Some((monitors@, desired@))
            } else {
                old(self).tried_view()
            },
    {
        if desired.len() == 0 {
            return false;
        }
        let same: bool = match &self.tried {
            Some((a, b)) => same_rects(a.as_slice(), monitors) && same_rects(b.as_slice(), desired),
            None => false,
        };
        if same {
            return false;
        }
        self.tried = Some((copy_rects(monitors), copy_rects(desired)));
        true
    }

    /// Is this geometry news? The monitor LIST is compared, not the bounding box: a
    /// monitor can move without changing the union.
    pub fn changed(&mut self, monitors: &[Rect]) -> (r: bool)
        ensures
            r == (monitors@ != old(self).last@),
            final(self).last@ == monitors@,
            final(self).tried_view() == old(self).tried_view(),
    {
        if same_rects(self.last.as_slice(), monitors) {
            return false;
        }
        self.last = copy_rects(monitors);
        true
    }
}

/// One live session.
#[derive(Debug)]
pub struct Entry {
    pub name: String,
    pub id: u64,
}

/// The live sessions. The id lets a session's cleanup remove ONLY its own entry: a
/// reconnect registers the successor first, and the old session's teardown must not
/// wipe it.
#[derive(Debug)]
pub struct Sessions {
    pub entries: Vec<Entry>,
    pub next: u64,
}

/// The live sessions by name.
pub open spec fn by_name(v: Seq<Entry>) -> Map<Seq<char>, u64>
    decreases v.len(),
{
    if v.len() == 0 {
        Map::empty()
    } else {
        by_name(v.drop_last()).insert(v.last().name@, v.last().id)
    }
}

/// The live sessions by name, and the next session's id.
#[verifier::ext_equal]
pub ghost struct SessionsView {
    pub live: Map<Seq<char>, u64>,
    pub next: u64,
}

impl View for Sessions {
    type V = SessionsView;

    open spec fn view(&self) -> SessionsView {
        SessionsView { live: by_name(self.entries@), next: self.next }
    }
}

/// No name is listed twice.
pub open spec fn distinct(v: Seq<Entry>) -> bool {
    forall|i: int, j: int|
        0 <= i < j < v.len() ==> (#[trigger] v[i]).name@ != (#[trigger] v[j]).name@
}

proof fn lemma_by_name(v: Seq<Entry>, name: Seq<char>)
    requires
        distinct(v),
    ensures
        by_name(v).dom().contains(name) <==> exists|i: int|
            0 <= i < v.len() && (#[trigger] v[i]).name@ == name,
        forall|i: int|
            0 <= i < v.len() && (#[trigger] v[i]).name@ == name ==> by_name(v)[name] == v[i].id,
    decreases v.len(),
{
    if v.len() > 0 {
        let rest = v.drop_last();
        assert forall|i: int, j: int| 0 <= i < j < rest.len() implies (#[trigger] rest[i]).name@ != (
        #[trigger] rest[j]).name@ by {
            assert(v[i].name@ != v[j].name@);
        }
        lemma_by_name(rest, name);
        if v.last().name@ != name {
            assert(by_name(v).dom().contains(name) <==> by_name(rest).dom().contains(name));
            assert forall|i: int| 0 <= i < v.len() && (#[trigger] v[i]).name@ == name implies by_name(
                v,
            )[name] == v[i].id by {
                assert(rest[i].name@ == name);
            }
            if exists|i: int| 0 <= i < v.len() && (#[trigger] v[i]).name@ == name {
                let i = choose|i: int| 0 <= i < v.len() && (#[trigger] v[i]).name@ == name;
                assert(rest[i].name@ == name);
            }
            if exists|i: int| 0 <= i < rest.len() && (#[trigger] rest[i]).name@ == name {
                let i = choose|i: int| 0 <= i < rest.len() && (#[trigger] rest[i]).name@ == name;
                assert(v[i].name@ == name);
            }
        } else {
            assert(v[v.len() - 1].name@ == name);
            assert forall|i: int| 0 <= i < v.len() && (#[trigger] v[i]).name@ == name implies i
                == v.len() - 1 by {
                if i < v.len() - 1 {
                    assert(v[i].name@ != v[v.len() - 1].name@);
                }
            }
        }
    }
}

proof fn lemma_removed_distinct(v: Seq<Entry>, at: int)
    requires
        distinct(v),
        0 <= at < v.len(),
    ensures
        distinct(v.remove(at)),
{
    let w = v.remove(at);
    assert forall|i: int, j: int| 0 <= i < j < w.len() implies (#[trigger] w[i]).name@ != (
    #[trigger] w[j]).name@ by {
        let a = if i < at {
            i
        } else {
            i + 1
        };
        let b = if j < at {
            j
        } else {
            j + 1
        };
        assert(v[a].name@ != v[b].name@);
    }
}

proof fn lemma_removed_at(v: Seq<Entry>, at: int, n: Seq<char>)
    requires
        distinct(v),
        0 <= at < v.len(),
    ensures
        by_name(v.remove(at)).dom().contains(n) <==> by_name(v).dom().contains(n) && n
            != v[at].name@,
        by_name(v.remove(at)).dom().contains(n) ==> by_name(v.remove(at))[n] == by_name(v)[n],
{
    let w = v.remove(at);
    lemma_removed_distinct(v, at);
    lemma_by_name(v, n);
    lemma_by_name(w, n);
    if by_name(w).dom().contains(n) {
        let i = choose|i: int| 0 <= i < w.len() && (#[trigger] w[i]).name@ == n;
        let a = if i < at {
            i
        } else {
            i + 1
        };
        assert(v[a].name@ == n);
        if a < at {
            assert(v[a].name@ != v[at].name@);
        } else {
            assert(v[at].name@ != v[a].name@);
        }
    }
    if by_name(v).dom().contains(n) && n != v[at].name@ {
        let a = choose|i: int| 0 <= i < v.len() && (#[trigger] v[i]).name@ == n;
        let i = if a < at {
            a
        } else {
            a - 1
        };
        assert(w[i].name@ == n);
    }
}

proof fn lemma_removed(v: Seq<Entry>, at: int)
    requires
        distinct(v),
        0 <= at < v.len(),
    ensures
        distinct(v.remove(at)),
        by_name(v.remove(at)) == by_name(v).remove(v[at].name@),
{
    let w = v.remove(at);
    lemma_removed_distinct(v, at);
    let gone = by_name(v).remove(v[at].name@);
    assert forall|n: Seq<char>| #[trigger] by_name(w).dom().contains(n) <==> gone.dom().contains(
        n,
    ) by {
        lemma_removed_at(v, at, n);
    }
    assert forall|n: Seq<char>| by_name(w).dom().contains(n) implies #[trigger] by_name(w)[n]
        == gone[n] by {
        lemma_removed_at(v, at, n);
    }
    assert(by_name(w).dom() =~= gone.dom());
    assert(by_name(w) =~= by_name(v).remove(v[at].name@));
}

impl Sessions {
    pub open spec fn wf(self) -> bool {
        distinct(self.entries@)
    }

    /// No session is live.
    pub fn new() -> (r: Sessions)
        ensures
            r.wf(),
            r@ == (SessionsView { live: Map::empty(), next: 1 }),
    {
        Sessions { entries: Vec::new(), next: 1 }
    }

    fn index_of(&self, name: &str) -> (r: Option<usize>)
        requires
            self.wf(),
        ensures
            match r {
                Some(i) => i < self.entries@.len() && self.entries@[i as int].name@ == name@
                    && self@.live.dom().contains(name@) && self@.live[name@] == self.entries@[i as int].id,
                None => !self@.live.dom().contains(name@),
            },
    {
        proof {
            lemma_by_name(self.entries@, name@);
        }
        for i in 0..self.entries.len()
            invariant
                self.wf(),
                forall|j: int| 0 <= j < i ==> (#[trigger] self.entries@[j]).name@ != name@,
                self@.live.dom().contains(name@) <==> exists|i: int|
                    0 <= i < self.entries@.len() && (#[trigger] self.entries@[i]).name@ == name@,
                forall|i: int|
                    0 <= i < self.entries@.len() && (#[trigger] self.entries@[i]).name@ == name@
                        ==> self@.live[name@] == self.entries@[i].id,
        {
            if same_text(self.entries[i].name.as_str(), name) {
                return Some(i);
            }
        }
        None
    }

    /// Registers a session with this peer, in place of an earlier one. Returns its id.
    pub fn open(&mut self, name: &str) -> (r: u64)
        requires
            old(self).wf(),
            old(self)@.next < u64::MAX,
        ensures
            final(self).wf(),
            r == old(self)@.next,
            final(self)@ == (SessionsView {
                live: old(self)@.live.insert(name@, r),
                next: (r + 1) as u64,
            }),
    {
        let id: u64 = self.next;
        self.next = self.next + 1;
        let ghost before = self.entries@;
        if let Some(i) = self.index_of(name) {
            let gone: Entry = self.entries.remove(i);
            proof {
                lemma_removed(before, i as int);
            }
        }
        let ghost rest = self.entries@;
        let e: Entry = Entry { name: name.to_owned(), id };
        self.entries.push(e);
        proof {
            lemma_by_name(rest, name@);
            assert(self.entries@.drop_last() =~= rest);
            assert forall|i: int, j: int| 0 <= i < j < self.entries@.len() implies (
            #[trigger] self.entries@[i]).name@ != (#[trigger] self.entries@[j]).name@ by {
                if j < rest.len() {
                    assert(rest[i].name@ != rest[j].name@);
                } else {
                    assert(rest[i].name@ != name@);
                }
            }
            assert(self@.live =~= old(self)@.live.insert(name@, id));
        }
        id
    }

    /// A session ended. Its entry goes, if it is still its own; returns whether it
    /// was.
    pub fn close(&mut self, name: &str, id: u64) -> (r: bool)
        requires
            old(self).wf(),
        ensures
            final(self).wf(),
            r == (old(self)@.live.dom().contains(name@) && old(self)@.live[name@] == id),
            final(self)@ == (SessionsView {
                live: closed(old(self)@.live, name@, id),
                ..old(self)@
            }),
    {
        match self.index_of(name) {
            Some(i) => {
                if self.entries[i].id != id {
                    return false;
                }
                proof {
                    lemma_removed(self.entries@, i as int);
                }
                let gone: Entry = self.entries.remove(i);
                true
            },
            None => false,
        }
    }

    /// Is a session with this peer live?
    pub fn contains(&self, name: &str) -> (r: bool)
        requires
            self.wf(),
        ensures
            r == self@.live.dom().contains(name@),
    {
        self.index_of(name).is_some()
    }

    /// The peers with a live session.
    pub fn names(&self) -> (r: Vec<String>)
        requires
            self.wf(),
        ensures
            forall|n: Seq<char>| text::texts(r@).contains(n) <==> self@.live.dom().contains(n),
            text::texts(r@).no_duplicates(),
    {
        let mut out: Vec<String> = Vec::new();
        let ghost all = self.entries@.map_values(|e: Entry| e.name@);
        for i in 0..self.entries.len()
            invariant
                all == self.entries@.map_values(|e: Entry| e.name@),
                text::texts(out@) =~= all.take(i as int),
        {
            proof {
                text::lemma_texts_push(out@, self.entries@[i as int].name);
            }
            out.push(self.entries[i].name.clone());
        }
        proof {
            assert(all.take(all.len() as int) =~= all);
            assert forall|i: int, j: int| 0 <= i < all.len() && 0 <= j < all.len() && i
                != j implies all[i] != all[j] by {
                let (a, b) = if i < j {
                    (i, j)
                } else {
                    (j, i)
                };
                assert(self.entries@[a].name@ != self.entries@[b].name@);
            }
            assert forall|n: Seq<char>| text::texts(out@).contains(n)
                <==> self@.live.dom().contains(n) by {
                lemma_by_name(self.entries@, n);
                if text::texts(out@).contains(n) {
                    let i = choose|i: int| 0 <= i < all.len() && all[i] == n;
                    assert(self.entries@[i].name@ == n);
                }
                if self@.live.dom().contains(n) {
                    let i = choose|i: int|
                        0 <= i < self.entries@.len() && (#[trigger] self.entries@[i]).name@ == n;
                    assert(all[i] == n);
                }
            }
        }
        out
    }
}

/// The live sessions once the session with this id ended.
pub open spec fn closed(m: Map<Seq<char>, u64>, name: Seq<char>, id: u64) -> Map<Seq<char>, u64> {
    if m.dom().contains(name) && m[name] == id {
        m.remove(name)
    } else {
        m
    }
}

/// The end of an old session leaves its successor in place: after a reconnect, closing
/// the session with the earlier id changes nothing.
pub proof fn law_old_session_leaves_its_successor(
    m: Map<Seq<char>, u64>,
    name: Seq<char>,
    first: u64,
    second: u64,
)
    requires
        first != second,
    ensures
        closed(m.insert(name, first).insert(name, second), name, first) == m.insert(
            name,
            first,
        ).insert(name, second),
        closed(m.insert(name, first).insert(name, second), name, second) == m.remove(name),
{
    let both = m.insert(name, first).insert(name, second);
    assert(both.remove(name) =~= m.remove(name));
}

/// The cursor is near a portal exactly when less than a hundred pixels part it from an armed
/// edge, or at most that many from the blocked panel.
pub proof fn law_near_is_within_a_hundred_pixels(
    portals: Seq<Edge>,
    b: Rect,
    x: int,
    y: int,
    i: int,
    r: Rect,
)
    requires
        0 <= i < portals.len(),
    ensures
        portals[i] == Edge::Left && x < b.x + 100 ==> is_near(portals, b, None, x, y),
        portals[i] == Edge::Right && x > b.x + b.w - 100 ==> is_near(portals, b, None, x, y),
        portals[i] == Edge::Top && y < b.y + 100 ==> is_near(portals, b, None, x, y),
        portals[i] == Edge::Bottom && y > b.y + b.h - 100 ==> is_near(portals, b, None, x, y),
        b.x + 100 <= x <= b.x + b.w - 100 && b.y + 100 <= y <= b.y + b.h - 100 ==> !is_near(
            portals,
            b,
            None,
            x,
            y,
        ),
        is_near(seq![], b, Some(r), x, y) == (r.x - 100 <= x < r.x + r.w + 100 && r.y - 100 <= y
            < r.y + r.h + 100),
        is_near(portals, b, None, x, y) ==> is_near(portals, b, Some(r), x, y),
{
    assert(near_edge(b, portals[i], x, y) ==> is_near(portals, b, None, x, y));
}

/// A ping that was just sent is waited for from that moment on.
pub proof fn law_a_ping_is_waited_for(sent: Seq<(u64, u64)>, seq: u64, now: u64)
    ensures
        sent_at(with_ping(sent, seq, now), seq, 0) == Some(now),
{
    let kept = sent.filter(not_ping(seq));
    let all = kept.push((seq, now));
    assert forall|i: int| 0 <= i < all.len() && (#[trigger] all[i]).0 == seq implies all[i].1
        == now by {
        if i < kept.len() {
            sent.lemma_filter_pred(not_ping(seq), i);
        }
    }
    if all.len() > 64 {
        reveal(Seq::filter);
        let f = all.filter(recent(now));
        assert(all.drop_last() =~= kept);
        assert(f == kept.filter(recent(now)).push((seq, now)));
        assert forall|i: int| 0 <= i < f.len() && (#[trigger] f[i]).0 == seq implies f[i].1
            == now by {
            lemma_kept(all, recent(now), i);
        }
        assert(f[f.len() - 1] == (seq, now));
        lemma_sent_then(f, seq, now, 0, f.len() - 1);
    } else {
        lemma_sent_then(all, seq, now, 0, all.len() - 1);
    }
}

proof fn lemma_kept(all: Seq<(u64, u64)>, keep: spec_fn((u64, u64)) -> bool, i: int)
    requires
        0 <= i < all.filter(keep).len(),
    ensures
        exists|j: int| 0 <= j < all.len() && #[trigger] all[j] == all.filter(keep)[i],
    decreases all.len(),
{
    reveal(Seq::filter);
    if all.len() > 0 {
        let rest = all.drop_last();
        let f = rest.filter(keep);
        if i < f.len() {
            lemma_kept(rest, keep, i);
            let j = choose|j: int| 0 <= j < rest.len() && #[trigger] rest[j] == f[i];
            assert(all[j] == f[i]);
        } else {
            assert(all[all.len() - 1] == all.filter(keep)[i]);
        }
    }
}

proof fn lemma_sent_then(sent: Seq<(u64, u64)>, seq: u64, now: u64, from: int, at: int)
    requires
        0 <= from <= at < sent.len(),
        sent[at].0 == seq,
        forall|i: int|
            0 <= i < sent.len() && (#[trigger] sent[i]).0 == seq ==> sent[i].1 == now,
    ensures
        sent_at(sent, seq, from) == Some(now),
    decreases at - from,
{
    if sent[from].0 != seq {
        lemma_sent_then(sent, seq, now, from + 1, at);
    }
}

} // verus!
