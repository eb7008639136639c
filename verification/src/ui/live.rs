//! Live status that a running machine publishes for the editor to render: connection
//! dots, latency, which machine currently has the cursor.
use vstd::prelude::*;

use crate::layout::Edge;
use crate::platform::{self, elapsed};
use crate::text::{self, same_text};

verus! {

/// A worst sample is kept for this long, in nanoseconds.
pub const WORST_KEPT: u64 = 10_000_000_000;

/// What is known of a live session. Times are nanoseconds.
#[derive(Debug)]
pub struct PeerLive {
    pub connected: bool,
    pub rtt: Option<u64>,
    /// Worst round-trip time over the trailing 10s — makes latency spikes (e.g. Wi-Fi
    /// radio wake-ups) visible even between status polls.
    pub rtt_max: Option<u64>,
    pub rtt_max_at: Option<u64>,
    /// This side's socket address for the live session ("ip:port").
    pub local_addr: Option<String>,
    /// The peer's socket address for the live session.
    pub remote_addr: Option<String>,
    /// Human label for the interface the session rides.
    pub link_label: Option<String>,
}

/// What is known of a live session, as values.
#[verifier::ext_equal]
pub ghost struct PeerLiveView {
    pub connected: bool,
    pub rtt: Option<u64>,
    pub rtt_max: Option<u64>,
    pub rtt_max_at: Option<u64>,
    pub local_addr: Option<Seq<char>>,
    pub remote_addr: Option<Seq<char>>,
    pub link_label: Option<Seq<char>>,
}

impl View for PeerLive {
    type V = PeerLiveView;

    open spec fn view(&self) -> PeerLiveView {
        PeerLiveView {
            connected: self.connected,
            rtt: self.rtt,
            rtt_max: self.rtt_max,
            rtt_max_at: self.rtt_max_at,
            local_addr: text::opt_text(self.local_addr),
            remote_addr: text::opt_text(self.remote_addr),
            link_label: text::opt_text(self.link_label),
        }
    }
}

impl PeerLiveView {
    /// Nothing is known.
    pub open spec fn unknown() -> PeerLiveView {
        PeerLiveView {
            connected: false,
            rtt: None,
            rtt_max: None,
            rtt_max_at: None,
            local_addr: None,
            remote_addr: None,
            link_label: None,
        }
    }

    /// After it connected or disconnected: latency is forgotten with the session.
    pub open spec fn with_connected(self, connected: bool) -> PeerLiveView {
        if connected {
            PeerLiveView { connected, ..self }
        } else {
            PeerLiveView { connected, rtt: None, rtt_max: None, rtt_max_at: None, ..self }
        }
    }

    /// The worst sample is too old to count.
    pub open spec fn is_stale(self, now: u64) -> bool {
        match self.rtt_max_at {
            Some(t) => platform::since(now, t) > WORST_KEPT,
            None => true,
        }
    }

    /// A sample is the worst one.
    pub open spec fn is_worst(self, rtt: u64, now: u64) -> bool {
        self.is_stale(now) || match self.rtt_max {
            Some(m) => rtt > m,
            None => true,
        }
    }

    /// After a latency sample.
    pub open spec fn with_rtt(self, rtt: u64, now: u64) -> PeerLiveView {
        if self.is_worst(rtt, now) {
            PeerLiveView { rtt: Some(rtt), rtt_max: Some(rtt), rtt_max_at: Some(now), ..self }
        } else {
            PeerLiveView { rtt: Some(rtt), ..self }
        }
    }
}

/// The worst sample is never better than the last one, and does not get better while it
/// counts.
pub proof fn law_worst_sample_bounds_the_last(p: PeerLiveView, rtt: u64, now: u64)
    ensures
        p.with_rtt(rtt, now).rtt == Some(rtt),
        p.with_rtt(rtt, now).rtt_max matches Some(m) && m >= rtt,
        !p.is_stale(now) ==> (p.rtt_max matches Some(a) ==> p.with_rtt(rtt, now).rtt_max matches
            Some(b) && b >= a),
{
}

/// A peer, and what is known of its session.
#[derive(Debug)]
pub struct PeerEntry {
    pub name: String,
    pub live: PeerLive,
}

/// What is known of each peer.
pub open spec fn live_map(v: Seq<PeerEntry>) -> Map<Seq<char>, PeerLiveView>
    decreases v.len(),
{
    if v.len() == 0 {
        Map::empty()
    } else {
        live_map(v.drop_last()).insert(v.last().name@, v.last().live@)
    }
}

/// No peer stands twice.
pub open spec fn once_each(v: Seq<PeerEntry>) -> bool {
    forall|i: int, j: int|
        0 <= i < j < v.len() ==> (#[trigger] v[i]).name@ != (#[trigger] v[j]).name@
}

#[derive(Debug)]
pub struct LiveState {
    pub running: bool,
    pub focus: Option<String>,
    pub peers: Vec<PeerEntry>,
    pub shared_configured: bool,
    pub shared_peer: Option<String>,
    pub shared_owner: Option<String>,
    pub shared_error: Option<String>,
    /// Last connection failure details (None while connected).
    pub link_error: Option<String>,
    /// The arbiter's editor view. The other machine's editor serves this so both show
    /// the same map.
    pub synced_state: Option<String>,
    /// A one-shot crossing signal for the on-screen animation: the edge the cursor just
    /// crossed (1=left 2=right 3=top 4=bottom), 0 = none.
    pub flash: u8,
}

/// The live status, as values.
#[verifier::ext_equal]
pub ghost struct LiveView {
    pub running: bool,
    pub focus: Option<Seq<char>>,
    pub peers: Map<Seq<char>, PeerLiveView>,
    pub shared_configured: bool,
    pub shared_peer: Option<Seq<char>>,
    pub shared_owner: Option<Seq<char>>,
    pub shared_error: Option<Seq<char>>,
    pub link_error: Option<Seq<char>>,
    pub synced_state: Option<Seq<char>>,
    pub flash: u8,
}

impl View for LiveState {
    type V = LiveView;

    open spec fn view(&self) -> LiveView {
        LiveView {
            running: self.running,
            focus: text::opt_text(self.focus),
            peers: live_map(self.peers@),
            shared_configured: self.shared_configured,
            shared_peer: text::opt_text(self.shared_peer),
            shared_owner: text::opt_text(self.shared_owner),
            shared_error: text::opt_text(self.shared_error),
            link_error: text::opt_text(self.link_error),
            synced_state: text::opt_text(self.synced_state),
            flash: self.flash,
        }
    }
}

impl LiveView {
    /// What is known of a peer; nothing where it was never heard of.
    pub open spec fn peer(self, name: Seq<char>) -> PeerLiveView {
        if self.peers.dom().contains(name) {
            self.peers[name]
        } else {
            PeerLiveView::unknown()
        }
    }
}

/// An entry stands in the map under its name.
proof fn lemma_entry(v: Seq<PeerEntry>, i: int)
    requires
        once_each(v),
        0 <= i < v.len(),
    ensures
        live_map(v).dom().contains(v[i].name@),
        live_map(v)[v[i].name@] == v[i].live@,
    decreases v.len(),
{
    if i < v.len() - 1 {
        lemma_entry(v.drop_last(), i);
        assert(v.drop_last()[i] == v[i]);
        assert(v[i].name@ != v[v.len() - 1].name@);
    }
}

/// A name that no entry has is not in the map.
proof fn lemma_no_entry(v: Seq<PeerEntry>, name: Seq<char>)
    requires
        forall|i: int| 0 <= i < v.len() ==> (#[trigger] v[i]).name@ != name,
    ensures
        !live_map(v).dom().contains(name),
    decreases v.len(),
{
    if v.len() > 0 {
        assert forall|i: int| 0 <= i < v.drop_last().len() implies (#[trigger] v.drop_last()[i]).name@
            != name by {
            assert(v.drop_last()[i] == v[i]);
        }
        lemma_no_entry(v.drop_last(), name);
        assert(v[v.len() - 1].name@ != name);
    }
}

/// Replacing an entry replaces what the map says under its name.
proof fn lemma_replaced(v: Seq<PeerEntry>, i: int, e: PeerEntry)
    requires
        once_each(v),
        0 <= i < v.len(),
        e.name@ == v[i].name@,
    ensures
        live_map(v.update(i, e)) == live_map(v).insert(e.name@, e.live@),
        once_each(v.update(i, e)),
    decreases v.len(),
{
    let w = v.update(i, e);
    assert forall|a: int, b: int| 0 <= a < b < w.len() implies (#[trigger] w[a]).name@ != (
    #[trigger] w[b]).name@ by {
        assert(v[a].name@ != v[b].name@);
    }
    if i == v.len() - 1 {
        assert(w.drop_last() =~= v.drop_last());
        assert(live_map(w) =~= live_map(v).insert(e.name@, e.live@));
    } else {
        lemma_replaced(v.drop_last(), i, e);
        assert(w.drop_last() =~= v.drop_last().update(i, e));
        assert(v[i].name@ != v[v.len() - 1].name@);
        assert(live_map(w) =~= live_map(v).insert(e.name@, e.live@));
    }
}

impl LiveState {
    /// Each peer stands once.
    pub open spec fn wf(self) -> bool {
        once_each(self.peers@)
    }

    /// Nothing is known.
    pub fn new() -> (r: LiveState)
        ensures
            r.wf(),
            r@ == (LiveView {
                running: false,
                focus: None,
                peers: Map::empty(),
                shared_configured: false,
                shared_peer: None,
                shared_owner: None,
                shared_error: None,
                link_error: None,
                synced_state: None,
                flash: 0,
            }),
    {
        LiveState {
            running: false,
            focus: None,
            peers: Vec::new(),
            shared_configured: false,
            shared_peer: None,
            shared_owner: None,
            shared_error: None,
            link_error: None,
            synced_state: None,
            flash: 0,
        }
    }

    /// The entry of a peer, made where there is none.
    fn entry(&mut self, peer: &str) -> (r: usize)
        requires
            old(self).wf(),
        ensures
            final(self).wf(),
            r < final(self).peers@.len(),
            final(self).peers@[r as int].name@ == peer@,
            final(self).peers@[r as int].live@ == old(self)@.peer(peer@),
            final(self)@ == (LiveView {
                peers: old(self)@.peers.insert(peer@, old(self)@.peer(peer@)),
                ..old(self)@
            }),
    {
        let n: usize = self.peers.len();
        for i in 0..n
            invariant
                n == self.peers@.len(),
                *self == *old(self),
                self.wf(),
                forall|j: int| 0 <= j < i ==> (#[trigger] self.peers@[j]).name@ != peer@,
        {
            if same_text(self.peers[i].name.as_str(), peer) {
                proof {
                    lemma_entry(self.peers@, i as int);
                    assert(self@.peers =~= self@.peers.insert(peer@, self@.peer(peer@)));
                }
                return i;
            }
        }
        proof {
            lemma_no_entry(self.peers@, peer@);
        }
        let e: PeerEntry = PeerEntry {
            name: peer.to_owned(),
            live: PeerLive {
                connected: false,
                rtt: None,
                rtt_max: None,
                rtt_max_at: None,
                local_addr: None,
                remote_addr: None,
                link_label: None,
            },
        };
        let ghost before = self.peers@;
        self.peers.push(e);
        assert(self.peers@.drop_last() =~= before);
        n
    }
}

/// What is known of a peer, put in its place.
fn put(s: &mut LiveState, i: usize, live: PeerLive)
    requires
        old(s).wf(),
        i < old(s).peers@.len(),
    ensures
        final(s).wf(),
        final(s)@ == (LiveView {
            peers: old(s)@.peers.insert(old(s).peers@[i as int].name@, live@),
            ..old(s)@
        }),
{
    let e: PeerEntry = PeerEntry { name: s.peers[i].name.clone(), live };
    proof {
        lemma_replaced(s.peers@, i as int, e);
    }
    s.peers.set(i, e);
}

/// A copy of what is known of a peer.
fn copy_live(p: &PeerLive) -> (r: PeerLive)
    ensures
        r@ == p@,
{
    PeerLive {
        connected: p.connected,
        rtt: p.rtt,
        rtt_max: p.rtt_max,
        rtt_max_at: p.rtt_max_at,
        local_addr: text::copy_opt(&p.local_addr),
        remote_addr: text::copy_opt(&p.remote_addr),
        link_label: text::copy_opt(&p.link_label),
    }
}

/// Marks that a live session router exists.
pub fn mark_running(s: &mut LiveState)
    ensures
        final(s)@ == (LiveView { running: true, ..old(s)@ }),
        old(s).wf() ==> final(s).wf(),
{
    s.running = true;
}

/// A peer connected or disconnected.
pub fn set_connected(s: &mut LiveState, peer: &str, connected: bool)
    requires
        old(s).wf(),
    ensures
        final(s).wf(),
        final(s)@ == (LiveView {
            peers: old(s)@.peers.insert(
                peer@,
                old(s)@.peer(peer@).with_connected(connected),
            ),
            ..old(s)@
        }),
{
    let i: usize = s.entry(peer);
    let mut p: PeerLive = copy_live(&s.peers[i].live);
    p.connected = connected;
    if !connected {
        p.rtt = None;
        p.rtt_max = None;
        p.rtt_max_at = None;
    }
    put(s, i, p);
    assert(s@.peers =~= old(s)@.peers.insert(
        peer@,
        old(s)@.peer(peer@).with_connected(connected),
    ));
}

/// A latency sample.
pub fn set_rtt(s: &mut LiveState, peer: &str, rtt: u64, now: u64)
    requires
        old(s).wf(),
    ensures
        final(s).wf(),
        final(s)@ == (LiveView {
            peers: old(s)@.peers.insert(peer@, old(s)@.peer(peer@).with_rtt(rtt, now)),
            ..old(s)@
        }),
{
    let i: usize = s.entry(peer);
    let mut p: PeerLive = copy_live(&s.peers[i].live);
    let stale: bool = match p.rtt_max_at {
        Some(t) => elapsed(now, t) > WORST_KEPT,
        None => true,
    };
    let worse: bool = match p.rtt_max {
        Some(m) => rtt > m,
        None => true,
    };
    p.rtt = Some(rtt);
    if stale || worse {
        p.rtt_max = Some(rtt);
        p.rtt_max_at = Some(now);
    }
    put(s, i, p);
    assert(s@.peers =~= old(s)@.peers.insert(peer@, old(s)@.peer(peer@).with_rtt(rtt, now)));
}

/// Records which socket pair a peer's live session rides, so the editor can show the
/// actual path (Wi-Fi vs cable) instead of leaving the user to guess why it lags.
pub fn set_link(
    s: &mut LiveState,
    peer: &str,
    local: Option<String>,
    remote: Option<String>,
    label: Option<String>,
)
    requires
        old(s).wf(),
    ensures
        final(s).wf(),
        final(s)@ == (LiveView {
            peers: old(s)@.peers.insert(
                peer@,
                PeerLiveView {
                    local_addr: text::opt_text(local),
                    remote_addr: text::opt_text(remote),
                    link_label: text::opt_text(label),
                    ..old(s)@.peer(peer@)
                },
            ),
            ..old(s)@
        }),
{
    let i: usize = s.entry(peer);
    let mut p: PeerLive = copy_live(&s.peers[i].live);
    let ghost want = PeerLiveView {
        local_addr: text::opt_text(local),
        remote_addr: text::opt_text(remote),
        link_label: text::opt_text(label),
        ..old(s)@.peer(peer@)
    };
    p.local_addr = local;
    p.remote_addr = remote;
    p.link_label = label;
    put(s, i, p);
    assert(s@.peers =~= old(s)@.peers.insert(peer@, want));
}

/// Stores the arbiter's pushed editor view.
pub fn set_synced_state(s: &mut LiveState, state: String)
    ensures
        final(s)@ == (LiveView { synced_state: Some(state@), ..old(s)@ }),
        old(s).wf() ==> final(s).wf(),
{
    s.synced_state = Some(state);
}

pub fn set_focus(s: &mut LiveState, focus: Option<String>)
    ensures
        final(s)@ == (LiveView { focus: text::opt_text(focus), ..old(s)@ }),
        old(s).wf() ==> final(s).wf(),
{
    s.focus = focus;
}

/// Updates what the settings say of the shared monitor. No owner keeps the current one.
pub fn set_shared_state(
    s: &mut LiveState,
    configured: bool,
    peer: Option<String>,
    owner: Option<String>,
)
    ensures
        final(s)@ == (LiveView {
            shared_configured: configured,
            shared_peer: text::opt_text(peer),
            shared_owner: if owner is Some {
                text::opt_text(owner)
            } else {
                old(s)@.shared_owner
            },
            ..old(s)@
        }),
        old(s).wf() ==> final(s).wf(),
{
    s.shared_configured = configured;
    s.shared_peer = peer;
    if owner.is_some() {
        s.shared_owner = owner;
    }
}

pub fn set_shared_owner(s: &mut LiveState, owner: Option<String>)
    ensures
        final(s)@ == (LiveView { shared_owner: text::opt_text(owner), ..old(s)@ }),
        old(s).wf() ==> final(s).wf(),
{
    s.shared_owner = owner;
}

pub fn set_shared_error(s: &mut LiveState, err: Option<String>)
    ensures
        final(s)@ == (LiveView { shared_error: text::opt_text(err), ..old(s)@ }),
        old(s).wf() ==> final(s).wf(),
{
    s.shared_error = err;
}

/// Link diagnostics: why the last connect attempt failed. None = connected or not
/// applicable.
pub fn set_link_error(s: &mut LiveState, err: Option<String>)
    ensures
        final(s)@ == (LiveView { link_error: text::opt_text(err), ..old(s)@ }),
        old(s).wf() ==> final(s).wf(),
{
    s.link_error = err;
}

/// The number of an edge in the crossing signal.
pub open spec fn flash_of(edge: Edge) -> u8 {
    match edge {
        Edge::Left => 1,
        Edge::Right => 2,
        Edge::Top => 3,
        Edge::Bottom => 4,
    }
}

/// The cursor just crossed an edge.
pub fn set_cross_flash(s: &mut LiveState, edge: Edge)
    ensures
        final(s)@ == (LiveView { flash: flash_of(edge), ..old(s)@ }),
        old(s).wf() ==> final(s).wf(),
{
    s.flash = match edge {
        Edge::Left => 1,
        Edge::Right => 2,
        Edge::Top => 3,
        Edge::Bottom => 4,
    };
}

/// Takes and clears the pending crossing signal (0 = none).
pub fn take_cross_flash(s: &mut LiveState) -> (r: u8)
    ensures
        r == old(s)@.flash,
        final(s)@ == (LiveView { flash: 0, ..old(s)@ }),
        old(s).wf() ==> final(s).wf(),
{
    let f: u8 = s.flash;
    s.flash = 0;
    f
}

} // verus!
