//! The editor's view of the desks: machines with their monitors, the links between them,
//! and the shared panel.
use vstd::prelude::*;

use crate::config::{self, copy_rects, Config};
use crate::engine::events::copy_layout;
use crate::layout::Layout;
use crate::proto::Rect;
use crate::text::{self, same_text};

verus! {

/// A machine on the map.
#[derive(Debug)]
pub struct Machine {
    pub name: String,
    /// It is the one whose editor this is.
    pub me: bool,
    pub monitors: Vec<Rect>,
}

/// A machine on the map, as values.
#[verifier::ext_equal]
pub ghost struct MachineView {
    pub name: Seq<char>,
    pub me: bool,
    pub monitors: Seq<Rect>,
}

impl View for Machine {
    type V = MachineView;

    open spec fn view(&self) -> MachineView {
        MachineView { name: self.name@, me: self.me, monitors: self.monitors@ }
    }
}

/// Machines on the map, as values.
pub open spec fn machines_view(v: Seq<Machine>) -> Seq<MachineView> {
    v.map_values(|m: Machine| m@)
}

/// The shared panel on the map: which monitor it is on either side, counted from zero.
#[derive(Debug)]
pub struct SharedPanel {
    pub local_monitor: u32,
    pub peer: Option<String>,
    pub peer_monitor: u32,
    pub hotkey: bool,
}

/// The shared panel on the map, as values.
#[verifier::ext_equal]
pub ghost struct PanelView {
    pub local_monitor: u32,
    pub peer: Option<Seq<char>>,
    pub peer_monitor: u32,
    pub hotkey: bool,
}

impl View for SharedPanel {
    type V = PanelView;

    open spec fn view(&self) -> PanelView {
        PanelView {
            local_monitor: self.local_monitor,
            peer: text::opt_text(self.peer),
            peer_monitor: self.peer_monitor,
            hotkey: self.hotkey,
        }
    }
}

/// The editor's view.
#[derive(Debug)]
pub struct EditorState {
    pub machines: Vec<Machine>,
    pub layout: Layout,
    pub shared_monitor: Option<SharedPanel>,
}

/// The editor's view, as values.
#[verifier::ext_equal]
pub ghost struct StateView {
    pub machines: Seq<MachineView>,
    pub links: Seq<crate::layout::LinkView>,
    pub shared: Option<PanelView>,
}

/// The shared panel, if there is one.
pub open spec fn panel_view(p: Option<SharedPanel>) -> Option<PanelView> {
    match p {
        Some(x) => Some(x@),
        None => None,
    }
}

impl View for EditorState {
    type V = StateView;

    open spec fn view(&self) -> StateView {
        StateView {
            machines: machines_view(self.machines@),
            links: self.layout@,
            shared: panel_view(self.shared_monitor),
        }
    }
}

/// A platform's display index as a count from zero: macOS counts from one.
pub open spec fn pick_of(os: Seq<char>, index: u32) -> u32 {
    if os == "macos"@ && index > 0 {
        (index - 1) as u32
    } else {
        index
    }
}

/// A count from zero as a platform's display index: macOS counts from one.
pub open spec fn index_of(os: Seq<char>, pick: u32) -> u32 {
    if os == "macos"@ && pick < u32::MAX {
        (pick + 1) as u32
    } else {
        pick
    }
}

/// A platform's display index as a count from zero.
pub fn from_platform_index(os: &str, index: u32) -> (r: u32)
    ensures
        r == pick_of(os@, index),
{
    if same_text(os, "macos") && index > 0 {
        index - 1
    } else {
        index
    }
}

/// A count from zero as a platform's display index.
pub fn to_platform_index(os: &str, pick: u32) -> (r: u32)
    ensures
        r == index_of(os@, pick),
{
    if same_text(os, "macos") && pick < u32::MAX {
        pick + 1
    } else {
        pick
    }
}

/// A monitor that was picked in the editor is the one that the editor shows.
pub proof fn law_picks_come_back(os: Seq<char>, pick: u32)
    requires
        pick < u32::MAX,
    ensures
        pick_of(os, index_of(os, pick)) == pick,
{
}

/// A peer on the map: with its real shapes once it has connected at least once, a
/// common one before.
pub open spec fn peer_machine(p: config::PeerView) -> MachineView {
    MachineView {
        name: p.name,
        me: false,
        monitors: if p.screens.len() == 0 {
            seq![Rect { x: 0, y: 0, w: 1920, h: 1080 }]
        } else {
            p.screens
        },
    }
}

/// The OS of the machine that shares the panel; Windows where it is not known.
pub open spec fn panel_peer_os(c: config::ConfigView) -> Seq<char> {
    match c.panel_peer() {
        Some(n) => match config::peer_index(c.peers, n, 0) {
            Some(i) => match c.peers[i].os {
                Some(os) => os,
                None => "windows"@,
            },
            None => "windows"@,
        },
        None => "windows"@,
    }
}

/// The shared panel on the map, by the settings.
pub open spec fn panel_of(c: config::ConfigView, os: Seq<char>) -> Option<PanelView> {
    if c.shared_monitor.is_configured() {
        Some(
            PanelView {
                local_monitor: pick_of(os, c.shared_monitor.local_index->0),
                peer: c.panel_peer(),
                peer_monitor: pick_of(panel_peer_os(c), c.shared_monitor.peer_index->0),
                hotkey: c.shared_monitor.hotkey,
            },
        )
    } else {
        None
    }
}

/// The editor's view, by the settings: this machine first, then its peers.
pub open spec fn state_of(c: config::ConfigView, monitors: Seq<Rect>, os: Seq<char>) -> StateView {
    StateView {
        machines: seq![MachineView { name: c.name, me: true, monitors }] + c.peers.map_values(
            |p: config::PeerView| peer_machine(p),
        ),
        links: c.links,
        shared: panel_of(c, os),
    }
}

/// The map shows this machine with its monitors, and every peer with those that it
/// reported.
pub proof fn law_every_machine_is_on_the_map(
    c: config::ConfigView,
    monitors: Seq<Rect>,
    os: Seq<char>,
    i: int,
)
    requires
        0 <= i < c.peers.len(),
    ensures
        ({
            let s = state_of(c, monitors, os);
            let (me, m) = (s.machines[0], s.machines[i + 1]);
            &&& s.machines.len() == c.peers.len() + 1
            &&& me.me && me.name == c.name && me.monitors == monitors
            &&& !m.me && m.name == c.peers[i].name && m.monitors.len() > 0
            &&& c.peers[i].screens.len() > 0 ==> m.monitors == c.peers[i].screens
            &&& s.links == c.links
            &&& s.shared is Some == c.shared_monitor.is_configured()
        }),
{
}

/// The editor's view, by the settings.
pub fn api_state(cfg: &Config, monitors: &Vec<Rect>, os: &str) -> (r: EditorState)
    ensures
        r@ == state_of(cfg@, monitors@, os@),
{
    let mut machines: Vec<Machine> = Vec::new();
    machines.push(Machine { name: cfg.name.clone(), me: true, monitors: copy_rects(monitors) });
    let ghost me = seq![MachineView { name: cfg@.name, me: true, monitors: monitors@ }];
    let ghost others = cfg@.peers.map_values(|p: config::PeerView| peer_machine(p));
    proof {
        assert(machines_view(machines@) =~= me + others.take(0));
    }
    for i in 0..cfg.peers.len()
        invariant
            others == cfg@.peers.map_values(|p: config::PeerView| peer_machine(p)),
            machines_view(machines@) == me + others.take(i as int),
    {
        let mut screens: Vec<Rect> = copy_rects(&cfg.peers[i].screens);
        if screens.len() == 0 {
            screens.push(Rect { x: 0, y: 0, w: 1920, h: 1080 });
            assert(screens@ =~= seq![Rect { x: 0, y: 0, w: 1920, h: 1080 }]);
        }
        let m: Machine = Machine { name: cfg.peers[i].name.clone(), me: false, monitors: screens };
        let ghost before = machines_view(machines@);
        let ghost mv = m@;
        machines.push(m);
        proof {
            assert(cfg@.peers[i as int] == cfg.peers@[i as int]@);
            assert(mv == others[i as int]);
            assert(machines_view(machines@) =~= before.push(mv));
            assert(before.push(mv) =~= me + others.take(i + 1));
        }
    }
    assert(others.take(others.len() as int) =~= others);
    let shared_monitor: Option<SharedPanel> = match (
        cfg.shared_monitor.local_index,
        cfg.shared_monitor.peer_index,
    ) {
        (Some(l), Some(p)) => {
            let peer: Option<String> = cfg.panel_peer();
            let windows: String = "windows".to_owned();
            let peer_os: String = match &peer {
                Some(n) => match cfg.peer(n.as_str()) {
                    Some(q) => match &q.os {
                        Some(o) => o.clone(),
                        None => windows,
                    },
                    None => windows,
                },
                None => windows,
            };
            Some(
                SharedPanel {
                    local_monitor: from_platform_index(os, l),
                    peer,
                    peer_monitor: from_platform_index(peer_os.as_str(), p),
                    hotkey: cfg.shared_monitor.hotkey,
                },
            )
        },
        _ => None,
    };
    EditorState { machines, layout: copy_layout(&cfg.layout), shared_monitor }
}

} // verus!
