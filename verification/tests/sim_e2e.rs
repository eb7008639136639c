//! Two machines on a virtual desk: two routers with their capture sides, cursor guards
//! and geometry watches, joined by a session that hands messages over.
use kayiver::binary32::F32;
use kayiver::config::{bootstrap_links, Config, Mode, Peer};
use kayiver::engine::action::{Action, Injection};
use kayiver::engine::model::{Desk, Router, SessionEvent};
use kayiver::engine::session::{
    accept_hello, accept_welcome, on_message, GeometryWatch, Handling,
};
use kayiver::engine::Captured;
use kayiver::layout::{arranged, Edge, Link};
use kayiver::platform::sim::{handle, record, world, Recorded, SimOut, SimReply, SimWorld};
use kayiver::platform::{CaptureCtl, Guard};
use kayiver::proto::{Msg, Rect, PROTOCOL_VERSION};
use kayiver::secure::{handshake_initiator, handshake_responder};
use kayiver::wire::{read_frame, write_frame};

/// base64 of 32 zero bytes: both sides share it, replacing real pairing.
const PSK: &str = "AAAAAAAAAAAAAAAAAAAAAAAAAAAAAAAAAAAAAAAAAAA=";
/// Mac-like host: A (main) + its copy of the shared panel B to the right.
const HOST_MONS: &str = "0,0,2560,1440;2560,0,2560,1440";
/// Windows-like client: its copy of B (primary) + a 1080p C above it.
const CLIENT_MONS: &str = "0,0,2560,1440;636,-1080,1920,1080";

const MS: u64 = 1_000_000;

fn rect(x: i32, y: i32, w: i32, h: i32) -> Rect {
    Rect { x, y, w, h }
}

fn ratio(x: f32) -> F32 {
    F32 { bits: x.to_bits() }
}

struct Machine {
    cfg: Config,
    router: Router,
    world: SimWorld,
    guard: Guard,
    watch: GeometryWatch,
    sessions: Vec<String>,
    outbox: Vec<(String, Msg)>,
    /// What was sent and reported, as text.
    log: Vec<String>,
    /// The configuration was written since the router last read it.
    dirty: bool,
    now: u64,
}

impl Machine {
    fn start(mut cfg: Config, monitors: &str) -> Machine {
        let mut w = world(Some(monitors));
        let desired = std::mem::take(&mut cfg.arrangement);
        if !desired.is_empty() {
            if let Some(m) = arranged(&w.monitors, &desired) {
                w.monitors = m;
            }
        }
        cfg.arrangement = desired;
        let bounds = kayiver::platform::sim::desktop_bounds(&w);
        let router = Router::new(&cfg, bounds, true);
        w.capture = Some(CaptureCtl::new(bounds, 0));
        let guard = Guard::new(w.cursor);
        let watch = GeometryWatch::new(w.monitors.clone());
        let mut m = Machine {
            cfg,
            router,
            world: w,
            guard,
            watch,
            sessions: Vec::new(),
            outbox: Vec::new(),
            log: Vec::new(),
            dirty: false,
            now: 0,
        };
        m.act();
        m
    }

    fn name(&self) -> String {
        self.cfg.name.clone()
    }

    fn desk(&self) -> Desk {
        Desk {
            sessions: self.sessions.clone(),
            monitors: self.world.monitors.clone(),
            cursor: self.world.cursor,
            forwarding: self.world.capture.as_ref().map_or(false, |c| c.forwarding),
            can_inject: true,
            tablet_connected: false,
            tablet_present: false,
            tablet_size: None,
            drag_url: None,
        }
    }

    fn post(&mut self, peer: &str, msg: Msg) {
        if self.sessions.iter().any(|s| s == peer) {
            self.log.push(format!("{msg:?}"));
            self.outbox.push((peer.to_string(), msg));
        }
    }

    /// Performs what the router asked for.
    fn act(&mut self) {
        for a in self.router.take_actions() {
            let now = self.now;
            if let Some(c) = self.world.capture.as_mut() {
                c.tell(&a, now);
            }
            match a {
                Action::Send { peer, msg, .. } => self.post(&peer, msg),
                Action::Broadcast { configured, owner } => {
                    for s in self.sessions.clone() {
                        let state = format!("view of {}", self.cfg.name);
                        let msg = Msg::StateSync {
                            state,
                            shared_configured: configured,
                            owner: owner.clone(),
                        };
                        self.post(&s, msg);
                    }
                }
                Action::Warp { x, y } => {
                    kayiver::platform::sim::warp_cursor(&mut self.world, x, y);
                }
                Action::Inject(i) => record(&mut self.world, Recorded::Input(i)),
                Action::Driven(true) => self.log.push("driven".to_string()),
                Action::RememberOwner(o) => {
                    self.dirty = self.cfg.set_last_owner(&o) || self.dirty;
                }
                Action::RememberRects { local, peer } => {
                    self.cfg.set_shared_rects(local, peer);
                    self.dirty = true;
                }
                Action::RememberArrangement(m) => {
                    self.dirty = self.cfg.set_arrangement(&m) || self.dirty;
                }
                Action::ApplyArrangement(m) => self.apply_arrangement(&m),
                _ => {}
            }
        }
    }

    fn apply_arrangement(&mut self, desired: &[Rect]) -> () {
        if let Some(m) = arranged(&self.world.monitors, desired) {
            self.world.monitors = m;
        }
    }

    fn report(&mut self, ev: SessionEvent) {
        let d = self.desk();
        self.log.push(format!("{ev:?}"));
        self.router.on_session_event(&d, ev);
        self.act();
    }

    fn captured(&mut self, c: Captured) {
        let d = self.desk();
        self.router.on_captured(&d, c);
        self.act();
    }

    fn receive(&mut self, from: &str, msg: Msg) {
        match on_message(from, msg) {
            Handling::Report(ev) => self.report(ev),
            Handling::Answer(m) => self.post(from, m),
            Handling::Screens(v) => {
                self.dirty = self.cfg.cache_peer_screens(from, &v, None) || self.dirty;
                self.router.set_peer_screens(from, &v);
                self.log.push("geometry update".to_string());
                self.report(SessionEvent::LayoutChanged);
            }
            Handling::OpenUrl(u) => record(&mut self.world, Recorded::OpenUrl(u)),
            _ => {}
        }
    }

    /// Lets the timers run: the cursor guard, the geometry watch and the watch on the
    /// configuration.
    fn tick(&mut self) {
        self.now += 2000 * MS;
        self.look();
        let desired = self.cfg.arrangement.clone();
        let mons = self.world.monitors.clone();
        if !self.sessions.is_empty() {
            let mut settled = true;
            if self.watch.wants_arrangement(&mons, &desired) {
                if let Some(m) = arranged(&mons, &desired) {
                    self.world.monitors = m;
                    settled = false;
                }
            }
            if settled && self.watch.changed(&mons) {
                let screen = kayiver::platform::sim::desktop_bounds(&self.world);
                for s in self.sessions.clone() {
                    self.post(&s, Msg::Monitors { screen, monitors: mons.clone() });
                }
            }
        }
        if self.dirty {
            self.dirty = false;
            let changed = self.router.reload(&self.cfg);
            self.act();
            self.report(SessionEvent::LayoutChanged);
            if changed {
                self.report(SessionEvent::LayoutChanged);
            }
        }
    }

    fn look(&mut self) {
        let cur = self.world.cursor;
        let found = match &self.world.capture {
            Some(c) => self.guard.look(c, cur),
            None => None,
        };
        if let Some(h) = found {
            self.world.cursor = h.park;
            self.captured(Captured::SharedEnter { fx: h.fx, fy: h.fy });
        }
    }

    fn ctl_at(&mut self, line: &str, at: f32) -> bool {
        let (reply, out) = handle(&mut self.world, line.as_bytes(), ratio(at));
        match out {
            Some(SimOut::Captured(c)) => self.captured(c),
            Some(SimOut::Command(c)) => {
                let d = self.desk();
                self.router.on_command(&d, c);
                self.act();
            }
            None => {}
        }
        matches!(reply, SimReply::Done)
    }

    fn ctl(&mut self, line: &str) -> bool {
        self.ctl_at(line, 0.5)
    }

    fn warp(&mut self, x: i32, y: i32) {
        assert!(self.ctl(&format!(r#"{{"op":"warp","x":{x},"y":{y}}}"#)));
        self.now += 40 * MS;
        self.look();
    }

    fn injected(&mut self) -> Vec<Recorded> {
        match handle(&mut self.world, br#"{"op":"injected"}"#, ratio(0.5)).0 {
            SimReply::Injected(v) => v,
            other => panic!("{other:?}"),
        }
    }

    fn capture(&self) -> &CaptureCtl {
        self.world.capture.as_ref().unwrap()
    }

    fn forwarding(&self) -> bool {
        self.capture().forwarding
    }

    fn blocked(&self) -> Option<Rect> {
        self.capture().blocked
    }

    fn last_owner(&self) -> Option<&str> {
        self.cfg.shared_monitor.last_owner.as_deref()
    }

    fn logged(&self, what: &str) -> bool {
        self.log.iter().any(|l| l.contains(what))
    }
}

fn deliver(host: &mut Machine, client: &mut Machine) {
    for _ in 0..1000 {
        let a = std::mem::take(&mut host.outbox);
        let b = std::mem::take(&mut client.outbox);
        if a.is_empty() && b.is_empty() {
            return;
        }
        let (h, c) = (host.name(), client.name());
        for (_, m) in a {
            client.receive(&h, m);
        }
        for (_, m) in b {
            host.receive(&c, m);
        }
    }
    panic!("the machines never fall silent");
}

fn settle(host: &mut Machine, client: &mut Machine) {
    for _ in 0..5 {
        deliver(host, client);
        host.tick();
        client.tick();
    }
    deliver(host, client);
}

/// The dialer greets, the listener answers, and both open the session.
fn connect(host: &mut Machine, client: &mut Machine) {
    let (h, c) = (host.name(), client.name());
    let hello = Msg::Hello {
        version: PROTOCOL_VERSION,
        name: c.clone(),
        os: "windows".to_string(),
        screen: kayiver::platform::sim::desktop_bounds(&client.world),
        monitors: client.world.monitors.clone(),
    };
    let greeting = match accept_hello(hello) {
        Ok(g) => g,
        Err(r) => panic!("{r:?}"),
    };
    host.dirty =
        host.cfg.cache_peer_screens(&c, &greeting.monitors, Some(&greeting.os)) || host.dirty;
    host.router.set_peer_screens(&c, &greeting.monitors);
    let welcome = Msg::Welcome {
        version: PROTOCOL_VERSION,
        name: h.clone(),
        portal_edges: host.router.layout.portals(&c),
    };
    let edges = match accept_welcome(welcome) {
        Ok(e) => e,
        Err(r) => panic!("{r:?}"),
    };
    if bootstrap_links(&mut client.router.layout, &c, &h, &edges) {
        bootstrap_links(&mut client.cfg.layout, &c, &h, &edges);
        client.dirty = true;
    }
    host.sessions.push(c.clone());
    client.sessions.push(h.clone());
    host.report(SessionEvent::Connected { name: c });
    client.report(SessionEvent::Connected { name: h });
    settle(host, client);
}

fn disconnect(host: &mut Machine, client: &mut Machine) {
    let (h, c) = (host.name(), client.name());
    host.sessions.clear();
    client.sessions.clear();
    host.outbox.clear();
    client.outbox.clear();
    host.report(SessionEvent::Disconnected { name: c });
    client.report(SessionEvent::Disconnected { name: h });
}

fn peer(name: &str, os: Option<&str>, screens: Vec<Rect>) -> Peer {
    Peer {
        name: name.to_string(),
        psk: PSK.to_string(),
        addr: None,
        addrs: Vec::new(),
        last_good: None,
        screens,
        os: os.map(|o| o.to_string()),
    }
}

fn link(from: &str, edge: Edge, to: &str) -> Link {
    Link { from: from.to_string(), edge, to: to.to_string() }
}

fn host_with(
    screens: Vec<Rect>,
    edge: Edge,
    local_index: u32,
    local: Rect,
    peer_rect: Rect,
) -> Config {
    let mut c = Config::fresh("simhost".to_string());
    c.mode = Mode::Host;
    c.peers.push(peer("simwin", Some("windows"), screens));
    c.layout.links.push(link("simhost", edge, "simwin"));
    c.shared_monitor.local_index = Some(local_index);
    c.shared_monitor.peer = Some("simwin".to_string());
    c.shared_monitor.peer_index = Some(0);
    c.shared_monitor.hotkey = true;
    c.shared_monitor.local_rect = Some(local);
    c.shared_monitor.peer_rect = Some(peer_rect);
    c
}

fn host_cfg() -> Config {
    host_with(
        vec![rect(0, 0, 2560, 1440), rect(636, -1080, 1920, 1080)],
        Edge::Right,
        2,
        rect(2560, 0, 2560, 1440),
        rect(0, 0, 2560, 1440),
    )
}

fn client_cfg() -> Config {
    let mut c = Config::fresh("simwin".to_string());
    c.mode = Mode::Client;
    c.peers.push(peer("simhost", None, Vec::new()));
    c
}

/// The client as real pairing leaves it: with its OWN copy of the shared panel's
/// settings, and a stale belief that the panel is currently its own.
fn client_cfg_shared() -> Config {
    let mut c = client_cfg();
    c.layout.links.push(link("simwin", Edge::Left, "simhost"));
    c.shared_monitor.local_index = Some(0);
    c.shared_monitor.peer = Some("simhost".to_string());
    c.shared_monitor.peer_index = Some(2);
    c.shared_monitor.hotkey = true;
    c.shared_monitor.last_owner = Some("simwin".to_string());
    c.shared_monitor.local_rect = Some(rect(0, 0, 2560, 1440));
    c.shared_monitor.peer_rect = Some(rect(2560, 0, 2560, 1440));
    c
}

fn copy(c: &Config) -> Config {
    let mut d = Config::fresh(c.name.clone());
    d.mode = c.mode;
    for p in &c.peers {
        d.peers.push(peer(&p.name, p.os.as_deref(), p.screens.clone()));
    }
    for l in &c.layout.links {
        d.layout.links.push(link(&l.from, l.edge, &l.to));
    }
    d.shared_monitor = c.shared_monitor.copy();
    d.arrangement = c.arrangement.clone();
    d
}

fn pair_of(host: Config, hm: &str, client: Config, cm: &str) -> (Machine, Machine) {
    let mut h = Machine::start(host, hm);
    let mut c = Machine::start(client, cm);
    connect(&mut h, &mut c);
    (h, c)
}

fn desk() -> (Machine, Machine) {
    pair_of(host_cfg(), HOST_MONS, client_cfg(), CLIENT_MONS)
}

/// Gives the panel to the client by the hotkey.
fn give_panel_to_client(host: &mut Machine, client: &mut Machine) {
    assert!(host.ctl(r#"{"op":"hotkey"}"#));
    settle(host, client);
    assert!(host.blocked().is_some());
}

fn landing(client: &mut Machine) -> Option<(i32, i32)> {
    client.injected().into_iter().find_map(|e| match e {
        Recorded::Input(Injection::MouseTo { x, y, dx: 0, dy: 0 }) => Some((x, y)),
        _ => None,
    })
}

fn push(host: &mut Machine, client: &mut Machine, path: &[(i32, i32)]) -> (i32, i32) {
    client.injected();
    for &(x, y) in path {
        host.warp(x, y);
    }
    deliver(host, client);
    landing(client).expect("client receives the warp")
}

fn cross_diagonally(host: &mut Machine, client: &mut Machine) -> (i32, i32) {
    push(host, client, &[(2300, 700), (2480, 700), (2550, 700), (2565, 760)])
}

#[test]
fn diagonal_cross_lands_at_entry_height() {
    let (mut host, mut client) = desk();
    give_panel_to_client(&mut host, &mut client);
    let (x, y) = cross_diagonally(&mut host, &mut client);
    assert_eq!(x, 2, "must land just inside the panel's LEFT edge, got x={x}");
    assert!((735..=745).contains(&y), "must land at the entry height (~740), got y={y}");
    assert!(host.forwarding(), "host must be forwarding after the handover");

    // ⌘ (0xE3) -> Ctrl (224), ⌥ (0xE2) -> Win (227), ⌃ (0xE0) -> Ctrl (224).
    client.injected();
    for (send, want) in [(0xE3u16, 224u16), (0xE2, 227), (0xE0, 224)] {
        for pressed in [true, false] {
            let line = format!(r#"{{"op":"input_key","key":{send},"pressed":{pressed}}}"#);
            assert!(host.ctl(&line), "key inject failed");
        }
        deliver(&mut host, &mut client);
        let keys: Vec<u16> = client
            .injected()
            .into_iter()
            .filter_map(|e| match e {
                Recorded::Input(Injection::Key { key, .. }) => Some(key),
                _ => None,
            })
            .collect();
        assert_eq!(keys, vec![want, want], "HID {send:#x} must remap to {want}");
    }
}

#[test]
fn primary_display_switch_rederives_peer_rect() {
    let (mut host, mut client) = desk();
    assert!(client
        .ctl(r#"{"op":"set_monitors","monitors":[[-638,1080,2560,1440],[0,0,1920,1080]]}"#));
    settle(&mut host, &mut client);
    assert_eq!(host.cfg.shared_monitor.peer_rect, Some(rect(-638, 1080, 2560, 1440)));
    give_panel_to_client(&mut host, &mut client);
    let (x, y) = cross_diagonally(&mut host, &mut client);
    assert_eq!(x, -636, "left inset of the MOVED panel, got x={x}");
    assert!((1815..=1825).contains(&y), "entry height inside the moved panel (~1820), got y={y}");
}

#[test]
fn vanished_panel_never_reanchors_to_same_size_screen() {
    let (mut host, mut client) = desk();
    assert!(host.ctl(r#"{"op":"set_monitors","monitors":[[0,0,2560,1440]]}"#));
    assert!(client
        .ctl(r#"{"op":"set_monitors","monitors":[[0,0,2560,1440],[640,-1080,1920,1080]]}"#));
    settle(&mut host, &mut client);
    assert!(host.logged("geometry update"));
    assert_eq!(
        host.cfg.shared_monitor.local_rect.map(|r| r.x),
        Some(2560),
        "local_rect must still point at the (absent) panel, not re-anchor onto A"
    );
}

#[test]
fn owner_survives_host_restart() {
    let (mut host, mut client) = desk();
    give_panel_to_client(&mut host, &mut client);
    assert_eq!(host.last_owner(), Some("simwin"));
    disconnect(&mut host, &mut client);
    let mut host = Machine::start(copy(&host.cfg), HOST_MONS);
    connect(&mut host, &mut client);
    assert!(host.blocked().is_some(), "restored owner blocks the host's panel copy");
    assert_eq!(host.last_owner(), Some("simwin"));
}

#[test]
fn client_can_take_control_of_the_host() {
    let (mut host, mut client) = desk();
    assert!(!client.capture().portals.is_empty(), "client arms a portal edge of its own");
    host.injected();
    assert!(client.ctl_at(r#"{"op":"edge","edge":"left","ratio":0.5}"#, 0.5));
    deliver(&mut host, &mut client);
    assert!(client.forwarding(), "client takes control");
    assert!(client.ctl(r#"{"op":"input_move","dx":12,"dy":0}"#));
    deliver(&mut host, &mut client);
    assert!(!host.injected().is_empty(), "host injects the client's input");
    assert!(host.capture().portals.is_empty(), "driven side must disarm its portal edges");
}

#[test]
fn client_can_switch_the_shared_panel() {
    let (mut host, mut client) = desk();
    assert!(client.ctl(r#"{"op":"hotkey"}"#));
    settle(&mut host, &mut client);
    assert!(host.blocked().is_some(), "host hands the panel over and blocks its own copy");
    assert_eq!(host.last_owner(), Some("simwin"));
    assert!(client.ctl(r#"{"op":"hotkey"}"#));
    settle(&mut host, &mut client);
    assert!(host.blocked().is_none(), "host takes the panel back");
}

#[test]
fn reclaiming_panel_mid_forward_pulls_input_home() {
    let (mut host, mut client) = desk();
    give_panel_to_client(&mut host, &mut client);
    cross_diagonally(&mut host, &mut client);
    assert!(host.forwarding(), "handover must have started forwarding");

    assert!(host.ctl(r#"{"op":"hotkey"}"#));
    settle(&mut host, &mut client);
    assert!(!host.forwarding(), "host stops forwarding once it reclaims the panel");
    assert!(host.blocked().is_none(), "host unblocks its own panel copy");
    assert!(!host.capture().driven, "host must not be driven by a client nobody is sitting at");
    assert!(!host.logged("driven"), "spurious handover after reclaim");
    let inside = |r: &Rect, (x, y): (i32, i32)| {
        x >= r.x && x < r.x + r.w && y >= r.y && y < r.y + r.h
    };
    let cur = client.world.cursor;
    assert!(!inside(&client.blocked().unwrap(), cur));
    assert!(client.world.monitors.iter().any(|m| inside(m, cur)), "{cur:?}");

    host.warp(1000, 700);
    give_panel_to_client(&mut host, &mut client);
    cross_diagonally(&mut host, &mut client);
    assert!(host.forwarding(), "second handover must forward again");
}

#[test]
fn reconnect_never_hands_control_to_an_empty_desk() {
    fn quiet(host: &Machine, client: &Machine, when: &str) {
        assert!(client.blocked().is_some(), "{when}: client blocks its panel copy");
        assert!(!host.capture().driven, "{when}: host driven by an empty desk");
        assert!(!host.logged("driven"), "{when}: spurious handover");
        assert!(host.blocked().is_none(), "{when}: client's stale owner blocked the host's panel");
        assert!(!client.forwarding(), "{when}: client forwarding to nobody");
        let (x, y) = client.world.cursor;
        assert!(!(x < 2560 && y >= 0), "{when}: client cursor still on the hidden panel ({x},{y})");
    }
    let (mut host, mut client) =
        pair_of(host_cfg(), HOST_MONS, client_cfg_shared(), CLIENT_MONS);
    quiet(&host, &client, "first connect");
    assert_eq!(client.last_owner(), Some("simhost"), "client persists the adopted owner");

    client.ctl(r#"{"op":"warp","x":100,"y":100}"#);
    disconnect(&mut host, &mut client);
    let mut host = Machine::start(copy(&host.cfg), HOST_MONS);
    connect(&mut host, &mut client);
    quiet(&host, &client, "after host restart");

    host.warp(1000, 700);
    give_panel_to_client(&mut host, &mut client);
    cross_diagonally(&mut host, &mut client);
    assert!(host.forwarding());
}

#[test]
fn shared_panel_arms_the_edge_to_a_beyond_monitor_without_a_link() {
    let (mut host, mut client) = desk();
    assert!(host.capture().portals.contains(&Edge::Top));
    assert!(host.cfg.layout.links.iter().all(|l| l.edge != Edge::Top), "no top link exists");
    client.injected();
    host.warp(3800, 40);
    let r = host.ctl_at(r#"{"op":"edge","edge":"top"}"#, 3800.0 / 5120.0);
    assert!(r, "top edge must be armed and cross");
    deliver(&mut host, &mut client);
    let (_, y) = landing(&mut client).expect("client is driven onto C above the panel");
    assert!(y < 0, "must land on C (negative y, above the panel), got y={y}");
    assert!(host.forwarding(), "host must be forwarding to the client");
}

#[test]
fn desk_arrangement_reaches_the_peer_and_survives_it_forgetting() {
    let (mut host, mut client) = desk();
    let beside = r#"{"op":"set_monitors","monitors":[[0,0,2560,1440],[2560,0,1920,1080]]}"#;
    let above = vec![rect(0, 0, 2560, 1440), rect(636, -1080, 1920, 1080)];

    assert!(client.ctl(beside));
    settle(&mut host, &mut client);
    assert!(host.logged("geometry update"), "host learns the 'beside' geometry");

    assert!(host.ctl(
        r#"{"op":"arrange","machine":"simwin","monitors":[[0,0,2560,1440],[636,-1080,1920,1080]]}"#
    ));
    settle(&mut host, &mut client);
    assert_eq!(client.world.monitors, above, "client's OS arrangement follows the editor");
    assert_eq!(client.cfg.arrangement, above, "client remembers it");
    assert_eq!(host.cfg.peers[0].screens, above, "host sees C above");

    assert!(client.ctl(beside));
    settle(&mut host, &mut client);
    assert_eq!(client.world.monitors, above, "client re-applies after the OS forgot");

    disconnect(&mut host, &mut client);
    let client = Machine::start(copy(&client.cfg), "0,0,2560,1440;2560,0,1920,1080");
    assert_eq!(client.world.monitors, above, "restarted client applies the arrangement");
}

/// A panel four times the size of its peer copy in each axis, and C right beside that.
fn scaled_desk() -> (Machine, Machine) {
    pair_of(
        host_with(
            vec![rect(0, 0, 1200, 400), rect(1200, 0, 1200, 400)],
            Edge::Right,
            2,
            rect(1000, 0, 4800, 1600),
            rect(0, 0, 1200, 400),
        ),
        "0,0,1000,1600;1000,0,4800,1600",
        client_cfg(),
        "0,0,1200,400;1200,0,1200,400",
    )
}

#[test]
fn beyond_panel_landing_keeps_native_margin_across_scale() {
    let (mut host, mut client) = scaled_desk();
    client.injected();
    host.warp(5750, 300);
    assert!(host.ctl_at(r#"{"op":"edge","edge":"right"}"#, 300.0 / 1600.0), "edge must be armed");
    deliver(&mut host, &mut client);
    let (x, y) = landing(&mut client).expect("client receives the warp");
    assert!(x >= 1202, "must clear C's left edge by a real margin, got x={x}");
    assert!((70..=80).contains(&y), "must keep the entry height (~75), got y={y}");
    assert!(host.logged("EnterAt"), "must have crossed via shared geometry");
}

#[test]
fn beyond_panel_crossing_keeps_the_owner_and_dips_home_through_the_seam() {
    let (mut host, mut client) = scaled_desk();
    assert!(client.blocked().is_some(), "client's panel copy is blocked");
    host.warp(5750, 300);
    assert!(host.ctl_at(r#"{"op":"edge","edge":"right"}"#, 300.0 / 1600.0), "edge must be armed");
    settle(&mut host, &mut client);
    assert!(landing(&mut client).is_some());
    assert!(client.blocked().is_some(), "client's panel copy must stay blocked (owner unchanged)");
    assert_ne!(host.last_owner(), Some("simwin"), "owner must not follow the cursor");
    assert!(host.forwarding(), "host must still be forwarding to C");

    assert!(host.ctl(r#"{"op":"input_move","dx":-120,"dy":0}"#), "host must still be forwarding");
    settle(&mut host, &mut client);
    assert!(!host.forwarding(), "dip onto the panel brings control home");
    assert!(host.logged("SharedCross"), "must come home through the panel seam");
    assert!(client.blocked().is_some(), "still the host's panel afterwards");
}

#[test]
fn no_nonce_desync_under_load_and_geometry_churn() {
    let (mut host, mut client) = desk();
    give_panel_to_client(&mut host, &mut client);
    cross_diagonally(&mut host, &mut client);
    client.injected();

    let psk = host.cfg.peers[0].psk_bytes().unwrap();
    let (start, first) = handshake_initiator(&psk).unwrap();
    let (answer, mut reader, _) = handshake_responder(&psk, &first).unwrap();
    let (_, mut writer) = start.finish(&answer).unwrap();
    let mut pipe: Vec<u8> = Vec::new();

    let mut flip = false;
    for i in 0..1200u32 {
        assert!(host.ctl(r#"{"op":"input_move","dx":3,"dy":1}"#), "forwarding dropped mid-stream");
        if i % 200 == 0 {
            flip = !flip;
            let c = if flip { 638 } else { 636 };
            client.ctl(&format!(
                r#"{{"op":"set_monitors","monitors":[[0,0,2560,1440],[{c},-1080,1920,1080]]}}"#
            ));
            client.tick();
            host.tick();
        }
        // The bytes of each frame come in pieces; a frame is taken only when it is whole.
        let plain = i.to_be_bytes();
        let sent = write_frame(&writer.send(&plain).unwrap());
        let mut got = None;
        for b in sent {
            pipe.push(b);
            if let Some((frame, used)) = read_frame(&pipe) {
                pipe.drain(..used);
                got = Some(reader.recv(&frame).expect("no decrypt error"));
            }
        }
        assert_eq!(got.unwrap(), plain.to_vec());
        deliver(&mut host, &mut client);
    }
    assert_eq!(host.sessions, vec!["simwin".to_string()], "session dropped under load");
    let moves = client
        .injected()
        .into_iter()
        .filter(|e| matches!(e, Recorded::Input(Injection::MouseTo { .. })))
        .count();
    assert!(moves > 200, "a steady stream of motion, got {moves}");
}

#[test]
fn straight_push_onto_the_panel_hands_over() {
    let (mut host, mut client) = desk();
    give_panel_to_client(&mut host, &mut client);
    let (x, y) = push(
        &mut host,
        &mut client,
        &[(2300, 700), (2450, 700), (2550, 700), (2600, 700)],
    );
    assert_eq!(x, 2, "must land just inside the panel's LEFT edge, got x={x}");
    assert!((695..=705).contains(&y), "must keep the entry height (~700), got y={y}");
    assert!(host.forwarding(), "host must be forwarding after the handover");
}

#[test]
fn crossing_is_derived_from_geometry_not_from_one_desk() {
    let (mut host, mut client) = pair_of(
        host_with(
            vec![rect(0, 0, 3440, 1440), rect(3440, -200, 1280, 1024)],
            Edge::Left,
            1,
            rect(-3440, 0, 3440, 1440),
            rect(0, 0, 3440, 1440),
        ),
        "-3440,0,3440,1440;0,0,1920,1080",
        client_cfg(),
        "0,0,3440,1440;3440,-200,1280,1024",
    );
    give_panel_to_client(&mut host, &mut client);
    let (x, y) =
        push(&mut host, &mut client, &[(300, 600), (150, 600), (30, 600), (-40, 600)]);
    assert!((3430..3440).contains(&x), "must land just inside the panel's RIGHT edge, got x={x}");
    assert!((595..=605).contains(&y), "must keep the entry height (~600), got y={y}");
    assert!(host.forwarding(), "host must be forwarding after the handover");
}

#[test]
fn the_panel_is_blocked_on_one_side() {
    let (mut host, mut client) = pair_of(host_cfg(), HOST_MONS, client_cfg_shared(), CLIENT_MONS);
    for _ in 0..4 {
        assert_ne!(host.blocked().is_some(), client.blocked().is_some());
        assert!(host.ctl(r#"{"op":"hotkey"}"#));
        settle(&mut host, &mut client);
    }
}

#[test]
fn panic_brings_input_home_and_releases_what_is_held() {
    let (mut host, mut client) = desk();
    give_panel_to_client(&mut host, &mut client);
    cross_diagonally(&mut host, &mut client);
    assert!(host.ctl(r#"{"op":"input_key","key":4,"pressed":true}"#));
    deliver(&mut host, &mut client);
    client.injected();
    // The capture side stops swallowing before the router hears of it.
    host.world.capture.as_mut().unwrap().forwarding = false;
    host.captured(Captured::Panic);
    deliver(&mut host, &mut client);
    assert_eq!(host.router.focus, None);
    assert!(!host.forwarding());
    let log = client.injected();
    assert!(
        log.iter().any(|e| matches!(
            e,
            Recorded::Input(Injection::Key { key: 4, pressed: false } | Injection::ReleaseAll)
        )),
        "{log:?}"
    );
    assert!(!client.capture().driven);
}

#[test]
fn a_lost_peer_has_no_hold() {
    let (mut host, mut client) = desk();
    give_panel_to_client(&mut host, &mut client);
    cross_diagonally(&mut host, &mut client);
    assert!(host.forwarding() && client.capture().driven);
    disconnect(&mut host, &mut client);
    assert!(!host.forwarding(), "input comes home");
    assert!(!client.capture().driven, "nobody drives the other desk");
    assert!(host.capture().portals.is_empty(), "a dead peer arms nothing");
}

#[test]
fn stale_reports_are_ignored() {
    let (mut host, mut client) = desk();
    let before = host.world.cursor;
    host.report(SessionEvent::CursorLeft { name: "simwin".into(), edge: Edge::Left, ratio: ratio(0.5) });
    host.report(SessionEvent::SharedCross { name: "simwin".into(), fx: ratio(0.5), fy: ratio(0.5) });
    settle(&mut host, &mut client);
    assert_eq!(host.world.cursor, before);
    assert!(!host.forwarding());
}

#[test]
fn being_driven_ends_driving() {
    let (mut host, mut client) = desk();
    give_panel_to_client(&mut host, &mut client);
    cross_diagonally(&mut host, &mut client);
    assert_eq!(host.router.focus.as_deref(), Some("simwin"));
    host.receive("simwin", Msg::EnterAt { x: 10, y: 10 });
    assert_eq!(host.router.focus, None);
    assert!(host.router.driven.is_some() && !host.forwarding());
    assert!(host.capture().portals.is_empty(), "nothing is armed while driven");
}
