//! Sessions, the client side and the clipboard.
use kayiver::binary32::F32;
use kayiver::config::Config;
use kayiver::engine::action::{offline_text, Action, Injection, Offline};
use kayiver::engine::client::{ClientState, Outcome, Response};
use kayiver::engine::clipsync::new_state;
use kayiver::engine::model::{button_index, mod_hid, parse_edge, Router, SessionEvent};
use kayiver::engine::panel::{find_adjoining, find_beyond, land_on, union_rect};
use kayiver::engine::search::{
    find_host, find_peer, host_missing_text, unreachable_text, Answer, Ask, Search,
};
use kayiver::engine::session::{
    accept_hello, accept_welcome, cadence, cursor_near_portal, identify, next_backoff, on_message,
    version_mismatch, Cadence, GeometryWatch, Handling, Heartbeat, Pending, Refusal, Sessions,
};
use kayiver::engine::{Burst, Captured};
use kayiver::layout::Edge;
use kayiver::pairing::paired_peer;
use kayiver::proto::{InputEvent, Intro, MouseButton, Msg, Rect, PROTOCOL_VERSION};

fn rect(x: i32, y: i32, w: i32, h: i32) -> Rect {
    Rect { x, y, w, h }
}

fn half() -> F32 {
    F32 { bits: 0.5f32.to_bits() }
}

#[test]
fn other_versions_are_refused() {
    let hello = |version| Msg::Hello {
        version,
        name: "win".into(),
        os: "windows".into(),
        screen: rect(0, 0, 1, 1),
        monitors: Vec::new(),
    };
    assert_eq!(accept_hello(hello(PROTOCOL_VERSION)).unwrap().os, "windows");
    assert!(matches!(accept_hello(hello(9)), Err(Refusal::Version(9))));
    assert!(matches!(accept_hello(Msg::Bye), Err(Refusal::Unexpected(Msg::Bye))));
    let welcome = |version| Msg::Welcome { version, name: "mac".into(), portal_edges: vec![Edge::Left] };
    assert_eq!(accept_welcome(welcome(PROTOCOL_VERSION)).unwrap(), vec![Edge::Left]);
    assert!(matches!(accept_welcome(welcome(1)), Err(Refusal::Version(1))));
    assert!(matches!(accept_welcome(Msg::Leave), Err(Refusal::Unexpected(Msg::Leave))));
    assert_eq!(version_mismatch(9), "protocol version mismatch: 9 != 10");
}

#[test]
fn only_paired_machines_open_sessions() {
    let mut c = Config::fresh("mac".into());
    c.upsert_peer(paired_peer("win", &[0u8; 32], None));
    assert_eq!(identify(&c, &Intro::Session { name: "win".into() }).unwrap().name, "win");
    assert!(matches!(
        identify(&c, &Intro::Session { name: "x".into() }),
        Err(Refusal::UnknownPeer(n)) if n == "x"
    ));
    assert!(matches!(identify(&c, &Intro::Pair), Err(Refusal::PairingWhileRunning)));
}

#[test]
fn messages_are_consumed_or_reported() {
    assert!(matches!(on_message("w", Msg::Ping(4)), Handling::Answer(Msg::Pong(4))));
    assert!(matches!(on_message("w", Msg::Pong(4)), Handling::RoundTrip(4)));
    assert!(matches!(on_message("w", Msg::Bye), Handling::Close));
    assert!(matches!(
        on_message("w", Msg::Clipboard { text: "t".into() }),
        Handling::Clipboard(t) if t == "t"
    ));
    assert!(matches!(
        on_message("w", Msg::UseAddr { addr: "a:1".into() }),
        Handling::Reconnect(a) if a == "a:1"
    ));
    assert!(matches!(
        on_message("w", Msg::Leave),
        Handling::Report(SessionEvent::Inbound { name, msg: Msg::Leave }) if name == "w"
    ));
    assert!(matches!(
        on_message("w", Msg::SharedRequest { owner: "toggle".into() }),
        Handling::Report(SessionEvent::SharedRequest { owner, .. }) if owner == "toggle"
    ));
}

#[test]
fn the_heartbeat_adapts() {
    assert_eq!(cadence("always"), Cadence::Always);
    assert_eq!(cadence("off"), Cadence::Off);
    assert_eq!(cadence("auto"), Cadence::Adaptive);
    let mut h = Heartbeat::new(Cadence::Adaptive, 0);
    let mut pings = 0;
    for i in 0..20u64 {
        assert_eq!(h.begin(i * 100, false), 100);
        if h.end(i * 100 + 100, false).is_some() {
            pings += 1;
        }
    }
    assert_eq!(pings, 2, "one ping a second while idle");
    assert_eq!(h.begin(2000, true), 8);
    assert_eq!(h.end(2008, false), Some(3));
    assert_eq!(h.begin(61_999, false), 8, "the radio stays hot for a minute");
    assert_eq!(h.begin(62_000, false), 100);
    assert_eq!(h.end(62_100, true), None);
    assert_eq!(h.begin(62_100, false), 8, "near an edge the radio is woken");
    let mut off = Heartbeat::new(Cadence::Off, 0);
    assert_eq!(off.begin(0, true), 100);
}

#[test]
fn a_pong_counts_once() {
    let mut p = Pending::new();
    let tenth = 100_000_000;
    p.note(1, tenth);
    p.note(2, 2 * tenth);
    assert_eq!(p.answer(1), Some(tenth));
    assert_eq!(p.answer(1), None);
    for i in 3..70u64 {
        p.note(i, i * tenth);
    }
    assert_eq!(p.sent.len(), 53);
    assert_eq!(p.sent[0], (17, 17 * tenth), "beyond 64, those of more than five seconds ago are dropped");
}

#[test]
fn a_near_cursor_warms_the_link() {
    let b = rect(0, 0, 2560, 1440);
    assert!(cursor_near_portal(&[Edge::Right], b, None, (2461, 700)));
    assert!(!cursor_near_portal(&[Edge::Right], b, None, (2460, 700)));
    assert!(!cursor_near_portal(&[], b, None, (2559, 700)));
    let panel = Some(rect(3000, 0, 100, 100));
    assert!(cursor_near_portal(&[], b, panel, (2900, 50)));
    assert!(!cursor_near_portal(&[], b, panel, (2899, 50)));
}

#[test]
fn every_address_is_tried_once() {
    let mut p = paired_peer("win", &[0u8; 32], Some("a:1".into()));
    p.last_good = Some("b:1".into());
    p.addrs = vec!["a:1".into(), "c:1".into(), "".into(), "b:1".into()];
    let order = |s: Search| {
        s.candidates.into_iter().map(|c| (c.addr, c.timeout_ms)).collect::<Vec<_>>()
    };
    assert_eq!(
        order(find_peer(&p)),
        vec![("a:1".to_string(), 4000), ("b:1".into(), 1500), ("c:1".into(), 1500)]
    );
    assert_eq!(
        order(find_host(&p)),
        vec![("b:1".to_string(), 1500), ("a:1".into(), 1500), ("c:1".into(), 1500)]
    );
    let f = vec!["a:1: timed out".to_string(), "mDNS: no answer".into()];
    assert_eq!(
        unreachable_text("win", &f),
        "'win' unreachable — tried: a:1: timed out · mDNS: no answer"
    );
    assert_eq!(
        host_missing_text("mac", &f[..1].to_vec()),
        "'mac' bulunamadı — denenen yollar: a:1: timed out"
    );
    assert_eq!(next_backoff(1000, false), 2000);
    assert_eq!(next_backoff(4000, false), 5000);
    assert_eq!(next_backoff(5000, true), 1000);
}

/// Runs a search: what it asked, and what it came to.
fn run(mut s: Search, dial: impl Fn(&str) -> Answer, mdns: Option<&str>) -> (Vec<String>, Ask) {
    let mut asked = Vec::new();
    loop {
        let answer = match s.ask() {
            Ask::Dial { addr, .. } => {
                let a = dial(&addr);
                asked.push(addr);
                a
            }
            Ask::Discover { name, timeout_ms } => {
                asked.push(format!("{name} in {timeout_ms}"));
                mdns.map_or(Answer::Unresolved, |a| Answer::Up(a.into()))
            }
            end => return (asked, end),
        };
        s.heard(answer);
    }
}

#[test]
fn the_first_answer_is_taken() {
    let mut p = paired_peer("mac", &[0u8; 32], Some("a:1".into()));
    p.last_good = Some("b:1".into());
    p.addrs = vec!["c:1".into(), "d:1".into()];
    let net = |a: &str| match a {
        "b:1" => Answer::TimedOut,
        "a:1" => Answer::Unresolved,
        a => Answer::Up(format!("10.0.0.{}", a.len())),
    };
    let (asked, end) = run(find_host(&p), net, Some("10.0.0.9:1"));
    assert_eq!(asked, ["b:1", "a:1", "c:1"], "discovery is not asked");
    match end {
        Ask::Found(a) => assert_eq!(a, "10.0.0.3"),
        other => panic!("{other:?}"),
    }
}

#[test]
fn discovery_is_asked_last() {
    let mut p = paired_peer("mac", &[0u8; 32], Some("a:1".into()));
    p.last_good = Some("b:1".into());
    let net = |a: &str| match a {
        "a:1" => Answer::Refused("connection refused".into()),
        "b:1" => Answer::TimedOut,
        _ => Answer::Unresolved,
    };
    let (asked, end) = run(find_peer(&p), net, Some("10.0.0.9:1"));
    assert_eq!(asked, ["a:1", "b:1", "mac in 3000"]);
    match end {
        Ask::Found(a) => assert_eq!(a, "10.0.0.9:1"),
        other => panic!("{other:?}"),
    }
    match run(find_peer(&p), net, None).1 {
        Ask::Failed(t) => assert_eq!(
            t,
            "'mac' unreachable — tried: a:1: connection refused · b:1: timed out · mDNS: no answer"
        ),
        other => panic!("{other:?}"),
    }
    match run(find_host(&p), |_| Answer::Unresolved, None).1 {
        Ask::Failed(t) => assert_eq!(
            t,
            "'mac' bulunamadı — denenen yollar: b:1: adres çözülemedi · a:1: adres çözülemedi · mDNS: bulunamadı"
        ),
        other => panic!("{other:?}"),
    }
}

#[test]
fn a_reload_names_the_panels_peer() {
    let mut c = Config::fresh("mac".into());
    let mut router = Router::new(&c, rect(0, 0, 100, 100), true);
    let _ = router.take_actions();
    c.upsert_peer(paired_peer("win", &[0u8; 32], None));
    c.shared_monitor.local_index = Some(1);
    c.shared_monitor.peer_index = Some(0);
    assert!(!router.reload(&c), "the links are the same");
    let told = router.take_actions().into_iter().find_map(|a| match a {
        Action::SharedState { configured, peer, owner } => Some((configured, peer, owner)),
        _ => None,
    });
    assert_eq!(told, Some((true, Some("win".into()), None)));
}

#[test]
fn an_old_session_leaves_its_successor() {
    let mut s = Sessions::new();
    let a = s.open("win");
    let b = s.open("win");
    assert_ne!(a, b);
    assert!(!s.close("win", a), "the old session's cleanup");
    assert!(s.contains("win"));
    assert_eq!(s.names(), vec!["win".to_string()]);
    assert!(s.close("win", b));
    assert!(!s.contains("win") && s.names().is_empty());
}

#[test]
fn an_arrangement_is_tried_once_for_each_geometry() {
    let (a, b) = (vec![rect(0, 0, 10, 10)], vec![rect(5, 0, 10, 10)]);
    let mut w = GeometryWatch::new(a.clone());
    assert!(!w.wants_arrangement(&a, &[]));
    assert!(w.wants_arrangement(&a, &b));
    assert!(!w.wants_arrangement(&a, &b));
    assert!(w.wants_arrangement(&b, &b), "another geometry");
    assert!(w.wants_arrangement(&a, &b), "the OS forgot again");
    assert!(!w.changed(&a));
    assert!(w.changed(&b));
    assert!(!w.changed(&b));
}

#[test]
fn input_is_dropped_after_the_handoff() {
    let b = rect(0, 0, 1000, 500);
    let mut c = ClientState::new(b, vec![Edge::Left]);
    assert_eq!(c.pos, (500, 250));
    let step = |dx| InputEvent::MouseMove { dx, dy: 0 };
    assert_eq!(c.apply(step(5)), Outcome::Dropped, "nobody drives yet");
    c.on_message(&Msg::Enter { edge: Edge::Left, ratio: half() });
    assert_eq!(c.pos, (2, 250));
    assert_eq!(c.apply(step(-1)), Outcome::Inject(Injection::MouseTo { x: 1, y: 250, dx: -1, dy: 0 }));
    assert_eq!(c.apply(step(99_999)), Outcome::Inject(Injection::MouseTo { x: 999, y: 250, dx: 99_999, dy: 0 }));
    let r = c.on_message(&Msg::Input(step(-1000)));
    assert_eq!(
        r,
        vec![
            Response::Inject(Injection::ReleaseAll),
            Response::Indicator { active: false },
            Response::CursorLeft { edge: Edge::Left, ratio: half() },
        ]
    );
    assert_eq!(c.apply(step(1)), Outcome::Dropped);
    assert_eq!(c.on_message(&Msg::Ping(3)), vec![Response::Pong(3)]);
    assert_eq!(c.on_message(&Msg::Bye), vec![Response::Close]);
    assert_eq!(c.on_message(&Msg::Pong(3)), vec![Response::Unexpected]);
    c.refresh(rect(0, 0, 100, 100));
    assert_eq!(c.pos, (50, 50));
}

#[test]
fn remote_text_is_not_echoed() {
    let mut s = new_state();
    s.seed(Some("old".into()), 7);
    assert!(!s.moved(7) && s.moved(8));
    assert_eq!(s.watch(Some("old".into())), None);
    assert_eq!(s.watch(Some("mine".into())).as_deref(), Some("mine"));
    assert!(s.apply_remote("theirs"));
    assert_eq!(s.watch(Some("theirs".into())), None);
    assert!(!s.apply_remote("theirs"));
    assert_eq!(s.watch(Some("".into())), None);
    assert_eq!(s.watch(None), None);
}

#[test]
fn bursts_of_motion_are_summed() {
    let mut b = Burst { dx: 1, dy: 2 };
    let m = |dx, dy| Captured::Input(InputEvent::MouseMove { dx, dy });
    assert_eq!(b.absorb(m(3, -5)), None);
    assert_eq!(b.absorb(Captured::Panic), Some(Captured::Panic));
    assert_eq!(b.event(), m(4, -3));
}

#[test]
fn names_stand_for_edges_keys_and_buttons() {
    for (s, e) in [("left", Edge::Left), ("right", Edge::Right), ("top", Edge::Top), ("bottom", Edge::Bottom)] {
        assert_eq!(parse_edge(s), Some(e));
        assert_eq!(e.to_text(), s);
        assert_eq!(e.opposite().opposite(), e);
    }
    assert_eq!(parse_edge("up"), None);
    assert_eq!((mod_hid("ctrl", 1), mod_hid("alt", 1), mod_hid("win", 1), mod_hid("x", 1)), (0xE0, 0xE2, 0xE3, 1));
    assert_eq!(
        [MouseButton::Left, MouseButton::Right, MouseButton::Middle, MouseButton::X1, MouseButton::X2]
            .map(button_index),
        [0, 1, 2, 3, 4]
    );
    assert_eq!(offline_text("win", Offline::Ignore), None);
    assert!(offline_text("win", Offline::LinkError).is_some());
}

#[test]
fn monitors_beyond_the_panel_are_found() {
    let (local, prect) = (rect(2560, 0, 2560, 1440), rect(0, 0, 2560, 1440));
    let c = rect(636, -1080, 1920, 1080);
    let b = rect(0, 0, 5120, 1440);
    assert_eq!(find_beyond(&[prect, c], local, prect, b, Edge::Top, 3800, 0), Some(c));
    assert_eq!(find_beyond(&[prect, c], local, prect, b, Edge::Right, 5119, 700), None);
    let (x, y) = land_on(c, local, prect, b, Edge::Top, 3800, 0);
    assert!(c.x <= x && x < c.right() && y < 0 && y >= c.y, "({x},{y})");
    assert_eq!(find_adjoining(&[prect, c], prect, Edge::Top), Some(c));
    assert_eq!(union_rect(&[prect, c]), Some(rect(0, -1080, 2560, 2520)));
    assert_eq!(union_rect(&[]), None);
}
