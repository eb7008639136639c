//! What the machines of either kind capture and inject.
use kayiver::config::Config;
use kayiver::engine::action::Action;
use kayiver::engine::Captured;
use kayiver::layout::Edge;
use kayiver::platform::display::{
    display_disabled, displays, input_source, monitor_name, set_display_enabled,
    set_display_input, switch_rest, ActiveDisplay, Mirroring,
};
use kayiver::platform::macos::{CaptureState, Pointer, TapEvent};
use kayiver::platform::permissions::{PermissionWait, Verdict};
use kayiver::platform::macos_injector::{self, to_lines, MacEvent};
use kayiver::platform::tray::{
    balloon_text, fill, set_state, status_summary, summarize, to_wide, tooltip, Balloon, PeerStatus, TrayState,
};
use kayiver::platform::windows::{park_point, CapState, KeyHook, MouseHook};
use kayiver::platform::windows_injector::{self, WinInput};
use kayiver::platform::{desktop_bounds, stub, touched, CaptureCtl, Escape, Guard};
use kayiver::proto::{InputEvent, MouseButton, Rect};
use kayiver::platform::sim::{handle, read_op, world, SimOp, SimReply};
use kayiver::binary32::F32;

const MS: u64 = 1_000_000;

fn rect(x: i32, y: i32, w: i32, h: i32) -> Rect {
    Rect { x, y, w, h }
}

fn ctl() -> CaptureCtl {
    let mut c = CaptureCtl::new(rect(0, 0, 2560, 1440), 0);
    c.tell(&Action::Portals(vec![Edge::Right]), 0);
    c
}

fn event(kind: u32) -> TapEvent {
    TapEvent { kind, keycode: 0, flags: 0, x: 100, y: 700, dx: 0, dy: 0, button: 0, scroll_x: 0, scroll_y: 0 }
}

#[test]
fn a_crossing_flips_into_forwarding_at_once() {
    let (mut st, mut c) = (CaptureState::new(), ctl());
    let local = st.tap_callback(&mut c, &event(10), MS);
    assert!(!local.swallow && local.captured.is_none(), "local keys pass");
    let hit = st.tap_callback(&mut c, &TapEvent { x: 2559, ..event(5) }, MS);
    assert!(c.forwarding && !hit.swallow);
    assert!(matches!(hit.captured, Some(Captured::EdgeHit { edge: Edge::Right, .. })));
    assert_eq!(hit.warp, Some((2555, 700)));
    let next = st.tap_callback(&mut c, &TapEvent { dx: 3, dy: -4, ..event(5) }, MS);
    assert!(next.swallow);
    assert_eq!(next.captured, Some(Captured::Input(InputEvent::MouseMove { dx: 3, dy: -4 })));
    assert_eq!(next.warp, Some((2555, 700)), "the local pointer is pinned");
}

#[test]
fn a_dwell_guards_an_edge() {
    let (mut st, mut c) = (CaptureState::new(), ctl());
    c.tell(&Action::EdgeDwell(100), 0);
    let at = TapEvent { x: 2559, ..event(5) };
    st.tap_callback(&mut c, &at, 10 * MS);
    assert!(!c.forwarding);
    st.tap_callback(&mut c, &at, 109 * MS);
    assert!(!c.forwarding);
    st.tap_callback(&mut c, &event(5), 110 * MS);
    st.tap_callback(&mut c, &at, 120 * MS);
    st.tap_callback(&mut c, &at, 219 * MS);
    assert!(!c.forwarding, "leaving the edge starts the dwell anew");
    st.tap_callback(&mut c, &at, 220 * MS);
    assert!(c.forwarding);
}

#[test]
fn three_escapes_bring_input_home() {
    let (mut st, mut c) = (CaptureState::new(), ctl());
    c.tell(&Action::EnterForwarding, 0);
    let esc = TapEvent { keycode: 53, ..event(10) };
    assert!(!matches!(st.tap_callback(&mut c, &esc, 100 * MS).captured, Some(Captured::Panic)));
    st.tap_callback(&mut c, &esc, 300 * MS);
    let third = st.tap_callback(&mut c, &esc, 500 * MS);
    assert_eq!(third.captured, Some(Captured::Panic));
    assert!(!c.forwarding && third.swallow);
    let mut e = Escape::new();
    assert!(!e.press(0) && !e.press(800 * MS) && !e.press(1600 * MS), "slow presses stay");
}

#[test]
fn hotkeys_and_modifiers_are_captured() {
    let (mut st, mut c) = (CaptureState::new(), ctl());
    let m = TapEvent { keycode: 46, flags: 0x0018_0000, ..event(10) };
    assert!(!st.tap_callback(&mut c, &m, 0).swallow, "the hotkey is not armed");
    c.tell(&Action::SharedHotkey(true), 0);
    assert_eq!(st.tap_callback(&mut c, &m, 0).captured, Some(Captured::SharedHotkey));
    let t = TapEvent { keycode: 17, ..m };
    assert_eq!(st.tap_callback(&mut c, &t, 0).captured, Some(Captured::TabletHotkey));
    assert!(st.tap_callback(&mut c, &event(0xFFFF_FFFE), 0).reenable);
    c.tell(&Action::EnterForwarding, 0);
    let shift = TapEvent { keycode: 56, ..event(12) };
    let mut got = Vec::new();
    for _ in 0..3 {
        if let Some(Captured::Input(InputEvent::Key { key, pressed })) = st.tap_callback(&mut c, &shift, 0).captured {
            got.push((key, pressed));
        }
    }
    assert_eq!(got, vec![(0xE1, true), (0xE1, false), (0xE1, true)]);
    let wheel = TapEvent { scroll_y: -2, ..event(22) };
    assert_eq!(
        st.tap_callback(&mut c, &wheel, 0).captured,
        Some(Captured::Input(InputEvent::Wheel { dx: 0, dy: -240 }))
    );
}

#[test]
fn the_cooldown_holds_off_a_crossing() {
    let (mut st, mut c) = (CaptureState::new(), ctl());
    c.tell(&Action::ExitForwarding, 1000 * MS);
    let at = TapEvent { x: 2559, ..event(5) };
    st.tap_callback(&mut c, &at, 1299 * MS);
    assert!(!c.forwarding);
    st.tap_callback(&mut c, &at, 1300 * MS);
    assert!(c.forwarding);
}

fn hook(msg: u32, x: i32, y: i32, data: u32) -> MouseHook {
    MouseHook { injected: false, msg, x, y, data }
}

#[test]
fn windows_hooks_report_deltas_against_the_park() {
    let mut s = CapState::new();
    let mut c = ctl();
    let hit = s.mouse_proc(&mut c, &hook(0x200, 2559, 700, 0), MS);
    assert!(c.forwarding);
    assert_eq!(hit.park, Some((2259, 700)));
    let moved = s.mouse_proc(&mut c, &hook(0x200, 2264, 698, 0), MS);
    assert!(moved.swallow);
    assert_eq!(moved.captured, Some(Captured::Input(InputEvent::MouseMove { dx: 5, dy: -2 })));
    let own = MouseHook { injected: true, ..hook(0x200, 5, 5, 0) };
    assert!(!s.mouse_proc(&mut c, &own, MS).swallow, "injected input passes");
    assert_eq!(
        s.mouse_proc(&mut c, &hook(0x20A, 0, 0, 0xFF88_0000), MS).captured,
        Some(Captured::Input(InputEvent::Wheel { dx: 0, dy: -120 }))
    );
    assert_eq!(
        s.mouse_proc(&mut c, &hook(0x20B, 0, 0, 0x0002_0000), MS).captured,
        Some(Captured::Input(InputEvent::MouseButton { button: MouseButton::X2, pressed: true }))
    );
    let a = KeyHook { injected: false, msg: 0x100, vk: 0x41 };
    assert_eq!(
        s.keyboard_proc(&mut c, &a, MS).captured,
        Some(Captured::Input(InputEvent::Key { key: 4, pressed: true }))
    );
    let esc = KeyHook { vk: 0x1B, ..a };
    s.keyboard_proc(&mut c, &esc, 100 * MS);
    s.keyboard_proc(&mut c, &esc, 200 * MS);
    assert_eq!(s.keyboard_proc(&mut c, &esc, 300 * MS).captured, Some(Captured::Panic));
    assert!(!c.forwarding);
    assert_eq!(park_point(rect(0, 0, 100, 100), Edge::Left, 0, 50), (99, 50));
}

#[test]
fn an_injector_releases_what_it_holds() {
    let mut i = macos_injector::Injector::new();
    i.mouse_to(10, 20, 1, 1);
    let down = i.button(MouseButton::Left, true, 0);
    assert!(matches!(down.event, MacEvent::Click { kind: 1, x: 10, y: 20, click_state: 1, .. }));
    assert!(matches!(i.mouse_to(11, 20, 1, 0).event, MacEvent::Motion { kind: 6, .. }), "a drag");
    i.button(MouseButton::Left, false, 10 * MS);
    i.mouse_to(10, 20, -1, 0);
    let again = i.button(MouseButton::Left, true, 400 * MS);
    assert!(matches!(again.event, MacEvent::Click { click_state: 2, .. }), "{again:?}");
    i.key(0xE1, true);
    assert_eq!(i.key(4, true).unwrap().flags, 0x0002_0000);
    assert!(i.key(0xFF, true).is_none());
    let out = i.release_all(500 * MS);
    assert_eq!(out.len(), 3);
    assert!(i.down_keys.is_empty() && i.down_buttons.is_empty() && i.flags == 0);
    for (v, want) in [(0, 0), (1, 1), (-1, -1), (60, 1), (120, 1), (180, 2), (-240, -2), (179, 1)] {
        assert_eq!(to_lines(v), want, "{v}");
        let f = v as f32 / 120.0;
        let r = f.round() as i32;
        assert_eq!(want, if v == 0 { 0 } else if r == 0 { v.signum() } else { r });
    }
}

#[test]
fn windows_input_spans_the_desktop() {
    let mut i = windows_injector::Injector::new(rect(-1920, 0, 3840, 1080));
    assert_eq!(i.mouse_to(-1920, 0), WinInput::Mouse { flags: 0xC001, dx: 0, dy: 0, data: 0 });
    assert_eq!(i.mouse_to(1919, 1079), WinInput::Mouse { flags: 0xC001, dx: 65535, dy: 65535, data: 0 });
    i.key(4, true);
    i.key(0xE0, true);
    i.button(MouseButton::X2, true);
    assert_eq!(i.wheel(120, -240).len(), 2);
    assert_eq!(i.wheel(0, 0).len(), 0);
    assert_eq!(i.release_all().len(), 3);
    assert!(i.down_keys.is_empty() && i.release_all().is_empty());
}

#[test]
fn only_an_entry_hands_over() {
    let mut c = ctl();
    let panel = rect(2560, 0, 2560, 1440);
    c.tell(&Action::Blocked(Some(panel)), 0);
    let mut g = Guard::new((2600, 700));
    assert!(g.look(&c, (2600, 700)).is_none(), "the block appeared under the cursor");
    assert!(g.look(&c, (2700, 700)).is_none(), "a resting cursor stays");
    assert!(g.look(&c, (2500, 700)).is_none());
    let h = g.look(&c, (2600, 700)).unwrap();
    assert_eq!(f32::from_bits(h.fx.bits), 0.0);
    assert_eq!(h.park, (2559, 700), "parked off the panel");
    assert!(g.look(&c, (2600, 700)).is_none(), "once");
    c.tell(&Action::Driven(true), 0);
    assert!(g.look(&c, (100, 100)).is_none());
}

#[test]
fn only_armed_edges_trigger() {
    let b = rect(0, 0, 100, 100);
    assert_eq!(touched(&vec![Edge::Right], b, 99, 50), Some(Edge::Right));
    assert_eq!(touched(&vec![Edge::Left], b, 99, 50), None);
    assert_eq!(touched(&vec![Edge::Bottom, Edge::Right], b, 99, 99), Some(Edge::Bottom));
    assert_eq!(desktop_bounds(&vec![rect(-5, 0, 10, 10), rect(5, 3, 10, 10)]), rect(-5, 0, 20, 13));
    assert_eq!(desktop_bounds(&Vec::new()), rect(0, 0, 1920, 1080));
}

#[test]
fn only_the_shared_display_is_detached() {
    let list = vec![
        ActiveDisplay { id: 1, bounds: rect(0, 0, 2560, 1440), mirrored: false },
        ActiveDisplay { id: 7, bounds: rect(2560, 0, 2560, 1440), mirrored: true },
    ];
    let expect = Some(rect(2560, 0, 2560, 1440));
    assert_eq!(
        set_display_enabled(&list, 1, 2, expect, false),
        Ok(Mirroring { target: 7, master: 1 })
    );
    assert_eq!(set_display_enabled(&list, 1, 2, expect, true), Ok(Mirroring { target: 7, master: 0 }));
    assert_eq!(
        set_display_enabled(&list, 1, 1, None, false),
        Err("refusing to disable the main display".into())
    );
    assert_eq!(
        set_display_enabled(&list, 1, 9, None, false),
        Err("display index 9 out of range".into())
    );
    let e = set_display_enabled(&list, 1, 2, Some(rect(0, 0, 800, 600)), false).unwrap_err();
    assert_eq!(
        e,
        "safety: display 2 is Rect { x: 2560, y: 0, w: 2560, h: 1440 }, expected shared panel \
         Rect { x: 0, y: 0, w: 800, h: 600 } — refusing to disable the wrong monitor"
    );
    assert_eq!(display_disabled(&list, 1, 2), Some(true));
    assert_eq!(display_disabled(&list, 1, 3), None);
    let d = displays("[1] LC32G5xT (UUID)\nnoise\n[x] y\n");
    assert_eq!(d.len(), 1);
    assert_eq!((d[0].index, d[0].name.as_str()), (1, "LC32G5xT (UUID)"));
    assert_eq!(input_source("nonsense"), None);
    assert_eq!(monitor_name("LC32\0\0"), "LC32");
}

#[test]
fn balloons_follow_the_connection() {
    let (s, changed, b) = set_state(TrayState::Disconnected, true, false);
    assert_eq!((s, changed, b), (TrayState::Connected, true, Some(Balloon::Connected)));
    assert_eq!(set_state(s, true, true), (TrayState::CursorHere, true, None));
    assert_eq!(set_state(TrayState::CursorHere, false, true).2, Some(Balloon::Lost));
    assert_eq!(tooltip(TrayState::Connected, "mac"), "kayiver — connected to mac");
    assert_eq!(balloon_text(Balloon::Lost, TrayState::Disconnected, "mac").0, "Kayıver bağlantısı koptu");
    for t in ["", "a", "ş🦀b"] {
        let mut want: Vec<u16> = t.encode_utf16().collect();
        want.push(0);
        assert_eq!(to_wide(t), want);
    }
    assert_eq!(fill(3, "abcd"), vec![97, 98, 0]);
    let p = |name: &str, connected, rtt: Option<&str>| PeerStatus {
        name: name.into(),
        connected,
        rtt: rtt.map(|r| r.into()),
    };
    assert_eq!(
        status_summary(Some(true), &vec![p("win", true, Some("8")), p("lab", false, None)]),
        ("win: bağlı (8 ms) · lab: çevrimdışı".into(), true)
    );
    assert_eq!(status_summary(Some(true), &vec![p("win", true, None)]), ("win: bağlı".into(), false));
    assert!(status_summary(None, &Vec::new()).1);
}

#[test]
fn a_status_is_summed_up_in_one_line() {
    let rtts = vec![("win".to_string(), "8.0".to_string()), ("lab".into(), "1.0".into())];
    let said = |code, body: &str| summarize(code, body.as_bytes(), &rtts);
    let starting = ("Motor başlatılıyor / izin bekleniyor…".to_string(), true);
    assert_eq!(said(0, ""), starting);
    assert_eq!(said(500, r#"{"running":true}"#), starting);
    assert_eq!(said(200, "{"), starting);
    let stopped = ("Motor çalışmıyor (izin bekleniyor olabilir)".to_string(), true);
    assert_eq!(said(200, r#"{"running":false,"peers":{"win":{}}}"#), stopped);
    assert_eq!(said(200, "[true]"), stopped);
    let alone = ("Eş bekleniyor…".to_string(), true);
    assert_eq!(said(200, r#"{"running":true}"#), alone);
    assert_eq!(said(200, r#"{"running":true,"peers":["win"]}"#), alone);
    assert_eq!(
        said(200, r#"{"running":true,"peers":{"win":{"connected":true,"rtt_ms":8.0}}}"#),
        ("win: bağlı (8.0 ms)".into(), false)
    );
    assert_eq!(
        said(
            200,
            r#"{"running":true,"peers":{"win":{"connected":true},"mac":{"connected":true},"lab":{"connected":1}}}"#
        ),
        ("lab: çevrimdışı · mac: bağlı · win: bağlı (8.0 ms)".into(), true)
    );
}

#[test]
fn the_desktop_is_the_smallest_box() {
    let mons = vec![rect(-300, 40, 300, 200), rect(0, 0, 1920, 1080), rect(1920, -80, 640, 480)];
    let b = desktop_bounds(&mons);
    assert_eq!(b, rect(-300, -80, 2860, 1160));
    for m in &mons {
        assert!(b.x <= m.x && b.y <= m.y && m.right() <= b.right() && m.bottom() <= b.bottom());
    }
}

#[test]
fn an_unknown_platform_says_so() {
    assert!(stub::start_capture().is_err() && stub::new_injector().is_err());
    assert!(stub::set_display_input(0, 1).is_err() && stub::set_display_enabled(0, true).is_err());
    assert_eq!(stub::desktop_bounds(), rect(0, 0, 1920, 1080));
    assert_eq!(stub::monitors(), vec![rect(0, 0, 1920, 1080)]);
    assert!(stub::displays().is_empty());
    assert_eq!(stub::cursor_pos(), (0, 0));
}

#[test]
fn the_virtual_world_is_faithful() {
    let mut w = world(Some("0,0,100,100; 100,0,50,50;bad"));
    assert_eq!(w.monitors, vec![rect(0, 0, 100, 100), rect(100, 0, 50, 50)]);
    assert_eq!(world(None).monitors, vec![rect(0, 0, 2560, 1440)]);
    let r = F32 { bits: 0 };
    let failed = |w: &mut kayiver::platform::sim::SimWorld, line: &str| match handle(w, line.as_bytes(), r).0 {
        SimReply::Failed(e) => e,
        other => format!("{other:?}"),
    };
    assert_eq!(failed(&mut w, r#"{"op":"edge","edge":"left"}"#), "no capture (client?)");
    w.capture = Some(CaptureCtl::new(rect(0, 0, 150, 100), 0));
    assert_eq!(failed(&mut w, r#"{"op":"edge","edge":"left"}"#), "edge not armed");
    assert_eq!(failed(&mut w, r#"{"op":"edge","edge":"up"}"#), "bad edge");
    assert_eq!(failed(&mut w, r#"{"op":"input_move"}"#), "not forwarding");
    assert_eq!(failed(&mut w, r#"{"op":"set_monitors","monitors":[[1,2]]}"#), "no monitors");
    assert_eq!(failed(&mut w, r#"{"op":"fly"}"#), "unknown op 'fly'");
    assert!(failed(&mut w, "{").starts_with("bad json: "));
}

#[test]
fn permissions_are_waited_for() {
    let mut w = PermissionWait::new();
    let wait = |open_settings, remind| Verdict::Wait { open_settings, remind };
    assert_eq!(w.ensure_permissions(false, 6_000), wait(false, false));
    assert_eq!(w.ensure_permissions(false, 7_000), wait(true, false));
    assert_eq!(w.ensure_permissions(false, 8_000), wait(false, false), "settings open once");
    assert_eq!(w.ensure_permissions(false, 30_001), wait(false, true));
    assert_eq!(w.ensure_permissions(false, 60_001), wait(false, false));
    assert_eq!(w.ensure_permissions(true, 61_000), Verdict::Granted);
    assert_eq!(w.ensure_permissions(false, 900_000), Verdict::GiveUp);
}

#[test]
fn hides_and_shows_alternate() {
    let mut p = Pointer { hidden: false };
    assert_eq!(p.set_forwarding_visuals(true).hide, Some(true));
    let again = p.set_forwarding_visuals(true);
    assert_eq!((again.hide, again.associated), (None, false));
    assert_eq!(p.set_forwarding_visuals(false).hide, Some(false));
    assert_eq!(p.set_forwarding_visuals(false).hide, None);
}

#[test]
fn monitors_are_asked_three_times() {
    assert_eq!([0, 1, 2, 3].map(switch_rest), [Some(0), Some(250), Some(250), None]);
    assert_eq!(set_display_input(2, 1), Ok(1));
    assert_eq!(set_display_input(2, 2), Err("display index 2 out of range".into()));
    assert_eq!(set_display_input(0, 0), Err("no physical monitors".into()));
}

#[test]
fn local_input_passes_the_hooks() {
    let (mut s, mut c) = (CapState::new(), ctl());
    assert!(!s.mouse_proc(&mut c, &hook(0x201, 2559, 700, 0), MS).swallow);
    let key = KeyHook { injected: false, msg: 0x100, vk: 0x41 };
    assert!(!s.keyboard_proc(&mut c, &key, MS).swallow);
    c.tell(&Action::ExitForwarding, 1000 * MS);
    let early = s.mouse_proc(&mut c, &hook(0x200, 2559, 700, 0), 1299 * MS);
    assert!(!c.forwarding && early.captured.is_none());
    s.mouse_proc(&mut c, &hook(0x200, 2559, 700, 0), 1300 * MS);
    assert!(c.forwarding);
    assert!(s.keyboard_proc(&mut c, &key, 1300 * MS).swallow);
}

#[test]
fn control_operations_are_read() {
    let mut v = serde_json::Map::new();
    v.insert("op".into(), "warp".into());
    v.insert("x".into(), 7.into());
    let op = read_op(&serde_json::Value::Object(v));
    assert!(matches!(op, SimOp::Warp { x: 7, y: 0 }));
    assert!(matches!(read_op(&serde_json::Value::Null), SimOp::Unknown(_)));
}

#[test]
fn the_control_goes_by_the_settings() {
    let mut c = CaptureCtl::new(rect(0, 0, 100, 50), 7);
    let settings = |c: &CaptureCtl| (c.tablet_edge, c.mac_shortcuts, c.win_mods, c.edge_dwell_ms);
    let fresh = (None, true, (0xE0, 0xE3, 0xE0), 0);
    assert_eq!(settings(&c), fresh);
    assert!(!c.forwarding && !c.driven && !c.shared_hotkey && c.portals.is_empty());
    assert_eq!((c.blocked, c.bounds, c.cooldown_until), (None, rect(0, 0, 100, 50), 7));
    let mut cfg = Config::fresh("mac".into());
    c.configure(&cfg);
    assert_eq!(settings(&c), fresh, "a fresh configuration changes nothing");
    cfg.tablet_edge = Some("top".into());
    cfg.mac_shortcuts = false;
    cfg.win_modifiers.cmd = "win".into();
    cfg.edge_dwell_ms = 80;
    c.configure(&cfg);
    assert_eq!(settings(&c), (Some(Edge::Top), false, (0xE0, 0xE3, 0xE3), 80));
}
