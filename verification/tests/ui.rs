//! The editor's service.
use kayiver::config::{Config, Mode};
use kayiver::engine::model::UiCmd;
use kayiver::keymap::Os;
use kayiver::layout::{Edge, Link};
use kayiver::pairing::paired_peer;
use kayiver::proto::Rect;
use kayiver::ui::api::{
    api_android_add, api_android_connect, api_android_place, api_android_wireless,
    api_save_layout, api_set_settings, api_set_shared, api_shared_config, api_use_addr,
    read_settings, read_shared_config, read_use_addr, set_remote, PanelPick,
};
use kayiver::ui::http::{
    local_request, read_head, read_response, response_head, unauthorized, url, Incoming, Step,
};
use kayiver::ui::live::{
    mark_running, set_connected, set_cross_flash, set_focus, set_link, set_rtt, set_shared_owner,
    set_shared_state, take_cross_flash, LiveState,
};
use kayiver::ui::net::{
    drag_url, host_candidate_addrs, iface_for_ip, iface_label, ipv4, port_for_device, Listings,
};
use kayiver::ui::route::{done, fetched, posted, route, Answer, Api, Edition, Reply};
use kayiver::ui::mirror::synced_view;
use kayiver::ui::state::{api_state, from_platform_index, to_platform_index};
use kayiver::autostart::{apply, outcome, plist, Need, Step as Autostart};

fn rect(x: i32, y: i32, w: i32, h: i32) -> Rect {
    Rect { x, y, w, h }
}

fn now(r: Reply) -> Answer {
    match r {
        Reply::Now(a) => a,
        Reply::Ask(a) => panic!("{a:?}"),
    }
}

#[test]
fn routes_index() {
    let a = now(route(Edition::Kayiver, "GET / HTTP/1.1"));
    assert_eq!(a.status, "200 OK");
    assert!(a.ctype.starts_with("text/html"));
    assert!(String::from_utf8_lossy(&a.payload).contains("Kayıver"));
}

#[test]
fn mod_routes_index() {
    let a = now(route(Edition::Drift, "GET / HTTP/1.1"));
    assert_eq!(a.status, "200 OK");
    assert!(a.ctype.starts_with("text/html"));
    assert!(String::from_utf8_lossy(&a.payload).contains("drift"));
}

#[test]
fn rejects_unknown_path() {
    assert_eq!(now(route(Edition::Kayiver, "GET /etc/passwd HTTP/1.1")).status, "404 Not Found");
}

#[test]
fn mod_rejects_unknown_path() {
    assert_eq!(now(route(Edition::Drift, "GET /etc/passwd HTTP/1.1")).status, "404 Not Found");
}

#[test]
fn requests_lead_to_their_handlers() {
    assert!(matches!(
        route(Edition::Kayiver, "POST /api/layout HTTP/1.1"),
        Reply::Ask(Api::SaveLayout)
    ));
    assert!(matches!(
        route(Edition::Kayiver, "GET /api/settings HTTP/1.1"),
        Reply::Ask(Api::GetSettings)
    ));
    assert_eq!(now(route(Edition::Drift, "GET /api/settings HTTP/1.1")).status, "404 Not Found");
    assert_eq!(now(route(Edition::Kayiver, "")).status, "404 Not Found");
    assert_eq!(done(Ok(())).payload, b"ok".to_vec());
    assert_eq!(done(Err("no".into())).status, "400 Bad Request");
    assert_eq!(fetched(Err("no".into())).status, "500 Internal Server Error");
    assert_eq!(posted(Ok("{}".into())).ctype, "application/json");
    assert_eq!(posted(Err("no".into())).status, "400 Bad Request");
}

// ------------------------------------------------------------------ http ----

#[test]
fn a_request_may_come_in_pieces() {
    let whole = b"POST /api/layout HTTP/1.1\r\ncontent-LENGTH: 4\r\n\r\nbody";
    let mut r = Incoming::new(None);
    for (i, b) in whole.iter().enumerate() {
        match r.feed(&[*b]) {
            Step::Read => assert!(i + 1 < whole.len()),
            Step::Ready { request_line, body } => {
                assert_eq!(i + 1, whole.len());
                assert_eq!(request_line, "POST /api/layout HTTP/1.1");
                assert_eq!(body, b"body".to_vec());
                return;
            }
            other => panic!("{other:?}"),
        }
    }
    panic!("never ready");
}

#[test]
fn requests_are_bounded() {
    assert!(matches!(Incoming::new(None).feed(&[]), Step::End));
    let mut r = Incoming::new(None);
    assert!(matches!(r.feed(&[b'x'; 65536]), Step::Read));
    assert!(matches!(r.feed(b"x"), Step::Refused(e) if e == "request too large"));
    let mut r = Incoming::new(None);
    assert!(matches!(r.feed(b"POST / HTTP/1.1\r\nContent-Length: 300000\r\n\r\n"), Step::Read));
    assert!(matches!(r.feed(&vec![0u8; 262_145]), Step::Refused(e) if e == "body too large"));
    let mut r = Incoming::new(None);
    assert!(matches!(r.feed(b"POST / HTTP/1.1\r\nContent-Length: 9\r\n\r\nab"), Step::Read));
    assert!(matches!(r.feed(&[]), Step::Ready { body, .. } if body == b"ab".to_vec()));
}

#[test]
fn the_token_is_required() {
    for (given, ok) in [
        ("Authorization: Bearer secret\r\n", true),
        ("authorization:Bearer secret\r\n", true),
        ("Authorization: Bearer other\r\n", false),
        ("Authorization: secret\r\n", false),
        ("", false),
    ] {
        let mut r = Incoming::new(Some("secret".into()));
        let text = format!("GET / HTTP/1.1\r\n{given}\r\n");
        match r.feed(text.as_bytes()) {
            Step::Ready { .. } => assert!(ok, "{given}"),
            Step::Unauthorized => assert!(!ok, "{given}"),
            other => panic!("{other:?}"),
        }
    }
    assert!(unauthorized().starts_with("HTTP/1.1 401 Unauthorized\r\n"));
}

#[test]
fn bytes_that_are_no_text_are_replaced() {
    let mut r = Incoming::new(None);
    match r.feed(b"GET /\xff HTTP/1.1\r\n\r\n") {
        Step::Ready { request_line, .. } => assert_eq!(request_line, "GET /\u{fffd} HTTP/1.1"),
        other => panic!("{other:?}"),
    }
}

#[test]
fn responses_are_written_and_read() {
    let head = response_head("200 OK", "text/plain", 3);
    let (status, body) = read_response(&format!("{head}abc"));
    assert_eq!((status, body.as_str()), (200, "abc"));
    assert_eq!(read_response("garbage"), (0, String::new()));
    let q = local_request("POST", "/api/shared", "ş");
    assert!(q.starts_with("POST /api/shared HTTP/1.1\r\nHost: 127.0.0.1:24818\r\n"));
    assert!(q.contains("Content-Length: 2\r\n") && q.ends_with("\r\n\r\nş"));
    assert_eq!(url(), "http://127.0.0.1:24818");
    let h = read_head("GET / HTTP/1.1\r\nA: 1\r\nno colon\r\nb: 2: 3");
    assert_eq!(h.header("a").as_deref(), Some("1"));
    assert_eq!(h.header("b").as_deref(), Some("2: 3"));
    assert_eq!(h.header("c"), None);
}

// ------------------------------------------------------------------- api ----

fn cfg() -> Config {
    let mut c = Config::fresh("mac".into());
    let mut p = paired_peer("win", &[0u8; 32], None);
    p.screens = vec![rect(0, 0, 2560, 1440), rect(636, -1080, 1920, 1080)];
    c.upsert_peer(p);
    c
}

#[test]
fn settings_are_changed_one_by_one() {
    let mut c = cfg();
    let before = c.win_modifiers.opt.clone();
    let body = br#"{"hotkey":true,"edge_dwell_ms":99999,"win_mod_cmd":"alt","win_mod_opt":"hyper","autostart":true}"#;
    assert_eq!(api_set_settings(&mut c, body), Ok(Some(true)));
    assert!(c.shared_monitor.hotkey);
    assert_eq!(c.edge_dwell_ms, 10_000);
    assert_eq!(c.win_modifiers.cmd, "alt");
    assert_eq!(c.win_modifiers.opt, before, "a modifier that Windows lacks changes nothing");
    assert_eq!(c.remote.token, None);
    assert_eq!(api_set_settings(&mut c, br#"{"remote_enabled":true}"#), Ok(None));
    assert_eq!(c.remote.token.as_ref().map(|t| t.len()), Some(32));
    assert!(c.remote.enabled);
    assert_eq!(api_set_settings(&mut c, b"{"), Err("invalid JSON".into()));
    assert!(read_settings(b"[]").unwrap().hotkey.is_none());
    let kept = c.remote.token.clone();
    set_remote(&mut c, false, "x".into());
    set_remote(&mut c, true, "y".into());
    assert_eq!(c.remote.token, kept, "a token is kept");
}

#[test]
fn tablet_requests_are_checked() {
    assert_eq!(api_android_connect(br#"{"serial":"R5"}"#), Ok("R5".into()));
    assert_eq!(api_android_connect(b"{}"), Err("missing 'serial'".into()));
    assert_eq!(api_android_wireless(b"x"), Err("invalid JSON".into()));
    assert_eq!(api_android_add(br#"{"ip":" 10.0.0.9 "}"#), Ok("10.0.0.9".into()));
    assert_eq!(api_android_add(br#"{"ip":4}"#), Err("missing 'ip'".into()));
    let mut c = cfg();
    assert_eq!(api_android_place(&mut c, br#"{"edge":"top"}"#), Ok(true));
    assert_eq!(c.tablet_edge.as_deref(), Some("top"));
    assert_eq!(api_android_place(&mut c, br#"{"edge":"up"}"#), Err("bad edge".into()));
    assert_eq!(c.tablet_edge.as_deref(), Some("top"));
    assert_eq!(api_android_place(&mut c, br#"{"edge":null}"#), Ok(false));
    assert_eq!(c.tablet_edge, None);
    assert_eq!(api_android_place(&mut c, b""), Err("invalid JSON".into()));
}

#[test]
fn commands_reach_a_running_router() {
    let pick = || read_use_addr(br#"{"peer":"win","addr":"10.0.0.5:24817"}"#).unwrap();
    match api_use_addr(pick(), true, true) {
        Ok(UiCmd::UseAddr { peer, addr }) => assert_eq!((peer.as_str(), addr.as_str()), ("win", "10.0.0.5:24817")),
        other => panic!("{other:?}"),
    }
    assert!(matches!(api_use_addr(pick(), false, true), Err(e) if e == "addr must be ip:port"));
    assert!(matches!(api_use_addr(pick(), true, false), Err(e) if e == "host not running"));
    assert!(matches!(read_use_addr(br#"{"addr":"a"}"#), Err(e) if e == "missing 'peer'"));
    assert!(matches!(read_use_addr(br#"{"peer":"a"}"#), Err(e) if e == "missing 'addr'"));
    assert!(matches!(read_use_addr(b"-"), Err(e) if e == "invalid JSON"));
    assert!(matches!(api_set_shared(br#"{"owner":"toggle"}"#, true), Ok(UiCmd::SetSharedOwner(o)) if o == "toggle"));
    assert!(matches!(api_set_shared(b"{}", true), Err(e) if e == "missing 'owner'"));
    assert!(matches!(api_set_shared(br#"{"owner":"x"}"#, false), Err(e) if e == "host not running"));
}

#[test]
fn a_picked_panel_is_shown() {
    let mut c = cfg();
    let mons = vec![rect(0, 0, 2560, 1440), rect(2560, 0, 2560, 1440)];
    let body = br#"{"local_monitor":1,"peer":"win","peer_monitor":0,"hotkey":true}"#;
    let pick = read_shared_config(body).unwrap();
    assert_eq!(api_shared_config(&mut c, pick, &mons, "macos"), Ok(()));
    assert_eq!(c.shared_monitor.local_index, Some(2));
    assert_eq!(c.shared_monitor.peer_index, Some(0));
    assert_eq!(c.shared_monitor.local_rect, Some(rect(2560, 0, 2560, 1440)));
    assert_eq!(c.shared_monitor.peer_rect, Some(rect(0, 0, 2560, 1440)));
    let shown = api_state(&c, &mons, "macos").shared_monitor.unwrap();
    assert_eq!((shown.local_monitor, shown.peer_monitor), (1, 0));
    assert_eq!(api_shared_config(&mut c, PanelPick::Clear, &mons, "macos"), Ok(()));
    assert!(!c.shared_monitor.configured());
    assert!(matches!(read_shared_config(br#"{"clear":true}"#), Ok(PanelPick::Clear)));
    for (body, want) in [
        ("{}", "missing local_monitor"),
        (r#"{"local_monitor":1}"#, "missing peer_monitor"),
        (r#"{"local_monitor":1,"peer_monitor":0}"#, "missing peer"),
        ("]", "invalid JSON"),
    ] {
        assert!(matches!(read_shared_config(body.as_bytes()), Err(e) if e == want), "{body}");
    }
    let unknown = read_shared_config(br#"{"local_monitor":0,"peer":"x","peer_monitor":0}"#).unwrap();
    assert_eq!(
        api_shared_config(&mut c, unknown, &mons, "macos"),
        Err("unknown peer 'x'".into())
    );
}

fn link(from: &str, to: &str) -> Link {
    Link { from: from.into(), edge: Edge::Right, to: to.into() }
}

#[test]
fn kept_links_join_known_machines() {
    let mut c = cfg();
    assert_eq!(api_save_layout(&mut c, vec![link("mac", "win")]), Ok(()));
    assert_eq!(c.layout.links.len(), 1);
    assert_eq!(
        api_save_layout(&mut c, vec![link("mac", "win"), link("mac", "x")]),
        Err("unknown machine in link mac -> x".into())
    );
    assert_eq!(api_save_layout(&mut c, vec![link("win", "win")]), Err("self-link on win".into()));
    assert_eq!(c.layout.links.len(), 1);
    assert_eq!(api_save_layout(&mut c, Vec::new()), Ok(()));
    assert!(c.layout.links.is_empty());
}

// ----------------------------------------------------------------- state ----

#[test]
fn picks_come_back() {
    for os in ["macos", "windows", "linux"] {
        for pick in [0u32, 1, 7] {
            assert_eq!(from_platform_index(os, to_platform_index(os, pick)), pick, "{os}");
        }
    }
    assert_eq!(to_platform_index("macos", 1), 2);
    assert_eq!(to_platform_index("windows", 1), 1);
    assert_eq!(from_platform_index("macos", 0), 0);
}

const PUSHED: &str = r#"{"links":[],"machines":[{"me":true,"monitors":[],"name":"mac"},{"me":false,"monitors":[],"name":"win","x":1.5}],"shared_monitor":{"hotkey":true,"local_monitor":1,"peer":"win","peer_monitor":0}}"#;

/// What a client with this name makes of a view that was pushed to it.
fn shown(me: &str, pushed: &str) -> Option<String> {
    let mut c = Config::fresh(me.into());
    c.mode = Mode::Client;
    synced_view(&c, &Some(pushed.into()))
}

#[test]
fn mirroring_twice_is_nothing() {
    let there = shown("win", PUSHED).unwrap();
    assert_eq!(
        there,
        r#"{"links":[],"machines":[{"me":false,"monitors":[],"name":"mac"},{"me":true,"monitors":[],"name":"win","x":1.5}],"shared_monitor":{"hotkey":true,"local_monitor":0,"peer":"mac","peer_monitor":1}}"#
    );
    assert_eq!(shown("mac", &there).unwrap(), PUSHED);
}

#[test]
fn a_pushed_view_is_served_by_clients_only() {
    assert!(shown("win", "no JSON").is_none());
    assert!(shown("win", r#"{"machines":[7]}"#).is_none());
    assert_eq!(shown("win", r#"{"machines":[null]}"#).unwrap(), r#"{"machines":[{"me":false}]}"#);
    assert_eq!(shown("win", "[1]").unwrap(), "[1]");
    let third = shown("lab", PUSHED).unwrap();
    assert!(third.contains(r#""local_monitor":1,"peer":"win""#), "the panel is not lab's: {third}");
    let mut c = Config::fresh("win".into());
    c.mode = Mode::Client;
    assert!(synced_view(&c, &None).is_none());
    c.mode = Mode::Host;
    assert!(synced_view(&c, &Some(PUSHED.into())).is_none());
}

#[test]
fn the_worst_sample_bounds_the_last() {
    const S: u64 = 1_000_000_000;
    let mut s = LiveState::new();
    mark_running(&mut s);
    set_connected(&mut s, "win", true);
    set_rtt(&mut s, "win", 8, S);
    set_rtt(&mut s, "win", 90, 2 * S);
    set_rtt(&mut s, "win", 7, 3 * S);
    let p = |s: &LiveState| (s.peers[0].live.rtt, s.peers[0].live.rtt_max);
    assert_eq!(p(&s), (Some(7), Some(90)));
    set_rtt(&mut s, "win", 6, 12 * S + 1);
    assert_eq!(p(&s), (Some(6), Some(6)), "a sample older than ten seconds no longer counts");
    set_link(&mut s, "win", Some("10.0.0.1:1".into()), None, Some("Wi-Fi (en0)".into()));
    assert_eq!(s.peers[0].live.link_label.as_deref(), Some("Wi-Fi (en0)"));
    set_connected(&mut s, "win", false);
    assert_eq!(p(&s), (None, None));
    set_focus(&mut s, Some("win".into()));
    set_shared_state(&mut s, true, Some("win".into()), Some("mac".into()));
    set_shared_state(&mut s, true, Some("win".into()), None);
    assert_eq!(s.shared_owner.as_deref(), Some("mac"), "a reload keeps the owner");
    set_shared_owner(&mut s, Some("win".into()));
    assert_eq!(s.shared_owner.as_deref(), Some("win"));
    assert!(s.running && s.focus.as_deref() == Some("win"));
    assert_eq!(take_cross_flash(&mut s), 0);
    set_cross_flash(&mut s, Edge::Top);
    assert_ne!(take_cross_flash(&mut s), 0);
    assert_eq!(take_cross_flash(&mut s), 0, "a flash is shown once");
}

// ------------------------------------------------------------------- net ----

const IFCONFIG: &str = "lo0: flags=8049<UP,LOOPBACK> mtu 16384\n\
\tinet 127.0.0.1 netmask 0xff000000\n\
en0: flags=8863<UP> mtu 1500\n\
\tinet6 fe80::1%en0 prefixlen 64\n\
\tinet 192.168.1.20 netmask 0xffffff00 broadcast 192.168.1.255\n\
en8: flags=8863<UP> mtu 1500\n\
\tinet 169.254.9.9 netmask 0xffff0000\n\
utun3: flags=8051<UP> mtu 1380\n\
\tinet 100.64.0.1 --> 100.64.0.1 netmask 0xffffffff\n";

const PORTS: &str = "\nHardware Port: USB 10/100/1000 LAN\nDevice: en8\nEthernet Address: aa\n\n\
Hardware Port: Wi-Fi\nDevice: en0\nEthernet Address: bb\n";

fn listings() -> Listings {
    Listings { interfaces: IFCONFIG.into(), ports: PORTS.into() }
}

#[test]
fn addresses_are_labeled_by_interface() {
    assert_eq!(iface_for_ip(IFCONFIG, "192.168.1.20").as_deref(), Some("en0"));
    assert_eq!(iface_for_ip(IFCONFIG, "192.168.1.2"), None);
    assert_eq!(port_for_device(PORTS, "en8").as_deref(), Some("USB 10/100/1000 LAN"));
    assert_eq!(port_for_device(PORTS, "en1"), None);
    assert_eq!(iface_label(&listings(), "192.168.1.20"), "Wi-Fi (en0)");
    assert_eq!(
        iface_label(&listings(), "169.254.9.9"),
        "USB 10/100/1000 LAN (en8) · direct cable"
    );
    assert_eq!(iface_label(&listings(), "100.64.0.1"), "utun3");
    assert_eq!(iface_label(&listings(), "10.9.9.9"), "");
    assert_eq!(iface_label(&listings(), "169.254.1.1"), "direct cable");
    for (s, ok) in [("1.2.3.4", true), ("01.2.3.4", false), ("256.1.1.1", false), ("1.2.3", false),
        ("1.2.3.4.5", false), ("+1.2.3.4", false), ("", false), ("0.0.0.0", true), ("1.2.3.4 ", false)]
    {
        assert_eq!(ipv4(s).is_some(), ok, "{s:?}");
    }
}

#[test]
fn candidates_exclude_loopback() {
    let c = host_candidate_addrs(&listings(), 24817);
    let got: Vec<(&str, &str)> = c.iter().map(|c| (c.addr.as_str(), c.label.as_str())).collect();
    assert_eq!(
        got,
        vec![
            ("192.168.1.20:24817", "Wi-Fi (en0)"),
            ("169.254.9.9:24817", "USB 10/100/1000 LAN (en8) · direct cable"),
            ("100.64.0.1:24817", "utun3"),
        ]
    );
}

#[test]
fn dragged_links_are_recognized() {
    let d = |v: &[&str]| drag_url(&v.iter().map(|s| s.to_string()).collect());
    assert_eq!(d(&["file:///x", " https://a.b/ \n"]).as_deref(), Some("https://a.b/"));
    assert_eq!(d(&["http://x", "https://y"]).as_deref(), Some("http://x"));
    assert_eq!(d(&["hello"]), None);
    assert_eq!(d(&[]), None);
}

// ------------------------------------------------------------- autostart ----

#[test]
fn autostart_is_switched_per_platform() {
    let on = apply(Os::MacOs, true, "/bin/k", "/p", false).unwrap();
    assert_eq!(on.len(), 3);
    assert!(matches!(&on[0], Autostart::Write { path, text } if path == "/p" && *text == plist("/bin/k")));
    assert!(plist("/bin/k").contains("<string>/bin/k</string>\n        <string>run</string>"));
    assert!(matches!(&on[2], Autostart::Command { args, need: Need::Success, .. }
        if *args == vec!["load".to_string(), "-w".into(), "/p".into()]));
    assert_eq!(apply(Os::MacOs, false, "/bin/k", "/p", false).unwrap().len(), 0);
    assert_eq!(apply(Os::MacOs, false, "/bin/k", "/p", true).unwrap().len(), 2);
    let win = apply(Os::Windows, true, "C:\\k.exe", "", false).unwrap();
    assert!(matches!(&win[0], Autostart::Command { args, .. } if args[7] == "\"C:\\k.exe\" run"));
    assert!(apply(Os::Other, true, "k", "", false).is_err());
    assert_eq!(outcome(Need::Success, "reg failed: ", true, false, "x").as_deref(), Some("reg failed: x"));
    assert_eq!(outcome(Need::Run, "reg failed: ", true, false, "x"), None);
    assert_eq!(outcome(Need::Run, "reg failed: ", false, false, "x").as_deref(), Some("x"));
    assert_eq!(outcome(Need::Nothing, "", false, false, "x"), None);
}
