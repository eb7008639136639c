//! What the command line prints, and the shell around it.
use kayiver::android::connect::{stop_args, wake_args, Ask, Connecting, Heard};
use kayiver::autostart::plist_path;
use kayiver::config::{load_or_init, Config, LoadPlan, Mode};
use kayiver::engine::session::{after_dial, dial_wait, moving_text};
use kayiver::keymap::Os;
use kayiver::layout::{Edge, Link};
use kayiver::pairing::paired_peer;
use kayiver::platform::display::Listed;
use kayiver::platform::sim::{clipboard_seq, get_clipboard, set_clipboard, world};
use kayiver::proto::Rect;
use kayiver::report::{
    display_outcome, display_report, doctor, inject_report, inject_target, monitor_answer,
    monitor_report, monitor_text, remote_action, remote_cmd, remote_listener, startup,
    PanelStatus, RemoteAction, RemoteListener,
};
use kayiver::shell::{
    app_browsers, app_window_args, tray_message, Shell, ShellAction, ShellEvent, TrayAction,
};
use kayiver::ui::api::api_get_settings;

fn rect(x: i32, y: i32, w: i32, h: i32) -> Rect {
    Rect { x, y, w, h }
}

fn cfg() -> Config {
    let mut c = Config::fresh("mac".into());
    c.mode = Mode::Host;
    c.upsert_peer(paired_peer("win", &[0u8; 32], None));
    c.layout.links.push(Link { from: "mac".into(), edge: Edge::Right, to: "win".into() });
    c
}

#[test]
fn displays_are_listed() {
    assert_eq!(display_report(&Vec::new(), false), "No displays found.\n");
    assert!(display_report(&Vec::new(), true).ends_with("brew install m1ddc)\n"));
    let two = vec![
        Listed { index: 1, name: "A".into() },
        Listed { index: 2, name: "B".into() },
    ];
    assert_eq!(display_report(&two, true), "displays:\n  [1] A\n  [2] B\n");
    assert_eq!(display_outcome("disable", 2, &None), "disable 2: ok\n");
    assert_eq!(display_outcome("enable", 2, &Some("x".into())), "enable 2: ERROR x\n");
}

#[test]
fn the_panel_is_told_in_words() {
    let mut p = PanelStatus { configured: true, owner: None, peer: Some("win".into()), error: None };
    assert_eq!(monitor_text(&p), vec!["shared monitor: showing ?", "  shared with  : win"]);
    p.configured = false;
    assert_eq!(monitor_text(&p)[0], "shared monitor: not configured");
}

#[test]
fn the_owner_of_the_panel_is_told() {
    let r = monitor_report(br#"{"shared":{"configured":true,"owner":"mac","peer":"win","error":"e"}}"#);
    assert_eq!(
        r.unwrap(),
        vec!["shared monitor: showing mac", "  shared with  : win", "  last error   : e"]
    );
    let r = monitor_report(br#"{"shared":{"configured":true}}"#).unwrap();
    assert_eq!(r, vec!["shared monitor: showing ?"]);
    for body in ["{}", r#"{"shared":null}"#, r#"{"shared":{"configured":false}}"#] {
        let r = monitor_report(body.as_bytes()).unwrap();
        assert_eq!(r[0], "shared monitor: not configured");
        assert!(r[1].contains("(http://127.0.0.1:24818)"));
    }
    assert!(monitor_report(b"{").is_err());
    assert_eq!(monitor_answer(200, "ok", "win"), Ok("shared monitor -> win".into()));
    assert_eq!(monitor_answer(400, "no", "win"), Err("kayiver said: no".into()));
}

#[test]
fn remote_control_never_listens_without_a_token() {
    let mut c = cfg();
    assert!(matches!(remote_listener(&c), RemoteListener::Off));
    c.remote.enabled = true;
    assert!(matches!(remote_listener(&c), RemoteListener::NoToken));
    c.remote.token = Some("".into());
    assert!(matches!(remote_listener(&c), RemoteListener::NoToken));
    let lines = remote_cmd(&mut c, remote_action("enable"));
    let token = c.remote.token.clone().unwrap();
    assert_eq!(lines[1], "  port : 24819 (all interfaces)");
    assert_eq!(lines[2], format!("  token: {token}"));
    assert!(matches!(remote_listener(&c), RemoteListener::Token(t) if t == token));
    assert_eq!(remote_cmd(&mut c, remote_action("disable")).len(), 1);
    assert!(!c.remote.enabled);
    assert_eq!(
        remote_cmd(&mut c, remote_action("status")),
        vec!["remote api: disabled".to_string(), "  port : 24819".into(), format!("  token: {token}")]
    );
    assert_eq!(remote_action("x"), RemoteAction::Status);
}

#[test]
fn a_checkup_tells_what_is_set_up() {
    let c = cfg();
    let ips = Some(vec!["10.0.0.1 (en0)".to_string(), "10.0.0.2 (en8)".into()]);
    assert_eq!(
        doctor(&c, "/c.toml", rect(-5, 0, 2560, 1440), &ips),
        vec![
            "kayiver doctor",
            "  config file : /c.toml",
            "  machine name: mac",
            "  mode        : Host",
            "  port        : 24817",
            "  desktop     : 2560x1440 at (-5, 0)",
            "  local ip    : 10.0.0.1 (en0), 10.0.0.2 (en8)",
            "  peer        : win (addr: mDNS discovery)",
            "  portal      : right edge -> win",
        ]
    );
    let bare = doctor(&Config::fresh("x".into()), "p", rect(0, 0, 1, 1), &Some(Vec::new()));
    assert_eq!(bare[6], "  local ip    : none");
    assert_eq!(bare[7], "  peers       : none (run `kayiver pair` / `kayiver join`)");
}

#[test]
fn an_unpaired_client_has_nothing_to_do() {
    assert!(startup(&cfg()).notice.is_empty());
    let mut c = Config::fresh("x".into());
    c.mode = Mode::Client;
    let s = startup(&c);
    assert!(s.exit && s.notice.len() == 3);
    c.mode = Mode::Host;
    let s = startup(&c);
    assert!(!s.exit && s.notice.len() == 4);
    assert_eq!(load_or_init(false, false), LoadPlan::Init);
    assert_eq!(load_or_init(false, true), LoadPlan::Migrate);
    assert_eq!(load_or_init(true, true), LoadPlan::Read);
}

#[test]
fn injection_is_tested_on_the_primary_monitor() {
    let b = rect(-100, 0, 300, 100);
    assert_eq!(inject_target(&vec![rect(0, 0, 200, 100), rect(-100, 0, 100, 100)], b), (100, 50));
    assert_eq!(inject_target(&Vec::new(), b), (50, 50));
    assert_eq!(
        inject_report(b, (1, 2), (3, 4), (1, 2)),
        format!("inject-test: bounds={b:?} target={:?} before={:?} after={:?}\ncursor moved: true\n", (1, 2), (3, 4), (1, 2))
    );
}

#[test]
fn settings_are_shown() {
    let mut c = cfg();
    c.edge_dwell_ms = 120;
    let s = api_get_settings(&c, true, "/c.toml");
    assert_eq!((s.mode.as_str(), s.remote_port, s.edge_dwell_ms), ("host", 24819, 120));
    assert!(s.autostart && s.remote_token.is_none());
}

#[test]
fn dialing_backs_off() {
    assert_eq!(dial_wait(true, true), Some(1000));
    assert_eq!(dial_wait(false, false), Some(5000));
    assert_eq!(dial_wait(false, true), None);
    assert_eq!(after_dial(1000, Some("x".into())), (2000, "x".into()));
    assert_eq!(after_dial(5000, None), (1000, "session ended — reconnecting".into()));
    assert_eq!(moving_text("a:1"), "address changed — reconnecting via a:1");
}

// ---------------------------------------------------------------- tablet ----

fn heard(ran: bool, ok: bool) -> Heard {
    Heard { ran, ok, said: "because".into() }
}

#[test]
fn connecting_ends() {
    let (mut c, first) = Connecting::connect("R5", Some("/s.jar".into()), "0badcafe".into()).unwrap();
    assert!(matches!(first, Ask::Run(a) if a == vec!["-s", "R5", "push", "/s.jar", "/data/local/tmp/scrcpy-server.jar"]));
    assert!(matches!(c.next(&heard(true, true)), Ask::Run(a) if a == stop_args("R5")));
    assert!(matches!(c.next(&heard(false, false)), Ask::Run(a)
        if a == vec!["-s", "R5", "forward", "tcp:27600", "localabstract:scrcpy_0badcafe"]));
    match c.next(&heard(true, true)) {
        Ask::Launch(a) => {
            assert_eq!(&a[..4], &["-s", "R5", "shell", "CLASSPATH=/data/local/tmp/scrcpy-server.jar"]);
            assert!(a.contains(&"scid=0badcafe".to_string()));
        }
        other => panic!("{other:?}"),
    }
    assert!(matches!(c.next(&heard(true, true)), Ask::Dial(27600)));
    let mut dials = 1;
    loop {
        match c.next(&heard(true, false)) {
            Ask::Rest(80) => {}
            Ask::Dial(27600) => dials += 1,
            Ask::GiveUp(e) => {
                assert!(e.starts_with("no handshake from scrcpy server"));
                break;
            }
            other => panic!("{other:?}"),
        }
    }
    assert_eq!(dials, 80);
    assert!(matches!(c.next(&heard(true, true)), Ask::Nothing));
}

#[test]
fn connecting_fails_as_adb_does() {
    let start = || Connecting::connect("R5", Some("j".into()), "s".into()).unwrap().0;
    assert!(matches!(Connecting::connect("R5", None, "s".into()), Err(e) if e == "scrcpy-server not found (brew install scrcpy)"));
    assert!(matches!(start().next(&heard(false, false)), Ask::Failed(e) if e == "adb push (scrcpy-server) failed"));
    assert!(matches!(start().next(&heard(true, false)), Ask::Failed(e) if e == "adb push failed: because"));
    let mut c = start();
    c.next(&heard(true, true));
    c.next(&heard(true, true));
    assert!(matches!(c.next(&heard(true, false)), Ask::Failed(e) if e == "adb forward failed: because"));
    let mut c = start();
    c.next(&heard(true, true));
    c.next(&heard(true, true));
    assert!(matches!(c.next(&heard(false, false)), Ask::Failed(e) if e == "adb forward failed"));
    let mut c = start();
    for _ in 0..3 {
        c.next(&heard(true, true));
    }
    assert!(matches!(c.next(&heard(false, false)), Ask::Failed(e) if e == "failed to launch scrcpy server"));
    let mut c = start();
    for _ in 0..4 {
        c.next(&heard(true, true));
    }
    assert!(matches!(c.next(&heard(true, true)), Ask::Connected));
    assert_eq!(wake_args("R5").last().unwrap(), "224");
}

// ----------------------------------------------------------------- shell ----

#[test]
fn there_is_one_editor_window() {
    let mut s = Shell::new();
    let open = s.on_event(ShellEvent::Started { overlay: true });
    assert!(matches!(open[..], [ShellAction::OpenEditor, ShellAction::OpenOverlay]));
    s.on_event(ShellEvent::EditorOpened);
    assert!(matches!(s.on_event(ShellEvent::Open)[..], [ShellAction::ShowInDock]));
    assert!(matches!(s.on_event(ShellEvent::Closed)[..], [ShellAction::Retreat]));
    assert!(matches!(s.on_event(ShellEvent::Open)[..], [ShellAction::OpenEditor]));
    assert!(s.on_event(ShellEvent::Cursor { x: 1, y: 2, flash: 3 }).is_empty());
    s.on_event(ShellEvent::OverlayOpened { x: 10, y: 0 });
    match &s.on_event(ShellEvent::Cursor { x: 1, y: 2, flash: 3 })[..] {
        [ShellAction::Script(t)] => assert_eq!(t, "window.tick&&tick(-9,2,3)"),
        other => panic!("{other:?}"),
    }
    match &s.on_event(ShellEvent::Status { line: "win: bağlı".into(), warn: true })[..] {
        [ShellAction::StatusText(a), ShellAction::Tooltip(b), ShellAction::Title(Some(c))] => {
            assert_eq!((a.as_str(), b.as_str(), c.as_str()), ("win: bağlı", "Kayıver — win: bağlı", "⚠"));
        }
        other => panic!("{other:?}"),
    }
    assert!(matches!(s.on_event(ShellEvent::ToggleShared)[..], [ShellAction::PostToggle]));
    assert!(matches!(s.on_event(ShellEvent::Quit)[..], [ShellAction::Exit]));
}

#[test]
fn the_notification_area_has_a_menu() {
    assert_eq!(tray_message(0x8001, 0, 0x1_0205), TrayAction::Menu);
    assert_eq!(tray_message(0x8001, 0, 0x200), TrayAction::Done);
    assert_eq!(tray_message(0x111, 1001, 0), TrayAction::Open);
    assert_eq!(tray_message(0x111, 1002, 0), TrayAction::Quit);
    assert_eq!(tray_message(0x111, 7, 0), TrayAction::Done);
    assert_eq!(tray_message(2, 0, 0), TrayAction::Stop);
    assert_eq!(tray_message(99, 0, 0), TrayAction::Default);
    assert_eq!(app_browsers(Os::MacOs, "", "", "").len(), 4);
    assert_eq!(app_browsers(Os::Windows, "F", "G", "L")[4], "L\\Google\\Chrome\\Application\\chrome.exe");
    assert!(app_browsers(Os::Other, "", "", "").is_empty());
    assert_eq!(app_window_args("u", 980, 680), vec!["--app=u", "--window-size=980,680"]);
    assert_eq!(plist_path(), "Library/LaunchAgents/dev.drift.kvm.plist");
}

#[test]
fn the_virtual_clipboard_counts_its_changes() {
    let mut w = world(None);
    assert_eq!((get_clipboard(&w), clipboard_seq(&w)), (None, 0));
    set_clipboard(&mut w, "a");
    assert_eq!((get_clipboard(&w).as_deref(), clipboard_seq(&w)), (Some("a"), 1));
}
