//! The tablet.
use kayiver::android::control::{
    connected_serial, disconnect, ensure_connected, is_connected, kbd_report_msg, key,
    mouse_button, mouse_move, mouse_report_msg, mouse_scroll, registration, server_args, session,
    size, uhid_create_msg, uhid_input_msg, Cmd, Effort, Ensure,
    TabletSink,
};
use kayiver::android::devices::{
    add_wireless, enable_wireless, first_serial, list_devices, next_scid, query_size, tools_ready,
};
use kayiver::android::writer::Writer;

const LISTED: &str = "List of devices attached\n\
    192.168.1.7:5555       device product:gts9 model:SM_X910 device:gts9 transport_id:3\n\
    R52W70ABCDE            device usb:1-1 product:gts9 model:SM_X910 device:gts9 transport_id:1\n\
    emulator-5554          offline\n\
    10.0.0.9:5555          device product:x model:Pixel_Tablet\n\
    bare                   device\n\n";

fn sink() -> Option<TabletSink> {
    Some(session("R52W70ABCDE", (2960, 1848)))
}

#[test]
fn one_device_per_model_and_usb_is_preferred() {
    let d = list_devices(Some(LISTED));
    let got: Vec<(&str, &str, &str)> =
        d.iter().map(|d| (d.serial.as_str(), d.model.as_str(), d.connection.as_str())).collect();
    assert_eq!(
        got,
        vec![
            ("R52W70ABCDE", "SM X910", "usb"),
            ("10.0.0.9:5555", "Pixel Tablet", "wifi"),
            ("bare", "Android", "usb"),
        ]
    );
    assert_eq!(first_serial(&d).as_deref(), Some("R52W70ABCDE"));
    assert!(list_devices(None).is_empty());
    assert!(list_devices(Some("")).is_empty());
    assert_eq!(first_serial(&Vec::new()), None);
}

#[test]
fn wireless_tablets_are_added() {
    assert_eq!(add_wireless("10.0.0.9", Some("connected to 10.0.0.9:5555")).unwrap(), "10.0.0.9:5555");
    assert!(add_wireless("10.0.0.9", Some("failed to connect")).is_err());
    assert!(add_wireless("10.0.0.9", None).is_err());
    assert!(enable_wireless("").is_err());
    assert!(tools_ready(true, &Some("x.jar".into())));
    assert!(!tools_ready(false, &Some("x.jar".into())) && !tools_ready(true, &None));
}

#[test]
fn the_screen_size_is_read() {
    assert_eq!(query_size(Some("Physical size: 1848x2960\n")), (1848, 2960));
    assert_eq!(query_size(Some("Physical size: 100x50\nOverride size: 1200x1920\n")), (1200, 1920));
    assert_eq!(query_size(None), (2560, 1600));
    assert_eq!(query_size(Some("nonsense")), (2560, 1600));
    let id = next_scid(3, 7);
    assert!(id.len() == 8 && id.chars().all(|c| c.is_ascii_hexdigit()), "{id}");
    assert_ne!(id, next_scid(4, 7));
}

#[test]
fn reports_have_the_wire_format() {
    assert_eq!(uhid_input_msg(1, &[9, 8]), vec![13, 0, 1, 0, 2, 9, 8]);
    assert_eq!(
        uhid_create_msg(2, b"kb", &[5, 1]),
        vec![12, 0, 2, 0, 0, 0, 0, 2, b'k', b'b', 0, 2, 5, 1]
    );
    assert_eq!(mouse_report_msg(1, -1, 127, 0, -127), vec![13, 0, 1, 0, 5, 1, 255, 127, 0, 129]);
    assert_eq!(
        kbd_report_msg(2, &vec![4, 5]),
        vec![13, 0, 2, 0, 8, 2, 0, 4, 5, 0, 0, 0, 0]
    );
    assert_eq!(registration().len(), 2);
    assert!(server_args("0badcafe").iter().any(|a| a == "scid=0badcafe"));
}

#[test]
fn sessions_come_and_go() {
    let mut s = sink();
    assert!(is_connected(&s) && !is_connected(&None));
    assert_eq!(size(&s), Some((2960, 1848)));
    assert_eq!(connected_serial(&s).as_deref(), Some("R52W70ABCDE"));
    assert!(disconnect(&mut s).is_some());
    assert!(s.is_none() && disconnect(&mut s).is_none());
    assert!(mouse_move(&None, 1, 1).is_none());
    assert!(mouse_button(&mut None, 0, true).is_none());
    assert!(mouse_scroll(&None, 0, 120).is_none());
    assert!(key(&mut None, 4, true).is_none());
}

#[test]
fn the_answer_is_whether_a_session_is_live() {
    let live = sink();
    let listed = Effort::Listed(list_devices(Some(LISTED)));
    for effort in [&Effort::Begun, &listed, &Effort::Tried] {
        assert!(matches!(ensure_connected(&live, effort), Ensure::Done(true)));
    }
    assert!(matches!(ensure_connected(&None, &Effort::Begun), Ensure::List));
    match ensure_connected(&None, &listed) {
        Ensure::Connect(serial) => assert_eq!(serial, "R52W70ABCDE"),
        other => panic!("{other:?}"),
    }
    let none = Effort::Listed(Vec::new());
    assert!(matches!(ensure_connected(&None, &none), Ensure::Done(false)));
    assert!(matches!(ensure_connected(&None, &Effort::Tried), Ensure::Done(false)));
}

#[test]
fn buttons_are_independent() {
    let mut s = sink();
    mouse_button(&mut s, 0, true);
    mouse_button(&mut s, 2, true);
    assert_eq!(s.as_ref().unwrap().buttons, 0b101);
    mouse_button(&mut s, 0, false);
    assert_eq!(s.as_ref().unwrap().buttons, 0b100);
    match mouse_move(&s, 3, -4) {
        Some(Cmd::Move { buttons: 0b100, dx: 3, dy: -4 }) => {}
        other => panic!("{other:?}"),
    }
}

#[test]
fn at_most_six_keys_are_held() {
    let mut s = sink();
    for k in 4..12u16 {
        key(&mut s, k, true);
    }
    assert_eq!(s.as_ref().unwrap().keys, vec![6, 7, 8, 9, 10, 11]);
    key(&mut s, 0xE1, true);
    assert_eq!(s.as_ref().unwrap().mods, 2);
    key(&mut s, 7, false);
    assert_eq!(s.as_ref().unwrap().keys, vec![6, 8, 9, 10, 11]);
    match key(&mut s, 0xE1, false) {
        Some(Cmd::Report(r)) => assert_eq!(r, vec![13, 0, 2, 0, 8, 0, 0, 6, 8, 9, 10, 11, 0]),
        other => panic!("{other:?}"),
    }
}

fn deltas(reports: &[Vec<u8>]) -> (i32, i32) {
    reports.iter().fold((0, 0), |(x, y), r| (x + (r[6] as i8) as i32, y + (r[7] as i8) as i32))
}

#[test]
fn moves_are_coalesced_without_loss() {
    let mut w = Writer::new("10.0.0.9:5555");
    let batch = vec![
        Cmd::Move { buttons: 0, dx: 200, dy: -3 },
        Cmd::Move { buttons: 0, dx: 100, dy: 1 },
        Cmd::Buttons(1),
        Cmd::Move { buttons: 1, dx: 5, dy: 5 },
    ];
    let out = w.flush(&batch);
    assert_eq!(deltas(&out), (305, 3));
    assert_eq!(out[0], mouse_report_msg(0, 127, -2, 0, 0));
    assert_eq!(out[1], mouse_report_msg(0, 127, 0, 0, 0));
    assert_eq!(out[2], mouse_report_msg(0, 46, 0, 0, 0));
    assert_eq!(*out.last().unwrap(), mouse_report_msg(1, 5, 5, 0, 0));
    // The idle report holds what is held, so that it changes nothing.
    assert_eq!(w.idle(), Some(mouse_report_msg(1, 0, 0, 0, 0)));
    assert_eq!(Writer::new("R52W70ABCDE").idle(), None, "a cable needs no heartbeat");
}

#[test]
fn writes_are_paced() {
    assert_eq!(Writer::hold_for(3_000_000), Some(5_000_000));
    assert_eq!(Writer::hold_for(8_000_000), None);
    assert!(Writer::gathers(1, 2, 0) && !Writer::gathers(2, 2, 0) && !Writer::gathers(1, 2, 512));
}
