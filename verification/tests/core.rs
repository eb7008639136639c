//! Keys, frames, sessions, pairing, configuration and numbers.
use kayiver::binary32::{to_f32, Num, F32};
use kayiver::config::{machine_name, Config, Mode, Peer, RemoteApi, SharedMonitor};
use kayiver::discovery::{advertised_host, is_instance, service_type};
use kayiver::keymap::{hid_to_native, is_modifier, native_to_hid, Os};
use kayiver::layout::{fraction, part, place_on_edge, skip_out, Edge};
use kayiver::pairing::{
    code_of, confirm_tag, derive_psk, ensure_layout_link, generate_code, paired_peer, same_bytes,
    typed_code, with_default_port, attempt, Attempt, Exchange, Offer, PairInfo, Role,
};
use kayiver::parse::{
    ascii_lower, contains, lines, parse_i32, parse_up_to, pieces, split_once, starts_with,
    strip_prefix, words, Cut,
};
use kayiver::proto::{rects_match, Rect};
use kayiver::secure::{
    handshake_initiator, handshake_responder, Reception, SecureReader, SecureWriter,
};
use kayiver::text::{decimal, trim, trim_start};
use kayiver::wire::{frame_len, read_frame, write_frame};
use kayiver::{Error, DEFAULT_PORT};

fn keys_of(os: Os) -> Vec<u16> {
    (0..=0xFFu16).filter(|&h| hid_to_native(os, h).is_some()).collect()
}

#[test]
fn roundtrip_core_keys() {
    for os in [Os::MacOs, Os::Windows] {
        let keys = keys_of(os);
        assert!(keys.len() > 80, "{os:?} has {} keys", keys.len());
        for hid in keys {
            let vk = hid_to_native(os, hid).unwrap();
            let back = native_to_hid(os, vk).unwrap();
            assert_eq!(hid_to_native(os, back), Some(vk), "hid {hid:#x}");
        }
    }
}

#[test]
fn mac_letter_a() {
    assert_eq!(hid_to_native(Os::MacOs, 0x04), Some(0)); // kVK_ANSI_A
    assert_eq!(native_to_hid(Os::MacOs, 0), Some(0x04));
}

#[test]
fn other_platforms_have_no_keys() {
    assert!(keys_of(Os::Other).is_empty());
    assert_eq!(native_to_hid(Os::Other, 0), None);
    assert_eq!(hid_to_native(Os::Windows, 0x04), Some(0x41));
    assert_eq!(hid_to_native(Os::Windows, 0), None);
}

#[test]
fn modifiers_are_known() {
    let mods: Vec<u16> = (0..=0xFFu16).filter(|&h| is_modifier(h)).collect();
    assert_eq!(mods, vec![0x39, 0xE0, 0xE1, 0xE2, 0xE3, 0xE4, 0xE5, 0xE6, 0xE7]);
}

// ---------------------------------------------------------------- frames ----

#[test]
fn frames_are_read_back() {
    let data = vec![7u8; 300];
    let f = write_frame(&data);
    assert_eq!(&f[..2], &[1, 44]);
    assert_eq!(frame_len([1, 44]), 300);
    let mut stream = f.clone();
    stream.extend_from_slice(&[9, 9, 9]);
    let (got, used) = read_frame(&stream).unwrap();
    assert_eq!((got, used), (data, 302));
}

#[test]
fn a_partial_frame_is_not_read() {
    let f = write_frame(&[1, 2, 3]);
    for n in 0..f.len() {
        assert!(read_frame(&f[..n]).is_none(), "{n} bytes");
    }
    assert_eq!(read_frame(&[0, 0]), Some((Vec::new(), 2)));
}

// -------------------------------------------------------------- sessions ----

fn session(a: &[u8; 32], b: &[u8; 32]) -> (SecureReader, SecureWriter, SecureReader, SecureWriter) {
    let (start, first) = handshake_initiator(a).unwrap();
    let (answer, r2, w2) = handshake_responder(b, &first).unwrap();
    assert_eq!((first.len(), answer.len()), (48, 48));
    let (r1, w1) = start.finish(&answer).unwrap();
    (r1, w1, r2, w2)
}

#[test]
fn handshake_and_roundtrip() {
    let psk = [7u8; 32];
    let (mut r1, mut w1, mut r2, mut w2) = session(&psk, &psk);
    // A mouse move by (11, -4), as it travels.
    let sent = vec![4u8, 0, 22, 7];
    let sealed = w1.send(&sent).unwrap();
    assert_ne!(sealed, sent);
    let msg = r2.recv(&sealed).unwrap();
    let echo = w2.send(&msg).unwrap();
    assert_eq!(r1.recv(&echo).unwrap(), sent);
}

#[test]
fn wrong_psk_fails() {
    let (_, first) = handshake_initiator(&[2u8; 32]).unwrap();
    assert!(handshake_responder(&[1u8; 32], &first).is_err());
}

#[test]
fn frames_are_received_in_their_order_only() {
    let psk = [3u8; 32];
    let (_, mut w1, mut r2, _) = session(&psk, &psk);
    let a = w1.send(b"first").unwrap();
    let b = w1.send(b"second").unwrap();
    assert!(matches!(r2.recv(&b), Err(Error::Noise(_))));
    let (_, mut w1, mut r2, _) = session(&psk, &psk);
    let c = w1.send(b"first").unwrap();
    assert_eq!(r2.recv(&c).unwrap(), b"first".to_vec());
    assert!(r2.recv(&c).is_err(), "a replayed frame is refused");
    assert!(r2.recv(&a).is_err(), "another session's frame is refused");
}

#[test]
fn a_first_frame_is_accepted_under_its_key_only() {
    let (_, first) = handshake_initiator(&[2u8; 32]).unwrap();
    assert!(Reception::begin(&[2u8; 32], &first).is_ok());
    assert!(matches!(Reception::begin(&[1u8; 32], &first), Err(Error::Noise(_))));
    assert!(matches!(Reception::begin(&[2u8; 32], &first[..40]), Err(Error::Noise(_))));
    let (reply, _, _) = Reception::begin(&[2u8; 32], &first).unwrap().reply().unwrap();
    assert_eq!(reply.len(), 48);
}

#[test]
fn messages_arrive_in_order() {
    let psk = [9u8; 32];
    let (mut r1, mut w1, mut r2, mut w2) = session(&psk, &psk);
    for k in 0..20u8 {
        let there = w1.send(&vec![k; k as usize]).unwrap();
        let back = w2.send(&[k]).unwrap();
        assert_eq!(r2.recv(&there).unwrap(), vec![k; k as usize]);
        assert_eq!(r1.recv(&back).unwrap(), vec![k]);
    }
}

#[test]
fn a_message_too_long_for_a_frame_is_refused() {
    let psk = [3u8; 32];
    let (_, mut w1, mut r2, _) = session(&psk, &psk);
    assert!(w1.send(&vec![0u8; 65535 - 15]).is_err());
    let most = vec![5u8; 65535 - 16];
    let (_, mut w, mut r, _) = session(&psk, &psk);
    let sealed = w.send(&most).unwrap();
    assert_eq!(sealed.len(), 65535);
    assert_eq!(r.recv(&sealed).unwrap(), most);
    assert!(r2.recv(&[]).is_err());
}

#[test]
fn a_broken_answer_ends_the_handshake() {
    let (start, _) = handshake_initiator(&[2u8; 32]).unwrap();
    assert!(matches!(start.finish(&[0u8; 5]), Err(Error::Noise(_))));
}

// --------------------------------------------------------------- pairing ----

fn pair(code_a: &str, code_b: &str) -> (Result<[u8; 32], Error>, Result<[u8; 32], Error>) {
    let (display, out_a) = Exchange::begin(code_a, Role::Display);
    let (input, out_b) = Exchange::begin(code_b, Role::Input);
    let (keyed_a, tag_a) = display.confirm(&out_b).unwrap();
    let (keyed_b, tag_b) = input.confirm(&out_a).unwrap();
    (keyed_a.accept(&tag_b), keyed_b.accept(&tag_a))
}

#[test]
fn matching_codes_agree() {
    let (a, b) = pair("123456", "123456");
    let (psk_a, psk_b) = (a.unwrap(), b.unwrap());
    assert_eq!(psk_a, psk_b);
    // The names travel once the key is confirmed.
    let host = PairInfo { name: "host".into(), port: 1 };
    let client = PairInfo { name: "client".into(), port: 2 };
    let on_host = paired_peer(&client.name, &psk_a, None);
    let on_client = paired_peer(&host.name, &psk_b, Some("10.0.0.5:1".into()));
    assert_eq!(on_host.name, "client");
    assert_eq!(on_client.name, "host");
    assert_eq!(on_host.psk_bytes().unwrap(), on_client.psk_bytes().unwrap());
}

#[test]
fn wrong_code_rejected() {
    let (a, b) = pair("123456", "654321");
    assert!(a.is_err() || b.is_err());
    assert!(matches!(a, Err(Error::Pairing(t)) if t == "code mismatch (wrong PIN?)"));
}

#[test]
fn a_reflected_confirmation_is_refused() {
    let (display, out_a) = Exchange::begin("123456", Role::Display);
    let (input, _) = Exchange::begin("123456", Role::Input);
    let (keyed, tag) = input.confirm(&out_a).unwrap();
    assert!(keyed.accept(&tag).is_err(), "one's own tag does not confirm");
    assert!(display.confirm(&out_a[..5]).is_err(), "a broken message gives no key");
}

#[test]
fn roles_confirm_different_things() {
    let key = [1u8, 2, 3];
    assert_ne!(confirm_tag(&key, Role::Display), confirm_tag(&key, Role::Input));
    assert_ne!(confirm_tag(&key, Role::Display), derive_psk(&key));
    // SHA-256 of "drift-session-psk-v1".
    let psk = derive_psk(&[]);
    let hex: String = psk.iter().map(|b| format!("{b:02x}")).collect();
    assert_eq!(hex.len(), 64);
    assert_eq!(psk, derive_psk(&[]));
    assert_ne!(psk, derive_psk(&[0]));
}

#[test]
fn codes_are_six_digits() {
    assert_eq!(code_of(0), "000000");
    assert_eq!(code_of(42), "000042");
    assert_eq!(code_of(999_999), "999999");
    for _ in 0..50 {
        let c = generate_code();
        assert!(c.len() == 6 && c.chars().all(|d| d.is_ascii_digit()), "{c}");
    }
    assert_eq!(typed_code(" 123456\n").unwrap(), "123456");
    for bad in ["", "12345", "1234567", "12a456", "١٢٣٤٥٦"] {
        assert!(matches!(typed_code(bad), Err(Error::Pairing(t)) if t == "the code is 6 digits"));
    }
}

#[test]
fn addresses_get_the_default_port() {
    assert_eq!(with_default_port("10.0.0.5"), format!("10.0.0.5:{DEFAULT_PORT}"));
    assert_eq!(with_default_port("10.0.0.5:99"), "10.0.0.5:99");
    assert!(same_bytes(&[1, 2], &[1, 2]) && !same_bytes(&[1, 2], &[1]) && !same_bytes(&[1], &[2]));
}

#[test]
fn pairing_places_the_peer_to_the_right() {
    let mut c = Config::fresh("mac".into());
    ensure_layout_link(&mut c, "win");
    ensure_layout_link(&mut c, "win");
    assert_eq!(c.layout.links.len(), 1);
    assert_eq!(c.layout.target("mac", Edge::Right), Some(("win", Edge::Left)));
}

// --------------------------------------------------------- configuration ----

fn some_peer(name: &str) -> Peer {
    paired_peer(name, &[9u8; 32], Some("10.0.0.5:24817".into()))
}

#[test]
fn a_stored_key_reads_back() {
    let mut c = Config::fresh("mac-studio".into());
    c.upsert_peer(some_peer("win"));
    assert_eq!(c.peer("win").unwrap().psk_bytes().unwrap(), [9u8; 32]);
    assert_eq!(c.peers[0].psk, "CQkJCQkJCQkJCQkJCQkJCQkJCQkJCQkJCQkJCQkJCQk=");
    assert!(c.peer("mac").is_none());
    c.upsert_peer(some_peer("win"));
    assert_eq!(c.peers.len(), 1, "a peer is paired again in its place");
    let mut p = some_peer("x");
    p.psk = "AAAA".into();
    assert!(matches!(p.psk_bytes(), Err(Error::Config(_))), "a key of another length");
    p.psk = "no base64!".into();
    assert!(matches!(p.psk_bytes(), Err(Error::Config(_))));
    assert_eq!(c.mode, Mode::Client);
    assert_eq!(c.port, 24817);
}

#[test]
fn tokens_are_hexadecimal() {
    assert_eq!(RemoteApi::token_of(&[0xABu8; 16]), "ab".repeat(16));
    let (a, b) = (RemoteApi::generate_token(), RemoteApi::generate_token());
    assert!(a.len() == 32 && a.chars().all(|c| c.is_ascii_hexdigit()));
    assert_ne!(a, b);
}

#[test]
fn machine_names_are_host_names() {
    assert_eq!(machine_name("Mac-Studio.local"), "mac-studio");
    assert_eq!(machine_name("DESKTOP-1"), "desktop-1");
}

#[test]
fn a_good_address_is_remembered() {
    let mut c = Config::fresh("mac".into());
    c.upsert_peer(some_peer("win"));
    assert!(c.remember_good_addr("win", "192.168.1.9:24817"));
    assert!(!c.remember_good_addr("win", "192.168.1.9:24817"), "nothing new");
    assert_eq!(c.peers[0].last_good.as_deref(), Some("192.168.1.9:24817"));
    assert_eq!(c.peers[0].addrs, vec!["192.168.1.9:24817".to_string()]);
    assert_eq!(c.peers[0].addr.as_deref(), Some("10.0.0.5:24817"));
    for i in 0..5 {
        assert!(c.remember_good_addr("win", &format!("10.1.1.{i}:1")));
    }
    assert_eq!(c.peers[0].addrs.len(), 4, "only four fallbacks are kept");
    assert!(!c.remember_good_addr("nobody", "1.2.3.4:5"));
}

#[test]
fn an_old_primary_stays_a_fallback() {
    let mut c = Config::fresh("mac".into());
    c.upsert_peer(some_peer("win"));
    c.use_addr("win", "169.254.3.4:24817");
    let p = c.peer("win").unwrap();
    assert_eq!(p.addr.as_deref(), Some("169.254.3.4:24817"));
    assert_eq!(p.last_good.as_deref(), Some("169.254.3.4:24817"));
    assert_eq!(p.addrs, vec!["10.0.0.5:24817".to_string()]);
}

#[test]
fn peer_screens_are_cached() {
    let mut c = Config::fresh("mac".into());
    c.upsert_peer(some_peer("win"));
    let m = [Rect { x: 0, y: 0, w: 2560, h: 1440 }];
    assert!(!c.cache_peer_screens("win", &[], Some("windows")), "an empty report says nothing");
    assert!(c.cache_peer_screens("win", &m, Some("windows")));
    assert!(!c.cache_peer_screens("win", &m, Some("windows")));
    assert!(!c.cache_peer_screens("win", &m, None));
    assert_eq!(c.peers[0].os.as_deref(), Some("windows"));
    assert!(!SharedMonitor::default().configured());
}

// ------------------------------------------------------------- discovery ----

#[test]
fn services_are_found_by_instance() {
    let full = format!("mac.{}", service_type());
    assert!(is_instance(&full, "mac"));
    assert!(!is_instance(&full, "ma"));
    assert!(!is_instance("other", "mac"));
    assert_eq!(advertised_host("mac"), "mac.local.");
}

// -------------------------------------------------------------- numbers ----

fn num(x: f32) -> Num {
    F32 { bits: x.to_bits() }.unit()
}

#[test]
fn fractions_are_those_of_the_machine() {
    for len in [1i32, 3, 7, 720, 1080, 1439, 1440, 2560, 5120, 16_777_217, i32::MAX] {
        for off in [0i64, 1, 2, 100, 719, 1000, 16_777_217, i32::MAX as i64] {
            let want = (off as f32 / len.max(1) as f32).clamp(0.0, 1.0);
            let got = f32::from_bits(fraction(off, len).bits);
            assert_eq!(got, want, "{off}/{len}");
            for w in [1i32, 100, 1440, 2560, 65_537] {
                let f = F32 { bits: want.to_bits() };
                assert_eq!(part(f, w), (want * w as f32) as i32, "{want} of {w}");
            }
        }
    }
}

#[test]
fn arithmetic_is_that_of_the_machine() {
    let some = [0.0f32, 1.0, 0.5, 0.1, 0.3, 0.7, 0.999, 1.0 / 3.0, 740.0 / 1440.0];
    for a in some {
        for b in some {
            let (x, y) = (num(a), num(b));
            assert_eq!(x.lt(y), a < b);
            if a + b <= 1.0 {
                assert_eq!(f32::from_bits(to_f32(x.plus(y)).bits), a + b, "{a}+{b}");
            }
            if a >= b {
                assert_eq!(f32::from_bits(to_f32(x.minus(y)).bits), a - b, "{a}-{b}");
            }
            assert_eq!(f32::from_bits(to_f32(x.times(y)).bits), a * b, "{a}*{b}");
            if b != 0.0 && a <= b {
                assert_eq!(f32::from_bits(to_f32(x.over(y)).bits), a / b, "{a}/{b}");
            }
        }
    }
    for i in [0i64, 1, -1, 24817, 16_777_216, 16_777_217, 33_554_435, i32::MAX as i64] {
        let n = Num::of(i);
        assert_eq!(n.n as f64 * (n.e as f64).exp2(), (i as f32) as f64, "{i}");
    }
    assert_eq!(Num::of(-7).over(Num::of(2)).trunc(), -3);
    assert_eq!(Num::of(7).over(Num::of(2)).round(), 4);
    assert_eq!(Num::of(-7).over(Num::of(2)).round(), -4);
    assert_eq!(Num::of(5).clamp_unit(), Num::of(1));
}

#[test]
fn edges_are_placed_and_left() {
    let b = Rect { x: 0, y: 0, w: 1000, h: 500 };
    let half = F32 { bits: 0.5f32.to_bits() };
    assert_eq!(place_on_edge(b, Edge::Right, half, 2), (997, 250));
    assert_eq!(place_on_edge(b, Edge::Top, half, 2), (500, 2));
    assert_eq!(place_on_edge(b, Edge::Bottom, half, 2), (500, 497));
    // Out of the rect on the side towards which the cursor moves.
    assert_eq!(skip_out(b, 500, 250, -10, 1), (-1, 250));
    assert_eq!(skip_out(b, 500, 250, 10, 1), (1000, 250));
    assert_eq!(skip_out(b, 500, 250, 1, -10), (500, -1));
    assert_eq!(skip_out(b, 500, 250, 1, 10), (500, 500));
    assert!(rects_match(b, Rect { x: 1, y: 0, w: 1000, h: 500 }));
    assert!(!rects_match(b, Rect { x: 0, y: 0, w: 900, h: 500 }));
}

// ------------------------------------------------------------------ text ----

#[test]
fn text_is_cut() {
    assert_eq!(pieces("a,,b", Cut::At(',')), vec!["a", "", "b"]);
    assert_eq!(words("  a\tb \u{3000}c\n"), vec!["a", "b", "c"]);
    for s in ["", "a", "a\n", "a\r\nb", "\n\n", "a\rb\n\rc"] {
        assert_eq!(lines(s), s.lines().collect::<Vec<_>>(), "{s:?}");
    }
    for s in ["", "  x ", "\u{a0}y\u{2028}", "z"] {
        assert_eq!(trim(s), s.trim());
        assert_eq!(trim_start(s), s.trim_start());
    }
    assert_eq!(split_once("k: v: w", ':'), Some(("k".into(), " v: w".into())));
    assert_eq!(split_once("k", ':'), None);
    assert_eq!(strip_prefix("model:x", "model:"), Some("x".into()));
    assert_eq!(strip_prefix("mode", "model:"), None);
    assert!(starts_with("abc", "ab") && !starts_with("abc", "b"));
    assert!(contains("abc", "bc") && contains("abc", "") && !contains("abc", "cb"));
    assert_eq!(ascii_lower("Ab\u{130}Z"), "ab\u{130}z");
}

#[test]
fn numbers_are_read_as_they_are_written() {
    for s in ["0", "-0", "+7", "-2147483648", "2147483647", "2147483648", "", "-", "+", "1a", "٣", " 1",
        "00012", "99999999999999999999999999", "-99999999999999999999999999"]
    {
        assert_eq!(parse_i32(s), s.parse::<i32>().ok(), "{s:?}");
        assert_eq!(parse_up_to(s, u64::MAX), s.parse::<u64>().ok(), "{s:?}");
        assert_eq!(parse_up_to(s, 65535), s.parse::<u16>().ok().map(u64::from), "{s:?}");
    }
    for n in [0u64, 7, 10, 24817, u64::MAX] {
        assert_eq!(decimal(n), n.to_string());
        assert_eq!(parse_up_to(&decimal(n), u64::MAX), Some(n));
    }
}

#[test]
fn errors_say_what_went_wrong() {
    let all = [
        (Error::Io("x".into()), "io: x"),
        (Error::Codec("x".into()), "encode/decode: x"),
        (Error::Noise("x".into()), "noise: x"),
        (Error::Config("x".into()), "config: x"),
        (Error::Pairing("x".into()), "pairing failed: x"),
        (Error::Protocol("x".into()), "protocol: x"),
    ];
    for (e, t) in all {
        assert_eq!(e.to_text(), t);
    }
}

#[test]
fn a_code_is_good_for_one_attempt() {
    assert_eq!(attempt(false, false), Attempt::Ignored);
    assert_eq!(attempt(true, true), Attempt::Paired);
    assert_eq!(attempt(true, false), Attempt::Burned);
    let mut offer = Offer::new("123456".into());
    assert_eq!(offer.heard(false, false), Some(Attempt::Ignored));
    let (begun, there) = offer.begin().unwrap();
    let (theirs, back) = Exchange::begin("123456", Role::Input);
    let ((mine, _), (_, tag)) = (begun.confirm(&back).unwrap(), theirs.confirm(&there).unwrap());
    assert!(mine.accept(&tag).is_ok());
    assert_eq!(offer.heard(true, false), Some(Attempt::Burned));
    assert!(offer.begin().is_none(), "a burned code begins nothing");
    assert_eq!(offer.heard(true, true), None);
    assert_eq!(offer.heard(false, false), None);
    let mut offer = Offer::new("123456".into());
    assert_eq!(offer.heard(true, true), Some(Attempt::Paired));
    assert!(offer.begin().is_none());
}
