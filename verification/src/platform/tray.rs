//! The status indicator in the notification area, and the notice on a passive panel.
use vstd::prelude::*;

use crate::json::{self, get, get_bool, json_of, object_keys, JsonView};
use crate::text::{self, chars_of, joined, same_text};

verus! {

/// What the indicator shows.
#[derive(Clone, Copy, Debug, PartialEq, Eq, Structural)]
pub enum TrayState {
    Disconnected,
    /// Connected, the cursor is elsewhere.
    Connected,
    /// The cursor is on this machine.
    CursorHere,
}

/// A balloon that pops up on a change.
#[derive(Clone, Copy, Debug, PartialEq, Eq, Structural)]
pub enum Balloon {
    Connected,
    Lost,
}

/// What the indicator shows for a connection and a cursor.
pub open spec fn state_of(connected: bool, cursor_here: bool) -> TrayState {
    if !connected {
        TrayState::Disconnected
    } else if cursor_here {
        TrayState::CursorHere
    } else {
        TrayState::Connected
    }
}

/// The balloon of a change: on both transitions, connected and lost.
pub open spec fn balloon_of(prev: TrayState, next: TrayState) -> Option<Balloon> {
    if prev is Disconnected && !(next is Disconnected) {
        Some(Balloon::Connected)
    } else if !(prev is Disconnected) && next is Disconnected {
        Some(Balloon::Lost)
    } else {
        None
    }
}

/// The new state of the indicator, whether it changed, and the balloon of the change.
pub fn set_state(prev: TrayState, connected: bool, cursor_here: bool) -> (r: (
    TrayState,
    bool,
    Option<Balloon>,
))
    ensures
        r.0 == state_of(connected, cursor_here),
        r.1 == (r.0 != prev),
        r.2 == balloon_of(prev, r.0),
{
    let next: TrayState = if !connected {
        TrayState::Disconnected
    } else if cursor_here {
        TrayState::CursorHere
    } else {
        TrayState::Connected
    };
    let was_down: bool = prev == TrayState::Disconnected;
    let is_down: bool = next == TrayState::Disconnected;
    let balloon: Option<Balloon> = if was_down && !is_down {
        Some(Balloon::Connected)
    } else if !was_down && is_down {
        Some(Balloon::Lost)
    } else {
        None
    };
    (next, next != prev, balloon)
}

/// A balloon comes exactly when the connection comes or goes, never when only the
/// cursor does.
pub proof fn law_balloons_follow_the_connection(
    connected: bool,
    here: bool,
    connected_after: bool,
    here_after: bool,
)
    ensures
        balloon_of(state_of(connected, here), state_of(connected_after, here_after)) is Some
            == (connected != connected_after),
{
}

/// The text of the indicator.
pub open spec fn tooltip_of(state: TrayState, host: Seq<char>) -> Seq<char> {
    match state {
        TrayState::CursorHere => "kayiver — controlling this PC (from "@ + host + ")"@,
        TrayState::Connected => "kayiver — connected to "@ + host,
        TrayState::Disconnected => "kayiver — waiting for host…"@,
    }
}

/// The text of the indicator.
pub fn tooltip(state: TrayState, host: &str) -> (r: String)
    ensures
        r@ == tooltip_of(state, host@),
{
    match state {
        TrayState::CursorHere => joined(
            joined("kayiver — controlling this PC (from ", host).as_str(),
            ")",
        ),
        TrayState::Connected => joined("kayiver — connected to ", host),
        TrayState::Disconnected => "kayiver — waiting for host…".to_owned(),
    }
}

/// The title and the text of a balloon.
pub fn balloon_text(b: Balloon, state: TrayState, host: &str) -> (r: (String, String))
    ensures
        match b {
            Balloon::Connected => r.0@ == "Kayıver bağlandı"@ && r.1@ == tooltip_of(state, host@),
            Balloon::Lost => r.0@ == "Kayıver bağlantısı koptu"@ && r.1@ == host@
                + " ile bağlantı kesildi — yeniden deneniyor. Sebep için editörü aç (sağ tık → Aç)."@,
        },
{
    match b {
        Balloon::Connected => ("Kayıver bağlandı".to_owned(), tooltip(state, host)),
        Balloon::Lost => (
            "Kayıver bağlantısı koptu".to_owned(),
            joined(
                host,
                " ile bağlantı kesildi — yeniden deneniyor. Sebep için editörü aç (sağ tık → Aç).",
            ),
        ),
    }
}

// --------------------------------------------------------- wide strings ----

/// The UTF-16 code units of a character.
pub open spec fn units_of(c: char) -> Seq<u16> {
    let n = c as int;
    if n < 0x1_0000 {
        seq![n as u16]
    } else {
        seq![(0xD800 + (n - 0x1_0000) / 0x400) as u16, (0xDC00 + (n - 0x1_0000) % 0x400) as u16]
    }
}

/// The UTF-16 code units of a text.
pub open spec fn utf16(s: Seq<char>) -> Seq<u16>
    decreases s.len(),
{
    if s.len() == 0 {
        seq![]
    } else {
        utf16(s.drop_last()) + units_of(s.last())
    }
}

/// Appends the UTF-16 code units of a character.
fn push_units(out: &mut Vec<u16>, c: char)
    ensures
        final(out)@ == old(out)@ + units_of(c),
{
    let n: u32 = c as u32;
    if n < 0x1_0000 {
        out.push(n as u16);
    } else {
        out.push((0xD800 + (n - 0x1_0000) / 0x400) as u16);
        out.push((0xDC00 + (n - 0x1_0000) % 0x400) as u16);
    }
    assert(out@ =~= old(out)@ + units_of(c));
}

/// The UTF-16 code units of a text.
fn units(s: &str) -> (r: Vec<u16>)
    ensures
        r@ == utf16(s@),
{
    let v: Vec<char> = chars_of(s);
    let mut out: Vec<u16> = Vec::new();
    proof {
        assert(out@ =~= seq![]);
        assert(v@.take(0) =~= seq![]);
    }
    for i in 0..v.len()
        invariant
            out@ == utf16(v@.take(i as int)),
    {
        proof {
            assert(v@.take(i + 1).drop_last() =~= v@.take(i as int));
            assert(v@.take(i + 1).last() == v@[i as int]);
        }
        push_units(&mut out, v[i]);
    }
    assert(v@.take(v@.len() as int) =~= v@);
    out
}

/// A text as a wide string, with the zero that ends it.
pub fn to_wide(s: &str) -> (r: Vec<u16>)
    ensures
        r@ == utf16(s@).push(0),
{
    let mut out: Vec<u16> = units(s);
    out.push(0);
    out
}

/// A text as it stands in a field of so many units: cut off where it does not fit, and
/// always ended by a zero.
pub fn fill(capacity: usize, s: &str) -> (r: Vec<u16>)
    requires
        capacity > 0,
    ensures
        r@ == if utf16(s@).len() < capacity {
            utf16(s@).push(0)
        } else {
            utf16(s@).take(capacity - 1).push(0)
        },
        r@.len() <= capacity,
{
    let mut out: Vec<u16> = units(s);
    if out.len() >= capacity {
        out.truncate(capacity - 1);
    }
    out.push(0);
    out
}

// ------------------------------------------------------------- summary ----

/// What the menu bar knows of a peer.
#[derive(Debug)]
pub struct PeerStatus {
    pub name: String,
    pub connected: bool,
    /// The round-trip time in milliseconds, as text.
    pub rtt: Option<String>,
}

/// What the menu bar knows of a peer, as values.
#[verifier::ext_equal]
pub ghost struct PeerStatusView {
    pub name: Seq<char>,
    pub connected: bool,
    pub rtt: Option<Seq<char>>,
}

impl View for PeerStatus {
    type V = PeerStatusView;

    open spec fn view(&self) -> PeerStatusView {
        PeerStatusView {
            name: self.name@,
            connected: self.connected,
            rtt: text::opt_text(self.rtt),
        }
    }
}

/// What the menu bar knows of some peers.
pub open spec fn statuses(peers: Seq<PeerStatus>) -> Seq<PeerStatusView> {
    peers.map_values(|p: PeerStatus| p@)
}

/// What is said of a peer.
pub open spec fn peer_line(p: PeerStatusView) -> Seq<char> {
    if !p.connected {
        p.name + ": çevrimdışı"@
    } else {
        match p.rtt {
            Some(t) => p.name + ": bağlı ("@ + t + " ms)"@,
            None => p.name + ": bağlı"@,
        }
    }
}

/// Some texts with a separator between them.
pub open spec fn separated(parts: Seq<Seq<char>>, sep: Seq<char>) -> Seq<char>
    decreases parts.len(),
{
    if parts.len() == 0 {
        seq![]
    } else if parts.len() == 1 {
        parts[0]
    } else {
        separated(parts.drop_last(), sep) + sep + parts.last()
    }
}

/// What is said of each peer.
pub open spec fn peer_lines(peers: Seq<PeerStatusView>) -> Seq<Seq<char>> {
    peers.map_values(|p: PeerStatusView| peer_line(p))
}

/// Some peer is not connected.
pub open spec fn any_down(peers: Seq<PeerStatusView>) -> bool {
    exists|i: int| 0 <= i < peers.len() && !(#[trigger] peers[i]).connected
}

/// One line for the menu bar about a machine that runs, or does not, or did not answer;
/// and whether something is off.
pub open spec fn summary_of(running: Option<bool>, peers: Seq<PeerStatusView>) -> (Seq<char>, bool) {
    match running {
        None => ("Motor başlatılıyor / izin bekleniyor…"@, true),
        Some(false) => ("Motor çalışmıyor (izin bekleniyor olabilir)"@, true),
        Some(true) => if peers.len() == 0 {
            ("Eş bekleniyor…"@, true)
        } else {
            (separated(peer_lines(peers), " · "@), any_down(peers))
        },
    }
}

/// What is said of a peer.
fn write_peer(p: &PeerStatus) -> (r: String)
    ensures
        r@ == peer_line(p@),
{
    if !p.connected {
        joined(p.name.as_str(), ": çevrimdışı")
    } else {
        match &p.rtt {
            Some(t) => joined(
                joined(joined(p.name.as_str(), ": bağlı (").as_str(), t.as_str()).as_str(),
                " ms)",
            ),
            None => joined(p.name.as_str(), ": bağlı"),
        }
    }
}

/// One line for the menu bar, and whether something is off. `running` is nothing where
/// the local service did not answer.
pub fn status_summary(running: Option<bool>, peers: &Vec<PeerStatus>) -> (r: (String, bool))
    ensures
        (r.0@, r.1) == summary_of(running, statuses(peers@)),
{
    match running {
        None => {
            return ("Motor başlatılıyor / izin bekleniyor…".to_owned(), true);
        },
        Some(on) => {
            if !on {
                return ("Motor çalışmıyor (izin bekleniyor olabilir)".to_owned(), true);
            }
        },
    }
    if peers.len() == 0 {
        return ("Eş bekleniyor…".to_owned(), true);
    }
    let ghost known = statuses(peers@);
    let ghost all = peer_lines(known);
    assert(known[0] == peers@[0]@ && all[0] == peer_line(peers@[0]@));
    let mut line: String = write_peer(&peers[0]);
    let mut down: bool = !peers[0].connected;
    let mut i: usize = 1;
    while i < peers.len()
        invariant
            1 <= i <= peers@.len(),
            known == statuses(peers@),
            all == peer_lines(known),
            line@ == separated(all.take(i as int), " · "@),
            down == exists|j: int| 0 <= j < i && !(#[trigger] known[j]).connected,
        decreases peers@.len() - i,
    {
        proof {
            assert(known[i as int] == peers@[i as int]@);
            assert(all.take(i + 1).drop_last() =~= all.take(i as int));
            assert(all.take(i + 1).last() == peer_line(peers@[i as int]@));
        }
        line = joined(joined(line.as_str(), " · ").as_str(), write_peer(&peers[i]).as_str());
        if !peers[i].connected {
            down = true;
        }
        i = i + 1;
    }
    assert(all.take(all.len() as int) =~= all);
    (line, down)
}

/// The names of the peers in a status.
pub open spec fn peer_names(status: JsonView) -> Set<Seq<char>> {
    match json::member(status, "peers"@) {
        Some(JsonView::Obj(m)) => m.dom(),
        _ => Set::empty(),
    }
}

/// A status says of a peer that it is connected.
pub open spec fn says_connected(status: JsonView, name: Seq<char>) -> bool {
    match json::member(status, "peers"@) {
        Some(peers) => match json::member(peers, name) {
            Some(p) => json::bool_member(p, "connected"@) == Some(true),
            None => false,
        },
        None => false,
    }
}

/// The text that stands beside a name, from the `i`th pair on.
pub open spec fn beside(pairs: Seq<(String, String)>, name: Seq<char>, i: int) -> Option<Seq<char>>
    decreases pairs.len() - i,
{
    if i < 0 || i >= pairs.len() {
        None
    } else if pairs[i].0@ == name {
        Some(pairs[i].1@)
    } else {
        beside(pairs, name, i + 1)
    }
}

/// What a status says of the peers with these names, with their round-trip times.
pub open spec fn told(status: JsonView, rtts: Seq<(String, String)>, names: Seq<Seq<char>>) -> Seq<
    PeerStatusView,
> {
    names.map_values(
        |n: Seq<char>|
            PeerStatusView {
                name: n,
                connected: says_connected(status, n),
                rtt: beside(rtts, n, 0),
            },
    )
}

/// `line` and `warn` are the summary of a status: each peer of it stands in the line once,
/// in the order of their names.
pub open spec fn sums_up(
    status: JsonView,
    rtts: Seq<(String, String)>,
    line: Seq<char>,
    warn: bool,
) -> bool {
    exists|names: Seq<Seq<char>>| #[trigger]
        json::lists(names, peer_names(status)) && (line, warn) == summary_of(
            Some(true),
            told(status, rtts, names),
        )
}

/// The text that stands beside a name.
fn find_beside(pairs: &Vec<(String, String)>, name: &str) -> (r: Option<String>)
    ensures
        text::opt_text(r) == beside(pairs@, name@, 0),
{
    let mut i: usize = 0;
    while i < pairs.len()
        invariant
            i <= pairs@.len(),
            beside(pairs@, name@, 0) == beside(pairs@, name@, i as int),
        decreases pairs@.len() - i,
    {
        if same_text(pairs[i].0.as_str(), name) {
            return Some(pairs[i].1.clone());
        }
        i = i + 1;
    }
    None
}

/// The names of the peers in a status.
fn list_names(status: &serde_json::Value) -> (r: Vec<String>)
    ensures
        json::lists(text::texts(r@), peer_names(json_of(status))),
{
    if let Some(peers) = get(status, "peers") {
        if let Some(names) = object_keys(peers) {
            return names;
        }
    }
    let none: Vec<String> = Vec::new();
    assert(text::texts(none@) =~= seq![]);
    none
}

/// A status says of a peer that it is connected.
fn read_connected(status: &serde_json::Value, name: &str) -> (r: bool)
    ensures
        r == says_connected(json_of(status), name@),
{
    match get(status, "peers") {
        Some(peers) => match get(peers, name) {
            Some(p) => match get_bool(p, "connected") {
                Some(on) => on,
                None => false,
            },
            None => false,
        },
        None => false,
    }
}

/// What a running machine's status says, as one line, and whether something is off.
fn sum_up(status: &serde_json::Value, rtts: &Vec<(String, String)>) -> (r: (String, bool))
    ensures
        sums_up(json_of(status), rtts@, r.0@, r.1),
{
    let names: Vec<String> = list_names(status);
    let ghost keys = text::texts(names@);
    let ghost all = told(json_of(status), rtts@, keys);
    let mut peers: Vec<PeerStatus> = Vec::new();
    assert(statuses(peers@) =~= all.take(0));
    for i in 0..names.len()
        invariant
            keys == text::texts(names@),
            all == told(json_of(status), rtts@, keys),
            statuses(peers@) == all.take(i as int),
    {
        let p: PeerStatus = PeerStatus {
            name: names[i].clone(),
            connected: read_connected(status, names[i].as_str()),
            rtt: find_beside(rtts, names[i].as_str()),
        };
        proof {
            assert(keys[i as int] == names@[i as int]@);
            assert(p@ == all[i as int]);
            assert(statuses(peers@.push(p)) =~= statuses(peers@).push(p@));
            assert(all.take(i + 1) =~= all.take(i as int).push(p@));
        }
        peers.push(p);
    }
    assert(all.take(names@.len() as int) =~= all);
    status_summary(Some(true), &peers)
}

/// Sums up what the local service answered when asked for the status: one line for the
/// menu bar, and whether something is off. `rtts` holds the round-trip times that the
/// answer gives, in milliseconds, as text beside the peers' names.
pub fn summarize(code: u16, body: &[u8], rtts: &Vec<(String, String)>) -> (r: (String, bool))
    ensures
        match json::json_read(body@) {
            Ok(status) if code == 200 => if json::bool_member(status, "running"@) == Some(true) {
                sums_up(status, rtts@, r.0@, r.1)
            } else {
                (r.0@, r.1) == summary_of(Some(false), seq![])
            },
            _ => (r.0@, r.1) == summary_of(None, seq![]),
        },
{
    let nobody: Vec<PeerStatus> = Vec::new();
    assert(statuses(nobody@) =~= seq![]);
    if code != 200 {
        return status_summary(None, &nobody);
    }
    match json::read(body) {
        Ok(status) => match get_bool(&status, "running") {
            Some(true) => sum_up(&status, rtts),
            _ => status_summary(Some(false), &nobody),
        },
        Err(_) => status_summary(None, &nobody),
    }
}

} // verus!
