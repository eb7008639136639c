//! Configuration: what a machine remembers about itself, its peers, the layout
//! and the shared monitor.
use vstd::prelude::*;

use base64::Engine;

use crate::layout::{Edge, Layout, Link};
use crate::proto::Rect;
use crate::text::{copy_opt, has_text, is_text, joined, replace_char, same_text, strip_ends};
use crate::{Error, DEFAULT_PORT};

verus! {

#[derive(Clone, Copy, Debug, PartialEq, Eq, Structural)]
pub enum Mode {
    /// The machine whose physical keyboard/mouse are shared.
    Host,
    /// A machine that receives input.
    Client,
}

#[derive(Debug)]
pub struct Peer {
    pub name: String,
    /// base64 of the 32-byte pairing-derived key.
    pub psk: String,
    /// Optional static address ("ip:port"). Tried before discovery: this is the
    /// path that keeps working across VPNs or networks where multicast is
    /// filtered.
    pub addr: Option<String>,
    /// Fallback addresses tried after `addr`. Learned automatically: whenever a
    /// session succeeds via discovery or a fallback, that address is remembered.
    pub addrs: Vec<String>,
    /// Address of the most recent successful session. Kept separate from `addr`
    /// so the configured primary is never overwritten.
    pub last_good: Option<String>,
    /// Last known physical displays of this peer.
    pub screens: Vec<Rect>,
    /// Peer OS ("macos"/"windows"...), used to map monitor picks to that
    /// platform's display indexing.
    pub os: Option<String>,
}

/// What a peer entry says.
#[verifier::ext_equal]
pub ghost struct PeerView {
    pub name: Seq<char>,
    pub psk: Seq<char>,
    pub addr: Option<Seq<char>>,
    pub addrs: Seq<Seq<char>>,
    pub last_good: Option<Seq<char>>,
    pub screens: Seq<Rect>,
    pub os: Option<Seq<char>>,
}

impl View for Peer {
    type V = PeerView;

    open spec fn view(&self) -> PeerView {
        PeerView {
            name: self.name@,
            psk: self.psk@,
            addr: crate::text::opt_text(self.addr),
            addrs: crate::text::texts(self.addrs@),
            last_good: crate::text::opt_text(self.last_good),
            screens: self.screens@,
            os: crate::text::opt_text(self.os),
        }
    }
}

/// The standard base64 text of some bytes, as the `base64` crate writes it.
pub uninterp spec fn base64_text(bytes: Seq<u8>) -> Seq<char>;

/// The bytes that a standard base64 text stands for, or the `base64` crate's
/// description of what is wrong with it.
pub uninterp spec fn base64_bytes(text: Seq<char>) -> Result<Seq<u8>, Seq<char>>;

/// The text decodes, to these bytes.
pub open spec fn stands_for(text: Seq<char>, bytes: Seq<u8>) -> bool {
    base64_bytes(text) matches Ok(b) && b == bytes
}

/// `base64::engine::general_purpose::STANDARD.encode`: the text is a function of
/// the bytes, and decoding it gives the bytes back. The limit keeps clear of the
/// length at which the encoder's size computation overflows.
#[verifier::external_body]
fn encode_base64(bytes: &[u8]) -> (r: String)
    requires
        bytes@.len() <= 0x1000_0000,
    ensures
        r@ == base64_text(bytes@),
        stands_for(r@, bytes@),
{
    base64::engine::general_purpose::STANDARD.encode(bytes)
}

/// The bytes or the description in a decoding result.
pub open spec fn decoding_of(r: Result<Vec<u8>, String>) -> Result<Seq<u8>, Seq<char>> {
    match r {
        Ok(b) => Ok(b@),
        Err(e) => Err(e@),
    }
}

/// `base64::engine::general_purpose::STANDARD.decode`: the outcome is a function of
/// the text. A refusal is given by the text of the crate's error.
#[verifier::external_body]
fn decode_base64(text: &str) -> (r: Result<Vec<u8>, String>)
    ensures
        decoding_of(r) == base64_bytes(text@),
{
    base64::engine::general_purpose::STANDARD.decode(text).map_err(|e| e.to_string())
}

/// The complaint about a peer's key: `"peer <name>: <what>"`.
pub open spec fn peer_complaint(name: Seq<char>, what: Seq<char>) -> Seq<char> {
    "peer "@ + name + ": "@ + what
}

/// The complaint about a peer's key.
fn complaint(name: &str, what: &str) -> (r: String)
    ensures
        r@ == peer_complaint(name@, what@),
{
    joined(joined(joined("peer ", name).as_str(), ": ").as_str(), what)
}

/// The key in a peer entry, or the complaint about it: the text must be base64, of
/// 32 bytes.
pub open spec fn key_in(p: PeerView) -> Result<Seq<u8>, Seq<char>> {
    match base64_bytes(p.psk) {
        Err(e) => Err(peer_complaint(p.name, "bad psk base64: "@ + e)),
        Ok(b) => if b.len() == 32 {
            Ok(b)
        } else {
            Err(peer_complaint(p.name, "psk must be 32 bytes"@))
        },
    }
}

impl Peer {
    /// The key that the base64 text holds. Fails with a configuration error that
    /// names the peer when the text is not base64, or not of 32 bytes.
    pub fn psk_bytes(&self) -> (r: Result<[u8; 32], Error>)
        ensures
            match key_in(self@) {
                Ok(b) => r matches Ok(key) && key@ == b,
                Err(e) => r matches Err(Error::Config(t)) && t@ == e,
            },
    {
        match decode_base64(self.psk.as_str()) {
            Err(e) => Err(
                Error::Config(
                    complaint(self.name.as_str(), joined("bad psk base64: ", e.as_str()).as_str()),
                ),
            ),
            Ok(raw) => {
                if raw.len() != 32 {
                    return Err(
                        Error::Config(complaint(self.name.as_str(), "psk must be 32 bytes")),
                    );
                }
                Ok(key_of(&raw))
            },
        }
    }

    /// Stores the key as base64 text.
    pub fn set_psk(&mut self, psk: &[u8; 32])
        ensures
            final(self)@ == (PeerView { psk: base64_text(psk@), ..old(self)@ }),
            stands_for(final(self)@.psk, psk@),
    {
        self.psk = encode_base64(psk.as_slice());
    }
}

/// 32 bytes as an array.
pub fn key_of(raw: &Vec<u8>) -> (r: [u8; 32])
    requires
        raw@.len() == 32,
    ensures
        r@ == raw@,
{
    let mut key: [u8; 32] = [0u8; 32];
    for i in 0..32usize
        invariant
            raw@.len() == 32,
            forall|j: int| 0 <= j < i ==> key@[j] == raw@[j],
    {
        key[i] = raw[i];
    }
    assert(key@ =~= raw@);
    key
}

/// What a list of peers says.
pub open spec fn peers_view(v: Seq<Peer>) -> Seq<PeerView> {
    v.map_values(|p: Peer| p@)
}

/// Opt-in LAN exposure of the status and control API. Off by default; when
/// enabled, every request must carry `Authorization: Bearer <token>`.
#[derive(Debug)]
pub struct RemoteApi {
    pub enabled: bool,
    /// Shared secret.
    pub token: Option<String>,
}

/// One physical panel cabled to both machines ("shared monitor"). The machine that
/// the panel is not showing keeps its cursor off it. Ownership is flipped with the
/// hotkey, the editor or the command line, matching the physical input switch on
/// the monitor itself.
#[derive(Debug)]
pub struct SharedMonitor {
    /// This machine's index for the shared panel (macOS: 1-based; Windows: 0-based
    /// attached-display order).
    pub local_index: Option<u32>,
    /// This machine's shared monitor geometry.
    pub local_rect: Option<Rect>,
    /// Peer sharing the panel. Defaults to the first paired peer.
    pub peer: Option<String>,
    /// The peer's own index for the same panel.
    pub peer_index: Option<u32>,
    /// The peer's shared monitor geometry.
    pub peer_rect: Option<Rect>,
    /// Toggle ownership with the hotkey.
    pub hotkey: bool,
    /// The machine that the panel showed last: ownership survives restarts.
    pub last_owner: Option<String>,
}

/// What the shared-monitor settings say.
#[verifier::ext_equal]
pub ghost struct SharedMonitorView {
    pub local_index: Option<u32>,
    pub local_rect: Option<Rect>,
    pub peer: Option<Seq<char>>,
    pub peer_index: Option<u32>,
    pub peer_rect: Option<Rect>,
    pub hotkey: bool,
    pub last_owner: Option<Seq<char>>,
}

impl View for SharedMonitor {
    type V = SharedMonitorView;

    open spec fn view(&self) -> SharedMonitorView {
        SharedMonitorView {
            local_index: self.local_index,
            local_rect: self.local_rect,
            peer: crate::text::opt_text(self.peer),
            peer_index: self.peer_index,
            peer_rect: self.peer_rect,
            hotkey: self.hotkey,
            last_owner: crate::text::opt_text(self.last_owner),
        }
    }
}

impl SharedMonitorView {
    /// Both sides' indices are known.
    pub open spec fn is_configured(self) -> bool {
        self.local_index is Some && self.peer_index is Some
    }
}

impl Default for SharedMonitor {
    fn default() -> (r: Self)
        ensures
            r@ == (SharedMonitorView {
                local_index: None,
                local_rect: None,
                peer: None,
                peer_index: None,
                peer_rect: None,
                hotkey: true,
                last_owner: None,
            }),
    {
        SharedMonitor {
            local_index: None,
            local_rect: None,
            peer: None,
            peer_index: None,
            peer_rect: None,
            hotkey: true,
            last_owner: None,
        }
    }
}

impl SharedMonitor {
    /// Fully configured (both sides' indices known)?
    pub fn configured(&self) -> (r: bool)
        ensures
            r == self@.is_configured(),
    {
        self.local_index.is_some() && self.peer_index.is_some()
    }

    /// A copy.
    pub fn copy(&self) -> (r: SharedMonitor)
        ensures
            r@ == self@,
    {
        SharedMonitor {
            local_index: self.local_index,
            local_rect: self.local_rect,
            peer: copy_opt(&self.peer),
            peer_index: self.peer_index,
            peer_rect: self.peer_rect,
            hotkey: self.hotkey,
            last_owner: copy_opt(&self.last_owner),
        }
    }
}

/// A character of a lower-case hexadecimal number.
pub open spec fn hex_digit(d: int) -> char {
    if d < 10 {
        (('0' as int) + d) as char
    } else {
        (('a' as int) + (d - 10)) as char
    }
}

/// Bytes in lower-case hexadecimal, two characters each.
pub open spec fn hex_of(b: Seq<u8>) -> Seq<char>
    decreases b.len(),
{
    if b.len() == 0 {
        seq![]
    } else {
        hex_of(b.drop_last()).push(hex_digit(b.last() as int / 16)).push(
            hex_digit(b.last() as int % 16),
        )
    }
}

pub(crate) fn hex_char(d: u8) -> (r: char)
    requires
        d < 16,
    ensures
        r == hex_digit(d as int),
{
    if d < 10 {
        ('0' as u8 + d) as char
    } else {
        ('a' as u8 + (d - 10)) as char
    }
}

/// `rand::rng().fill_bytes` on 16 bytes. Nothing is said of the bytes: they rest on
/// chance.
#[verifier::external_body]
fn random_16() -> (r: [u8; 16]) {
    let mut b = [0u8; 16];
    rand::RngCore::fill_bytes(&mut rand::rng(), &mut b);
    b
}

/// A character that stands in a token.
pub open spec fn is_hex(c: char) -> bool {
    '0' <= c <= '9' || 'a' <= c <= 'f'
}

/// The hexadecimal text of some bytes has two characters for each, all of them
/// lower-case hexadecimal.
pub proof fn law_hex_text(b: Seq<u8>)
    ensures
        hex_of(b).len() == 2 * b.len(),
        forall|i: int| 0 <= i < hex_of(b).len() ==> is_hex(#[trigger] hex_of(b)[i]),
    decreases b.len(),
{
    if b.len() > 0 {
        law_hex_text(b.drop_last());
    }
}

impl RemoteApi {
    /// The token of 16 bytes: their hexadecimal text.
    pub fn token_of(b: &[u8; 16]) -> (r: String)
        ensures
            r@ == hex_of(b@),
    {
        let mut s: String = String::new();
        assert(b@.take(0) =~= seq![]);
        for i in 0..16usize
            invariant
                s@ == hex_of(b@.take(i as int)),
        {
            proof {
                let t = b@.take(i + 1);
                assert(t.drop_last() =~= b@.take(i as int));
                assert(t.last() == b@[i as int]);
            }
            s.push(hex_char(b[i] / 16));
            s.push(hex_char(b[i] % 16));
        }
        assert(b@.take(16) =~= b@);
        s
    }

    /// Random 128-bit hex token for the LAN API.
    pub fn generate_token() -> (r: String)
        ensures
            r@.len() == 32,
            forall|i: int| 0 <= i < 32 ==> is_hex(#[trigger] r@[i]),
    {
        let b: [u8; 16] = random_16();
        proof {
            law_hex_text(b@);
        }
        RemoteApi::token_of(&b)
    }
}

/// What the three Mac modifiers send to a Windows peer: "ctrl", "alt" or "win".
#[derive(Debug)]
pub struct WinModifiers {
    pub ctrl: String,
    pub opt: String,
    pub cmd: String,
}

/// Switching of a monitor physically shared with the peer (one panel, two input
/// cables) over its control channel.
#[derive(Clone, Copy, Debug, PartialEq, Eq, Structural)]
pub struct DisplaySwitch {
    /// Master on/off.
    pub auto_switch: bool,
    /// The input-source value that selects the PEER's input on the shared monitor.
    pub peer_input: Option<u16>,
    /// Which display to switch. `None` = the first external display.
    pub display_index: Option<u32>,
}

impl Default for DisplaySwitch {
    fn default() -> (r: Self)
        ensures
            r == (DisplaySwitch { auto_switch: false, peer_input: None, display_index: None }),
    {
        DisplaySwitch { auto_switch: false, peer_input: None, display_index: None }
    }
}

#[derive(Debug)]
pub struct Config {
    /// This machine's name in the layout. Defaults to the hostname.
    pub name: String,
    pub mode: Mode,
    pub port: u16,
    pub peers: Vec<Peer>,
    pub layout: Layout,
    pub shared_monitor: SharedMonitor,
    pub remote: RemoteApi,
    /// How long the cursor must rest against a portal edge before it crosses to
    /// the next machine, in milliseconds. 0 = cross instantly.
    pub edge_dwell_ms: u64,
    /// Which desktop edge leads to the Android tablet.
    pub tablet_edge: Option<String>,
    /// Where this desk's monitors belong; empty = wherever the OS put them.
    pub arrangement: Vec<Rect>,
    /// "off" = this machine can be driven but never drives.
    pub capture: String,
    /// "always", "off", or adaptive.
    pub heartbeat: String,
    /// Mac-style shortcuts on Windows peers.
    pub mac_shortcuts: bool,
    pub win_modifiers: WinModifiers,
    pub display: DisplaySwitch,
}

/// What a configuration says.
#[verifier::ext_equal]
pub ghost struct ConfigView {
    pub name: Seq<char>,
    pub mode: Mode,
    pub port: u16,
    pub peers: Seq<PeerView>,
    pub links: Seq<crate::layout::LinkView>,
    pub shared_monitor: SharedMonitorView,
    pub remote_enabled: bool,
    pub remote_token: Option<Seq<char>>,
    pub edge_dwell_ms: u64,
    pub tablet_edge: Option<Seq<char>>,
    pub arrangement: Seq<Rect>,
    pub capture: Seq<char>,
    pub heartbeat: Seq<char>,
    pub mac_shortcuts: bool,
    pub win_ctrl: Seq<char>,
    pub win_opt: Seq<char>,
    pub win_cmd: Seq<char>,
    pub display: DisplaySwitch,
}

impl View for Config {
    type V = ConfigView;

    open spec fn view(&self) -> ConfigView {
        ConfigView {
            name: self.name@,
            mode: self.mode,
            port: self.port,
            peers: peers_view(self.peers@),
            links: self.layout@,
            shared_monitor: self.shared_monitor@,
            remote_enabled: self.remote.enabled,
            remote_token: crate::text::opt_text(self.remote.token),
            edge_dwell_ms: self.edge_dwell_ms,
            tablet_edge: crate::text::opt_text(self.tablet_edge),
            arrangement: self.arrangement@,
            capture: self.capture@,
            heartbeat: self.heartbeat@,
            mac_shortcuts: self.mac_shortcuts,
            win_ctrl: self.win_modifiers.ctrl@,
            win_opt: self.win_modifiers.opt@,
            win_cmd: self.win_modifiers.cmd@,
            display: self.display,
        }
    }
}

/// A text in lower case, as `str::to_lowercase` writes it.
pub uninterp spec fn lower_case(s: Seq<char>) -> Seq<char>;

/// `str::to_lowercase`: the result is a function of the text.
#[verifier::external_body]
fn to_lower(s: &str) -> (r: String)
    ensures
        r@ == lower_case(s@),
{
    s.to_lowercase()
}

/// The name a machine goes by when its host name is `host`: without the `.local`
/// endings, in lower case, spaces as hyphens.
pub open spec fn name_of_host(host: Seq<char>) -> Seq<char> {
    crate::text::with_char(
        lower_case(crate::text::without_ends(host, ".local"@)),
        ' ',
        '-',
    )
}

/// This machine's name, given its host name.
pub fn machine_name(host: &str) -> (r: String)
    ensures
        r@ == name_of_host(host@),
{
    replace_char(to_lower(strip_ends(host, ".local").as_str()).as_str(), ' ', '-')
}

/// How a configuration is come by.
#[derive(Clone, Copy, Debug, PartialEq, Eq, Structural)]
pub enum LoadPlan {
    /// Read the file.
    Read,
    /// Copy the file that the app left under its old name, then read it.
    Migrate,
    /// Write a fresh one.
    Init,
}

/// How a configuration is come by, given which files there are: a fresh one is made on
/// the first run only, and one under the old name is never passed over.
pub fn load_or_init(exists: bool, legacy: bool) -> (r: LoadPlan)
    ensures
        r == (if exists {
            LoadPlan::Read
        } else if legacy {
            LoadPlan::Migrate
        } else {
            LoadPlan::Init
        }),
{
    if exists {
        LoadPlan::Read
    } else if legacy {
        LoadPlan::Migrate
    } else {
        LoadPlan::Init
    }
}

/// The index of the first peer with this name, from `from` on.
pub open spec fn peer_index(peers: Seq<PeerView>, name: Seq<char>, from: int) -> Option<int>
    decreases peers.len() - from,
{
    if from < 0 || from >= peers.len() {
        None
    } else if peers[from].name == name {
        Some(from)
    } else {
        peer_index(peers, name, from + 1)
    }
}

/// A found index is in range and carries the name.
pub proof fn lemma_peer_index(peers: Seq<PeerView>, name: Seq<char>, from: int)
    requires
        0 <= from,
    ensures
        peer_index(peers, name, from) matches Some(i) ==> from <= i < peers.len() && peers[i].name
            == name && forall|j: int| from <= j < i ==> (#[trigger] peers[j]).name != name,
        peer_index(peers, name, from) is None ==> forall|j: int|
            from <= j < peers.len() ==> (#[trigger] peers[j]).name != name,
    decreases peers.len() - from,
{
    if from < peers.len() && peers[from].name != name {
        lemma_peer_index(peers, name, from + 1);
    }
}

/// The first peer with this name.
pub fn find_peer_index(peers: &Vec<Peer>, name: &str) -> (r: Option<usize>)
    ensures
        match r {
            Some(i) => peer_index(peers_view(peers@), name@, 0) == Some(i as int) && i < peers@.len()
                && peers@[i as int].name@ == name@,
            None => peer_index(peers_view(peers@), name@, 0) is None,
        },
{
    let ghost v = peers_view(peers@);
    let mut i: usize = 0;
    while i < peers.len()
        invariant
            i <= peers@.len(),
            v == peers_view(peers@),
            peer_index(v, name@, 0) == peer_index(v, name@, i as int),
        decreases peers@.len() - i,
    {
        assert(v[i as int].name == peers@[i as int].name@);
        if same_text(peers[i].name.as_str(), name) {
            return Some(i);
        }
        i = i + 1;
    }
    None
}

/// Are two lists of rects the same?
pub fn same_rects(a: &[Rect], b: &[Rect]) -> (r: bool)
    ensures
        r == (a@ == b@),
{
    if a.len() != b.len() {
        return false;
    }
    for i in 0..a.len()
        invariant
            a@.len() == b@.len(),
            forall|j: int| 0 <= j < i ==> a@[j] == b@[j],
    {
        if a[i] != b[i] {
            return false;
        }
    }
    assert(a@ =~= b@);
    true
}

/// A copy of a list of rects.
pub fn copy_rects(a: &[Rect]) -> (r: Vec<Rect>)
    ensures
        r@ == a@,
{
    let mut out: Vec<Rect> = Vec::new();
    for i in 0..a.len()
        invariant
            out@ == a@.take(i as int),
    {
        out.push(a[i]);
    }
    assert(a@.take(a@.len() as int) =~= a@);
    out
}

/// A peer after a session succeeded over `addr`: it is the last good address, and
/// one of at most four remembered fallbacks unless it was known already.
pub open spec fn with_good_addr(p: PeerView, addr: Seq<char>) -> PeerView {
    let grown = p.addrs.push(addr);
    PeerView {
        last_good: Some(addr),
        addrs: if p.addr == Some(addr) || p.addrs.contains(addr) {
            p.addrs
        } else if grown.len() > 4 {
            grown.skip(1)
        } else {
            grown
        },
        ..p
    }
}

/// A peer after it asked to be reached at `addr`: the primary and the last good
/// address, never listed among the fallbacks, where the old primary goes.
pub open spec fn with_primary_addr(p: PeerView, addr: Seq<char>) -> PeerView {
    let kept = match p.addr {
        Some(prior) => if prior != addr && !p.addrs.contains(prior) {
            p.addrs.push(prior)
        } else {
            p.addrs
        },
        None => p.addrs,
    };
    PeerView {
        addr: Some(addr),
        last_good: Some(addr),
        addrs: kept.filter(|a: Seq<char>| a != addr),
        ..p
    }
}

/// A peer after it reported its monitors, and its OS where `os` gives one.
pub open spec fn with_screens(p: PeerView, monitors: Seq<Rect>, os: Option<Seq<char>>) -> PeerView {
    PeerView {
        screens: monitors,
        os: if os is Some {
            os
        } else {
            p.os
        },
        ..p
    }
}

/// The list without the texts equal to `addr`.
fn without_text(v: Vec<String>, addr: &str) -> (r: Vec<String>)
    ensures
        crate::text::texts(r@) == crate::text::texts(v@).filter(|a: Seq<char>| a != addr@),
{
    let ghost keep = |a: Seq<char>| a != addr@;
    let ghost all = crate::text::texts(v@);
    let mut out: Vec<String> = Vec::new();
    assert(all.take(0).filter(keep) =~= seq![]) by {
        reveal(Seq::filter);
    }
    assert(crate::text::texts(out@) =~= seq![]);
    for i in 0..v.len()
        invariant
            all == crate::text::texts(v@),
            keep == (|a: Seq<char>| a != addr@),
            crate::text::texts(out@) == all.take(i as int).filter(keep),
    {
        proof {
            let t = all.take(i + 1);
            assert(t.drop_last() =~= all.take(i as int));
            assert(t.last() == v@[i as int]@);
            reveal(Seq::filter);
            crate::text::lemma_texts_push(out@, v@[i as int]);
        }
        if !same_text(v[i].as_str(), addr) {
            out.push(v[i].clone());
        }
    }
    assert(all.take(all.len() as int) =~= all);
    out
}

impl ConfigView {
    /// The machine that shares the panel: the one that is set, else the first peer.
    pub open spec fn panel_peer(self) -> Option<Seq<char>> {
        match self.shared_monitor.peer {
            Some(p) => Some(p),
            None => if self.peers.len() > 0 {
                Some(self.peers[0].name)
            } else {
                None
            },
        }
    }
}

impl Config {
    /// The machine that shares the panel: the one that is set, else the first peer.
    pub fn panel_peer(&self) -> (r: Option<String>)
        ensures
            crate::text::opt_text(r) == self@.panel_peer(),
    {
        match &self.shared_monitor.peer {
            Some(p) => Some(p.clone()),
            None => if self.peers.len() > 0 {
                assert(self@.peers[0] == self.peers@[0]@);
                Some(self.peers[0].name.clone())
            } else {
                None
            },
        }
    }

    /// The configuration of a machine that has never run before.
    pub fn fresh(name: String) -> (r: Config)
        ensures
            r@ == (ConfigView {
                name: name@,
                mode: Mode::Client,
                port: DEFAULT_PORT,
                peers: seq![],
                links: seq![],
                shared_monitor: (SharedMonitorView {
                    local_index: None,
                    local_rect: None,
                    peer: None,
                    peer_index: None,
                    peer_rect: None,
                    hotkey: true,
                    last_owner: None,
                }),
                remote_enabled: false,
                remote_token: None,
                edge_dwell_ms: 0,
                tablet_edge: None,
                arrangement: seq![],
                capture: "on"@,
                heartbeat: "auto"@,
                mac_shortcuts: true,
                win_ctrl: "ctrl"@,
                win_opt: "win"@,
                win_cmd: "ctrl"@,
                display: (DisplaySwitch {
                    auto_switch: false,
                    peer_input: None,
                    display_index: None,
                }),
            }),
    {
        Config {
            name,
            mode: Mode::Client,
            port: DEFAULT_PORT,
            peers: Vec::new(),
            layout: Layout { links: Vec::new() },
            shared_monitor: SharedMonitor::default(),
            remote: RemoteApi { enabled: false, token: None },
            edge_dwell_ms: 0,
            tablet_edge: None,
            arrangement: Vec::new(),
            capture: "on".to_owned(),
            heartbeat: "auto".to_owned(),
            mac_shortcuts: true,
            win_modifiers: WinModifiers {
                ctrl: "ctrl".to_owned(),
                opt: "win".to_owned(),
                cmd: "ctrl".to_owned(),
            },
            display: DisplaySwitch::default(),
        }
    }

    /// The first peer with this name.
    pub fn peer(&self, name: &str) -> (r: Option<&Peer>)
        ensures
            match r {
                Some(p) => peer_index(self@.peers, name@, 0) matches Some(i) && self@.peers[i] == p@
                    && p@.name == name@,
                None => peer_index(self@.peers, name@, 0) is None,
            },
    {
        match find_peer_index(&self.peers, name) {
            Some(i) => {
                assert(self@.peers[i as int] == self.peers@[i as int]@);
                Some(&self.peers[i])
            },
            None => None,
        }
    }

    /// Insert or replace a peer entry.
    pub fn upsert_peer(&mut self, peer: Peer)
        ensures
            final(self)@ == (ConfigView {
                peers: match peer_index(old(self)@.peers, peer@.name, 0) {
                    Some(i) => old(self)@.peers.update(i, peer@),
                    None => old(self)@.peers.push(peer@),
                },
                ..old(self)@
            }),
    {
        match find_peer_index(&self.peers, peer.name.as_str()) {
            Some(i) => {
                self.peers.set(i, peer);
                assert(self@.peers =~= old(self)@.peers.update(i as int, peer@));
            },
            None => {
                self.peers.push(peer);
                assert(self@.peers =~= old(self)@.peers.push(peer@));
            },
        }
    }

    /// Remembers the address a session actually succeeded over, so the next
    /// reconnect tries it first. Returns whether anything changed.
    pub fn remember_good_addr(&mut self, peer_name: &str, addr: &str) -> (r: bool)
        ensures
            match peer_index(old(self)@.peers, peer_name@, 0) {
                Some(i) => {
                    let p = old(self)@.peers[i];
                    &&& final(self)@ == (ConfigView {
                        peers: old(self)@.peers.update(i, with_good_addr(p, addr@)),
                        ..old(self)@
                    })
                    &&& r == (p.last_good != Some(addr@) || !(p.addr == Some(addr@)
                        || p.addrs.contains(addr@)))
                },
                None => final(self)@ == old(self)@ && !r,
            },
    {
        match find_peer_index(&self.peers, peer_name) {
            None => false,
            Some(i) => {
                let ghost before = self.peers@[i as int]@;
                assert(old(self)@.peers[i as int] == before);
                let known: bool = is_text(&self.peers[i].addr, addr) || has_text(
                    &self.peers[i].addrs,
                    addr,
                );
                let mut dirty: bool = false;
                if !is_text(&self.peers[i].last_good, addr) {
                    self.peers[i].last_good = Some(addr.to_owned());
                    dirty = true;
                }
                if !known {
                    let s: String = addr.to_owned();
                    proof {
                        crate::text::lemma_texts_push(self.peers@[i as int].addrs@, s);
                    }
                    self.peers[i].addrs.push(s);
                    if self.peers[i].addrs.len() > 4 {
                        let ghost grown = self.peers@[i as int].addrs@;
                        let first: String = self.peers[i].addrs.remove(0);
                        assert(crate::text::texts(self.peers@[i as int].addrs@)
                            =~= crate::text::texts(grown).skip(1));
                    }
                    dirty = true;
                }
                proof {
                    let after = self.peers@[i as int]@;
                    assert(after =~= with_good_addr(before, addr@));
                    assert(self@.peers =~= old(self)@.peers.update(i as int, after));
                }
                dirty
            },
        }
    }

    /// Makes `addr` the address under which a peer is reached. Returns whether the
    /// peer is known.
    pub fn use_addr(&mut self, peer_name: &str, addr: &str) -> (r: bool)
        ensures
            match peer_index(old(self)@.peers, peer_name@, 0) {
                Some(i) => r && final(self)@ == (ConfigView {
                    peers: old(self)@.peers.update(
                        i,
                        with_primary_addr(old(self)@.peers[i], addr@),
                    ),
                    ..old(self)@
                }),
                None => !r && final(self)@ == old(self)@,
            },
    {
        match find_peer_index(&self.peers, peer_name) {
            None => false,
            Some(i) => {
                let ghost before = self.peers@[i as int]@;
                assert(old(self)@.peers[i as int] == before);
                let prior: Option<String> = copy_opt(&self.peers[i].addr);
                if let Some(p) = prior {
                    if !same_text(p.as_str(), addr) && !has_text(&self.peers[i].addrs, p.as_str()) {
                        proof {
                            crate::text::lemma_texts_push(self.peers@[i as int].addrs@, p);
                        }
                        self.peers[i].addrs.push(p);
                    }
                }
                let kept: Vec<String> = crate::text::copy_texts(&self.peers[i].addrs);
                let rest: Vec<String> = without_text(kept, addr);
                self.peers[i].addrs = rest;
                self.peers[i].addr = Some(addr.to_owned());
                self.peers[i].last_good = Some(addr.to_owned());
                proof {
                    let after = self.peers@[i as int]@;
                    assert(after =~= with_primary_addr(before, addr@));
                    assert(self@.peers =~= old(self)@.peers.update(i as int, after));
                }
                true
            },
        }
    }

    /// Remembers a peer's monitor shapes (and its OS, where one is given). Returns
    /// whether anything changed. An empty report is ignored.
    pub fn cache_peer_screens(
        &mut self,
        name: &str,
        monitors: &[Rect],
        os: Option<&str>,
    ) -> (r: bool)
        ensures
            ({
                let os_view = match os {
                    Some(o) => Some(o@),
                    None => None,
                };
                match peer_index(old(self)@.peers, name@, 0) {
                    Some(i) => {
                        let p = old(self)@.peers[i];
                        if monitors@.len() == 0 {
                            !r && final(self)@ == old(self)@
                        } else {
                            &&& final(self)@ == (ConfigView {
                                peers: old(self)@.peers.update(
                                    i,
                                    with_screens(p, monitors@, os_view),
                                ),
                                ..old(self)@
                            })
                            &&& r == (p.screens != monitors@ || (os_view is Some && p.os != os_view))
                        }
                    },
                    None => !r && final(self)@ == old(self)@,
                }
            }),
    {
        if monitors.len() == 0 {
            return false;
        }
        match find_peer_index(&self.peers, name) {
            None => false,
            Some(i) => {
                let ghost before = self.peers@[i as int]@;
                assert(old(self)@.peers[i as int] == before);
                let os_changed: bool = match os {
                    Some(o) => !is_text(&self.peers[i].os, o),
                    None => false,
                };
                let changed: bool = os_changed || !same_rects(
                    self.peers[i].screens.as_slice(),
                    monitors,
                );
                if changed {
                    self.peers[i].screens = copy_rects(monitors);
                    if let Some(o) = os {
                        self.peers[i].os = Some(o.to_owned());
                    }
                }
                proof {
                    let after = self.peers@[i as int]@;
                    let os_view = match os {
                        Some(o) => Some(o@),
                        None => None,
                    };
                    assert(after =~= with_screens(before, monitors@, os_view));
                    assert(self@.peers =~= old(self)@.peers.update(i as int, after));
                }
                changed
            },
        }
    }

    /// Remembers which machine the shared panel shows. Returns whether that is a
    /// change.
    pub fn set_last_owner(&mut self, owner: &str) -> (r: bool)
        ensures
            r == (old(self)@.shared_monitor.last_owner != Some(owner@)),
            final(self)@ == (ConfigView {
                shared_monitor: (SharedMonitorView {
                    last_owner: Some(owner@),
                    ..old(self)@.shared_monitor
                }),
                ..old(self)@
            }),
    {
        if is_text(&self.shared_monitor.last_owner, owner) {
            return false;
        }
        self.shared_monitor.last_owner = Some(owner.to_owned());
        true
    }

    /// Remembers where this desk's monitors belong. Returns whether that is a
    /// change.
    pub fn set_arrangement(&mut self, monitors: &[Rect]) -> (r: bool)
        ensures
            r == (old(self)@.arrangement != monitors@),
            final(self)@ == (ConfigView { arrangement: monitors@, ..old(self)@ }),
    {
        if same_rects(self.arrangement.as_slice(), monitors) {
            return false;
        }
        self.arrangement = copy_rects(monitors);
        true
    }

    /// Remembers where the shared panel is on both desks.
    pub fn set_shared_rects(&mut self, local: Option<Rect>, peer: Option<Rect>)
        ensures
            final(self)@ == (ConfigView {
                shared_monitor: (SharedMonitorView {
                    local_rect: local,
                    peer_rect: peer,
                    ..old(self)@.shared_monitor
                }),
                ..old(self)@
            }),
    {
        self.shared_monitor.local_rect = local;
        self.shared_monitor.peer_rect = peer;
    }
}

/// The links that lead from `me` through each of `edges` to `peer`.
pub open spec fn links_to(me: Seq<char>, edges: Seq<Edge>, peer: Seq<char>) -> Seq<
    crate::layout::LinkView,
> {
    edges.map_values(|e: Edge| crate::layout::LinkView { from: me, edge: e, to: peer })
}

/// A desk that has no links of its own adopts the edges that its peer says lead to
/// it. Returns whether it did.
pub fn bootstrap_links(layout: &mut Layout, me: &str, peer: &str, edges: &[Edge]) -> (r: bool)
    ensures
        r == (edges@.len() > 0 && crate::layout::portals_of(old(layout)@, me@).len() == 0),
        final(layout)@ == if r {
            old(layout)@ + links_to(me@, edges@, peer@)
        } else {
            old(layout)@
        },
{
    if edges.len() == 0 || layout.portals(me).len() > 0 {
        return false;
    }
    let ghost start = layout@;
    let ghost add = links_to(me@, edges@, peer@);
    for i in 0..edges.len()
        invariant
            start == old(layout)@,
            add == links_to(me@, edges@, peer@),
            layout@ =~= start + add.take(i as int),
    {
        let l: Link = Link { from: me.to_owned(), edge: edges[i], to: peer.to_owned() };
        let ghost before = layout@;
        layout.links.push(l);
        assert(layout@ =~= before.push(l@));
        assert(l@ == add[i as int]);
    }
    assert(add.take(add.len() as int) =~= add);
    true
}

/// A key that was stored is the key that is read back.
pub proof fn law_stored_key_reads_back(p: PeerView, key: Seq<u8>)
    requires
        key.len() == 32,
        stands_for(p.psk, key),
    ensures
        key_in(p) matches Ok(b) && b == key,
{
}

/// After a session over `addr`, `addr` is tried: it is the primary, or one of the
/// fallbacks; and there are never more than four fallbacks if there were not before.
pub proof fn law_good_addr_is_remembered(p: PeerView, addr: Seq<char>)
    ensures
        ({
            let q = with_good_addr(p, addr);
            &&& q.last_good == Some(addr)
            &&& q.addr == p.addr
            &&& q.addr == Some(addr) || q.addrs.contains(addr)
            &&& p.addrs.len() <= 4 ==> q.addrs.len() <= 4
        }),
{
    let q = with_good_addr(p, addr);
    let grown = p.addrs.push(addr);
    if !(p.addr == Some(addr) || p.addrs.contains(addr)) {
        if grown.len() > 4 {
            assert(q.addrs[q.addrs.len() - 1] == addr);
        } else {
            assert(q.addrs[q.addrs.len() - 1] == addr);
        }
    }
}

/// After a peer asked to be reached at `addr`, the old primary is still among the
/// addresses to try, and `addr` is not listed twice.
pub proof fn law_old_primary_stays_a_fallback(p: PeerView, addr: Seq<char>)
    ensures
        ({
            let q = with_primary_addr(p, addr);
            &&& q.addr == Some(addr)
            &&& !q.addrs.contains(addr)
            &&& p.addr matches Some(prior) ==> prior == addr || q.addrs.contains(prior)
        }),
{
    let q = with_primary_addr(p, addr);
    let keep = |a: Seq<char>| a != addr;
    let kept = match p.addr {
        Some(prior) => if prior != addr && !p.addrs.contains(prior) {
            p.addrs.push(prior)
        } else {
            p.addrs
        },
        None => p.addrs,
    };
    if q.addrs.contains(addr) {
        let i = choose|i: int| 0 <= i < q.addrs.len() && q.addrs[i] == addr;
        kept.lemma_filter_pred(keep, i);
    }
    match p.addr {
        Some(prior) => {
            if prior != addr {
                let i = if p.addrs.contains(prior) {
                    choose|i: int| 0 <= i < p.addrs.len() && p.addrs[i] == prior
                } else {
                    p.addrs.len() as int
                };
                assert(kept[i] == prior);
                kept.lemma_filter_contains(keep, i);
            }
        },
        None => {},
    }
}

} // verus!
