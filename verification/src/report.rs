//! What the command line prints.
use vstd::prelude::*;

use crate::config::{self, Config, Mode, RemoteApi};
use crate::engine::panel::{self, to_coord};
use crate::json::{self, get, get_bool, get_str};
use crate::layout::{self, halve, Edge};
use crate::platform::display::{self, rect_text, signed, Listed};
use crate::proto::Rect;
use crate::text::{self, decimal, joined};
use crate::ui::api;
use crate::ui::http::{url, UI_PORT};

verus! {

/// The port of the service on all interfaces.
pub open spec fn remote_port() -> Seq<char> {
    text::decimal_of((UI_PORT + 1) as nat)
}

/// The port of the service on all interfaces.
fn write_remote_port() -> (r: String)
    ensures
        r@ == remote_port(),
{
    decimal(UI_PORT as u64 + 1)
}

/// Appends a line.
fn add_line(v: &mut Vec<String>, line: String)
    ensures
        text::texts(final(v)@) == text::texts(old(v)@).push(line@),
{
    proof {
        text::lemma_texts_push(v@, line);
    }
    v.push(line);
}

/// No lines.
fn no_lines() -> (r: Vec<String>)
    ensures
        text::texts(r@) == Seq::<Seq<char>>::empty(),
{
    let v: Vec<String> = Vec::new();
    assert(text::texts(v@) =~= Seq::<Seq<char>>::empty());
    v
}

// -------------------------------------------------------------- displays ----

/// The lines of some displays.
pub open spec fn display_lines(list: Seq<(int, Seq<char>)>) -> Seq<char>
    decreases list.len(),
{
    if list.len() == 0 {
        seq![]
    } else {
        display_lines(list.drop_last()) + ("  ["@ + text::decimal_of(list.last().0 as nat) + "] "@
            + list.last().1 + "\n"@)
    }
}

/// The list of this machine's displays.
pub fn display_report(list: &Vec<Listed>, macos: bool) -> (r: String)
    ensures
        r@ == if list@.len() > 0 {
            "displays:\n"@ + display_lines(display::listed_view(list@))
        } else if macos {
            "No displays found.\n"@ + "(Install the helper: brew install m1ddc)\n"@
        } else {
            "No displays found.\n"@
        },
{
    if list.len() == 0 {
        return if macos {
            joined("No displays found.\n", "(Install the helper: brew install m1ddc)\n")
        } else {
            "No displays found.\n".to_owned()
        };
    }
    let ghost all = display::listed_view(list@);
    let mut out: String = "displays:\n".to_owned();
    proof {
        assert(all.take(0) =~= seq![]);
        assert(out@ =~= "displays:\n"@ + display_lines(all.take(0)));
    }
    for i in 0..list.len()
        invariant
            all == display::listed_view(list@),
            out@ == "displays:\n"@ + display_lines(all.take(i as int)),
    {
        let a: String = joined(
            joined("  [", decimal(list[i].index as u64).as_str()).as_str(),
            "] ",
        );
        let line: String = joined(joined(a.as_str(), list[i].name.as_str()).as_str(), "\n");
        let ghost before = out@;
        out = joined(out.as_str(), line.as_str());
        proof {
            let t = all.take(i + 1);
            assert(t.drop_last() =~= all.take(i as int));
            assert(t.last() == all[i as int]);
            assert(all[i as int] == (list@[i as int].index as int, list@[i as int].name@));
            assert(out@ =~= "displays:\n"@ + display_lines(t));
        }
    }
    assert(all.take(all.len() as int) =~= all);
    out
}

/// What came of switching a display on or off.
pub fn display_outcome(what: &str, index: u32, error: &Option<String>) -> (r: String)
    ensures
        r@ == what@ + " "@ + text::decimal_of(index as nat) + match *error {
            None => ": ok\n"@,
            Some(e) => ": ERROR "@ + e@ + "\n"@,
        },
{
    let head: String = joined(joined(what, " ").as_str(), decimal(index as u64).as_str());
    match error {
        None => joined(head.as_str(), ": ok\n"),
        Some(e) => {
            let tail: String = joined(joined(": ERROR ", e.as_str()).as_str(), "\n");
            joined(head.as_str(), tail.as_str())
        },
    }
}

// --------------------------------------------------------------- monitor ----

/// What a running machine says of the shared panel.
#[derive(Debug)]
pub struct PanelStatus {
    pub configured: bool,
    /// Whom it shows.
    pub owner: Option<String>,
    pub peer: Option<String>,
    pub error: Option<String>,
}

/// What a running machine says of the shared panel, as values.
#[verifier::ext_equal]
pub ghost struct PanelStatusView {
    pub configured: bool,
    pub owner: Option<Seq<char>>,
    pub peer: Option<Seq<char>>,
    pub error: Option<Seq<char>>,
}

impl View for PanelStatus {
    type V = PanelStatusView;

    open spec fn view(&self) -> PanelStatusView {
        PanelStatusView {
            configured: self.configured,
            owner: text::opt_text(self.owner),
            peer: text::opt_text(self.peer),
            error: text::opt_text(self.error),
        }
    }
}

/// What a status says of the shared panel; nothing is taken for a panel that is not
/// configured.
pub open spec fn panel_in(v: json::JsonView) -> PanelStatusView {
    match json::member(v, "shared"@) {
        Some(sh) => PanelStatusView {
            configured: json::bool_member(sh, "configured"@) == Some(true),
            owner: json::str_member(sh, "owner"@),
            peer: json::str_member(sh, "peer"@),
            error: json::str_member(sh, "error"@),
        },
        None => PanelStatusView { configured: false, owner: None, peer: None, error: None },
    }
}

/// What a status says of the shared panel.
pub fn panel_of(v: &serde_json::Value) -> (r: PanelStatus)
    ensures
        r@ == panel_in(json::json_of(v)),
{
    match get(v, "shared") {
        Some(sh) => PanelStatus {
            configured: match get_bool(sh, "configured") {
                Some(c) => c,
                None => false,
            },
            owner: get_str(sh, "owner"),
            peer: get_str(sh, "peer"),
            error: get_str(sh, "error"),
        },
        None => PanelStatus { configured: false, owner: None, peer: None, error: None },
    }
}

/// Who owns the shared panel, in words.
pub open spec fn monitor_lines(s: PanelStatusView) -> Seq<Seq<char>> {
    if !s.configured {
        seq![
            "shared monitor: not configured"@,
            "  set it up in the editor ("@ + ("http://127.0.0.1:"@ + text::decimal_of(
                UI_PORT as nat,
            )) + ") or add [shared_monitor] to config.toml"@,
        ]
    } else {
        let first = seq![
            "shared monitor: showing "@ + match s.owner {
                Some(o) => o,
                None => "?"@,
            },
        ];
        let second = match s.peer {
            Some(p) => first.push("  shared with  : "@ + p),
            None => first,
        };
        match s.error {
            Some(e) => second.push("  last error   : "@ + e),
            None => second,
        }
    }
}

/// Who owns the shared panel, in words.
pub fn monitor_text(s: &PanelStatus) -> (r: Vec<String>)
    ensures
        text::texts(r@) == monitor_lines(s@),
{
    let mut out: Vec<String> = no_lines();
    if s.configured {
        let owner: &str = match &s.owner {
            Some(o) => o.as_str(),
            None => "?",
        };
        add_line(&mut out, joined("shared monitor: showing ", owner));
        if let Some(p) = &s.peer {
            add_line(&mut out, joined("  shared with  : ", p.as_str()));
        }
        if let Some(e) = &s.error {
            add_line(&mut out, joined("  last error   : ", e.as_str()));
        }
    } else {
        add_line(&mut out, "shared monitor: not configured".to_owned());
        add_line(
            &mut out,
            joined(
                joined("  set it up in the editor (", url().as_str()).as_str(),
                ") or add [shared_monitor] to config.toml",
            ),
        );
    }
    assert(text::texts(out@) =~= monitor_lines(s@));
    out
}

/// Who owns the shared panel, by the status of the running machine.
pub fn monitor_report(status: &[u8]) -> (r: Result<Vec<String>, String>)
    ensures
        match json::json_read(status@) {
            Ok(v) => r matches Ok(t) && text::texts(t@) == monitor_lines(panel_in(v)),
            Err(e) => r matches Err(t) && t@ == e,
        },
{
    match json::read(status) {
        Ok(v) => Ok(monitor_text(&panel_of(&v))),
        Err(e) => Err(e),
    }
}

/// What the running machine answered when the panel was handed to `target`.
pub fn monitor_answer(status: u16, payload: &str, target: &str) -> (r: Result<String, String>)
    ensures
        if status == 200 {
            r matches Ok(t) && t@ == "shared monitor -> "@ + target@
        } else {
            r matches Err(e) && e@ == "kayiver said: "@ + payload@
        },
{
    if status == 200 {
        Ok(joined("shared monitor -> ", target))
    } else {
        Err(joined("kayiver said: ", payload))
    }
}

// ---------------------------------------------------------------- remote ----

/// What is done about the service on all interfaces.
#[derive(Clone, Copy, Debug, PartialEq, Eq, Structural)]
pub enum RemoteAction {
    Enable,
    Disable,
    Status,
}

/// The action that a word names; any other word asks for the status.
pub fn remote_action(word: &str) -> (r: RemoteAction)
    ensures
        r == (if word@ == "enable"@ {
            RemoteAction::Enable
        } else if word@ == "disable"@ {
            RemoteAction::Disable
        } else {
            RemoteAction::Status
        }),
{
    if text::same_text(word, "enable") {
        RemoteAction::Enable
    } else if text::same_text(word, "disable") {
        RemoteAction::Disable
    } else {
        RemoteAction::Status
    }
}

/// What is printed of an action, given the configuration after it.
pub open spec fn remote_lines(c: config::ConfigView, action: RemoteAction) -> Seq<Seq<char>> {
    match action {
        RemoteAction::Enable => seq![
            "remote api: ENABLED (restart kayiver to apply)"@,
            "  port : "@ + remote_port() + " (all interfaces)"@,
            "  token: "@ + match c.remote_token {
                Some(t) => t,
                None => ""@,
            },
            "  companion app settings: host = this machine's LAN IP, port + token above"@,
        ],
        RemoteAction::Disable => seq!["remote api: disabled (restart kayiver to apply)"@],
        RemoteAction::Status => {
            let first = seq![
                if c.remote_enabled {
                    "remote api: enabled"@
                } else {
                    "remote api: disabled"@
                },
            ];
            match c.remote_token {
                Some(t) => first + seq!["  port : "@ + remote_port(), "  token: "@ + t],
                None => first,
            }
        },
    }
}

/// What is printed of an action.
fn write_remote(cfg: &Config, action: RemoteAction) -> (r: Vec<String>)
    ensures
        text::texts(r@) == remote_lines(cfg@, action),
{
    let mut out: Vec<String> = no_lines();
    match action {
        RemoteAction::Enable => {
            add_line(&mut out, "remote api: ENABLED (restart kayiver to apply)".to_owned());
            add_line(
                &mut out,
                joined(
                    joined("  port : ", write_remote_port().as_str()).as_str(),
                    " (all interfaces)",
                ),
            );
            let token: String = match &cfg.remote.token {
                Some(t) => t.clone(),
                None => "".to_owned(),
            };
            add_line(&mut out, joined("  token: ", token.as_str()));
            add_line(
                &mut out,
                "  companion app settings: host = this machine's LAN IP, port + token above".to_owned(),
            );
        },
        RemoteAction::Disable => {
            add_line(&mut out, "remote api: disabled (restart kayiver to apply)".to_owned());
        },
        RemoteAction::Status => {
            add_line(
                &mut out,
                if cfg.remote.enabled {
                    "remote api: enabled".to_owned()
                } else {
                    "remote api: disabled".to_owned()
                },
            );
            if let Some(t) = &cfg.remote.token {
                add_line(&mut out, joined("  port : ", write_remote_port().as_str()));
                add_line(&mut out, joined("  token: ", t.as_str()));
            }
        },
    }
    assert(text::texts(out@) =~= remote_lines(cfg@, action));
    out
}

/// The configuration after an action on the service on all interfaces.
pub open spec fn remote_after(
    c: config::ConfigView,
    action: RemoteAction,
    fresh: Seq<char>,
) -> config::ConfigView {
    match action {
        RemoteAction::Enable => api::with_remote(c, true, fresh),
        RemoteAction::Disable => api::with_remote(c, false, fresh),
        RemoteAction::Status => c,
    }
}

/// Switches the service on all interfaces on or off, or tells its state.
pub fn remote_cmd(cfg: &mut Config, action: RemoteAction) -> (r: Vec<String>)
    ensures
        exists|fresh: Seq<char>|
            api::is_token(fresh) && final(cfg)@ == #[trigger] remote_after(
                old(cfg)@,
                action,
                fresh,
            ),
        text::texts(r@) == remote_lines(final(cfg)@, action),
{
    let fresh: String = RemoteApi::generate_token();
    let ghost token = fresh@;
    match action {
        RemoteAction::Enable => {
            api::set_remote(cfg, true, fresh);
        },
        RemoteAction::Disable => {
            api::set_remote(cfg, false, fresh);
        },
        RemoteAction::Status => {},
    }
    assert(api::is_token(token) && cfg@ == remote_after(old(cfg)@, action, token));
    write_remote(cfg, action)
}

/// Who may use the service from other machines.
#[derive(Debug)]
pub enum RemoteListener {
    /// No one.
    Off,
    /// Whoever presents this token.
    Token(String),
    /// No one: it is on, but there is no token.
    NoToken,
}

/// Who may use the service from other machines: it never listens without a token.
pub fn remote_listener(cfg: &Config) -> (r: RemoteListener)
    ensures
        if !cfg@.remote_enabled {
            r is Off
        } else if api::lacks_token(cfg@) {
            r is NoToken
        } else {
            r matches RemoteListener::Token(t) && Some(t@) == cfg@.remote_token && t@.len() > 0
        },
{
    if !cfg.remote.enabled {
        return RemoteListener::Off;
    }
    match &cfg.remote.token {
        Some(t) => if text::chars_of(t.as_str()).len() == 0 {
            RemoteListener::NoToken
        } else {
            RemoteListener::Token(t.clone())
        },
        None => RemoteListener::NoToken,
    }
}

// ---------------------------------------------------------------- doctor ----

/// The name of a mode.
pub open spec fn mode_name_of(m: Mode) -> Seq<char> {
    match m {
        Mode::Host => "Host"@,
        Mode::Client => "Client"@,
    }
}

/// The name of a mode.
fn mode_name(m: Mode) -> (r: String)
    ensures
        r@ == mode_name_of(m),
{
    match m {
        Mode::Host => "Host".to_owned(),
        Mode::Client => "Client".to_owned(),
    }
}

/// The size and the place of a desktop.
pub open spec fn desktop_line(b: Rect) -> Seq<char> {
    "  desktop     : "@ + display::signed_of(b.w as int) + "x"@ + display::signed_of(b.h as int)
        + " at ("@ + display::signed_of(b.x as int) + ", "@ + display::signed_of(b.y as int) + ")"@
}

/// The size and the place of a desktop.
fn write_desktop(b: Rect) -> (r: String)
    ensures
        r@ == desktop_line(b),
{
    let a: String = joined(joined("  desktop     : ", signed(b.w).as_str()).as_str(), "x");
    let c: String = joined(joined(a.as_str(), signed(b.h).as_str()).as_str(), " at (");
    let d: String = joined(joined(c.as_str(), signed(b.x).as_str()).as_str(), ", ");
    joined(joined(d.as_str(), signed(b.y).as_str()).as_str(), ")")
}

/// What is said of a peer.
pub open spec fn peer_line(p: config::PeerView) -> Seq<char> {
    "  peer        : "@ + p.name + " (addr: "@ + match p.addr {
        Some(a) => a,
        None => "mDNS discovery"@,
    } + ")"@
}

/// What is said of the peers.
pub open spec fn peer_lines(peers: Seq<config::PeerView>) -> Seq<Seq<char>> {
    if peers.len() == 0 {
        seq!["  peers       : none (run `kayiver pair` / `kayiver join`)"@]
    } else {
        peers.map_values(|p: config::PeerView| peer_line(p))
    }
}

/// What is said of an edge that leads somewhere.
pub open spec fn portal_line(links: Seq<layout::LinkView>, name: Seq<char>, e: Edge) -> Seq<char> {
    "  portal      : "@ + e.name() + " edge -> "@ + match layout::target_of(links, name, e) {
        Some(t) => t.0,
        None => ""@,
    }
}

/// What is said of the edges that lead somewhere.
pub open spec fn portal_lines(links: Seq<layout::LinkView>, name: Seq<char>) -> Seq<Seq<char>> {
    layout::portals_of(links, name).map_values(|e: Edge| portal_line(links, name, e))
}

/// What is said of this machine's addresses, where they are known.
pub open spec fn addr_lines(ips: Option<Seq<Seq<char>>>) -> Seq<Seq<char>> {
    match ips {
        None => seq![],
        Some(v) => seq![
            "  local ip    : "@ + if v.len() == 0 {
                "none"@
            } else {
                comma_list(v)
            },
        ],
    }
}

/// Some texts with a comma between them.
pub open spec fn comma_list(v: Seq<Seq<char>>) -> Seq<char>
    decreases v.len(),
{
    if v.len() == 0 {
        seq![]
    } else if v.len() == 1 {
        v[0]
    } else {
        comma_list(v.drop_last()) + ", "@ + v.last()
    }
}

/// Some texts with a comma between them.
fn write_list(v: &Vec<String>) -> (r: String)
    requires
        v@.len() > 0,
    ensures
        r@ == comma_list(text::texts(v@)),
{
    let ghost all = text::texts(v@);
    let mut out: String = v[0].clone();
    proof {
        assert(all[0] == v@[0]@);
        assert(all.take(1).len() == 1);
    }
    let mut i: usize = 1;
    while i < v.len()
        invariant
            1 <= i <= v@.len(),
            all == text::texts(v@),
            out@ == comma_list(all.take(i as int)),
        decreases v@.len() - i,
    {
        proof {
            let t = all.take(i + 1);
            assert(t.drop_last() =~= all.take(i as int));
            assert(t.last() == v@[i as int]@);
        }
        out = joined(joined(out.as_str(), ", ").as_str(), v[i].as_str());
        i = i + 1;
    }
    assert(all.take(all.len() as int) =~= all);
    out
}

/// What a check-up prints.
pub open spec fn doctor_lines(
    c: config::ConfigView,
    path: Seq<char>,
    bounds: Rect,
    ips: Option<Seq<Seq<char>>>,
) -> Seq<Seq<char>> {
    seq![
        "kayiver doctor"@,
        "  config file : "@ + path,
        "  machine name: "@ + c.name,
        "  mode        : "@ + mode_name_of(c.mode),
        "  port        : "@ + text::decimal_of(c.port as nat),
        desktop_line(bounds),
    ] + addr_lines(ips) + peer_lines(c.peers) + portal_lines(c.links, c.name)
}

/// What is said of the peers.
fn write_peers(cfg: &Config, out: &mut Vec<String>)
    ensures
        text::texts(final(out)@) == text::texts(old(out)@) + peer_lines(cfg@.peers),
{
    let ghost before = text::texts(out@);
    let ghost want = peer_lines(cfg@.peers);
    if cfg.peers.len() == 0 {
        assert(cfg@.peers.len() == 0);
        add_line(out, "  peers       : none (run `kayiver pair` / `kayiver join`)".to_owned());
        assert(text::texts(out@) =~= before + want);
        return ;
    }
    assert(cfg@.peers.len() == cfg.peers@.len());
    assert(before =~= before + want.take(0));
    for i in 0..cfg.peers.len()
        invariant
            cfg@.peers.len() == cfg.peers@.len(),
            cfg.peers@.len() > 0,
            want == peer_lines(cfg@.peers),
            text::texts(out@) == before + want.take(i as int),
    {
        assert(cfg@.peers[i as int] == cfg.peers@[i as int]@);
        let addr: String = match &cfg.peers[i].addr {
            Some(a) => a.clone(),
            None => "mDNS discovery".to_owned(),
        };
        let a: String = joined(
            joined("  peer        : ", cfg.peers[i].name.as_str()).as_str(),
            " (addr: ",
        );
        let line: String = joined(joined(a.as_str(), addr.as_str()).as_str(), ")");
        assert(line@ == want[i as int]);
        add_line(out, line);
        assert((before + want.take(i as int)).push(want[i as int]) =~= before + want.take(i + 1));
    }
    assert(want.take(want.len() as int) =~= want);
}

/// What is said of the edges that lead somewhere.
fn write_portals(cfg: &Config, out: &mut Vec<String>)
    ensures
        text::texts(final(out)@) == text::texts(old(out)@) + portal_lines(cfg@.links, cfg@.name),
{
    let ghost before = text::texts(out@);
    let ghost want = portal_lines(cfg@.links, cfg@.name);
    let edges: Vec<Edge> = cfg.layout.portals(cfg.name.as_str());
    assert(before =~= before + want.take(0));
    for i in 0..edges.len()
        invariant
            edges@ == layout::portals_of(cfg@.links, cfg@.name),
            want == portal_lines(cfg@.links, cfg@.name),
            want.len() == edges@.len(),
            text::texts(out@) == before + want.take(i as int),
    {
        let e: Edge = edges[i];
        let to: String = match cfg.layout.target(cfg.name.as_str(), e) {
            Some((t, _)) => t.to_owned(),
            None => "".to_owned(),
        };
        let a: String = joined(
            joined("  portal      : ", e.to_text().as_str()).as_str(),
            " edge -> ",
        );
        let line: String = joined(a.as_str(), to.as_str());
        assert(line@ == want[i as int]);
        add_line(out, line);
        assert((before + want.take(i as int)).push(want[i as int]) =~= before + want.take(i + 1));
    }
    assert(want.take(want.len() as int) =~= want);
}

/// What optional lists of texts say.
pub open spec fn opt_texts(v: Option<Vec<String>>) -> Option<Seq<Seq<char>>> {
    match v {
        Some(t) => Some(text::texts(t@)),
        None => None,
    }
}

/// What a check-up prints; `ips` are this machine's addresses, where they are known.
pub fn doctor(cfg: &Config, path: &str, bounds: Rect, ips: &Option<Vec<String>>) -> (r: Vec<
    String,
>)
    ensures
        text::texts(r@) == doctor_lines(cfg@, path@, bounds, opt_texts(*ips)),
{
    let mut out: Vec<String> = no_lines();
    add_line(&mut out, "kayiver doctor".to_owned());
    add_line(&mut out, joined("  config file : ", path));
    add_line(&mut out, joined("  machine name: ", cfg.name.as_str()));
    add_line(&mut out, joined("  mode        : ", mode_name(cfg.mode).as_str()));
    add_line(&mut out, joined("  port        : ", decimal(cfg.port as u64).as_str()));
    add_line(&mut out, write_desktop(bounds));
    if let Some(v) = ips {
        assert(text::texts(v@).len() == v@.len());
        let list: String = if v.len() == 0 {
            "none".to_owned()
        } else {
            write_list(v)
        };
        add_line(&mut out, joined("  local ip    : ", list.as_str()));
    }
    let ghost head = text::texts(out@);
    write_peers(cfg, &mut out);
    write_portals(cfg, &mut out);
    assert(text::texts(out@) =~= doctor_lines(cfg@, path@, bounds, opt_texts(*ips)));
    out
}

// --------------------------------------------------------------- startup ----

/// What is told before a machine starts without a peer; a client then has nothing to
/// do, while a host runs anyway, which is useful to verify its permissions.
#[derive(Debug)]
pub struct Startup {
    pub notice: Vec<String>,
    /// The machine does not start.
    pub exit: bool,
}

/// What a machine does as it starts.
pub fn startup(cfg: &Config) -> (r: Startup)
    ensures
        r.exit == (cfg@.peers.len() == 0 && cfg@.mode == Mode::Client),
        text::texts(r.notice@) == if cfg@.peers.len() > 0 {
            Seq::<Seq<char>>::empty()
        } else {
            let three = seq![
                "No paired devices yet."@,
                "  On the machine with the keyboard/mouse:  kayiver pair"@,
                "  On the other machine:                    kayiver join <that-machine-ip>"@,
            ];
            if r.exit {
                three
            } else {
                three.push(
                    "Running as host anyway — input stays local until a device pairs."@,
                )
            }
        },
{
    assert(cfg@.peers.len() == cfg.peers@.len());
    let mut notice: Vec<String> = no_lines();
    if cfg.peers.len() > 0 {
        return Startup { notice, exit: false };
    }
    add_line(&mut notice, "No paired devices yet.".to_owned());
    add_line(
        &mut notice,
        "  On the machine with the keyboard/mouse:  kayiver pair".to_owned(),
    );
    add_line(
        &mut notice,
        "  On the other machine:                    kayiver join <that-machine-ip>".to_owned(),
    );
    let exit: bool = cfg.mode == Mode::Client;
    if !exit {
        add_line(
            &mut notice,
            "Running as host anyway — input stays local until a device pairs.".to_owned(),
        );
    }
    proof {
        let three = seq![
            "No paired devices yet."@,
            "  On the machine with the keyboard/mouse:  kayiver pair"@,
            "  On the other machine:                    kayiver join <that-machine-ip>"@,
        ];
        if exit {
            assert(text::texts(notice@) =~= three);
        } else {
            assert(text::texts(notice@) =~= three.push(
                "Running as host anyway — input stays local until a device pairs."@,
            ));
        }
    }
    Startup { notice, exit }
}

// ------------------------------------------------------------- injection ----

/// Where a test of the injection moves the cursor: the middle of the primary monitor,
/// which is always a visible point.
pub fn inject_target(monitors: &Vec<Rect>, bounds: Rect) -> (r: (i32, i32))
    ensures
        ({
            let m = if monitors@.len() > 0 {
                monitors@[0]
            } else {
                bounds
            };
            r == (
                panel::coord(m.x + layout::half(m.w as int)) as i32,
                panel::coord(m.y + layout::half(m.h as int)) as i32,
            )
        }),
{
    let m: Rect = if monitors.len() > 0 {
        monitors[0]
    } else {
        bounds
    };
    (to_coord(m.x as i64 + halve(m.w)), to_coord(m.y as i64 + halve(m.h)))
}

/// A point, as it stands in messages.
pub open spec fn point_text(p: (i32, i32)) -> Seq<char> {
    "("@ + display::signed_of(p.0 as int) + ", "@ + display::signed_of(p.1 as int) + ")"@
}

/// A point, as it stands in messages.
fn write_point(p: (i32, i32)) -> (r: String)
    ensures
        r@ == point_text(p),
{
    let a: String = joined(joined("(", signed(p.0).as_str()).as_str(), ", ");
    joined(joined(a.as_str(), signed(p.1).as_str()).as_str(), ")")
}

/// What a test of the injection found.
pub fn inject_report(bounds: Rect, target: (i32, i32), before: (i32, i32), after: (i32, i32)) -> (r:
    String)
    ensures
        r@ == "inject-test: bounds="@ + display::rect_text_of(bounds) + " target="@ + point_text(
            target,
        ) + " before="@ + point_text(before) + " after="@ + point_text(after)
            + "\ncursor moved: "@ + if after != before {
            "true\n"@
        } else {
            "false\n"@
        },
{
    let a: String = joined(
        joined("inject-test: bounds=", rect_text(bounds).as_str()).as_str(),
        " target=",
    );
    let b: String = joined(joined(a.as_str(), write_point(target).as_str()).as_str(), " before=");
    let c: String = joined(joined(b.as_str(), write_point(before).as_str()).as_str(), " after=");
    let d: String = joined(
        joined(c.as_str(), write_point(after).as_str()).as_str(),
        "\ncursor moved: ",
    );
    if after.0 != before.0 || after.1 != before.1 {
        joined(d.as_str(), "true\n")
    } else {
        joined(d.as_str(), "false\n")
    }
}

} // verus!
