//! What the editor asks a machine to do.
use vstd::prelude::*;

use crate::config::{self, Config, Mode, RemoteApi};
use crate::engine::model::UiCmd;
use crate::json::{self, get_bool, get_str, get_u64};
use crate::layout::{self, Link};
use crate::proto::Rect;
use crate::text::{self, joined, same_text, trim};
use crate::ui::http::UI_PORT;
use crate::ui::state::{self, to_platform_index};

verus! {

/// The longest dwell, in milliseconds.
pub const DWELL_MAX: u64 = 10_000;

/// A text member of a body, or what is wrong.
pub open spec fn text_field(body: Seq<u8>, key: Seq<char>, missing: Seq<char>) -> Result<
    Seq<char>,
    Seq<char>,
> {
    match json::json_read(body) {
        Err(_) => Err("invalid JSON"@),
        Ok(v) => match json::str_member(v, key) {
            Some(s) => Ok(s),
            None => Err(missing),
        },
    }
}

/// A text, or what is wrong.
pub open spec fn text_result(r: Result<String, String>) -> Result<Seq<char>, Seq<char>> {
    match r {
        Ok(s) => Ok(s@),
        Err(e) => Err(e@),
    }
}

/// A text member of a body, or what is wrong.
fn read_text(body: &[u8], key: &str, missing: &str) -> (r: Result<String, String>)
    ensures
        text_result(r) == text_field(body@, key@, missing@),
{
    match json::read(body) {
        Err(_) => Err("invalid JSON".to_owned()),
        Ok(v) => match get_str(&v, key) {
            Some(s) => Ok(s),
            None => Err(missing.to_owned()),
        },
    }
}

// -------------------------------------------------------------- settings ----

/// Settings to change; what is not there stays.
#[derive(Debug)]
pub struct SettingsPatch {
    pub hotkey: Option<bool>,
    pub remote_enabled: Option<bool>,
    pub edge_dwell_ms: Option<u64>,
    pub mac_shortcuts: Option<bool>,
    pub win_mod_cmd: Option<String>,
    pub win_mod_opt: Option<String>,
    pub win_mod_ctrl: Option<String>,
    /// Applied by the OS, not kept in the configuration.
    pub autostart: Option<bool>,
}

/// Settings to change, as values.
#[verifier::ext_equal]
pub ghost struct PatchView {
    pub hotkey: Option<bool>,
    pub remote_enabled: Option<bool>,
    pub edge_dwell_ms: Option<u64>,
    pub mac_shortcuts: Option<bool>,
    pub win_mod_cmd: Option<Seq<char>>,
    pub win_mod_opt: Option<Seq<char>>,
    pub win_mod_ctrl: Option<Seq<char>>,
    pub autostart: Option<bool>,
}

impl View for SettingsPatch {
    type V = PatchView;

    open spec fn view(&self) -> PatchView {
        PatchView {
            hotkey: self.hotkey,
            remote_enabled: self.remote_enabled,
            edge_dwell_ms: self.edge_dwell_ms,
            mac_shortcuts: self.mac_shortcuts,
            win_mod_cmd: text::opt_text(self.win_mod_cmd),
            win_mod_opt: text::opt_text(self.win_mod_opt),
            win_mod_ctrl: text::opt_text(self.win_mod_ctrl),
            autostart: self.autostart,
        }
    }
}

/// The settings that a JSON value wants changed.
pub open spec fn patch_in(v: json::JsonView) -> PatchView {
    PatchView {
        hotkey: json::bool_member(v, "hotkey"@),
        remote_enabled: json::bool_member(v, "remote_enabled"@),
        edge_dwell_ms: json::u64_member(v, "edge_dwell_ms"@),
        mac_shortcuts: json::bool_member(v, "mac_shortcuts"@),
        win_mod_cmd: json::str_member(v, "win_mod_cmd"@),
        win_mod_opt: json::str_member(v, "win_mod_opt"@),
        win_mod_ctrl: json::str_member(v, "win_mod_ctrl"@),
        autostart: json::bool_member(v, "autostart"@),
    }
}

/// The settings that a JSON value wants changed.
pub fn patch_of(v: &serde_json::Value) -> (r: SettingsPatch)
    ensures
        r@ == patch_in(json::json_of(v)),
{
    SettingsPatch {
        hotkey: get_bool(v, "hotkey"),
        remote_enabled: get_bool(v, "remote_enabled"),
        edge_dwell_ms: get_u64(v, "edge_dwell_ms"),
        mac_shortcuts: get_bool(v, "mac_shortcuts"),
        win_mod_cmd: get_str(v, "win_mod_cmd"),
        win_mod_opt: get_str(v, "win_mod_opt"),
        win_mod_ctrl: get_str(v, "win_mod_ctrl"),
        autostart: get_bool(v, "autostart"),
    }
}

/// The settings that a body wants changed.
pub fn read_settings(body: &[u8]) -> (r: Result<SettingsPatch, String>)
    ensures
        match json::json_read(body@) {
            Ok(v) => r matches Ok(p) && p@ == patch_in(v),
            Err(_) => r matches Err(e) && e@ == "invalid JSON"@,
        },
{
    match json::read(body) {
        Err(_) => Err("invalid JSON".to_owned()),
        Ok(v) => Ok(patch_of(&v)),
    }
}

/// A modifier that Windows has.
pub open spec fn is_win_mod(s: Seq<char>) -> bool {
    s == "ctrl"@ || s == "alt"@ || s == "win"@
}

/// A setting after a change to a modifier that Windows has; anything else changes
/// nothing.
pub open spec fn win_mod(now: Seq<char>, change: Option<Seq<char>>) -> Seq<char> {
    match change {
        Some(s) => if is_win_mod(s) {
            s
        } else {
            now
        },
        None => now,
    }
}

/// There is no token to present.
pub open spec fn lacks_token(c: config::ConfigView) -> bool {
    match c.remote_token {
        Some(t) => t.len() == 0,
        None => true,
    }
}

/// The configuration with remote control switched on or off: switching it on gives it a
/// token where it lacks one.
pub open spec fn with_remote(
    c: config::ConfigView,
    on: bool,
    fresh: Seq<char>,
) -> config::ConfigView {
    config::ConfigView {
        remote_enabled: on,
        remote_token: if on && lacks_token(c) {
            Some(fresh)
        } else {
            c.remote_token
        },
        ..c
    }
}

/// The configuration after some settings were changed.
pub open spec fn patched(
    c: config::ConfigView,
    p: PatchView,
    fresh: Seq<char>,
) -> config::ConfigView {
    let d = match p.remote_enabled {
        Some(on) => with_remote(c, on, fresh),
        None => c,
    };
    config::ConfigView {
        shared_monitor: config::SharedMonitorView {
            hotkey: match p.hotkey {
                Some(h) => h,
                None => c.shared_monitor.hotkey,
            },
            ..c.shared_monitor
        },
        edge_dwell_ms: match p.edge_dwell_ms {
            Some(ms) => if ms > DWELL_MAX {
                DWELL_MAX
            } else {
                ms
            },
            None => c.edge_dwell_ms,
        },
        mac_shortcuts: match p.mac_shortcuts {
            Some(b) => b,
            None => c.mac_shortcuts,
        },
        win_cmd: win_mod(c.win_cmd, p.win_mod_cmd),
        win_opt: win_mod(c.win_opt, p.win_mod_opt),
        win_ctrl: win_mod(c.win_ctrl, p.win_mod_ctrl),
        ..d
    }
}

/// Remote control is never on without a token to present, once it was switched on here.
pub proof fn law_remote_control_has_a_token(
    c: config::ConfigView,
    p: PatchView,
    fresh: Seq<char>,
)
    requires
        fresh.len() > 0,
        p.remote_enabled == Some(true),
    ensures
        patched(c, p, fresh).remote_enabled,
        !lacks_token(patched(c, p, fresh)),
{
}

/// Settings that are mentioned take the value that is given, as far as it is one they can
/// have: a dwell is held to ten seconds, a modifier is one that Windows has.
pub proof fn law_mentioned_settings_are_taken(
    c: config::ConfigView,
    p: PatchView,
    fresh: Seq<char>,
    word: Seq<char>,
)
    requires
        word == "ctrl"@ || word == "alt"@ || word == "win"@,
    ensures
        ({
            let d = patched(c, p, fresh);
            &&& p.hotkey matches Some(h) ==> d.shared_monitor.hotkey == h
            &&& p.remote_enabled matches Some(on) ==> d.remote_enabled == on
            &&& p.edge_dwell_ms matches Some(ms) ==> d.edge_dwell_ms <= 10_000 && d.edge_dwell_ms
                <= ms && (d.edge_dwell_ms == ms || d.edge_dwell_ms == 10_000)
            &&& p.mac_shortcuts matches Some(b) ==> d.mac_shortcuts == b
            &&& p.win_mod_cmd == Some(word) ==> d.win_cmd == word
            &&& p.win_mod_opt == Some(word) ==> d.win_opt == word
            &&& p.win_mod_ctrl == Some(word) ==> d.win_ctrl == word
            &&& p.remote_enabled == Some(false) ==> d.remote_token == c.remote_token
            &&& !lacks_token(c) ==> d.remote_token == c.remote_token
            &&& d.name == c.name && d.peers == c.peers && d.links == c.links
        }),
{
}

/// Settings that are not mentioned stay as they are.
pub proof fn law_unmentioned_settings_stay(c: config::ConfigView, p: PatchView, fresh: Seq<char>)
    requires
        p == (PatchView {
            hotkey: None,
            remote_enabled: None,
            edge_dwell_ms: None,
            mac_shortcuts: None,
            win_mod_cmd: None,
            win_mod_opt: None,
            win_mod_ctrl: None,
            autostart: p.autostart,
        }),
    ensures
        patched(c, p, fresh) == c,
{
}

/// Switches remote control on or off; `fresh` is the token for a machine that has none.
pub fn set_remote(cfg: &mut Config, on: bool, fresh: String)
    ensures
        final(cfg)@ == with_remote(old(cfg)@, on, fresh@),
{
    let lacks: bool = match &cfg.remote.token {
        Some(t) => text::chars_of(t.as_str()).len() == 0,
        None => true,
    };
    cfg.remote.enabled = on;
    if on && lacks {
        cfg.remote.token = Some(fresh);
    }
}

/// Is this a modifier that Windows has?
fn valid_mod(s: &str) -> (r: bool)
    ensures
        r == is_win_mod(s@),
{
    same_text(s, "ctrl") || same_text(s, "alt") || same_text(s, "win")
}

/// A modifier setting after a change.
fn changed_mod(now: &str, change: &Option<String>) -> (r: String)
    ensures
        r@ == win_mod(now@, text::opt_text(*change)),
{
    match change {
        Some(s) => if valid_mod(s.as_str()) {
            s.clone()
        } else {
            now.to_owned()
        },
        None => now.to_owned(),
    }
}

/// Changes some settings; `fresh` is the token for a machine that has none.
pub fn apply_settings(cfg: &mut Config, p: &SettingsPatch, fresh: String)
    ensures
        final(cfg)@ == patched(old(cfg)@, p@, fresh@),
{
    if let Some(h) = p.hotkey {
        cfg.shared_monitor.hotkey = h;
    }
    if let Some(on) = p.remote_enabled {
        set_remote(cfg, on, fresh);
    }
    if let Some(ms) = p.edge_dwell_ms {
        cfg.edge_dwell_ms = if ms > DWELL_MAX {
            DWELL_MAX
        } else {
            ms
        };
    }
    if let Some(b) = p.mac_shortcuts {
        cfg.mac_shortcuts = b;
    }
    cfg.win_modifiers.cmd = changed_mod(cfg.win_modifiers.cmd.as_str(), &p.win_mod_cmd);
    cfg.win_modifiers.opt = changed_mod(cfg.win_modifiers.opt.as_str(), &p.win_mod_opt);
    cfg.win_modifiers.ctrl = changed_mod(cfg.win_modifiers.ctrl.as_str(), &p.win_mod_ctrl);
}

/// A token as it is drawn: 32 hexadecimal characters.
pub open spec fn is_token(t: Seq<char>) -> bool {
    t.len() == 32 && forall|i: int| 0 <= i < 32 ==> config::is_hex(#[trigger] t[i])
}

/// POST /api/settings: updates a subset of settings, and says whether starting at login
/// is to change. Any field may be omitted.
pub fn api_set_settings(cfg: &mut Config, body: &[u8]) -> (r: Result<Option<bool>, String>)
    ensures
        match json::json_read(body@) {
            Ok(v) => r matches Ok(a) && a == patch_in(v).autostart && exists|fresh: Seq<char>|
                is_token(fresh) && final(cfg)@ == #[trigger] patched(
                    old(cfg)@,
                    patch_in(v),
                    fresh,
                ),
            Err(_) => (r matches Err(e) && e@ == "invalid JSON"@) && final(cfg)@ == old(cfg)@,
        },
{
    match read_settings(body) {
        Err(e) => Err(e),
        Ok(p) => {
            let fresh: String = RemoteApi::generate_token();
            let ghost token = fresh@;
            apply_settings(cfg, &p, fresh);
            assert(is_token(token) && cfg@ == patched(old(cfg)@, p@, token));
            Ok(p.autostart)
        },
    }
}

/// The settings as the editor shows them.
#[derive(Debug)]
pub struct Settings {
    pub name: String,
    pub port: u16,
    pub mode: String,
    pub hotkey: bool,
    pub remote_enabled: bool,
    pub remote_token: Option<String>,
    pub remote_port: u16,
    pub autostart: bool,
    pub edge_dwell_ms: u64,
    pub mac_shortcuts: bool,
    pub win_mod_cmd: String,
    pub win_mod_opt: String,
    pub win_mod_ctrl: String,
    pub config_path: String,
}

/// The name of a mode in the settings.
pub open spec fn mode_word(m: Mode) -> Seq<char> {
    match m {
        Mode::Host => "host"@,
        Mode::Client => "client"@,
    }
}

/// GET /api/settings: the current settings for the editor. The OS says whether the
/// program starts at login.
pub fn api_get_settings(cfg: &Config, autostart: bool, config_path: &str) -> (r: Settings)
    ensures
        r.name@ == cfg@.name,
        r.port == cfg@.port,
        r.mode@ == mode_word(cfg@.mode),
        r.hotkey == cfg@.shared_monitor.hotkey,
        r.remote_enabled == cfg@.remote_enabled,
        text::opt_text(r.remote_token) == cfg@.remote_token,
        r.remote_port == UI_PORT + 1,
        r.autostart == autostart,
        r.edge_dwell_ms == cfg@.edge_dwell_ms,
        r.mac_shortcuts == cfg@.mac_shortcuts,
        r.win_mod_cmd@ == cfg@.win_cmd,
        r.win_mod_opt@ == cfg@.win_opt,
        r.win_mod_ctrl@ == cfg@.win_ctrl,
        r.config_path@ == config_path@,
{
    Settings {
        name: cfg.name.clone(),
        port: cfg.port,
        mode: match cfg.mode {
            Mode::Host => "host".to_owned(),
            Mode::Client => "client".to_owned(),
        },
        hotkey: cfg.shared_monitor.hotkey,
        remote_enabled: cfg.remote.enabled,
        remote_token: text::copy_opt(&cfg.remote.token),
        remote_port: UI_PORT + 1,
        autostart,
        edge_dwell_ms: cfg.edge_dwell_ms,
        mac_shortcuts: cfg.mac_shortcuts,
        win_mod_cmd: cfg.win_modifiers.cmd.clone(),
        win_mod_opt: cfg.win_modifiers.opt.clone(),
        win_mod_ctrl: cfg.win_modifiers.ctrl.clone(),
        config_path: config_path.to_owned(),
    }
}

// ---------------------------------------------------------------- tablet ----

/// POST /api/android/connect: the tablet to get ready.
pub fn api_android_connect(body: &[u8]) -> (r: Result<String, String>)
    ensures
        text_result(r) == text_field(body@, "serial"@, "missing 'serial'"@),
{
    read_text(body, "serial", "missing 'serial'")
}

/// POST /api/android/wireless: the tablet to arm wireless adb on.
pub fn api_android_wireless(body: &[u8]) -> (r: Result<String, String>)
    ensures
        text_result(r) == text_field(body@, "serial"@, "missing 'serial'"@),
{
    read_text(body, "serial", "missing 'serial'")
}

/// POST /api/android/add: the address of a wireless tablet, white space around it aside.
pub fn api_android_add(body: &[u8]) -> (r: Result<String, String>)
    ensures
        match text_field(body@, "ip"@, "missing 'ip'"@) {
            Ok(ip) => r matches Ok(s) && s@ == text::trimmed(ip),
            Err(e) => r matches Err(t) && t@ == e,
        },
{
    match read_text(body, "ip", "missing 'ip'") {
        Ok(ip) => Ok(trim(ip.as_str())),
        Err(e) => Err(e),
    }
}

/// The name of an edge.
pub open spec fn is_edge_name(s: Seq<char>) -> bool {
    s == "left"@ || s == "right"@ || s == "top"@ || s == "bottom"@
}

/// POST /api/android/place: where the tablet sits relative to the desktop, so crossing
/// that edge controls it. Nothing clears the placement. Says whether it is placed.
pub fn api_android_place(cfg: &mut Config, body: &[u8]) -> (r: Result<bool, String>)
    ensures
        match json::json_read(body@) {
            Err(_) => (r matches Err(e) && e@ == "invalid JSON"@) && final(cfg)@ == old(cfg)@,
            Ok(v) => match json::str_member(v, "edge"@) {
                Some(s) => if is_edge_name(s) {
                    &&& r == Ok::<bool, String>(true)
                    &&& final(cfg)@ == (config::ConfigView {
                        tablet_edge: Some(s),
                        ..old(cfg)@
                    })
                } else {
                    (r matches Err(e) && e@ == "bad edge"@) && final(cfg)@ == old(cfg)@
                },
                None => {
                    &&& r == Ok::<bool, String>(false)
                    &&& final(cfg)@ == (config::ConfigView { tablet_edge: None, ..old(cfg)@ })
                },
            },
        },
{
    match json::read(body) {
        Err(_) => Err("invalid JSON".to_owned()),
        Ok(v) => match get_str(&v, "edge") {
            Some(s) => {
                let known: bool = same_text(s.as_str(), "left") || same_text(s.as_str(), "right")
                    || same_text(s.as_str(), "top") || same_text(s.as_str(), "bottom");
                if !known {
                    return Err("bad edge".to_owned());
                }
                cfg.tablet_edge = Some(s);
                Ok(true)
            },
            None => {
                cfg.tablet_edge = None;
                Ok(false)
            },
        },
    }
}

// -------------------------------------------------------------- commands ----

/// A path that the user picked: a peer, and the address it is to reconnect to.
#[derive(Debug)]
pub struct PathPick {
    pub peer: String,
    pub addr: String,
}

/// POST /api/link: the path that the user picked in the editor.
pub fn read_use_addr(body: &[u8]) -> (r: Result<PathPick, String>)
    ensures
        match json::json_read(body@) {
            Err(_) => r matches Err(e) && e@ == "invalid JSON"@,
            Ok(v) => match (json::str_member(v, "peer"@), json::str_member(v, "addr"@)) {
                (Some(p), Some(a)) => r matches Ok(x) && x.peer@ == p && x.addr@ == a,
                (None, _) => r matches Err(e) && e@ == "missing 'peer'"@,
                (Some(_), None) => r matches Err(e) && e@ == "missing 'addr'"@,
            },
        },
{
    match json::read(body) {
        Err(_) => Err("invalid JSON".to_owned()),
        Ok(v) => {
            let peer: String = match get_str(&v, "peer") {
                Some(p) => p,
                None => {
                    return Err("missing 'peer'".to_owned());
                },
            };
            match get_str(&v, "addr") {
                Some(addr) => Ok(PathPick { peer, addr }),
                None => Err("missing 'addr'".to_owned()),
            }
        },
    }
}

/// The command that tells a peer to reconnect at an address. `is_addr` says whether the
/// address is one of a socket, `running` whether there is a router to tell.
pub fn api_use_addr(pick: PathPick, is_addr: bool, running: bool) -> (r: Result<UiCmd, String>)
    ensures
        if !is_addr {
            r matches Err(e) && e@ == "addr must be ip:port"@
        } else if !running {
            r matches Err(e) && e@ == "host not running"@
        } else {
            r matches Ok(UiCmd::UseAddr { peer, addr }) && peer@ == pick.peer@ && addr@
                == pick.addr@
        },
{
    if !is_addr {
        Err("addr must be ip:port".to_owned())
    } else if !running {
        Err("host not running".to_owned())
    } else {
        Ok(UiCmd::UseAddr { peer: pick.peer, addr: pick.addr })
    }
}

/// POST /api/shared: the command that hands the shared panel to a machine, or toggles
/// it. `running` says whether there is a router to tell.
pub fn api_set_shared(body: &[u8], running: bool) -> (r: Result<UiCmd, String>)
    ensures
        match text_field(body@, "owner"@, "missing 'owner'"@) {
            Err(e) => r matches Err(t) && t@ == e,
            Ok(owner) => if running {
                r matches Ok(UiCmd::SetSharedOwner(o)) && o@ == owner
            } else {
                r matches Err(e) && e@ == "host not running"@
            },
        },
{
    match read_text(body, "owner", "missing 'owner'") {
        Err(e) => Err(e),
        Ok(owner) => if running {
            Ok(UiCmd::SetSharedOwner(owner))
        } else {
            Err("host not running".to_owned())
        },
    }
}

// ----------------------------------------------------------- shared panel ----

/// Which panel is shared, as picked in the editor: monitors are counted from zero in the
/// order of each machine's list.
#[derive(Debug)]
pub enum PanelPick {
    /// None is.
    Clear,
    Pick { local_monitor: u32, peer: String, peer_monitor: u32, hotkey: Option<bool> },
}

/// Which panel is shared, as values.
#[verifier::ext_equal]
pub ghost enum PickView {
    Clear,
    Pick { local_monitor: u32, peer: Seq<char>, peer_monitor: u32, hotkey: Option<bool> },
}

impl View for PanelPick {
    type V = PickView;

    open spec fn view(&self) -> PickView {
        match self {
            PanelPick::Clear => PickView::Clear,
            PanelPick::Pick { local_monitor, peer, peer_monitor, hotkey } => PickView::Pick {
                local_monitor: *local_monitor,
                peer: peer@,
                peer_monitor: *peer_monitor,
                hotkey: *hotkey,
            },
        }
    }
}

/// The pick in a JSON value, or what is missing in it.
pub open spec fn pick_in(v: json::JsonView) -> Result<PickView, Seq<char>> {
    if json::bool_member(v, "clear"@) == Some(true) {
        Ok(PickView::Clear)
    } else {
        match json::u64_member(v, "local_monitor"@) {
            None => Err("missing local_monitor"@),
            Some(l) => match json::u64_member(v, "peer_monitor"@) {
                None => Err("missing peer_monitor"@),
                Some(p) => match json::str_member(v, "peer"@) {
                    None => Err("missing peer"@),
                    Some(peer) => Ok(
                        PickView::Pick {
                            local_monitor: l as u32,
                            peer,
                            peer_monitor: p as u32,
                            hotkey: json::bool_member(v, "hotkey"@),
                        },
                    ),
                },
            },
        }
    }
}

/// The pick in a JSON value, or what is missing in it.
pub fn pick_of(v: &serde_json::Value) -> (r: Result<PanelPick, String>)
    ensures
        match pick_in(json::json_of(v)) {
            Ok(p) => r matches Ok(x) && x@ == p,
            Err(e) => r matches Err(t) && t@ == e,
        },
{
    if let Some(c) = get_bool(v, "clear") {
        if c {
            return Ok(PanelPick::Clear);
        }
    }
    let local_monitor: u32 = match get_u64(v, "local_monitor") {
        Some(n) => n as u32,
        None => {
            return Err("missing local_monitor".to_owned());
        },
    };
    let peer_monitor: u32 = match get_u64(v, "peer_monitor") {
        Some(n) => n as u32,
        None => {
            return Err("missing peer_monitor".to_owned());
        },
    };
    match get_str(v, "peer") {
        Some(peer) => Ok(
            PanelPick::Pick { local_monitor, peer, peer_monitor, hotkey: get_bool(v, "hotkey") },
        ),
        None => Err("missing peer".to_owned()),
    }
}

/// The pick in a body, or what is wrong with it.
pub fn read_shared_config(body: &[u8]) -> (r: Result<PanelPick, String>)
    ensures
        match json::json_read(body@) {
            Err(_) => r matches Err(e) && e@ == "invalid JSON"@,
            Ok(v) => match pick_in(v) {
                Ok(p) => r matches Ok(x) && x@ == p,
                Err(e) => r matches Err(t) && t@ == e,
            },
        },
{
    match json::read(body) {
        Err(_) => Err("invalid JSON".to_owned()),
        Ok(v) => pick_of(&v),
    }
}

/// A monitor of a list.
pub open spec fn monitor_at(list: Seq<Rect>, i: u32) -> Option<Rect> {
    if i < list.len() {
        Some(list[i as int])
    } else {
        None
    }
}

/// A monitor of a list.
fn pick_monitor(list: &Vec<Rect>, i: u32) -> (r: Option<Rect>)
    ensures
        r == monitor_at(list@, i),
{
    if (i as usize) < list.len() {
        Some(list[i as usize])
    } else {
        None
    }
}

/// The settings of the shared panel after a pick. Both monitors' geometry is captured
/// with it: it becomes the safety check that prevents ever detaching the wrong monitor
/// later.
pub open spec fn picked(
    c: config::ConfigView,
    monitors: Seq<Rect>,
    os: Seq<char>,
    p: PickView,
) -> Result<config::SharedMonitorView, Seq<char>> {
    match p {
        PickView::Clear => Ok(
            config::SharedMonitorView {
                local_index: None,
                local_rect: None,
                peer_index: None,
                peer_rect: None,
                peer: None,
                ..c.shared_monitor
            },
        ),
        PickView::Pick { local_monitor, peer, peer_monitor, hotkey } => match config::peer_index(
            c.peers,
            peer,
            0,
        ) {
            None => Err("unknown peer '"@ + peer + "'"@),
            Some(i) => {
                let q = c.peers[i];
                let peer_os = match q.os {
                    Some(o) => o,
                    None => "windows"@,
                };
                Ok(
                    config::SharedMonitorView {
                        local_index: Some(state::index_of(os, local_monitor)),
                        local_rect: monitor_at(monitors, local_monitor),
                        peer_index: Some(state::index_of(peer_os, peer_monitor)),
                        peer_rect: monitor_at(q.screens, peer_monitor),
                        peer: Some(peer),
                        hotkey: match hotkey {
                            Some(h) => h,
                            None => c.shared_monitor.hotkey,
                        },
                        ..c.shared_monitor
                    },
                )
            },
        },
    }
}

/// POST /api/shared-config: remembers which panel is shared. `os` is this machine's.
pub fn api_shared_config(cfg: &mut Config, pick: PanelPick, monitors: &Vec<Rect>, os: &str) -> (r:
    Result<(), String>)
    ensures
        match picked(old(cfg)@, monitors@, os@, pick@) {
            Ok(s) => r is Ok && final(cfg)@ == (config::ConfigView {
                shared_monitor: s,
                ..old(cfg)@
            }),
            Err(e) => (r matches Err(t) && t@ == e) && final(cfg)@ == old(cfg)@,
        },
{
    match pick {
        PanelPick::Clear => {
            cfg.shared_monitor.local_index = None;
            cfg.shared_monitor.local_rect = None;
            cfg.shared_monitor.peer_index = None;
            cfg.shared_monitor.peer_rect = None;
            cfg.shared_monitor.peer = None;
            Ok(())
        },
        PanelPick::Pick { local_monitor, peer, peer_monitor, hotkey } => {
            let (peer_os, peer_rect): (String, Option<Rect>) = match cfg.peer(peer.as_str()) {
                Some(q) => {
                    let o: String = match &q.os {
                        Some(o) => o.clone(),
                        None => "windows".to_owned(),
                    };
                    (o, pick_monitor(&q.screens, peer_monitor))
                },
                None => {
                    return Err(joined(joined("unknown peer '", peer.as_str()).as_str(), "'"));
                },
            };
            cfg.shared_monitor.local_index = Some(to_platform_index(os, local_monitor));
            cfg.shared_monitor.local_rect = pick_monitor(monitors, local_monitor);
            cfg.shared_monitor.peer_index = Some(
                to_platform_index(peer_os.as_str(), peer_monitor),
            );
            cfg.shared_monitor.peer_rect = peer_rect;
            cfg.shared_monitor.peer = Some(peer);
            if let Some(h) = hotkey {
                cfg.shared_monitor.hotkey = h;
            }
            Ok(())
        },
    }
}

/// A panel that was picked is the one that the editor shows.
pub proof fn law_picked_panel_is_shown(
    c: config::ConfigView,
    monitors: Seq<Rect>,
    os: Seq<char>,
    local_monitor: u32,
    peer: Seq<char>,
    peer_monitor: u32,
    hotkey: Option<bool>,
)
    requires
        local_monitor < u32::MAX,
        peer_monitor < u32::MAX,
        config::peer_index(c.peers, peer, 0) is Some,
    ensures
        ({
            let p = PickView::Pick { local_monitor, peer, peer_monitor, hotkey };
            &&& picked(c, monitors, os, p) matches Ok(s)
            &&& state::panel_of(config::ConfigView { shared_monitor: s, ..c }, os) matches Some(q)
            &&& q.local_monitor == local_monitor && q.peer_monitor == peer_monitor && q.peer
                == Some(peer)
        }),
{
}

/// A panel that was picked is remembered by the rects of both of its monitors; one that was
/// cleared is not shared any more.
pub proof fn law_picked_monitors_are_remembered(
    c: config::ConfigView,
    monitors: Seq<Rect>,
    os: Seq<char>,
    local_monitor: u32,
    peer: Seq<char>,
    peer_monitor: u32,
    hotkey: Option<bool>,
    i: int,
)
    requires
        local_monitor < monitors.len(),
        config::peer_index(c.peers, peer, 0) == Some(i),
        0 <= i < c.peers.len(),
        peer_monitor < c.peers[i].screens.len(),
    ensures
        ({
            let p = PickView::Pick { local_monitor, peer, peer_monitor, hotkey };
            &&& picked(c, monitors, os, p) matches Ok(s)
            &&& s.local_rect == Some(monitors[local_monitor as int])
            &&& s.peer_rect == Some(c.peers[i].screens[peer_monitor as int])
            &&& s.hotkey == match hotkey {
                Some(h) => h,
                None => c.shared_monitor.hotkey,
            }
        }),
        picked(c, monitors, os, PickView::Clear) matches Ok(s) && !s.is_configured(),
{
}

// ---------------------------------------------------------------- layout ----

/// A machine that is known: this one or a peer.
pub open spec fn is_known(c: config::ConfigView, name: Seq<char>) -> bool {
    name == c.name || config::peer_index(c.peers, name, 0) is Some
}

/// What is wrong with a link, if anything is: both its machines must be known, and they
/// must differ.
pub open spec fn fault_in(c: config::ConfigView, l: layout::LinkView) -> Option<Seq<char>> {
    if !is_known(c, l.from) || !is_known(c, l.to) {
        Some("unknown machine in link "@ + l.from + " -> "@ + l.to)
    } else if l.from == l.to {
        Some("self-link on "@ + l.from)
    } else {
        None
    }
}

/// What is wrong with the first faulty one of some links.
pub open spec fn first_fault(c: config::ConfigView, links: Seq<layout::LinkView>) -> Option<
    Seq<char>,
>
    decreases links.len(),
{
    if links.len() == 0 {
        None
    } else {
        match fault_in(c, links[0]) {
            Some(e) => Some(e),
            None => first_fault(c, links.skip(1)),
        }
    }
}

/// Is this a machine that is known?
fn knows(cfg: &Config, name: &str) -> (r: bool)
    ensures
        r == is_known(cfg@, name@),
{
    same_text(name, cfg.name.as_str()) || cfg.peer(name).is_some()
}

/// What some links say.
pub open spec fn links_view(v: Seq<Link>) -> Seq<layout::LinkView> {
    v.map_values(|l: Link| l@)
}

/// POST /api/layout: keeps the links that the editor drew.
pub fn api_save_layout(cfg: &mut Config, links: Vec<Link>) -> (r: Result<(), String>)
    ensures
        match first_fault(old(cfg)@, links_view(links@)) {
            None => r is Ok && final(cfg)@ == (config::ConfigView {
                links: links_view(links@),
                ..old(cfg)@
            }),
            Some(e) => (r matches Err(t) && t@ == e) && final(cfg)@ == old(cfg)@,
        },
{
    let ghost all = links_view(links@);
    assert(all.skip(0) =~= all);
    for i in 0..links.len()
        invariant
            cfg@ == old(cfg)@,
            all == links_view(links@),
            first_fault(cfg@, all) == first_fault(cfg@, all.skip(i as int)),
    {
        let l: &Link = &links[i];
        assert(all.skip(i as int)[0] == l@);
        if !knows(cfg, l.from.as_str()) || !knows(cfg, l.to.as_str()) {
            let a: String = joined(joined("unknown machine in link ", l.from.as_str()).as_str(), " -> ");
            return Err(joined(a.as_str(), l.to.as_str()));
        }
        if same_text(l.from.as_str(), l.to.as_str()) {
            return Err(joined("self-link on ", l.from.as_str()));
        }
        assert(all.skip(i as int).skip(1) =~= all.skip(i + 1));
    }
    cfg.layout.links = links;
    assert(cfg@.links =~= all);
    Ok(())
}

/// A layout that was kept joins machines that are known, and no machine to itself.
pub proof fn law_kept_links_join_known_machines(
    c: config::ConfigView,
    links: Seq<layout::LinkView>,
    i: int,
)
    requires
        first_fault(c, links) is None,
        0 <= i < links.len(),
    ensures
        is_known(c, links[i].from),
        is_known(c, links[i].to),
        links[i].from != links[i].to,
    decreases i,
{
    if i > 0 {
        law_kept_links_join_known_machines(c, links.skip(1), i - 1);
        assert(links.skip(1)[i - 1] == links[i]);
    }
}

} // verus!
