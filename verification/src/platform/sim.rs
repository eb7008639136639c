//! Virtual-machine backend.
//!
//! Everything the OS normally provides — monitors, the physical cursor, input injection
//! — is a scriptable in-process world, while the whole engine above it stays real. It is
//! driven and observed over a JSON-lines control socket:
//!
//!   {"op":"warp","x":..,"y":..}        physically move the virtual cursor
//!   {"op":"set_monitors","monitors":[[x,y,w,h],..]}   change the displays
//!   {"op":"edge","edge":"right","ratio":..}    hit an armed portal edge
//!   {"op":"input_move","dx":..,"dy":..}        forwarded motion (host side)
//!   {"op":"input_key","key":..,"pressed":..}   forwarded key
//!   {"op":"hotkey"}                            shared-monitor hotkey
//!   {"op":"arrange","machine":..,"monitors":[..]}   the editor's save of a desk
//!   {"op":"state"}                             cursor/forwarding/portals/...
//!   {"op":"injected"}                          drain recorded injections
use vstd::prelude::*;

use crate::binary32::F32;
use crate::config::copy_rects;
use crate::engine::action::Injection;
use crate::engine::model::{self, parse_edge, UiCmd};
use crate::engine::Captured;
use crate::json::{self, as_array, as_i64, get, get_bool, get_i64, get_str, get_u64};
use crate::layout::Edge;
use crate::parse::{self, parse_i32, pieces, Cut};
use crate::platform::{self, copy_edges, has_edge, CaptureCtl};
use crate::proto::{InputEvent, Rect};
use crate::text::{self, copy_opt, joined, same_text, trim};

verus! {

/// Something that the engine did to this machine.
#[derive(Debug)]
pub enum Recorded {
    Input(Injection),
    OpenUrl(String),
}

/// What was recorded.
#[verifier::ext_equal]
pub ghost enum RecordedView {
    Input(Injection),
    OpenUrl(Seq<char>),
}

impl View for Recorded {
    type V = RecordedView;

    open spec fn view(&self) -> RecordedView {
        match self {
            Recorded::Input(i) => RecordedView::Input(*i),
            Recorded::OpenUrl(u) => RecordedView::OpenUrl(u@),
        }
    }
}

/// What was recorded, in order.
pub open spec fn recorded_view(v: Seq<Recorded>) -> Seq<RecordedView> {
    v.map_values(|r: Recorded| r@)
}

#[derive(Debug)]
pub struct SimWorld {
    pub monitors: Vec<Rect>,
    pub cursor: (i32, i32),
    /// Every injection the engine performed.
    pub injected: Vec<Recorded>,
    /// The capture side, once it was started.
    pub capture: Option<CaptureCtl>,
    pub clipboard: Option<String>,
    pub clip_seq: u64,
}

/// The state of the world.
#[verifier::ext_equal]
pub ghost struct WorldView {
    pub monitors: Seq<Rect>,
    pub cursor: (i32, i32),
    pub injected: Seq<RecordedView>,
    pub capture: Option<platform::CtlView>,
    pub clipboard: Option<Seq<char>>,
    pub clip_seq: u64,
}

/// What an optional capture side is told.
pub open spec fn ctl_view(c: Option<CaptureCtl>) -> Option<platform::CtlView> {
    match c {
        Some(x) => Some(x@),
        None => None,
    }
}

impl View for SimWorld {
    type V = WorldView;

    open spec fn view(&self) -> WorldView {
        WorldView {
            monitors: self.monitors@,
            cursor: self.cursor,
            injected: recorded_view(self.injected@),
            capture: ctl_view(self.capture),
            clipboard: text::opt_text(self.clipboard),
            clip_seq: self.clip_seq,
        }
    }
}

// ------------------------------------------------------------- monitors ----

/// The numbers among some texts.
pub open spec fn numbers_in(parts: Seq<Seq<char>>) -> Seq<i32>
    decreases parts.len(),
{
    if parts.len() == 0 {
        seq![]
    } else {
        let before = numbers_in(parts.drop_last());
        match parse::parsed(text::trimmed(parts.last()), i32::MIN as int, i32::MAX as int) {
            Some(n) => before.push(n as i32),
            None => before,
        }
    }
}

/// Four numbers are a rect.
pub open spec fn rect_of(n: Seq<i32>) -> Option<Rect> {
    if n.len() == 4 {
        Some(Rect { x: n[0], y: n[1], w: n[2], h: n[3] })
    } else {
        None
    }
}

/// The rects among some texts, each with its four numbers.
pub open spec fn rects_in(parts: Seq<Seq<char>>) -> Seq<Rect>
    decreases parts.len(),
{
    if parts.len() == 0 {
        seq![]
    } else {
        let before = rects_in(parts.drop_last());
        match rect_of(numbers_in(parse::pieces_of(parts.last(), Cut::At(',')))) {
            Some(r) => before.push(r),
            None => before,
        }
    }
}

/// The monitors that a text such as `0,0,2560,1440;2560,0,2560,1440` describes.
pub open spec fn monitors_in(s: Seq<char>) -> Seq<Rect> {
    rects_in(parse::pieces_of(s, Cut::At(';')))
}

/// The numbers among some texts.
fn read_numbers(parts: &Vec<String>) -> (r: Vec<i32>)
    ensures
        r@ == numbers_in(text::texts(parts@)),
{
    let ghost all = text::texts(parts@);
    let mut out: Vec<i32> = Vec::new();
    proof {
        assert(out@ =~= seq![]);
        assert(all.take(0) =~= seq![]);
    }
    for i in 0..parts.len()
        invariant
            all == text::texts(parts@),
            out@ == numbers_in(all.take(i as int)),
    {
        proof {
            assert(all.take(i + 1).drop_last() =~= all.take(i as int));
            assert(all.take(i + 1).last() == parts@[i as int]@);
        }
        match parse_i32(trim(parts[i].as_str()).as_str()) {
            Some(n) => {
                out.push(n);
            },
            None => {},
        }
    }
    assert(all.take(all.len() as int) =~= all);
    out
}

/// The monitors that a text describes.
pub fn parse_monitors(s: &str) -> (r: Vec<Rect>)
    ensures
        r@ == monitors_in(s@),
{
    let parts: Vec<String> = pieces(s, Cut::At(';'));
    let ghost all = text::texts(parts@);
    let mut out: Vec<Rect> = Vec::new();
    proof {
        assert(out@ =~= seq![]);
        assert(all.take(0) =~= seq![]);
    }
    for i in 0..parts.len()
        invariant
            all == text::texts(parts@),
            out@ == rects_in(all.take(i as int)),
    {
        proof {
            assert(all.take(i + 1).drop_last() =~= all.take(i as int));
            assert(all.take(i + 1).last() == parts@[i as int]@);
        }
        let n: Vec<i32> = read_numbers(&pieces(parts[i].as_str(), Cut::At(',')));
        if n.len() == 4 {
            out.push(Rect { x: n[0], y: n[1], w: n[2], h: n[3] });
        }
    }
    assert(all.take(all.len() as int) =~= all);
    out
}

// ------------------------------------------------------------ surface ----

/// The monitors that a fresh world has, given their description.
pub open spec fn first_monitors(described: Option<Seq<char>>) -> Seq<Rect> {
    match described {
        Some(s) => if monitors_in(s).len() > 0 {
            monitors_in(s)
        } else {
            seq![Rect { x: 0, y: 0, w: 2560, h: 1440 }]
        },
        None => seq![Rect { x: 0, y: 0, w: 2560, h: 1440 }],
    }
}

/// A fresh world: one common monitor where none is described.
pub fn world(described: Option<&str>) -> (r: SimWorld)
    ensures
        r@ == (WorldView {
            monitors: first_monitors(
                match described {
                    Some(s) => Some(s@),
                    None => None,
                },
            ),
            cursor: (100, 100),
            injected: seq![],
            capture: None,
            clipboard: None,
            clip_seq: 0,
        }),
{
    let mut monitors: Vec<Rect> = match described {
        Some(s) => parse_monitors(s),
        None => Vec::new(),
    };
    if monitors.len() == 0 {
        monitors.push(Rect { x: 0, y: 0, w: 2560, h: 1440 });
        assert(monitors@ =~= seq![Rect { x: 0, y: 0, w: 2560, h: 1440 }]);
    }
    let r: SimWorld = SimWorld {
        monitors,
        cursor: (100, 100),
        injected: Vec::new(),
        capture: None,
        clipboard: None,
        clip_seq: 0,
    };
    assert(r@.injected =~= seq![]);
    r
}

pub fn monitors(w: &SimWorld) -> (r: Vec<Rect>)
    ensures
        r@ == w@.monitors,
{
    copy_rects(&w.monitors)
}

pub fn desktop_bounds(w: &SimWorld) -> (r: Rect)
    ensures
        r == platform::desktop_of(w@.monitors),
{
    platform::desktop_bounds(&w.monitors)
}

/// The name of a virtual display: its size.
pub open spec fn display_name_of(m: Rect) -> Seq<char> {
    "SimDisplay "@ + platform::display::signed_of(m.w as int) + "x"@ + platform::display::signed_of(
        m.h as int,
    )
}

/// The name of each display, in order.
pub fn displays(w: &SimWorld) -> (r: Vec<String>)
    ensures
        text::texts(r@) == w@.monitors.map_values(|m: Rect| display_name_of(m)),
{
    let mut out: Vec<String> = Vec::new();
    let ghost want = w@.monitors.map_values(|m: Rect| display_name_of(m));
    for i in 0..w.monitors.len()
        invariant
            want == w@.monitors.map_values(|m: Rect| display_name_of(m)),
            text::texts(out@) =~= want.take(i as int),
    {
        let m: Rect = w.monitors[i];
        let a: String = joined("SimDisplay ", platform::display::signed(m.w).as_str());
        let name: String = joined(
            joined(a.as_str(), "x").as_str(),
            platform::display::signed(m.h).as_str(),
        );
        proof {
            text::lemma_texts_push(out@, name);
        }
        out.push(name);
    }
    out
}

pub fn warp_cursor(w: &mut SimWorld, x: i32, y: i32)
    ensures
        final(w)@ == (WorldView { cursor: (x, y), ..old(w)@ }),
{
    w.cursor = (x, y);
}

pub fn cursor_pos(w: &SimWorld) -> (r: (i32, i32))
    ensures
        r == w@.cursor,
{
    w.cursor
}

pub fn get_clipboard(w: &SimWorld) -> (r: Option<String>)
    ensures
        text::opt_text(r) == w@.clipboard,
{
    copy_opt(&w.clipboard)
}

/// Replaces the clipboard; its counter moves on.
pub fn set_clipboard(w: &mut SimWorld, t: &str)
    requires
        old(w)@.clip_seq < u64::MAX,
    ensures
        final(w)@ == (WorldView {
            clipboard: Some(t@),
            clip_seq: (old(w)@.clip_seq + 1) as u64,
            ..old(w)@
        }),
{
    w.clipboard = Some(t.to_owned());
    w.clip_seq = w.clip_seq + 1;
}

pub fn clipboard_seq(w: &SimWorld) -> (r: u64)
    ensures
        r == w@.clip_seq,
{
    w.clip_seq
}

/// Records what the engine did. A move to a point also puts the cursor there.
pub fn record(w: &mut SimWorld, what: Recorded)
    ensures
        final(w)@ == (WorldView {
            injected: old(w)@.injected.push(what@),
            cursor: match what@ {
                RecordedView::Input(Injection::MouseTo { x, y, .. }) => (x, y),
                _ => old(w)@.cursor,
            },
            ..old(w)@
        }),
{
    match &what {
        Recorded::Input(i) => {
            match i {
                Injection::MouseTo { x, y, .. } => {
                    w.cursor = (*x, *y);
                },
                _ => {},
            }
        },
        Recorded::OpenUrl(_) => {},
    }
    let ghost before = recorded_view(w.injected@);
    let ghost rv = what@;
    w.injected.push(what);
    assert(recorded_view(w.injected@) =~= before.push(rv));
}

// ----------------------------------------------------- control server ----

/// One control operation.
#[derive(Debug)]
pub enum SimOp {
    Warp { x: i32, y: i32 },
    SetMonitors(Vec<Rect>),
    /// An edge that has a name.
    Edge(Option<Edge>),
    InputMove { dx: i32, dy: i32 },
    InputKey { key: u16, pressed: bool },
    Hotkey,
    /// Where a machine's monitors go.
    Arrange { machine: String, monitors: Vec<Rect> },
    State,
    Injected,
    Unknown(String),
}

/// What an operation asks for.
#[verifier::ext_equal]
pub ghost enum OpView {
    Warp { x: i32, y: i32 },
    SetMonitors(Seq<Rect>),
    Edge(Option<Edge>),
    InputMove { dx: i32, dy: i32 },
    InputKey { key: u16, pressed: bool },
    Hotkey,
    Arrange { machine: Seq<char>, monitors: Seq<Rect> },
    State,
    Injected,
    Unknown(Seq<char>),
}

impl View for SimOp {
    type V = OpView;

    open spec fn view(&self) -> OpView {
        match self {
            SimOp::Warp { x, y } => OpView::Warp { x: *x, y: *y },
            SimOp::SetMonitors(m) => OpView::SetMonitors(m@),
            SimOp::Edge(e) => OpView::Edge(*e),
            SimOp::InputMove { dx, dy } => OpView::InputMove { dx: *dx, dy: *dy },
            SimOp::InputKey { key, pressed } => OpView::InputKey { key: *key, pressed: *pressed },
            SimOp::Hotkey => OpView::Hotkey,
            SimOp::Arrange { machine, monitors } => OpView::Arrange {
                machine: machine@,
                monitors: monitors@,
            },
            SimOp::State => OpView::State,
            SimOp::Injected => OpView::Injected,
            SimOp::Unknown(s) => OpView::Unknown(s@),
        }
    }
}

/// A member as a coordinate: its low 32 bits, zero where it is no whole number.
pub open spec fn coord_member(v: json::JsonView, key: Seq<char>) -> i32 {
    match json::i64_member(v, key) {
        Some(n) => n as i32,
        None => 0,
    }
}

/// The whole numbers in some values.
pub open spec fn json_numbers(a: Seq<json::JsonView>) -> Seq<i32>
    decreases a.len(),
{
    if a.len() == 0 {
        seq![]
    } else {
        let before = json_numbers(a.drop_last());
        match json::i64_in(a.last()) {
            Some(n) => before.push(n as i32),
            None => before,
        }
    }
}

/// The rects in some values.
pub open spec fn json_rects(a: Seq<json::JsonView>) -> Seq<Rect>
    decreases a.len(),
{
    if a.len() == 0 {
        seq![]
    } else {
        let before = json_rects(a.drop_last());
        match json::arr_in(a.last()) {
            Some(n) => match rect_of(json_numbers(n)) {
                Some(r) => before.push(r),
                None => before,
            },
            None => before,
        }
    }
}

/// The rects in a member.
pub open spec fn rects_member(v: json::JsonView, key: Seq<char>) -> Seq<Rect> {
    match json::member(v, key) {
        Some(x) => match json::arr_in(x) {
            Some(a) => json_rects(a),
            None => seq![],
        },
        None => seq![],
    }
}

/// The operation that a command asks for.
pub open spec fn op_of(v: json::JsonView) -> OpView {
    let op = match json::str_member(v, "op"@) {
        Some(s) => s,
        None => ""@,
    };
    if op == "warp"@ {
        OpView::Warp { x: coord_member(v, "x"@), y: coord_member(v, "y"@) }
    } else if op == "set_monitors"@ {
        OpView::SetMonitors(rects_member(v, "monitors"@))
    } else if op == "edge"@ {
        OpView::Edge(model::edge_setting(json::str_member(v, "edge"@)))
    } else if op == "input_move"@ {
        OpView::InputMove { dx: coord_member(v, "dx"@), dy: coord_member(v, "dy"@) }
    } else if op == "input_key"@ {
        OpView::InputKey {
            key: match json::u64_member(v, "key"@) {
                Some(k) => k as u16,
                None => 4,
            },
            pressed: match json::bool_member(v, "pressed"@) {
                Some(p) => p,
                None => true,
            },
        }
    } else if op == "hotkey"@ {
        OpView::Hotkey
    } else if op == "arrange"@ {
        OpView::Arrange {
            machine: match json::str_member(v, "machine"@) {
                Some(m) => m,
                None => ""@,
            },
            monitors: rects_member(v, "monitors"@),
        }
    } else if op == "state"@ {
        OpView::State
    } else if op == "injected"@ {
        OpView::Injected
    } else {
        OpView::Unknown(op)
    }
}

/// A member as a coordinate.
fn read_coord(v: &serde_json::Value, key: &str) -> (r: i32)
    ensures
        r == coord_member(json::json_of(v), key@),
{
    match get_i64(v, key) {
        Some(n) => n as i32,
        None => 0,
    }
}

/// The whole numbers in some values.
fn read_json_numbers(a: &Vec<serde_json::Value>) -> (r: Vec<i32>)
    ensures
        r@ == json_numbers(json::all_json(a@)),
{
    let ghost all = json::all_json(a@);
    let mut out: Vec<i32> = Vec::new();
    proof {
        assert(out@ =~= seq![]);
        assert(all.take(0) =~= seq![]);
    }
    for i in 0..a.len()
        invariant
            all == json::all_json(a@),
            out@ == json_numbers(all.take(i as int)),
    {
        proof {
            assert(all.take(i + 1).drop_last() =~= all.take(i as int));
            assert(all.take(i + 1).last() == json::json_of(&a@[i as int]));
        }
        match as_i64(&a[i]) {
            Some(n) => {
                out.push(n as i32);
            },
            None => {},
        }
    }
    assert(all.take(all.len() as int) =~= all);
    out
}

/// The rects in a member.
fn read_rects(v: &serde_json::Value, key: &str) -> (r: Vec<Rect>)
    ensures
        r@ == rects_member(json::json_of(v), key@),
{
    let mut out: Vec<Rect> = Vec::new();
    assert(out@ =~= seq![]);
    let x: &serde_json::Value = match get(v, key) {
        Some(x) => x,
        None => {
            return out;
        },
    };
    let a: &Vec<serde_json::Value> = match as_array(x) {
        Some(a) => a,
        None => {
            return out;
        },
    };
    let ghost all = json::all_json(a@);
    assert(all.take(0) =~= seq![]);
    for i in 0..a.len()
        invariant
            all == json::all_json(a@),
            out@ == json_rects(all.take(i as int)),
    {
        proof {
            assert(all.take(i + 1).drop_last() =~= all.take(i as int));
            assert(all.take(i + 1).last() == json::json_of(&a@[i as int]));
        }
        match as_array(&a[i]) {
            Some(m) => {
                let n: Vec<i32> = read_json_numbers(m);
                if n.len() == 4 {
                    out.push(Rect { x: n[0], y: n[1], w: n[2], h: n[3] });
                }
            },
            None => {},
        }
    }
    assert(all.take(all.len() as int) =~= all);
    out
}

/// The operation that a command asks for.
pub fn read_op(v: &serde_json::Value) -> (r: SimOp)
    ensures
        r@ == op_of(json::json_of(v)),
{
    let op: String = match get_str(v, "op") {
        Some(s) => s,
        None => "".to_owned(),
    };
    let name: &str = op.as_str();
    if same_text(name, "warp") {
        SimOp::Warp { x: read_coord(v, "x"), y: read_coord(v, "y") }
    } else if same_text(name, "set_monitors") {
        SimOp::SetMonitors(read_rects(v, "monitors"))
    } else if same_text(name, "edge") {
        SimOp::Edge(
            match get_str(v, "edge") {
                Some(e) => parse_edge(e.as_str()),
                None => None,
            },
        )
    } else if same_text(name, "input_move") {
        SimOp::InputMove { dx: read_coord(v, "dx"), dy: read_coord(v, "dy") }
    } else if same_text(name, "input_key") {
        let key: u16 = match get_u64(v, "key") {
            Some(k) => k as u16,
            None => 4,
        };
        let pressed: bool = match get_bool(v, "pressed") {
            Some(p) => p,
            None => true,
        };
        SimOp::InputKey { key, pressed }
    } else if same_text(name, "hotkey") {
        SimOp::Hotkey
    } else if same_text(name, "arrange") {
        let machine: String = match get_str(v, "machine") {
            Some(m) => m,
            None => "".to_owned(),
        };
        SimOp::Arrange { machine, monitors: read_rects(v, "monitors") }
    } else if same_text(name, "state") {
        SimOp::State
    } else if same_text(name, "injected") {
        SimOp::Injected
    } else {
        SimOp::Unknown(op)
    }
}

/// What the world answers.
#[derive(Debug)]
pub enum SimReply {
    Done,
    Failed(String),
    State {
        cursor: (i32, i32),
        monitors: Vec<Rect>,
        forwarding: bool,
        driven: bool,
        portals: Vec<Edge>,
        blocked: Option<Rect>,
        injected: usize,
    },
    Injected(Vec<Recorded>),
}

/// What an answer says.
#[verifier::ext_equal]
pub ghost enum ReplyView {
    Done,
    Failed(Seq<char>),
    State {
        cursor: (i32, i32),
        monitors: Seq<Rect>,
        forwarding: bool,
        driven: bool,
        portals: Seq<Edge>,
        blocked: Option<Rect>,
        injected: int,
    },
    Injected(Seq<RecordedView>),
}

impl View for SimReply {
    type V = ReplyView;

    open spec fn view(&self) -> ReplyView {
        match self {
            SimReply::Done => ReplyView::Done,
            SimReply::Failed(e) => ReplyView::Failed(e@),
            SimReply::State { cursor, monitors, forwarding, driven, portals, blocked, injected } =>
            ReplyView::State {
                cursor: *cursor,
                monitors: monitors@,
                forwarding: *forwarding,
                driven: *driven,
                portals: portals@,
                blocked: *blocked,
                injected: *injected as int,
            },
            SimReply::Injected(v) => ReplyView::Injected(recorded_view(v@)),
        }
    }
}

/// What an operation sends to the router.
#[derive(Debug)]
pub enum SimOut {
    Captured(Captured),
    Command(UiCmd),
}

/// What is sent to the router.
#[verifier::ext_equal]
pub ghost enum OutView {
    Captured(Captured),
    Arrange { machine: Seq<char>, monitors: Seq<Rect> },
    /// Any other command; an operation sends none.
    Command,
}

/// What is sent to the router, if anything is.
pub open spec fn out_view(o: Option<SimOut>) -> Option<OutView> {
    match o {
        Some(SimOut::Captured(c)) => Some(OutView::Captured(c)),
        Some(SimOut::Command(UiCmd::Arrange { machine, monitors })) => Some(
            OutView::Arrange { machine: machine@, monitors: monitors@ },
        ),
        Some(SimOut::Command(_)) => Some(OutView::Command),
        None => None,
    }
}

impl WorldView {
    /// The world after an operation, its answer, and what the router hears. As with a
    /// real capture side, only armed portal edges fire, and forwarding flips before the
    /// router hears about it; input is taken only while it is forwarded.
    pub open spec fn performed(self, op: OpView, ratio: F32) -> (
        WorldView,
        ReplyView,
        Option<OutView>,
    ) {
        match op {
            OpView::Warp { x, y } => (
                WorldView { cursor: (x, y), ..self },
                ReplyView::Done,
                None,
            ),
            OpView::SetMonitors(m) => if m.len() == 0 {
                (self, ReplyView::Failed("no monitors"@), None)
            } else {
                (WorldView { monitors: m, ..self }, ReplyView::Done, None)
            },
            OpView::Edge(None) => (self, ReplyView::Failed("bad edge"@), None),
            OpView::Edge(Some(edge)) => match self.capture {
                None => (self, ReplyView::Failed("no capture (client?)"@), None),
                Some(ctl) => if !ctl.portals.contains(edge) {
                    (self, ReplyView::Failed("edge not armed"@), None)
                } else {
                    (
                        WorldView {
                            capture: Some(platform::CtlView { forwarding: true, ..ctl }),
                            ..self
                        },
                        ReplyView::Done,
                        Some(OutView::Captured(Captured::EdgeHit { edge, ratio })),
                    )
                },
            },
            OpView::InputMove { dx, dy } => self.given(InputEvent::MouseMove { dx, dy }),
            OpView::InputKey { key, pressed } => self.given(InputEvent::Key { key, pressed }),
            OpView::Hotkey => match self.capture {
                None => (self, ReplyView::Failed("no capture"@), None),
                Some(_) => (
                    self,
                    ReplyView::Done,
                    Some(OutView::Captured(Captured::SharedHotkey)),
                ),
            },
            OpView::Arrange { machine, monitors } => if monitors.len() == 0 {
                (self, ReplyView::Failed("no monitors"@), None)
            } else {
                (self, ReplyView::Done, Some(OutView::Arrange { machine, monitors }))
            },
            OpView::State => (
                self,
                match self.capture {
                    Some(ctl) => ReplyView::State {
                        cursor: self.cursor,
                        monitors: self.monitors,
                        forwarding: ctl.forwarding,
                        driven: ctl.driven,
                        portals: ctl.portals,
                        blocked: ctl.blocked,
                        injected: self.injected.len() as int,
                    },
                    None => ReplyView::State {
                        cursor: self.cursor,
                        monitors: self.monitors,
                        forwarding: false,
                        driven: false,
                        portals: seq![],
                        blocked: None,
                        injected: self.injected.len() as int,
                    },
                },
                None,
            ),
            OpView::Injected => (
                WorldView { injected: seq![], ..self },
                ReplyView::Injected(self.injected),
                None,
            ),
            OpView::Unknown(name) => (
                self,
                ReplyView::Failed("unknown op '"@ + name + "'"@),
                None,
            ),
        }
    }

    /// Input reaches the router only while it is forwarded.
    pub open spec fn given(self, e: InputEvent) -> (WorldView, ReplyView, Option<OutView>) {
        match self.capture {
            None => (self, ReplyView::Failed("no capture"@), None),
            Some(ctl) => if !ctl.forwarding {
                (self, ReplyView::Failed("not forwarding"@), None)
            } else {
                (self, ReplyView::Done, Some(OutView::Captured(Captured::Input(e))))
            },
        }
    }
}

/// Nothing reaches the router unless the capture side would let it: an edge only where
/// it is armed, input only while it is forwarded.
pub proof fn law_the_world_is_faithful(w: WorldView, op: OpView, ratio: F32)
    ensures
        match w.performed(op, ratio).2 {
            Some(OutView::Captured(Captured::EdgeHit { edge, .. })) => w.capture matches Some(c)
                && c.portals.contains(edge) && (w.performed(op, ratio).0.capture matches Some(a)
                && a.forwarding),
            Some(OutView::Captured(Captured::Input(_))) => w.capture matches Some(c) && c.forwarding,
            _ => true,
        },
{
}

/// Forwarded input, as long as it is forwarded.
fn give(w: &SimWorld, e: InputEvent) -> (r: (SimReply, Option<SimOut>))
    ensures
        (w@, r.0@, out_view(r.1)) == w@.given(e),
{
    match &w.capture {
        None => (SimReply::Failed("no capture".to_owned()), None),
        Some(ctl) => {
            if !ctl.forwarding {
                (SimReply::Failed("not forwarding".to_owned()), None)
            } else {
                (SimReply::Done, Some(SimOut::Captured(Captured::Input(e))))
            }
        },
    }
}

/// Performs an operation. `ratio` is where along its edge a crossing happens.
pub fn perform(w: &mut SimWorld, op: SimOp, ratio: F32) -> (r: (SimReply, Option<SimOut>))
    ensures
        (final(w)@, r.0@, out_view(r.1)) == old(w)@.performed(op@, ratio),
{
    match op {
        SimOp::Warp { x, y } => {
            w.cursor = (x, y);
            (SimReply::Done, None)
        },
        SimOp::SetMonitors(m) => {
            if m.len() == 0 {
                (SimReply::Failed("no monitors".to_owned()), None)
            } else {
                w.monitors = m;
                (SimReply::Done, None)
            }
        },
        SimOp::Edge(e) => {
            let edge: Edge = match e {
                Some(e) => e,
                None => {
                    return (SimReply::Failed("bad edge".to_owned()), None);
                },
            };
            match &mut w.capture {
                None => (SimReply::Failed("no capture (client?)".to_owned()), None),
                Some(ctl) => {
                    if !has_edge(&ctl.portals, edge) {
                        (SimReply::Failed("edge not armed".to_owned()), None)
                    } else {
                        ctl.forwarding = true;
                        (SimReply::Done, Some(SimOut::Captured(Captured::EdgeHit { edge, ratio })))
                    }
                },
            }
        },
        SimOp::InputMove { dx, dy } => give(w, InputEvent::MouseMove { dx, dy }),
        SimOp::InputKey { key, pressed } => give(w, InputEvent::Key { key, pressed }),
        SimOp::Hotkey => {
            if w.capture.is_none() {
                (SimReply::Failed("no capture".to_owned()), None)
            } else {
                (SimReply::Done, Some(SimOut::Captured(Captured::SharedHotkey)))
            }
        },
        SimOp::Arrange { machine, monitors } => {
            if monitors.len() == 0 {
                (SimReply::Failed("no monitors".to_owned()), None)
            } else {
                (SimReply::Done, Some(SimOut::Command(UiCmd::Arrange { machine, monitors })))
            }
        },
        SimOp::State => {
            let monitors: Vec<Rect> = copy_rects(&w.monitors);
            let reply: SimReply = match &w.capture {
                Some(ctl) => SimReply::State {
                    cursor: w.cursor,
                    monitors,
                    forwarding: ctl.forwarding,
                    driven: ctl.driven,
                    portals: copy_edges(&ctl.portals),
                    blocked: ctl.blocked,
                    injected: w.injected.len(),
                },
                None => {
                    let none: Vec<Edge> = Vec::new();
                    assert(none@ =~= seq![]);
                    SimReply::State {
                        cursor: w.cursor,
                        monitors,
                        forwarding: false,
                        driven: false,
                        portals: none,
                        blocked: None,
                        injected: w.injected.len(),
                    }
                },
            };
            (reply, None)
        },
        SimOp::Injected => {
            let mut events: Vec<Recorded> = Vec::new();
            std::mem::swap(&mut events, &mut w.injected);
            assert(recorded_view(w.injected@) =~= seq![]);
            (SimReply::Injected(events), None)
        },
        SimOp::Unknown(name) => (
            SimReply::Failed(joined(joined("unknown op '", name.as_str()).as_str(), "'")),
            None,
        ),
    }
}

/// Handles a line of the control socket.
pub fn handle(w: &mut SimWorld, line: &[u8], ratio: F32) -> (r: (SimReply, Option<SimOut>))
    ensures
        match json::json_read(line@) {
            Ok(v) => (final(w)@, r.0@, out_view(r.1)) == old(w)@.performed(op_of(v), ratio),
            Err(e) => final(w)@ == old(w)@ && r.0@ == ReplyView::Failed("bad json: "@ + e) && r.1
                is None,
        },
{
    match json::read(line) {
        Ok(v) => {
            let op: SimOp = read_op(&v);
            perform(w, op, ratio)
        },
        Err(e) => (SimReply::Failed(joined("bad json: ", e.as_str())), None),
    }
}

} // verus!
