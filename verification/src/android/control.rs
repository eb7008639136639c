//! The control session: the reports of a virtual mouse and a virtual keyboard.
use vstd::prelude::*;

use crate::android::devices::{self, first_serial, Device, DeviceView};
use crate::text::{self, joined};
use crate::wire::push_all;

verus! {

pub const FORWARD_PORT_BASE: u16 = 27600;

pub const UHID_MOUSE_ID: u16 = 1;

pub const UHID_KBD_ID: u16 = 2;

/// scrcpy control messages.
pub const MSG_UHID_CREATE: u8 = 12;

pub const MSG_UHID_INPUT: u8 = 13;

/// The standard relative-mouse HID report descriptor (5 buttons, wheel, AC pan).
pub open spec fn mouse_report_desc() -> Seq<u8> {
    seq![
        0x05, 0x01, 0x09, 0x02, 0xA1, 0x01, 0x09, 0x01, 0xA1, 0x00, 0x05, 0x09,
        0x19, 0x01, 0x29, 0x05, 0x15, 0x00, 0x25, 0x01, 0x95, 0x05, 0x75, 0x01,
        0x81, 0x02, 0x95, 0x01, 0x75, 0x03, 0x81, 0x01, 0x05, 0x01, 0x09, 0x30,
        0x09, 0x31, 0x09, 0x38, 0x15, 0x81, 0x25, 0x7F, 0x75, 0x08, 0x95, 0x03,
        0x81, 0x06, 0x05, 0x0C, 0x0A, 0x38, 0x02, 0x15, 0x81, 0x25, 0x7F, 0x75,
        0x08, 0x95, 0x01, 0x81, 0x06, 0xC0, 0xC0,
    ]
}

/// The keyboard HID report descriptor, with the LED output report that Android wants.
/// Its input report has 8 bytes: modifiers, a reserved one, and six keys.
pub open spec fn kbd_report_desc() -> Seq<u8> {
    seq![
        0x05, 0x01, 0x09, 0x06, 0xA1, 0x01, 0x05, 0x07, 0x19, 0xE0, 0x29, 0xE7,
        0x15, 0x00, 0x25, 0x01, 0x75, 0x01, 0x95, 0x08, 0x81, 0x02, 0x75, 0x08,
        0x95, 0x01, 0x81, 0x01, 0x05, 0x08, 0x19, 0x01, 0x29, 0x05, 0x75, 0x01,
        0x95, 0x05, 0x91, 0x02, 0x75, 0x03, 0x95, 0x01, 0x91, 0x01, 0x05, 0x07,
        0x19, 0x00, 0x29, 0x65, 0x15, 0x00, 0x25, 0x65, 0x75, 0x08, 0x95, 0x06,
        0x81, 0x00, 0xC0,
    ]
}

/// A number of 16 bits, the high byte first.
pub open spec fn be16(n: int) -> Seq<u8> {
    seq![(n / 256) as u8, (n % 256) as u8]
}

/// A report of a virtual device, as a control message.
pub open spec fn uhid_input(id: u16, data: Seq<u8>) -> Seq<u8> {
    seq![MSG_UHID_INPUT] + be16(id as int) + be16(data.len() as int) + data
}

/// The registration of a virtual device, as a control message: its vendor and product
/// are zero.
pub open spec fn uhid_create(id: u16, name: Seq<u8>, desc: Seq<u8>) -> Seq<u8> {
    seq![MSG_UHID_CREATE] + be16(id as int) + be16(0) + be16(0) + seq![name.len() as u8] + name
        + be16(desc.len() as int) + desc
}

/// A signed number of 8 bits as a byte.
pub open spec fn byte_of(d: int) -> u8 {
    (d % 256) as u8
}

/// A mouse report.
pub open spec fn mouse_report(buttons: u8, dx: int, dy: int, wheel: int, hpan: int) -> Seq<u8> {
    uhid_input(
        UHID_MOUSE_ID,
        seq![buttons, byte_of(dx), byte_of(dy), byte_of(wheel), byte_of(hpan)],
    )
}

/// A keyboard report: of the keys that are held, the first six.
pub open spec fn kbd_report(mods: u8, keys: Seq<u8>) -> Seq<u8> {
    uhid_input(
        UHID_KBD_ID,
        Seq::new(
            8,
            |i: int|
                if i == 0 {
                    mods
                } else if 2 <= i < 2 + keys.len() {
                    keys[i - 2]
                } else {
                    0u8
                },
        ),
    )
}

/// Appends a number of 16 bits, the high byte first.
fn push_be16(m: &mut Vec<u8>, n: u16)
    ensures
        final(m)@ == old(m)@ + be16(n as int),
{
    m.push((n / 256) as u8);
    m.push((n % 256) as u8);
    assert(m@ =~= old(m)@ + be16(n as int));
}

/// A report of a virtual device.
pub fn uhid_input_msg(id: u16, data: &[u8]) -> (r: Vec<u8>)
    requires
        data@.len() <= 0xffff,
    ensures
        r@ == uhid_input(id, data@),
{
    let mut m: Vec<u8> = Vec::new();
    m.push(MSG_UHID_INPUT);
    assert(m@ =~= seq![MSG_UHID_INPUT]);
    push_be16(&mut m, id);
    push_be16(&mut m, data.len() as u16);
    push_all(&mut m, data);
    m
}

/// The registration of a virtual device.
pub fn uhid_create_msg(id: u16, name: &[u8], desc: &[u8]) -> (r: Vec<u8>)
    requires
        name@.len() <= 0xff,
        desc@.len() <= 0xffff,
    ensures
        r@ == uhid_create(id, name@, desc@),
{
    let mut m: Vec<u8> = Vec::new();
    m.push(MSG_UHID_CREATE);
    assert(m@ =~= seq![MSG_UHID_CREATE]);
    push_be16(&mut m, id);
    push_be16(&mut m, 0);
    push_be16(&mut m, 0);
    let ghost head = m@;
    m.push(name.len() as u8);
    assert(m@ =~= head + seq![name@.len() as u8]);
    push_all(&mut m, name);
    push_be16(&mut m, desc.len() as u16);
    push_all(&mut m, desc);
    m
}

/// A signed number of 8 bits as a byte.
fn to_byte(d: i8) -> (r: u8)
    ensures
        r == byte_of(d as int),
{
    let n: i16 = d as i16;
    if n < 0 {
        (n + 256) as u8
    } else {
        n as u8
    }
}

/// A mouse report.
pub fn mouse_report_msg(buttons: u8, dx: i8, dy: i8, wheel: i8, hpan: i8) -> (r: Vec<u8>)
    ensures
        r@ == mouse_report(buttons, dx as int, dy as int, wheel as int, hpan as int),
{
    let data: [u8; 5] = [buttons, to_byte(dx), to_byte(dy), to_byte(wheel), to_byte(hpan)];
    let d: &[u8] = data.as_slice();
    assert(d@ =~= seq![
        buttons,
        byte_of(dx as int),
        byte_of(dy as int),
        byte_of(wheel as int),
        byte_of(hpan as int),
    ]);
    uhid_input_msg(UHID_MOUSE_ID, d)
}

/// A keyboard report.
pub fn kbd_report_msg(mods: u8, keys: &Vec<u8>) -> (r: Vec<u8>)
    ensures
        r@ == kbd_report(mods, keys@),
{
    let mut data: Vec<u8> = Vec::new();
    data.push(mods);
    data.push(0);
    for i in 0usize..6
        invariant
            data@.len() == i + 2,
            data@[0] == mods,
            data@[1] == 0,
            forall|j: int|
                2 <= j < i + 2 ==> data@[j] == if j < 2 + keys@.len() {
                    keys@[j - 2]
                } else {
                    0u8
                },
    {
        if i < keys.len() {
            data.push(keys[i]);
        } else {
            data.push(0);
        }
    }
    let d: &[u8] = data.as_slice();
    assert(d@ =~= Seq::new(
        8,
        |i: int|
            if i == 0 {
                mods
            } else if 2 <= i < 2 + keys@.len() {
                keys@[i - 2]
            } else {
                0u8
            },
    ));
    uhid_input_msg(UHID_KBD_ID, d)
}

/// One command for the writer. Moves are coalescable; everything else is one control
/// message, written in its turn.
#[derive(Debug)]
pub enum Cmd {
    Move { buttons: u8, dx: i32, dy: i32 },
    /// The buttons that are now held, without motion.
    Buttons(u8),
    Report(Vec<u8>),
}

/// What a command says.
#[verifier::ext_equal]
pub ghost enum CmdView {
    Move { buttons: u8, dx: int, dy: int },
    Buttons(u8),
    Report(Seq<u8>),
}

impl View for Cmd {
    type V = CmdView;

    open spec fn view(&self) -> CmdView {
        match self {
            Cmd::Move { buttons, dx, dy } => CmdView::Move {
                buttons: *buttons,
                dx: *dx as int,
                dy: *dy as int,
            },
            Cmd::Buttons(b) => CmdView::Buttons(*b),
            Cmd::Report(v) => CmdView::Report(v@),
        }
    }
}

/// What some commands say.
pub open spec fn cmds_view(v: Seq<Cmd>) -> Seq<CmdView> {
    v.map_values(|c: Cmd| c@)
}

/// What an optional command says.
pub open spec fn cmd_view(c: Option<Cmd>) -> Option<CmdView> {
    match c {
        Some(c) => Some(c@),
        None => None,
    }
}

/// A live control session.
#[derive(Debug)]
pub struct TabletSink {
    pub serial: String,
    pub buttons: u8,
    /// Keyboard state: modifier bitmask and up to 6 held non-modifier HID usages.
    pub mods: u8,
    pub keys: Vec<u8>,
    /// Tablet screen size in px, for the virtual cursor and the edge return.
    pub size: (i32, i32),
}

/// What a session knows.
#[verifier::ext_equal]
pub ghost struct SinkView {
    pub serial: Seq<char>,
    pub buttons: u8,
    pub mods: u8,
    pub keys: Seq<u8>,
    pub size: (int, int),
}

impl View for TabletSink {
    type V = SinkView;

    open spec fn view(&self) -> SinkView {
        SinkView {
            serial: self.serial@,
            buttons: self.buttons,
            mods: self.mods,
            keys: self.keys@,
            size: (self.size.0 as int, self.size.1 as int),
        }
    }
}

/// What an optional session knows.
pub open spec fn sink_view(s: Option<TabletSink>) -> Option<SinkView> {
    match s {
        Some(t) => Some(t@),
        None => None,
    }
}

impl SinkView {
    /// At most six keys are held, none of them twice, and none is a modifier.
    pub open spec fn wf(self) -> bool {
        &&& self.keys.len() <= 6
        &&& self.keys.no_duplicates()
        &&& forall|i: int| 0 <= i < self.keys.len() ==> !is_mod(#[trigger] self.keys[i])
    }

    /// After a mouse button.
    pub open spec fn after_button(self, index: u8, pressed: bool) -> SinkView {
        SinkView { buttons: with_bit(self.buttons, index, pressed), ..self }
    }

    /// After a key.
    pub open spec fn after_key(self, hid: u8, pressed: bool) -> SinkView {
        if is_mod(hid) {
            SinkView { mods: with_bit(self.mods, (hid - 0xE0) as u8, pressed), ..self }
        } else {
            SinkView { keys: keys_after(self.keys, hid, pressed), ..self }
        }
    }
}

/// A modifier key.
pub open spec fn is_mod(hid: u8) -> bool {
    0xE0 <= hid <= 0xE7
}

/// `b` with one of its bits set or cleared.
pub open spec fn with_bit(b: u8, i: u8, on: bool) -> u8 {
    if on {
        b | (1u8 << i)
    } else {
        b & !(1u8 << i)
    }
}

/// Is a bit set?
pub open spec fn has_bit(b: u8, i: u8) -> bool {
    b & (1u8 << i) != 0
}

/// A button, or a modifier, changes alone: its bit follows the press, the others stay.
pub proof fn law_buttons_are_independent(b: u8, i: u8, j: u8, on: bool)
    requires
        i < 8,
        j < 8,
    ensures
        has_bit(with_bit(b, i, on), j) == if i == j {
            on
        } else {
            has_bit(b, j)
        },
{
    assert(i < 8 && j < 8 ==> ((b | (1u8 << i)) & (1u8 << j) != 0) == (i == j || b & (1u8 << j)
        != 0)) by (bit_vector);
    assert(i < 8 && j < 8 ==> ((b & !(1u8 << i)) & (1u8 << j) != 0) == (i != j && b & (1u8 << j)
        != 0)) by (bit_vector);
}

/// Keys other than one.
pub open spec fn not_key(hid: u8) -> spec_fn(u8) -> bool {
    |k: u8| k != hid
}

/// The keys that are held after one was pressed or released. A seventh key pushes out
/// the one that has been held longest.
pub open spec fn keys_after(keys: Seq<u8>, hid: u8, pressed: bool) -> Seq<u8> {
    if pressed {
        if keys.contains(hid) {
            keys
        } else if keys.len() >= 6 {
            keys.skip(1).push(hid)
        } else {
            keys.push(hid)
        }
    } else {
        keys.filter(not_key(hid))
    }
}

/// Leaving out keys keeps a list short and free of repeats.
proof fn lemma_filtered_keys(keys: Seq<u8>, hid: u8)
    requires
        keys.no_duplicates(),
    ensures
        keys.filter(not_key(hid)).len() <= keys.len(),
        keys.filter(not_key(hid)).no_duplicates(),
        !keys.filter(not_key(hid)).contains(hid),
        forall|k: u8| #[trigger] keys.filter(not_key(hid)).contains(k) ==> keys.contains(k),
    decreases keys.len(),
{
    reveal(Seq::filter);
    let f = keys.filter(not_key(hid));
    if keys.len() > 0 {
        let rest = keys.drop_last();
        lemma_filtered_keys(rest, hid);
        let g = rest.filter(not_key(hid));
        assert forall|k: u8| #[trigger] f.contains(k) implies keys.contains(k) by {
            if k == keys.last() {
                assert(keys[keys.len() - 1] == k);
            } else {
                let n = choose|n: int| 0 <= n < f.len() && f[n] == k;
                assert(g[n] == k);
                assert(g.contains(k));
                let m = choose|m: int| 0 <= m < rest.len() && rest[m] == k;
                assert(keys[m] == k);
            }
        }
        if keys.last() != hid {
            assert(f =~= g.push(keys.last()));
            assert(!g.contains(keys.last())) by {
                if g.contains(keys.last()) {
                    assert(rest.contains(keys.last()));
                    let m = choose|m: int| 0 <= m < rest.len() && rest[m] == keys.last();
                    assert(keys[m] == keys[keys.len() - 1]);
                }
            }
            assert(!f.contains(hid)) by {
                if f.contains(hid) {
                    let n = choose|n: int| 0 <= n < f.len() && f[n] == hid;
                    assert(g[n] == hid);
                    assert(g.contains(hid));
                }
            }
            assert forall|a: int, b: int| 0 <= a < f.len() && 0 <= b < f.len() && a != b implies f[a]
                != f[b] by {
                if a == g.len() {
                    assert(g.contains(f[b]));
                } else if b == g.len() {
                    assert(g.contains(f[a]));
                }
            }
        }
    }
}

/// The keyboard state stays within what a report can say: whatever is pressed or
/// released, at most six keys are held, none of them twice. A key that was released is
/// not held, and one that was pressed is.
pub proof fn law_keys_stay_within_a_report(s: SinkView, hid: u8, pressed: bool)
    requires
        s.wf(),
    ensures
        s.after_key(hid, pressed).wf(),
        !is_mod(hid) ==> s.after_key(hid, pressed).keys.contains(hid) == pressed,
{
    if !is_mod(hid) {
        let k = s.keys;
        let next = s.after_key(hid, pressed).keys;
        if pressed {
            if !k.contains(hid) {
                let base = if k.len() >= 6 {
                    k.skip(1)
                } else {
                    k
                };
                assert(next =~= base.push(hid));
                assert(next[base.len() as int] == hid);
                assert(!base.contains(hid)) by {
                    if base.contains(hid) {
                        let n = choose|n: int| 0 <= n < base.len() && base[n] == hid;
                        assert(k.contains(hid)) by {
                            if k.len() >= 6 {
                                assert(k[n + 1] == hid);
                            } else {
                                assert(k[n] == hid);
                            }
                        }
                    }
                }
                assert forall|a: int, b: int|
                    0 <= a < next.len() && 0 <= b < next.len() && a != b implies next[a]
                    != next[b] by {
                    if a == base.len() {
                        assert(base.contains(next[b]));
                    } else if b == base.len() {
                        assert(base.contains(next[a]));
                    }
                }
            }
        } else {
            lemma_filtered_keys(k, hid);
            assert forall|i: int| 0 <= i < next.len() implies !is_mod(#[trigger] next[i]) by {
                assert(next.contains(next[i]));
                assert(k.contains(next[i]));
            }
        }
    }
}

/// A fresh session: nothing is held.
pub fn session(serial: &str, size: (i32, i32)) -> (r: TabletSink)
    ensures
        r@ == (SinkView {
            serial: serial@,
            buttons: 0,
            mods: 0,
            keys: seq![],
            size: (size.0 as int, size.1 as int),
        }),
        r@.wf(),
{
    let r: TabletSink = TabletSink {
        serial: serial.to_owned(),
        buttons: 0,
        mods: 0,
        keys: Vec::new(),
        size,
    };
    assert(r@.keys =~= seq![]);
    r
}

/// What a fresh session starts with: the registration of its mouse and its keyboard.
pub fn registration() -> (r: Vec<Cmd>)
    ensures
        cmds_view(r@) == seq![
            CmdView::Report(
                uhid_create(
                    UHID_MOUSE_ID,
                    vstd::utf8::encode_utf8("kayiver mouse"@),
                    mouse_report_desc(),
                ),
            ),
            CmdView::Report(
                uhid_create(
                    UHID_KBD_ID,
                    vstd::utf8::encode_utf8("kayiver keyboard"@),
                    kbd_report_desc(),
                ),
            ),
        ],
{
    let mouse: [u8; 67] = [
        0x05, 0x01, 0x09, 0x02, 0xA1, 0x01, 0x09, 0x01, 0xA1, 0x00, 0x05, 0x09,
        0x19, 0x01, 0x29, 0x05, 0x15, 0x00, 0x25, 0x01, 0x95, 0x05, 0x75, 0x01,
        0x81, 0x02, 0x95, 0x01, 0x75, 0x03, 0x81, 0x01, 0x05, 0x01, 0x09, 0x30,
        0x09, 0x31, 0x09, 0x38, 0x15, 0x81, 0x25, 0x7F, 0x75, 0x08, 0x95, 0x03,
        0x81, 0x06, 0x05, 0x0C, 0x0A, 0x38, 0x02, 0x15, 0x81, 0x25, 0x7F, 0x75,
        0x08, 0x95, 0x01, 0x81, 0x06, 0xC0, 0xC0,
    ];
    let kbd: [u8; 63] = [
        0x05, 0x01, 0x09, 0x06, 0xA1, 0x01, 0x05, 0x07, 0x19, 0xE0, 0x29, 0xE7,
        0x15, 0x00, 0x25, 0x01, 0x75, 0x01, 0x95, 0x08, 0x81, 0x02, 0x75, 0x08,
        0x95, 0x01, 0x81, 0x01, 0x05, 0x08, 0x19, 0x01, 0x29, 0x05, 0x75, 0x01,
        0x95, 0x05, 0x91, 0x02, 0x75, 0x03, 0x95, 0x01, 0x91, 0x01, 0x05, 0x07,
        0x19, 0x00, 0x29, 0x65, 0x15, 0x00, 0x25, 0x65, 0x75, 0x08, 0x95, 0x06,
        0x81, 0x00, 0xC0,
    ];
    proof {
        assert(mouse@ =~= mouse_report_desc());
        assert(kbd@ =~= kbd_report_desc());
        reveal_strlit("kayiver mouse");
        reveal_strlit("kayiver keyboard");
        vstd::utf8::is_ascii_chars_encode_utf8("kayiver mouse"@);
        vstd::utf8::is_ascii_chars_encode_utf8("kayiver keyboard"@);
    }
    let mut out: Vec<Cmd> = Vec::new();
    out.push(
        Cmd::Report(
            uhid_create_msg(UHID_MOUSE_ID, "kayiver mouse".as_bytes(), mouse.as_slice()),
        ),
    );
    out.push(
        Cmd::Report(
            uhid_create_msg(UHID_KBD_ID, "kayiver keyboard".as_bytes(), kbd.as_slice()),
        ),
    );
    assert(cmds_view(out@) =~= seq![out@[0]@, out@[1]@]);
    out
}

/// The arguments that start the server on the device: control only, no video or audio,
/// through a forwarded port.
pub open spec fn server_args_of(scid: Seq<char>) -> Seq<Seq<char>> {
    seq![
        "CLASSPATH=/data/local/tmp/scrcpy-server.jar"@,
        "app_process"@,
        "/"@,
        "com.genymobile.scrcpy.Server"@,
        "4.1"@,
        "scid="@ + scid,
        "log_level=warn"@,
        "video=false"@,
        "audio=false"@,
        "control=true"@,
        "tunnel_forward=true"@,
        "cleanup=true"@,
        "stay_awake=true"@,
        "power_on=true"@,
    ]
}

/// The arguments that start the server on the device.
pub fn server_args(scid: &str) -> (r: Vec<String>)
    ensures
        text::texts(r@) == server_args_of(scid@),
{
    let mut v: Vec<String> = Vec::new();
    v.push("CLASSPATH=/data/local/tmp/scrcpy-server.jar".to_owned());
    v.push("app_process".to_owned());
    v.push("/".to_owned());
    v.push("com.genymobile.scrcpy.Server".to_owned());
    v.push("4.1".to_owned());
    v.push(joined("scid=", scid));
    v.push("log_level=warn".to_owned());
    v.push("video=false".to_owned());
    v.push("audio=false".to_owned());
    v.push("control=true".to_owned());
    v.push("tunnel_forward=true".to_owned());
    v.push("cleanup=true".to_owned());
    v.push("stay_awake=true".to_owned());
    v.push("power_on=true".to_owned());
    assert(text::texts(v@) =~= server_args_of(scid@));
    v
}

/// The tablet's screen size in px (for edge-return math), if connected.
pub fn size(sink: &Option<TabletSink>) -> (r: Option<(i32, i32)>)
    ensures
        devices::size_view(r) == match sink_view(*sink) {
            Some(s) => Some(s.size),
            None => None,
        },
{
    match sink {
        Some(s) => Some(s.size),
        None => None,
    }
}

/// True while a tablet control session is live.
pub fn is_connected(sink: &Option<TabletSink>) -> (r: bool)
    ensures
        r == (sink is Some),
{
    sink.is_some()
}

/// The serial of the connected tablet, if any.
pub fn connected_serial(sink: &Option<TabletSink>) -> (r: Option<String>)
    ensures
        text::opt_text(r) == match sink_view(*sink) {
            Some(s) => Some(s.serial),
            None => None,
        },
{
    match sink {
        Some(s) => Some(s.serial.clone()),
        None => None,
    }
}

/// How far the attempt to have a session up has come.
#[derive(Debug)]
pub enum Effort {
    /// It begins.
    Begun,
    /// These devices are visible.
    Listed(Vec<Device>),
    /// A device was asked to connect.
    Tried,
}

/// How far the attempt has come, as values.
#[verifier::ext_equal]
pub ghost enum EffortView {
    Begun,
    Listed(Seq<DeviceView>),
    Tried,
}

impl View for Effort {
    type V = EffortView;

    open spec fn view(&self) -> EffortView {
        match *self {
            Effort::Begun => EffortView::Begun,
            Effort::Listed(d) => EffortView::Listed(devices::devices_view(d@)),
            Effort::Tried => EffortView::Tried,
        }
    }
}

/// What is to be done so that a session is up, or whether one is live.
#[derive(Debug)]
pub enum Ensure {
    /// List the devices.
    List,
    /// Connect this device.
    Connect(String),
    /// Nothing is left to be done: is a session live?
    Done(bool),
}

/// What is to be done so that a session is up, as values.
#[verifier::ext_equal]
pub ghost enum EnsureView {
    List,
    Connect(Seq<char>),
    Done(bool),
}

impl View for Ensure {
    type V = EnsureView;

    open spec fn view(&self) -> EnsureView {
        match *self {
            Ensure::List => EnsureView::List,
            Ensure::Connect(s) => EnsureView::Connect(s@),
            Ensure::Done(live) => EnsureView::Done(live),
        }
    }
}

/// What is to be done so that a session is up: nothing where one is live; else the first
/// visible device is connected, once.
pub open spec fn ensuring(live: bool, effort: EffortView) -> EnsureView {
    if live {
        EnsureView::Done(true)
    } else {
        match effort {
            EffortView::Begun => EnsureView::List,
            EffortView::Listed(d) if d.len() > 0 => EnsureView::Connect(d[0].serial),
            _ => EnsureView::Done(false),
        }
    }
}

/// Makes sure that a session is up: connects the first device if none is. Says what is to
/// be done next, and in the end whether a session is live.
pub fn ensure_connected(sink: &Option<TabletSink>, effort: &Effort) -> (r: Ensure)
    ensures
        r@ == ensuring(sink is Some, effort@),
{
    if is_connected(sink) {
        return Ensure::Done(true);
    }
    match effort {
        Effort::Begun => Ensure::List,
        Effort::Listed(found) => match first_serial(found) {
            Some(serial) => Ensure::Connect(serial),
            None => Ensure::Done(false),
        },
        Effort::Tried => Ensure::Done(false),
    }
}

/// What comes of making sure that a session is up, where these devices are visible and
/// connecting one leaves this session, or none.
pub ghost struct Ensured {
    /// The device that was connected, if any.
    pub connected: Option<Seq<char>>,
    /// The session in the end.
    pub session: Option<SinkView>,
    /// The answer.
    pub live: bool,
}

/// Makes sure that a session is up, step by step.
pub open spec fn ensured(
    before: Option<SinkView>,
    visible: Seq<DeviceView>,
    connecting: spec_fn(Seq<char>) -> Option<SinkView>,
) -> Ensured {
    match ensuring(before is Some, EffortView::Begun) {
        EnsureView::List => match ensuring(before is Some, EffortView::Listed(visible)) {
            EnsureView::Connect(serial) => {
                let after = connecting(serial);
                Ensured {
                    connected: Some(serial),
                    session: after,
                    live: ensuring(after is Some, EffortView::Tried) == EnsureView::Done(true),
                }
            },
            done => Ensured {
                connected: None,
                session: before,
                live: done == EnsureView::Done(true),
            },
        },
        done => Ensured { connected: None, session: before, live: done == EnsureView::Done(true) },
    }
}

/// The answer is whether a session is live in the end. One that was live stays the same,
/// and no device is connected; nor is one where none is visible, and the answer is no.
/// Otherwise the first visible device is connected.
pub proof fn law_the_answer_is_whether_a_session_is_live(
    before: Option<SinkView>,
    visible: Seq<DeviceView>,
    connecting: spec_fn(Seq<char>) -> Option<SinkView>,
)
    ensures
        ({
            let e = ensured(before, visible, connecting);
            &&& e.live == (e.session is Some)
            &&& before is Some ==> e.live && e.session == before && e.connected is None
            &&& before is None && visible.len() == 0 ==> !e.live && e.connected is None
            &&& before is None && visible.len() > 0 ==> e.connected == Some(visible[0].serial)
                && e.session == connecting(visible[0].serial)
        }),
{
}

/// Ends the session: what has to be torn down.
pub fn disconnect(sink: &mut Option<TabletSink>) -> (r: Option<TabletSink>)
    ensures
        r == *old(sink),
        *final(sink) is None,
{
    sink.take()
}

/// Forward a relative move (coalesced and chunked by the writer).
pub fn mouse_move(sink: &Option<TabletSink>, dx: i32, dy: i32) -> (r: Option<Cmd>)
    ensures
        cmd_view(r) == match sink_view(*sink) {
            Some(s) => Some(CmdView::Move { buttons: s.buttons, dx: dx as int, dy: dy as int }),
            None => None,
        },
{
    match sink {
        Some(s) => Some(Cmd::Move { buttons: s.buttons, dx, dy }),
        None => None,
    }
}

/// A mouse button. Index: 0 left, 1 right, 2 middle, 3 X1, 4 X2; nothing else counts.
pub fn mouse_button(sink: &mut Option<TabletSink>, index: u8, pressed: bool) -> (r: Option<Cmd>)
    ensures
        match sink_view(*old(sink)) {
            Some(s) if index <= 4 => {
                let after = s.after_button(index, pressed);
                &&& sink_view(*final(sink)) == Some(after)
                &&& cmd_view(r) == Some(CmdView::Buttons(after.buttons))
            },
            _ => *final(sink) == *old(sink) && r is None,
        },
{
    if index > 4 {
        return None;
    }
    match sink {
        Some(s) => {
            if pressed {
                s.buttons = s.buttons | (1u8 << index);
            } else {
                s.buttons = s.buttons & !(1u8 << index);
            }
            Some(Cmd::Buttons(s.buttons))
        },
        None => None,
    }
}

/// `v` held between -127 and 127.
pub open spec fn clamped(v: int) -> int {
    if v < -127 {
        -127
    } else if v > 127 {
        127
    } else {
        v
    }
}

/// `v` held between -127 and 127.
pub(crate) fn clamp(v: i128) -> (r: i8)
    ensures
        r == clamped(v as int),
{
    if v < -127 {
        -127
    } else if v > 127 {
        127
    } else {
        v as i8
    }
}

/// Wheel: positive `dy` scrolls up, positive `dx` pans right.
pub fn mouse_scroll(sink: &Option<TabletSink>, dx: i32, dy: i32) -> (r: Option<Cmd>)
    ensures
        cmd_view(r) == match sink_view(*sink) {
            Some(s) => Some(
                CmdView::Report(
                    mouse_report(s.buttons, 0, 0, clamped(dy as int), clamped(dx as int)),
                ),
            ),
            None => None,
        },
{
    match sink {
        Some(s) => Some(
            Cmd::Report(mouse_report_msg(s.buttons, 0, 0, clamp(dy as i128), clamp(dx as i128))),
        ),
        None => None,
    }
}

/// Is the key held?
fn holds_key(keys: &Vec<u8>, hid: u8) -> (r: bool)
    ensures
        r == keys@.contains(hid),
{
    for i in 0..keys.len()
        invariant
            forall|j: int| 0 <= j < i ==> keys@[j] != hid,
    {
        if keys[i] == hid {
            return true;
        }
    }
    false
}

/// The keys other than one.
fn without_key(keys: &Vec<u8>, hid: u8) -> (r: Vec<u8>)
    ensures
        r@ == keys@.filter(not_key(hid)),
{
    let mut out: Vec<u8> = Vec::new();
    proof {
        reveal(Seq::filter);
        assert(keys@.take(0) =~= seq![]);
        assert(out@ =~= seq![]);
    }
    for i in 0..keys.len()
        invariant
            out@ == keys@.take(i as int).filter(not_key(hid)),
    {
        proof {
            reveal(Seq::filter);
            assert(keys@.take(i + 1).drop_last() =~= keys@.take(i as int));
        }
        if keys[i] != hid {
            out.push(keys[i]);
        }
    }
    assert(keys@.take(keys@.len() as int) =~= keys@);
    out
}

/// Forward a key by HID usage code. Modifiers (0xE0..=0xE7) set the modifier byte;
/// other keys go into the 6-key rollover array. Zero and what does not fit in a byte
/// are no keys.
pub fn key(sink: &mut Option<TabletSink>, hid: u16, pressed: bool) -> (r: Option<Cmd>)
    ensures
        match sink_view(*old(sink)) {
            Some(s) if 0 < hid <= 0xFF => {
                let after = s.after_key(hid as u8, pressed);
                &&& sink_view(*final(sink)) == Some(after)
                &&& cmd_view(r) == Some(CmdView::Report(kbd_report(after.mods, after.keys)))
            },
            _ => *final(sink) == *old(sink) && r is None,
        },
{
    if hid == 0 || hid > 0xFF {
        return None;
    }
    let h: u8 = hid as u8;
    match sink {
        Some(s) => {
            if 0xE0 <= h && h <= 0xE7 {
                let bit: u8 = 1u8 << (h - 0xE0);
                if pressed {
                    s.mods = s.mods | bit;
                } else {
                    s.mods = s.mods & !bit;
                }
            } else if pressed {
                if !holds_key(&s.keys, h) {
                    if s.keys.len() >= 6 {
                        let ghost before = s.keys@;
                        s.keys.remove(0);
                        assert(s.keys@ =~= before.skip(1));
                    }
                    s.keys.push(h);
                }
            } else {
                s.keys = without_key(&s.keys, h);
            }
            Some(Cmd::Report(kbd_report_msg(s.mods, &s.keys)))
        },
        None => None,
    }
}

} // verus!
