//! The devices that adb sees, and how to reach them.
use vstd::prelude::*;

use crate::config::{self, hex_char};
use crate::parse::{self, contains, lines, parse_i32, pieces, split_once, strip_prefix, words, Cut};
use crate::text::{self, has_char, joined, replace_char, same_text, trim};

verus! {

/// A device adb can see.
#[derive(Debug)]
pub struct Device {
    pub serial: String,
    pub model: String,
    /// "usb" or "wifi" (a `host:port` serial means it's over TCP/IP).
    pub connection: String,
}

/// What a device's entry says.
#[verifier::ext_equal]
pub ghost struct DeviceView {
    pub serial: Seq<char>,
    pub model: Seq<char>,
    pub connection: Seq<char>,
}

impl View for Device {
    type V = DeviceView;

    open spec fn view(&self) -> DeviceView {
        DeviceView {
            serial: self.serial@,
            model: self.model@,
            connection: self.connection@,
        }
    }
}

/// What a list of devices says.
pub open spec fn devices_view(v: Seq<Device>) -> Seq<DeviceView> {
    v.map_values(|d: Device| d@)
}

/// The first model that some words name.
pub open spec fn model_in(w: Seq<Seq<char>>) -> Seq<char>
    decreases w.len(),
{
    if w.len() == 0 {
        "Android"@
    } else {
        match parse::after(w[0], "model:"@) {
            Some(m) => m,
            None => model_in(w.skip(1)),
        }
    }
}

/// The connection that a serial stands for.
pub open spec fn connection_of(serial: Seq<char>) -> Seq<char> {
    if serial.contains(':') {
        "wifi"@
    } else {
        "usb"@
    }
}

/// The device on a line of `adb devices -l`: its serial, the word "device", and among
/// the rest its model, with spaces in place of underscores.
pub open spec fn device_on(line: Seq<char>) -> Option<DeviceView> {
    let w = parse::words_of(line);
    if w.len() >= 2 && w[1] == "device"@ {
        Some(
            DeviceView {
                serial: w[0],
                model: text::with_char(model_in(w), '_', ' '),
                connection: connection_of(w[0]),
            },
        )
    } else {
        None
    }
}

/// Where the first device of a model stands in a list; its length where there is none.
pub open spec fn slot_of(list: Seq<DeviceView>, model: Seq<char>) -> int
    decreases list.len(),
{
    if list.len() == 0 || list[0].model == model {
        0
    } else {
        1 + slot_of(list.skip(1), model)
    }
}

/// The list after one more device was seen. The same physical tablet can appear over
/// both USB and Wi-Fi; one per model is kept, preferring the USB link.
pub open spec fn listed(list: Seq<DeviceView>, d: DeviceView) -> Seq<DeviceView> {
    let i = slot_of(list, d.model);
    if i == list.len() {
        list.push(d)
    } else if list[i].connection != "usb"@ && d.connection == "usb"@ {
        list.update(i, d)
    } else {
        list
    }
}

/// The list after some lines.
pub open spec fn listed_on(rows: Seq<Seq<char>>) -> Seq<DeviceView>
    decreases rows.len(),
{
    if rows.len() == 0 {
        seq![]
    } else {
        let before = listed_on(rows.drop_last());
        match device_on(rows.last()) {
            Some(d) => listed(before, d),
            None => before,
        }
    }
}

/// The devices in the output of `adb devices -l`, whose first line is a heading.
pub open spec fn devices_in(output: Seq<char>) -> Seq<DeviceView> {
    let rows = parse::lines_of(output);
    if rows.len() == 0 {
        seq![]
    } else {
        listed_on(rows.skip(1))
    }
}

/// A slot is the first place of its model.
proof fn lemma_slot(list: Seq<DeviceView>, model: Seq<char>)
    ensures
        0 <= slot_of(list, model) <= list.len(),
        slot_of(list, model) < list.len() ==> list[slot_of(list, model)].model == model,
        forall|j: int| 0 <= j < slot_of(list, model) ==> (#[trigger] list[j]).model != model,
    decreases list.len(),
{
    if list.len() > 0 && list[0].model != model {
        lemma_slot(list.skip(1), model);
        assert forall|j: int| 0 <= j < slot_of(list, model) implies (#[trigger] list[j]).model
            != model by {
            if j > 0 {
                assert(list[j] == list.skip(1)[j - 1]);
            }
        }
    }
}

/// No model stands twice.
pub open spec fn one_per_model(list: Seq<DeviceView>) -> bool {
    forall|i: int, j: int|
        0 <= i < j < list.len() ==> (#[trigger] list[i]).model != (#[trigger] list[j]).model
}

/// Each tablet is listed once, whatever ways adb sees it: no model stands twice.
pub proof fn law_one_device_per_model(rows: Seq<Seq<char>>)
    ensures
        one_per_model(listed_on(rows)),
    decreases rows.len(),
{
    if rows.len() > 0 {
        law_one_device_per_model(rows.drop_last());
        match device_on(rows.last()) {
            Some(d) => {
                lemma_slot(listed_on(rows.drop_last()), d.model);
            },
            None => {},
        }
    }
}

/// A tablet that adb sees over USB is listed with its USB link: the entry of its model
/// says "usb".
pub proof fn law_usb_is_preferred(rows: Seq<Seq<char>>, k: int, d: DeviceView)
    requires
        0 <= k < rows.len(),
        device_on(rows[k]) == Some(d),
        d.connection == "usb"@,
    ensures
        slot_of(listed_on(rows), d.model) < listed_on(rows).len(),
        listed_on(rows)[slot_of(listed_on(rows), d.model)].connection == "usb"@,
    decreases rows.len(),
{
    let before = listed_on(rows.drop_last());
    let i = slot_of(before, d.model);
    law_one_device_per_model(rows.drop_last());
    law_one_device_per_model(rows);
    lemma_slot(before, d.model);
    lemma_slot(listed_on(rows), d.model);
    if k < rows.len() - 1 {
        law_usb_is_preferred(rows.drop_last(), k, d);
        match device_on(rows.last()) {
            Some(e) => {
                lemma_slot(before, e.model);
                assert(listed_on(rows)[i].model == d.model);
            },
            None => {},
        }
    } else {
        if i < before.len() {
            assert(listed_on(rows)[i].model == d.model);
        } else {
            assert(listed_on(rows).last() == d);
            assert(listed_on(rows)[before.len() as int].model == d.model);
        }
    }
}

/// The first model that some words name.
fn find_model(w: &Vec<String>) -> (r: String)
    ensures
        r@ == model_in(text::texts(w@)),
{
    let ghost all = text::texts(w@);
    assert(all.skip(0) =~= all);
    for i in 0..w.len()
        invariant
            all == text::texts(w@),
            model_in(all) == model_in(all.skip(i as int)),
    {
        assert(all.skip(i as int)[0] == w@[i as int]@);
        match strip_prefix(w[i].as_str(), "model:") {
            Some(m) => {
                return m;
            },
            None => {},
        }
        assert(all.skip(i as int).skip(1) =~= all.skip(i + 1));
    }
    "Android".to_owned()
}

/// The device on a line.
pub fn read_device(line: &str) -> (r: Option<Device>)
    ensures
        match r {
            Some(d) => device_on(line@) == Some(d@),
            None => device_on(line@) is None,
        },
{
    let w: Vec<String> = words(line);
    assert(text::texts(w@).len() == w@.len());
    if w.len() < 2 {
        return None;
    }
    proof {
        assert(text::texts(w@)[0] == w@[0]@);
        assert(text::texts(w@)[1] == w@[1]@);
    }
    if !same_text(w[1].as_str(), "device") {
        return None;
    }
    let model: String = replace_char(find_model(&w).as_str(), '_', ' ');
    let connection: String = if has_char(w[0].as_str(), ':') {
        "wifi".to_owned()
    } else {
        "usb".to_owned()
    };
    Some(Device { serial: w[0].clone(), model, connection })
}

/// Where the first device of a model stands.
fn find_slot(list: &Vec<Device>, model: &str) -> (r: usize)
    ensures
        r == slot_of(devices_view(list@), model@),
        r <= list@.len(),
{
    let ghost all = devices_view(list@);
    assert(all.skip(0) =~= all);
    for i in 0..list.len()
        invariant
            all == devices_view(list@),
            slot_of(all, model@) == i + slot_of(all.skip(i as int), model@),
    {
        assert(all.skip(i as int)[0] == list@[i as int]@);
        if same_text(list[i].model.as_str(), model) {
            return i;
        }
        assert(all.skip(i as int).skip(1) =~= all.skip(i + 1));
    }
    list.len()
}

/// The devices in the output of `adb devices -l`; none where there is no output.
pub fn list_devices(output: Option<&str>) -> (r: Vec<Device>)
    ensures
        devices_view(r@) == match output {
            Some(t) => devices_in(t@),
            None => seq![],
        },
{
    let mut list: Vec<Device> = Vec::new();
    assert(devices_view(list@) =~= seq![]);
    let out: &str = match output {
        Some(t) => t,
        None => {
            return list;
        },
    };
    let rows: Vec<String> = lines(out);
    let ghost all = text::texts(rows@);
    let ghost body = all.skip(1);
    let mut i: usize = 1;
    if rows.len() == 0 {
        return list;
    }
    assert(body.take(0) =~= seq![]);
    while i < rows.len()
        invariant
            1 <= i <= rows@.len(),
            all == text::texts(rows@),
            body == all.skip(1),
            devices_view(list@) == listed_on(body.take(i - 1)),
        decreases rows@.len() - i,
    {
        proof {
            assert(body.take(i as int).drop_last() =~= body.take(i - 1));
            assert(body.take(i as int).last() == rows@[i as int]@);
        }
        match read_device(rows[i].as_str()) {
            Some(d) => {
                let k: usize = find_slot(&list, d.model.as_str());
                let ghost before = devices_view(list@);
                let ghost dv = d@;
                if k == list.len() {
                    list.push(d);
                    assert(devices_view(list@) =~= before.push(dv));
                } else {
                    assert(before[k as int] == list@[k as int]@);
                    if !same_text(list[k].connection.as_str(), "usb") && same_text(
                        d.connection.as_str(),
                        "usb",
                    ) {
                        list[k] = d;
                        assert(devices_view(list@) =~= before.update(k as int, dv));
                    }
                }
            },
            None => {},
        }
        i = i + 1;
    }
    assert(body.take(body.len() as int) =~= body);
    list
}

/// Serial of the first visible device (for auto-connect on edge crossing).
pub fn first_serial(devices: &Vec<Device>) -> (r: Option<String>)
    ensures
        text::opt_text(r) == if devices@.len() > 0 {
            Some(devices@[0]@.serial)
        } else {
            None
        },
{
    if devices.len() > 0 {
        Some(devices[0].serial.clone())
    } else {
        None
    }
}

/// Are the tools (scrcpy server + adb) present?
pub fn tools_ready(have_adb: bool, server_jar: &Option<String>) -> (r: bool)
    ensures
        r == (have_adb && server_jar is Some),
{
    have_adb && server_jar.is_some()
}

/// The address to `adb connect`: port 5555 where none is given.
pub open spec fn wireless_addr_of(ip: Seq<char>) -> Seq<char> {
    if ip.contains(':') {
        ip
    } else {
        ip + ":5555"@
    }
}

/// The address to `adb connect`.
pub fn wireless_addr(ip: &str) -> (r: String)
    ensures
        r@ == wireless_addr_of(ip@),
{
    if has_char(ip, ':') {
        ip.to_owned()
    } else {
        joined(ip, ":5555")
    }
}

/// What becomes of adding a device over the network, given what `adb connect` printed
/// (nothing where there is no adb): its address, or what is wrong.
pub fn add_wireless(ip: &str, printed: Option<&str>) -> (r: Result<String, String>)
    ensures
        match printed {
            None => r matches Err(e) && e@ == "adb not installed"@,
            Some(t) => if parse::occurs(t@, "connected"@) || parse::occurs(t@, "already"@) {
                r matches Ok(a) && a@ == wireless_addr_of(ip@)
            } else {
                r matches Err(e) && e@ == text::trimmed(t@)
            },
        },
{
    match printed {
        None => Err("adb not installed".to_owned()),
        Some(t) => {
            if contains(t, "connected") || contains(t, "already") {
                Ok(wireless_addr(ip))
            } else {
                Err(trim(t))
            }
        },
    }
}

/// Where a word first stands among some words; their number where it does not.
pub open spec fn word_at(w: Seq<Seq<char>>, x: Seq<char>) -> int
    decreases w.len(),
{
    if w.len() == 0 || w[0] == x {
        0
    } else {
        1 + word_at(w.skip(1), x)
    }
}

/// The address that `ip addr show` prints after the word "inet", without its prefix
/// length.
pub open spec fn wlan_ip(printed: Seq<char>) -> Option<Seq<char>> {
    let w = parse::words_of(printed);
    let i = word_at(w, "inet"@);
    if i + 1 < w.len() {
        Some(parse::pieces_of(w[i + 1], Cut::At('/'))[0])
    } else {
        None
    }
}

/// The address that a USB device has on its Wi-Fi, with the port to connect to.
pub fn enable_wireless(printed: &str) -> (r: Result<String, String>)
    ensures
        match wlan_ip(printed@) {
            Some(ip) => r matches Ok(a) && a@ == ip + ":5555"@,
            None => r matches Err(e) && e@
                == "could not find the tablet's Wi-Fi IP (is it on Wi-Fi?)"@,
        },
{
    let w: Vec<String> = words(printed);
    let ghost all = text::texts(w@);
    assert(all.len() == w@.len());
    let mut i: usize = 0;
    assert(all.skip(0) =~= all);
    while i < w.len() && !same_text(w[i].as_str(), "inet")
        invariant
            i <= w@.len(),
            all == text::texts(w@),
            word_at(all, "inet"@) == i + word_at(all.skip(i as int), "inet"@),
        decreases w@.len() - i,
    {
        assert(all.skip(i as int)[0] == w@[i as int]@);
        assert(all.skip(i as int).skip(1) =~= all.skip(i + 1));
        i = i + 1;
    }
    if i < w.len() {
        assert(all.skip(i as int)[0] == w@[i as int]@);
    }
    if i < w.len() && i + 1 < w.len() {
        assert(all[i + 1] == w@[i + 1]@);
        let p: Vec<String> = pieces(w[i + 1].as_str(), Cut::At('/'));
        assert(text::texts(p@)[0] == p@[0]@);
        Ok(joined(p[0].as_str(), ":5555"))
    } else {
        Err("could not find the tablet's Wi-Fi IP (is it on Wi-Fi?)".to_owned())
    }
}

/// A row that holds a text, the first of its kind.
pub open spec fn row_with(rows: Seq<Seq<char>>, key: Seq<char>) -> Option<Seq<char>>
    decreases rows.len(),
{
    if rows.len() == 0 {
        None
    } else if parse::occurs(rows[0], key) {
        Some(rows[0])
    } else {
        row_with(rows.skip(1), key)
    }
}

/// A whole number of 32 bits, white space around it aside.
pub open spec fn number_in(s: Seq<char>) -> Option<int> {
    parse::parsed(text::trimmed(s), i32::MIN as int, i32::MAX as int)
}

/// The size on a row such as `Physical size: 2560x1600`.
pub open spec fn size_on(row: Seq<char>) -> Option<(int, int)> {
    let p = parse::pieces_of(row, Cut::At(':'));
    if p.len() < 2 {
        None
    } else {
        match parse::parted(text::trimmed(p[1]), 'x') {
            Some((w, h)) => match (number_in(w), number_in(h)) {
                (Some(a), Some(b)) => Some((a, b)),
                _ => None,
            },
            None => None,
        }
    }
}

/// The size on the first row that holds a key.
pub open spec fn size_under(rows: Seq<Seq<char>>, key: Seq<char>) -> Option<(int, int)> {
    match row_with(rows, key) {
        Some(row) => size_on(row),
        None => None,
    }
}

/// The screen size in the output of `wm size`: the override size where there is one,
/// else the physical one, else a common one.
pub open spec fn size_in(printed: Seq<char>) -> (int, int) {
    let rows = parse::lines_of(printed);
    match size_under(rows, "Override size:"@) {
        Some(s) => s,
        None => match size_under(rows, "Physical size:"@) {
            Some(s) => s,
            None => (2560, 1600),
        },
    }
}

/// A pair of whole numbers.
pub open spec fn size_view(s: Option<(i32, i32)>) -> Option<(int, int)> {
    match s {
        Some((a, b)) => Some((a as int, b as int)),
        None => None,
    }
}

/// The size on a row.
fn read_size(row: &str) -> (r: Option<(i32, i32)>)
    ensures
        size_view(r) == size_on(row@),
{
    let p: Vec<String> = pieces(row, Cut::At(':'));
    assert(text::texts(p@).len() == p@.len());
    if p.len() < 2 {
        return None;
    }
    assert(text::texts(p@)[1] == p@[1]@);
    match split_once(trim(p[1].as_str()).as_str(), 'x') {
        Some((w, h)) => {
            match (parse_i32(trim(w.as_str()).as_str()), parse_i32(trim(h.as_str()).as_str())) {
                (Some(a), Some(b)) => Some((a, b)),
                _ => None,
            }
        },
        None => None,
    }
}

/// The size on the first row that holds a key.
fn find_size(rows: &Vec<String>, key: &str) -> (r: Option<(i32, i32)>)
    ensures
        size_view(r) == size_under(text::texts(rows@), key@),
{
    let ghost all = text::texts(rows@);
    assert(all.skip(0) =~= all);
    for i in 0..rows.len()
        invariant
            all == text::texts(rows@),
            row_with(all, key@) == row_with(all.skip(i as int), key@),
    {
        assert(all.skip(i as int)[0] == rows@[i as int]@);
        if contains(rows[i].as_str(), key) {
            return read_size(rows[i].as_str());
        }
        assert(all.skip(i as int).skip(1) =~= all.skip(i + 1));
    }
    None
}

/// The screen size in the output of `wm size`; a common one where there is no output.
pub fn query_size(printed: Option<&str>) -> (r: (i32, i32))
    ensures
        (r.0 as int, r.1 as int) == match printed {
            Some(t) => size_in(t@),
            None => (2560int, 1600int),
        },
{
    match printed {
        Some(t) => {
            let rows: Vec<String> = lines(t);
            match find_size(&rows, "Override size:") {
                Some(s) => s,
                None => match find_size(&rows, "Physical size:") {
                    Some(s) => s,
                    None => (2560, 1600),
                },
            }
        },
        None => (2560, 1600),
    }
}

/// A number in eight lower-case hexadecimal characters.
pub open spec fn hex8(x: u32) -> Seq<char> {
    config::hex_of(
        seq![
            (x / 0x100_0000) as u8,
            (x / 0x1_0000 % 0x100) as u8,
            (x / 0x100 % 0x100) as u8,
            (x % 0x100) as u8,
        ],
    )
}

/// The name of a control session: a number below 2^31 out of a counter and the
/// sub-second part of the clock, in eight hexadecimal characters.
pub fn next_scid(n: u32, nanos: u32) -> (r: String)
    ensures
        r@ == hex8((nanos ^ n.wrapping_mul(0x9E37_79B1)) & 0x7fff_ffff),
{
    let x: u32 = (nanos ^ n.wrapping_mul(0x9E37_79B1)) & 0x7fff_ffff;
    let b: [u8; 4] = [
        (x / 0x100_0000) as u8,
        (x / 0x1_0000 % 0x100) as u8,
        (x / 0x100 % 0x100) as u8,
        (x % 0x100) as u8,
    ];
    let mut s: String = String::new();
    assert(s@ =~= config::hex_of(b@.take(0)));
    for i in 0..4
        invariant
            s@ == config::hex_of(b@.take(i as int)),
    {
        assert(b@.take(i + 1).drop_last() =~= b@.take(i as int));
        s.push(hex_char(b[i] / 16));
        s.push(hex_char(b[i] % 16));
    }
    assert(b@.take(4) =~= seq![
        (x / 0x100_0000) as u8,
        (x / 0x1_0000 % 0x100) as u8,
        (x / 0x100 % 0x100) as u8,
        (x % 0x100) as u8,
    ]);
    s
}

} // verus!
