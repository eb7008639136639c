//! The paths between machines: which interface owns an address, and which addresses a
//! client could dial.
use vstd::prelude::*;

use crate::parse::{self, lines, pieces, starts_with, strip_prefix, words, Cut};
use crate::text::{self, chars_of, decimal, joined, same_text, trim, trim_start};

verus! {

// ------------------------------------------------------------- addresses ----

/// The number that a part of a dotted address writes, without leading zeros.
pub open spec fn octet_of(s: Seq<char>) -> Option<int> {
    match parse::parsed(s, 0, 255) {
        Some(n) => if s == text::decimal_of(n as nat) {
            Some(n)
        } else {
            None
        },
        None => None,
    }
}

/// The four parts of a dotted IPv4 address.
pub open spec fn ipv4_of(s: Seq<char>) -> Option<(int, int, int, int)> {
    let p = parse::pieces_of(s, Cut::At('.'));
    if p.len() != 4 {
        None
    } else {
        match (octet_of(p[0]), octet_of(p[1]), octet_of(p[2]), octet_of(p[3])) {
            (Some(a), Some(b), Some(c), Some(d)) => Some((a, b, c, d)),
            _ => None,
        }
    }
}

/// An address that loops back to the machine itself.
pub open spec fn is_loopback(s: Seq<char>) -> bool {
    ipv4_of(s) matches Some(q) && q.0 == 127
}

/// An address that a machine gave itself on a cable without a server.
pub open spec fn is_link_local(s: Seq<char>) -> bool {
    ipv4_of(s) matches Some(q) && q.0 == 169 && q.1 == 254
}

/// The number that a part of a dotted address writes.
fn octet(s: &str) -> (r: Option<u8>)
    ensures
        match r {
            Some(n) => octet_of(s@) == Some(n as int),
            None => octet_of(s@) is None,
        },
{
    match parse::parse_up_to(s, 255) {
        Some(n) => if same_text(s, decimal(n).as_str()) {
            Some(n as u8)
        } else {
            None
        },
        None => None,
    }
}

/// The four parts of a dotted IPv4 address.
pub fn ipv4(s: &str) -> (r: Option<(u8, u8, u8, u8)>)
    ensures
        match r {
            Some(q) => ipv4_of(s@) == Some((q.0 as int, q.1 as int, q.2 as int, q.3 as int)),
            None => ipv4_of(s@) is None,
        },
{
    let p: Vec<String> = pieces(s, Cut::At('.'));
    assert(text::texts(p@).len() == p@.len());
    if p.len() != 4 {
        return None;
    }
    proof {
        assert(text::texts(p@)[0] == p@[0]@);
        assert(text::texts(p@)[1] == p@[1]@);
        assert(text::texts(p@)[2] == p@[2]@);
        assert(text::texts(p@)[3] == p@[3]@);
    }
    match (octet(p[0].as_str()), octet(p[1].as_str()), octet(p[2].as_str()), octet(p[3].as_str())) {
        (Some(a), Some(b), Some(c), Some(d)) => Some((a, b, c, d)),
        _ => None,
    }
}

// ------------------------------------------------------------ interfaces ----

/// A line that does not start with a tab or a space: it names the device that the
/// lines below it are about.
pub open spec fn is_header(line: Seq<char>) -> bool {
    !(line.len() > 0 && (line[0] == '\t' || line[0] == ' '))
}

/// The device that a line is about: the name before the colon of the last header above
/// it.
pub open spec fn device_above(lines: Seq<Seq<char>>, i: int) -> Option<Seq<char>>
    decreases i,
{
    if i <= 0 {
        None
    } else if is_header(lines[i - 1]) {
        Some(parse::pieces_of(lines[i - 1], Cut::At(':'))[0])
    } else {
        device_above(lines, i - 1)
    }
}

/// The line gives an interface this address.
pub open spec fn gives(line: Seq<char>, ip: Seq<char>) -> bool {
    !is_header(line) && parse::starts(text::trimmed_start(line), "inet "@ + ip + " "@)
}

/// The device that owns an address: that of the first line, from `i` on, that gives it.
pub open spec fn owner_from(lines: Seq<Seq<char>>, ip: Seq<char>, i: int) -> Option<Seq<char>>
    decreases lines.len() - i,
{
    if i < 0 || i >= lines.len() {
        None
    } else if gives(lines[i], ip) {
        device_above(lines, i)
    } else {
        owner_from(lines, ip, i + 1)
    }
}

/// Does the line name a device?
fn names_device(line: &str) -> (r: bool)
    ensures
        r == is_header(line@),
{
    let v: Vec<char> = chars_of(line);
    !(v.len() > 0 && (v[0] == '\t' || v[0] == ' '))
}

/// The device (`en0`, `en8`, …) that owns an address, by the listing of `ifconfig`.
pub fn iface_for_ip(listing: &str, ip: &str) -> (r: Option<String>)
    ensures
        text::opt_text(r) == owner_from(parse::lines_of(listing@), ip@, 0),
{
    let all: Vec<String> = lines(listing);
    let needle: String = joined(joined("inet ", ip).as_str(), " ");
    let mut dev: Option<String> = None;
    let ghost ls = parse::lines_of(listing@);
    assert(all@.len() == ls.len()) by {
        assert(text::texts(all@).len() == all@.len());
    }
    for i in 0..all.len()
        invariant
            ls == text::texts(all@),
            ls == parse::lines_of(listing@),
            all@.len() == ls.len(),
            needle@ == "inet "@ + ip@ + " "@,
            text::opt_text(dev) == device_above(ls, i as int),
            owner_from(ls, ip@, 0) == owner_from(ls, ip@, i as int),
    {
        let line: &str = all[i].as_str();
        assert(ls[i as int] == line@);
        if names_device(line) {
            let p: Vec<String> = pieces(line, Cut::At(':'));
            assert(text::texts(p@)[0] == p@[0]@);
            dev = Some(p[0].clone());
        } else if starts_with(trim_start(line).as_str(), needle.as_str()) {
            return dev;
        }
    }
    None
}

/// The name of the hardware port that a line is about: that of the last line above it
/// that names one.
pub open spec fn port_above(lines: Seq<Seq<char>>, i: int) -> Option<Seq<char>>
    decreases i,
{
    if i <= 0 {
        None
    } else {
        match parse::after(lines[i - 1], "Hardware Port: "@) {
            Some(p) => Some(text::trimmed(p)),
            None => port_above(lines, i - 1),
        }
    }
}

/// The line is about this device.
pub open spec fn is_about(line: Seq<char>, dev: Seq<char>) -> bool {
    parse::after(line, "Hardware Port: "@) is None && match parse::after(line, "Device: "@) {
        Some(d) => text::trimmed(d) == dev,
        None => false,
    }
}

/// The port of a device: that of the last line, before `i`, that is about the device.
pub open spec fn port_before(lines: Seq<Seq<char>>, dev: Seq<char>, i: int) -> Option<Seq<char>>
    decreases i,
{
    if i <= 0 {
        None
    } else if is_about(lines[i - 1], dev) {
        port_above(lines, i - 1)
    } else {
        port_before(lines, dev, i - 1)
    }
}

/// The name of a device's hardware port, by the listing of `networksetup`.
pub fn port_for_device(listing: &str, dev: &str) -> (r: Option<String>)
    ensures
        text::opt_text(r) == port_before(
            parse::lines_of(listing@),
            dev@,
            parse::lines_of(listing@).len() as int,
        ),
{
    let all: Vec<String> = lines(listing);
    let mut name: Option<String> = None;
    let mut current: Option<String> = None;
    let ghost ls = parse::lines_of(listing@);
    assert(text::texts(all@).len() == all@.len());
    for i in 0..all.len()
        invariant
            ls == text::texts(all@),
            all@.len() == ls.len(),
            text::opt_text(current) == port_above(ls, i as int),
            text::opt_text(name) == port_before(ls, dev@, i as int),
    {
        let line: &str = all[i].as_str();
        assert(ls[i as int] == line@);
        if let Some(p) = strip_prefix(line, "Hardware Port: ") {
            current = Some(trim(p.as_str()));
        } else if let Some(d) = strip_prefix(line, "Device: ") {
            if same_text(trim(d.as_str()).as_str(), dev) {
                name = text::copy_opt(&current);
            }
        }
    }
    name
}

/// What the listings of a machine's interfaces say.
#[derive(Debug)]
pub struct Listings {
    /// The interfaces and their addresses, by `ifconfig -a`.
    pub interfaces: String,
    /// The names of the hardware ports, by `networksetup -listallhardwareports`.
    pub ports: String,
}

/// The label of an address: its port and device, as far as they are known, and whether
/// it is on a direct cable.
pub open spec fn label_of(l: Listings, ip: Seq<char>) -> Seq<char> {
    match owner_from(parse::lines_of(l.interfaces@), ip, 0) {
        Some(dev) => {
            let ls = parse::lines_of(l.ports@);
            let named = match port_before(ls, dev, ls.len() as int) {
                Some(p) => p + " ("@ + dev + ")"@,
                None => dev,
            };
            if is_link_local(ip) {
                named + " · direct cable"@
            } else {
                named
            }
        },
        None => if is_link_local(ip) {
            "direct cable"@
        } else {
            seq![]
        },
    }
}

/// Human label for the local interface that owns an address, as in `Wi-Fi (en0)`. Falls
/// back to the bare device name, or to nothing, where the listings can't say.
pub fn iface_label(l: &Listings, ip: &str) -> (r: String)
    ensures
        r@ == label_of(*l, ip@),
{
    let cable: bool = match ipv4(ip) {
        Some(q) => q.0 == 169 && q.1 == 254,
        None => false,
    };
    match iface_for_ip(l.interfaces.as_str(), ip) {
        Some(dev) => {
            let named: String = match port_for_device(l.ports.as_str(), dev.as_str()) {
                Some(p) => joined(
                    joined(joined(p.as_str(), " (").as_str(), dev.as_str()).as_str(),
                    ")",
                ),
                None => dev,
            };
            if cable {
                joined(named.as_str(), " · direct cable")
            } else {
                named
            }
        },
        None => if cable {
            "direct cable".to_owned()
        } else {
            let s: String = String::new();
            assert(s@ =~= seq![]);
            s
        },
    }
}

// ------------------------------------------------------------ candidates ----

/// A path that a client could dial: an address, and the label of its interface.
#[derive(Debug)]
pub struct Candidate {
    pub addr: String,
    pub label: String,
}

/// A path that a client could dial, as text.
#[verifier::ext_equal]
pub ghost struct CandidateView {
    pub addr: Seq<char>,
    pub label: Seq<char>,
}

impl View for Candidate {
    type V = CandidateView;

    open spec fn view(&self) -> CandidateView {
        CandidateView { addr: self.addr@, label: self.label@ }
    }
}

/// What some paths say.
pub open spec fn candidates_view(v: Seq<Candidate>) -> Seq<CandidateView> {
    v.map_values(|c: Candidate| c@)
}

/// The IPv4 address that a line gives to the device above it, but for one that loops
/// back.
pub open spec fn dialable(line: Seq<char>) -> Option<Seq<char>> {
    match parse::after(text::trimmed_start(line), "inet "@) {
        Some(rest) => {
            let w = parse::words_of(rest);
            if !is_header(line) && w.len() > 0 && ipv4_of(w[0]) is Some && !is_loopback(w[0]) {
                Some(w[0])
            } else {
                None
            }
        },
        None => None,
    }
}

/// An address and a port.
pub open spec fn with_port(ip: Seq<char>, port: u16) -> Seq<char> {
    ip + ":"@ + text::decimal_of(port as nat)
}

/// The paths on some lines, in their order.
pub open spec fn candidates_on(l: Listings, ls: Seq<Seq<char>>, port: u16) -> Seq<CandidateView>
    decreases ls.len(),
{
    if ls.len() == 0 {
        seq![]
    } else {
        let before = candidates_on(l, ls.drop_last(), port);
        match dialable(ls.last()) {
            Some(ip) => before.push(
                CandidateView { addr: with_port(ip, port), label: label_of(l, ip) },
            ),
            None => before,
        }
    }
}

/// The IPv4 address that a line gives, but for one that loops back.
fn find_dialable(line: &str) -> (r: Option<String>)
    ensures
        text::opt_text(r) == dialable(line@),
{
    if names_device(line) {
        return None;
    }
    match strip_prefix(trim_start(line).as_str(), "inet ") {
        Some(rest) => {
            let w: Vec<String> = words(rest.as_str());
            assert(text::texts(w@).len() == w@.len());
            if w.len() == 0 {
                return None;
            }
            assert(text::texts(w@)[0] == w@[0]@);
            match ipv4(w[0].as_str()) {
                Some(q) => if q.0 != 127 {
                    Some(w[0].clone())
                } else {
                    None
                },
                None => None,
            }
        },
        None => None,
    }
}

/// All local IPv4 addresses that a client could dial for this host, labeled by
/// interface: the editor's path picker. Addresses that loop back are left out.
pub fn host_candidate_addrs(l: &Listings, port: u16) -> (r: Vec<Candidate>)
    ensures
        candidates_view(r@) == candidates_on(*l, parse::lines_of(l.interfaces@), port),
{
    let all: Vec<String> = lines(l.interfaces.as_str());
    let mut out: Vec<Candidate> = Vec::new();
    let ghost ls = parse::lines_of(l.interfaces@);
    proof {
        assert(text::texts(all@).len() == all@.len());
        assert(ls.take(0) =~= seq![]);
        assert(candidates_view(out@) =~= seq![]);
    }
    for i in 0..all.len()
        invariant
            ls == text::texts(all@),
            all@.len() == ls.len(),
            candidates_view(out@) == candidates_on(*l, ls.take(i as int), port),
    {
        proof {
            assert(ls[i as int] == all@[i as int]@);
            assert(ls.take(i + 1).drop_last() =~= ls.take(i as int));
            assert(ls.take(i + 1).last() == ls[i as int]);
        }
        if let Some(ip) = find_dialable(all[i].as_str()) {
            let label: String = iface_label(l, ip.as_str());
            let addr: String = joined(
                joined(ip.as_str(), ":").as_str(),
                decimal(port as u64).as_str(),
            );
            let c: Candidate = Candidate { addr, label };
            let ghost was = out@;
            out.push(c);
            assert(candidates_view(out@) =~= candidates_view(was).push(c@));
        }
    }
    assert(ls.take(ls.len() as int) =~= ls);
    out
}

/// Each path that is offered is an IPv4 address of the listing that does not loop back.
pub proof fn law_only_dialable_addresses_are_offered(
    l: Listings,
    ls: Seq<Seq<char>>,
    port: u16,
    i: int,
) -> (line: int)
    requires
        0 <= i < candidates_on(l, ls, port).len(),
    ensures
        0 <= line < ls.len(),
        dialable(ls[line]) matches Some(ip) && {
            &&& ipv4_of(ip) is Some
            &&& !is_loopback(ip)
            &&& candidates_on(l, ls, port)[i].addr == with_port(ip, port)
            &&& candidates_on(l, ls, port)[i].label == label_of(l, ip)
        },
    decreases ls.len(),
{
    let before = candidates_on(l, ls.drop_last(), port);
    if i < before.len() {
        law_only_dialable_addresses_are_offered(l, ls.drop_last(), port, i)
    } else {
        ls.len() - 1
    }
}

/// Each IPv4 address of the listing that does not loop back is offered.
pub proof fn law_every_dialable_address_is_offered(
    l: Listings,
    ls: Seq<Seq<char>>,
    port: u16,
    line: int,
) -> (i: int)
    requires
        0 <= line < ls.len(),
        dialable(ls[line]) is Some,
    ensures
        0 <= i < candidates_on(l, ls, port).len(),
        candidates_on(l, ls, port)[i].addr == with_port(dialable(ls[line])->0, port),
    decreases ls.len(),
{
    if line == ls.len() - 1 {
        candidates_on(l, ls, port).len() - 1
    } else {
        law_every_dialable_address_is_offered(l, ls.drop_last(), port, line)
    }
}

// ----------------------------------------------------------------- links ----

/// A text names a web page.
pub open spec fn is_web(s: Seq<char>) -> bool {
    parse::starts(s, "http://"@) || parse::starts(s, "https://"@)
}

/// The link among the texts that are dragged: the first one that names a web page, white
/// space around it aside.
pub open spec fn link_in(dragged: Seq<Seq<char>>) -> Option<Seq<char>>
    decreases dragged.len(),
{
    if dragged.len() == 0 {
        None
    } else if is_web(text::trimmed(dragged[0])) {
        Some(text::trimmed(dragged[0]))
    } else {
        link_in(dragged.skip(1))
    }
}

/// If a link is being dragged, its address; `dragged` is what the drag pasteboard
/// holds, the most specific type first.
pub fn drag_url(dragged: &Vec<String>) -> (r: Option<String>)
    ensures
        text::opt_text(r) == link_in(text::texts(dragged@)),
{
    let ghost all = text::texts(dragged@);
    assert(all.skip(0) =~= all);
    for i in 0..dragged.len()
        invariant
            all == text::texts(dragged@),
            link_in(all) == link_in(all.skip(i as int)),
    {
        let t: String = trim(dragged[i].as_str());
        assert(all.skip(i as int)[0] == dragged@[i as int]@);
        if starts_with(t.as_str(), "http://") || starts_with(t.as_str(), "https://") {
            return Some(t);
        }
        assert(all.skip(i as int).skip(1) =~= all.skip(i + 1));
    }
    None
}

} // verus!
