//! One-time pairing: a short code typed by the user, run through SPAKE2, produces a
//! strong 32-byte key for all future sessions.
//!
//! SPAKE2 means the short code never travels on the wire; a wrong guess simply fails
//! the key-confirmation step.
//!
//! Frames (plaintext, length-prefixed):
//! 1. both sides: SPAKE2 public message
//! 2. both sides: key confirmation `SHA256(key || role-tag)`
//! 3. both sides: name and session port, integrity-bound by 2.
use vstd::prelude::*;

use sha2::Digest;

use crate::config::{Config, Peer};
use crate::layout::{Edge, Link};
use crate::text::{self, digit_char, has_char, joined, same_text, trim};
use crate::{Error, DEFAULT_PORT};

verus! {

/// What the two machines tell each other once the key is confirmed.
#[derive(Debug)]
pub struct PairInfo {
    pub name: String,
    pub port: u16,
}

#[derive(Clone, Copy, Debug, PartialEq, Eq, Structural)]
pub enum Role {
    /// The machine that displays the code.
    Display,
    /// The machine where the user types the code.
    Input,
}

/// A SPAKE2 exchange in progress: the `spake2` crate's own state.
#[verifier::external_body]
pub struct Pake {
    state: spake2::Spake2<spake2::Ed25519Group>,
}

/// The password of an exchange.
pub uninterp spec fn pake_password(s: &Pake) -> Seq<u8>;

/// The identity of an exchange.
pub uninterp spec fn pake_identity(s: &Pake) -> Seq<u8>;

/// The random scalar of an exchange, as bytes.
pub uninterp spec fn pake_secret(s: &Pake) -> Seq<u8>;

/// The message that an exchange with this password and scalar sends.
pub uninterp spec fn pake_message(password: Seq<u8>, secret: Seq<u8>) -> Seq<u8>;

/// The key that a symmetric exchange with this password, identity and scalar arrives
/// at, given the other side's message; or the `spake2` crate's word for what is wrong
/// with the message.
pub uninterp spec fn pake_key(
    password: Seq<u8>,
    identity: Seq<u8>,
    secret: Seq<u8>,
    message: Seq<u8>,
) -> Result<Seq<u8>, Seq<char>>;

/// The SHA-256 digest of some bytes.
pub uninterp spec fn sha256(bytes: Seq<u8>) -> Seq<u8>;

/// `rand::rng().random_range(0..1_000_000)`. The number rests on chance; only its
/// range is stated.
#[verifier::external_body]
fn random_number() -> (r: u32)
    ensures
        r < 1_000_000,
{
    rand::Rng::random_range(&mut rand::rng(), 0..1_000_000)
}

/// `spake2::Spake2::<Ed25519Group>::start_symmetric`. The exchange holds the password
/// and the identity that it was given; its message is a function of the password and
/// of the scalar that it drew, is 33 bytes long and starts with the byte of the
/// symmetric side. The scalar rests on chance: nothing is said of it.
#[verifier::external_body]
fn start_pake(password: &[u8], identity: &[u8]) -> (r: (Pake, Vec<u8>))
    ensures
        pake_password(&r.0) == password@,
        pake_identity(&r.0) == identity@,
        r.1@ == pake_message(password@, pake_secret(&r.0)),
        r.1@.len() == 33,
        r.1@[0] == 0x53,
{
    let (state, message) = spake2::Spake2::<spake2::Ed25519Group>::start_symmetric(
        &spake2::Password::new(password),
        &spake2::Identity::new(identity),
    );
    (Pake { state }, message)
}

/// The bytes or the word in the outcome of an exchange.
pub open spec fn outcome_of(r: Result<Vec<u8>, String>) -> Result<Seq<u8>, Seq<char>> {
    match r {
        Ok(b) => Ok(b@),
        Err(e) => Err(e@),
    }
}

/// What an exchange makes of a message agrees with the other side: where the message
/// is that of an exchange with the same password and identity, it is the key that the
/// other side makes of this side's message.
pub open spec fn agrees(
    password: Seq<u8>,
    identity: Seq<u8>,
    secret: Seq<u8>,
    message: Seq<u8>,
    outcome: Result<Seq<u8>, Seq<char>>,
) -> bool {
    forall|other: Seq<u8>| #[trigger]
        pake_message(password, other) == message ==> outcome is Ok && outcome == pake_key(
            password,
            identity,
            other,
            pake_message(password, secret),
        )
}

/// `spake2::Spake2::finish`. The outcome is a function of what the exchange holds and
/// of the message; a message that the other side of the same exchange sent gives the
/// key that the other side arrives at. A message of another length than 33 bytes, or
/// of another side, gives no key. A refusal is given by the crate's word for it. That
/// two different passwords arrive at different keys holds only up to chance, and is
/// not said.
#[verifier::external_body]
fn finish_pake(pake: Pake, message: &[u8]) -> (r: Result<Vec<u8>, String>)
    ensures
        outcome_of(r) == pake_key(
            pake_password(&pake),
            pake_identity(&pake),
            pake_secret(&pake),
            message@,
        ),
        agrees(
            pake_password(&pake),
            pake_identity(&pake),
            pake_secret(&pake),
            message@,
            outcome_of(r),
        ),
        r is Ok ==> message@.len() == 33 && message@[0] == 0x53,
{
    pake.state.finish(message).map_err(|e| format!("{e:?}"))
}

/// `sha2::Sha256` over two runs of bytes, one after the other: a function of their
/// concatenation, 32 bytes long.
#[verifier::external_body]
fn sha256_of(a: &[u8], b: &[u8]) -> (r: [u8; 32])
    ensures
        r@ == sha256(a@ + b@),
{
    let mut h = sha2::Sha256::new();
    h.update(a);
    h.update(b);
    h.finalize().into()
}

/// The six decimal digits of a number below a million.
pub open spec fn six_digits(n: int) -> Seq<char> {
    seq![
        text::digit(n / 100000 % 10),
        text::digit(n / 10000 % 10),
        text::digit(n / 1000 % 10),
        text::digit(n / 100 % 10),
        text::digit(n / 10 % 10),
        text::digit(n % 10),
    ]
}

/// Six ASCII digits.
pub open spec fn is_code(s: Seq<char>) -> bool {
    s.len() == 6 && forall|i: int| 0 <= i < 6 ==> '0' <= #[trigger] s[i] <= '9'
}

/// The pairing code of a number below a million.
pub fn code_of(n: u32) -> (r: String)
    requires
        n < 1_000_000,
    ensures
        r@ == six_digits(n as int),
        is_code(r@),
{
    let mut s: String = String::new();
    s.push(digit_char((n / 100000 % 10) as u8));
    s.push(digit_char((n / 10000 % 10) as u8));
    s.push(digit_char((n / 1000 % 10) as u8));
    s.push(digit_char((n / 100 % 10) as u8));
    s.push(digit_char((n / 10 % 10) as u8));
    s.push(digit_char((n % 10) as u8));
    assert(s@ =~= six_digits(n as int));
    s
}

/// Generate a human-friendly 6-digit pairing code. Short codes are safe here because
/// SPAKE2 limits attackers to one online guess per connection attempt and pairing
/// accepts a single attempt.
pub fn generate_code() -> (r: String)
    ensures
        is_code(r@),
{
    code_of(random_number())
}

/// The code that a user typed: six digits, white space around them aside.
pub fn typed_code(line: &str) -> (r: Result<String, Error>)
    ensures
        if is_code(text::trimmed(line@)) {
            r matches Ok(c) && c@ == text::trimmed(line@)
        } else {
            r matches Err(Error::Pairing(t)) && t@ == "the code is 6 digits"@
        },
{
    let code: String = trim(line);
    let v: Vec<char> = text::chars_of(code.as_str());
    let mut ok: bool = v.len() == 6;
    let mut i: usize = 0;
    while ok && i < 6
        invariant
            v@ == code@,
            i <= 6,
            ok ==> v@.len() == 6 && forall|j: int| 0 <= j < i ==> '0' <= #[trigger] v@[j] <= '9',
            !ok ==> !is_code(v@),
        decreases 6 - i,
    {
        if !('0' <= v[i] && v[i] <= '9') {
            assert(!('0' <= v@[i as int] <= '9'));
            ok = false;
        }
        i = i + 1;
    }
    if ok {
        Ok(code)
    } else {
        Err(Error::Pairing("the code is 6 digits".to_owned()))
    }
}

/// The confirmation tag of a role.
pub open spec fn role_tag(role: Role) -> Seq<u8> {
    match role {
        Role::Display => vstd::utf8::encode_utf8("kayiver-pair-confirm-display"@),
        Role::Input => vstd::utf8::encode_utf8("kayiver-pair-confirm-input"@),
    }
}

/// The confirmation that a role sends.
pub open spec fn confirmation(key: Seq<u8>, role: Role) -> Seq<u8> {
    sha256(key + role_tag(role))
}

/// The confirmation that a role sends.
pub fn confirm_tag(key: &[u8], role: Role) -> (r: [u8; 32])
    ensures
        r@ == confirmation(key@, role),
{
    let tag: &str = match role {
        Role::Display => "kayiver-pair-confirm-display",
        Role::Input => "kayiver-pair-confirm-input",
    };
    sha256_of(key, tag.as_bytes())
}

/// The session key that a pairing key gives.
pub open spec fn session_key(key: Seq<u8>) -> Seq<u8> {
    sha256(key + vstd::utf8::encode_utf8("kayiver-session-psk-v1"@))
}

/// The session key that a pairing key gives.
pub fn derive_psk(key: &[u8]) -> (r: [u8; 32])
    ensures
        r@ == session_key(key@),
{
    sha256_of(key, "kayiver-session-psk-v1".as_bytes())
}

/// The other role.
pub open spec fn other_role(role: Role) -> Role {
    match role {
        Role::Display => Role::Input,
        Role::Input => Role::Display,
    }
}

/// The identity that both sides of a pairing state.
pub open spec fn pairing_identity() -> Seq<u8> {
    vstd::utf8::encode_utf8("kayiver-kvm-pairing-v1"@)
}

/// A pairing that has sent its message and waits for the other side's.
pub struct Exchange {
    pake: Pake,
    role: Role,
}

/// A pairing that has a key and waits for the other side's confirmation.
pub struct Keyed {
    key: Vec<u8>,
    role: Role,
}

impl Exchange {
    /// The exchange states the identity of all pairings.
    #[verifier::type_invariant]
    spec fn wf(self) -> bool {
        pake_identity(&self.pake) == pairing_identity()
    }

    /// The role of this side.
    pub closed spec fn side(self) -> Role {
        self.role
    }

    /// The code that was typed or displayed, as bytes.
    pub closed spec fn code(self) -> Seq<u8> {
        pake_password(&self.pake)
    }

    /// What this side drew.
    pub closed spec fn secret(self) -> Seq<u8> {
        pake_secret(&self.pake)
    }

    /// The frame that this side sends.
    pub open spec fn message(self) -> Seq<u8> {
        pake_message(self.code(), self.secret())
    }

    /// What the exchange arrives at, given the other side's message.
    pub open spec fn outcome(self, message: Seq<u8>) -> Result<Seq<u8>, Seq<char>> {
        pake_key(self.code(), pairing_identity(), self.secret(), message)
    }

    /// Begins a pairing with this code: what waits for the other side, and the first
    /// frame.
    pub fn begin(code: &str, role: Role) -> (r: (Exchange, Vec<u8>))
        ensures
            r.0.side() == role,
            r.0.code() == vstd::utf8::encode_utf8(code@),
            r.1@ == r.0.message(),
            r.1@.len() == 33,
    {
        let (pake, outbound) = start_pake(code.as_bytes(), "kayiver-kvm-pairing-v1".as_bytes());
        (Exchange { pake, role }, outbound)
    }

    /// Takes the other side's message: what waits for its confirmation, and this side's
    /// confirmation, direction-tagged so a reflected frame can't pass.
    pub fn confirm(self, inbound: &[u8]) -> (r: Result<(Keyed, [u8; 32]), Error>)
        ensures
            agrees(
                self.code(),
                pairing_identity(),
                self.secret(),
                inbound@,
                self.outcome(inbound@),
            ),
            match self.outcome(inbound@) {
                Ok(key) => {
                    &&& r matches Ok((keyed, tag))
                    &&& keyed.pairing_key() == key && keyed.side() == self.side()
                    &&& tag@ == confirmation(key, self.side())
                },
                Err(e) => r matches Err(Error::Pairing(t)) && t@ == "spake2: "@ + e,
            },
    {
        proof {
            use_type_invariant(&self);
        }
        let role: Role = self.role;
        match finish_pake(self.pake, inbound) {
            Ok(key) => {
                let tag: [u8; 32] = confirm_tag(key.as_slice(), role);
                Ok((Keyed { key, role }, tag))
            },
            Err(e) => Err(Error::Pairing(joined("spake2: ", e.as_str()))),
        }
    }
}

impl Keyed {
    /// The key that the exchange arrived at.
    pub closed spec fn pairing_key(self) -> Seq<u8> {
        self.key@
    }

    /// The role of this side.
    pub closed spec fn side(self) -> Role {
        self.role
    }

    /// Takes the other side's confirmation: the session key, if it is the one that the
    /// other role sends for the same key.
    pub fn accept(self, theirs: &[u8]) -> (r: Result<[u8; 32], Error>)
        ensures
            if theirs@ == confirmation(self.pairing_key(), other_role(self.side())) {
                r matches Ok(psk) && psk@ == session_key(self.pairing_key())
            } else {
                r matches Err(Error::Pairing(t)) && t@ == "code mismatch (wrong PIN?)"@
            },
    {
        let other: Role = match self.role {
            Role::Display => Role::Input,
            Role::Input => Role::Display,
        };
        let expected: [u8; 32] = confirm_tag(self.key.as_slice(), other);
        if same_bytes(theirs, expected.as_slice()) {
            Ok(derive_psk(self.key.as_slice()))
        } else {
            Err(Error::Pairing("code mismatch (wrong PIN?)".to_owned()))
        }
    }
}

/// What came of a connection to the machine that displays a code.
#[derive(Clone, Copy, Debug, PartialEq, Eq, Structural)]
pub enum Attempt {
    /// It asks for something else: the code still stands.
    Ignored,
    /// The two machines are paired.
    Paired,
    /// The exchange failed. One wrong guess burns the code.
    Burned,
}

/// What came of a connection, given whether it asks to pair and, if so, whether the exchange
/// succeeded.
pub open spec fn attempt_of(asks_to_pair: bool, exchanged: bool) -> Attempt {
    if !asks_to_pair {
        Attempt::Ignored
    } else if exchanged {
        Attempt::Paired
    } else {
        Attempt::Burned
    }
}

/// What came of a connection, given whether it asks to pair and, if so, whether the exchange
/// succeeded.
pub fn attempt(asks_to_pair: bool, exchanged: bool) -> (r: Attempt)
    ensures
        r == attempt_of(asks_to_pair, exchanged),
{
    if !asks_to_pair {
        Attempt::Ignored
    } else if exchanged {
        Attempt::Paired
    } else {
        Attempt::Burned
    }
}

/// A code on display.
#[derive(Debug)]
pub struct Offer {
    code: String,
    standing: bool,
}

impl Offer {
    /// The code.
    pub closed spec fn code(self) -> Seq<char> {
        self.code@
    }

    /// The code is still good for an attempt.
    pub closed spec fn stands(self) -> bool {
        self.standing
    }

    /// Puts a code on display.
    pub fn new(code: String) -> (r: Offer)
        ensures
            r.code() == code@,
            r.stands(),
    {
        Offer { code, standing: true }
    }

    /// Begins the exchange with a machine that asks to pair, as long as the code stands.
    pub fn begin(&self) -> (r: Option<(Exchange, Vec<u8>)>)
        ensures
            match r {
                Some((begun, outbound)) => {
                    &&& self.stands()
                    &&& begun.side() == Role::Display
                    &&& begun.code() == vstd::utf8::encode_utf8(self.code())
                    &&& outbound@ == begun.message()
                },
                None => !self.stands(),
            },
    {
        if self.standing {
            Some(Exchange::begin(self.code.as_str(), Role::Display))
        } else {
            None
        }
    }

    /// Takes in what came of a connection. The code stands until an attempt was made;
    /// nothing comes of a connection after that.
    pub fn heard(&mut self, asks_to_pair: bool, exchanged: bool) -> (r: Option<Attempt>)
        ensures
            final(self).code() == old(self).code(),
            (final(self).stands(), r) == offered(old(self).stands(), asks_to_pair, exchanged),
    {
        if !self.standing {
            return None;
        }
        let a: Attempt = attempt(asks_to_pair, exchanged);
        self.standing = a == Attempt::Ignored;
        Some(a)
    }
}

/// Whether a code stands after a connection, and what came of it, given whether it stood
/// before.
pub open spec fn offered(stands: bool, asks_to_pair: bool, exchanged: bool) -> (
    bool,
    Option<Attempt>,
) {
    if stands {
        let a = attempt_of(asks_to_pair, exchanged);
        (a == Attempt::Ignored, Some(a))
    } else {
        (false, None)
    }
}

/// What comes of some connections, one after the other; each is given by whether it asks to
/// pair and whether the exchange succeeds.
pub open spec fn all_offered(stands: bool, connections: Seq<(bool, bool)>) -> Seq<Option<Attempt>>
    decreases connections.len(),
{
    if connections.len() == 0 {
        seq![]
    } else {
        let (after, a) = offered(stands, connections[0].0, connections[0].1);
        seq![a] + all_offered(after, connections.skip(1))
    }
}

proof fn lemma_nothing_is_offered(connections: Seq<(bool, bool)>)
    ensures
        all_offered(false, connections).len() == connections.len(),
        forall|i: int|
            0 <= i < connections.len() ==> #[trigger] all_offered(false, connections)[i] is None,
    decreases connections.len(),
{
    if connections.len() > 0 {
        lemma_nothing_is_offered(connections.skip(1));
    }
}

/// A displayed code is good for exactly one attempt: connections that ask for something
/// else are ignored, the first that asks to pair succeeds or burns the code, and nothing
/// comes of any after that.
pub proof fn law_a_code_is_good_for_one_attempt(connections: Seq<(bool, bool)>, k: int)
    requires
        0 <= k < connections.len(),
    ensures
        ({
            let all = all_offered(true, connections);
            let asked = exists|i: int| 0 <= i < k && (#[trigger] connections[i]).0;
            &&& all.len() == connections.len()
            &&& asked ==> all[k] is None
            &&& !asked ==> all[k] == Some(attempt_of(connections[k].0, connections[k].1))
        }),
    decreases connections.len(),
{
    let rest = connections.skip(1);
    let first = connections[0];
    if first.0 {
        lemma_nothing_is_offered(rest);
        if k > 0 {
            assert(all_offered(true, connections)[k] == all_offered(false, rest)[k - 1]);
        }
    } else if k > 0 {
        law_a_code_is_good_for_one_attempt(rest, k - 1);
        assert(all_offered(true, connections)[k] == all_offered(true, rest)[k - 1]);
        assert(rest[k - 1] == connections[k]);
        if exists|i: int| 0 <= i < k && (#[trigger] connections[i]).0 {
            let i = choose|i: int| 0 <= i < k && (#[trigger] connections[i]).0;
            assert(rest[i - 1] == connections[i]);
        }
        if exists|i: int| 0 <= i < k - 1 && (#[trigger] rest[i]).0 {
            let i = choose|i: int| 0 <= i < k - 1 && (#[trigger] rest[i]).0;
            assert(connections[i + 1] == rest[i]);
        }
    } else if rest.len() > 0 {
        law_a_code_is_good_for_one_attempt(rest, 0);
    }
}

/// Are two runs of bytes the same?
pub fn same_bytes(a: &[u8], b: &[u8]) -> (r: bool)
    ensures
        r == (a@ == b@),
{
    if a.len() != b.len() {
        return false;
    }
    for i in 0..a.len()
        invariant
            a@.len() == b@.len(),
            forall|j: int| 0 <= j < i ==> a@[j] == b@[j],
    {
        if a[i] != b[i] {
            return false;
        }
    }
    assert(a@ =~= b@);
    true
}

/// Matching codes agree: two sides of different roles that began with the same code,
/// each given the other's first frame, both arrive at a key, accept each other's
/// confirmation, and end with the same session key.
pub proof fn law_matching_codes_agree(a: Exchange, b: Exchange)
    requires
        a.code() == b.code(),
        b.side() == other_role(a.side()),
        agrees(
            a.code(),
            pairing_identity(),
            a.secret(),
            b.message(),
            a.outcome(b.message()),
        ),
        agrees(
            b.code(),
            pairing_identity(),
            b.secret(),
            a.message(),
            b.outcome(a.message()),
        ),
    ensures
        match (a.outcome(b.message()), b.outcome(a.message())) {
            (Ok(x), Ok(y)) => {
                &&& confirmation(x, a.side()) == confirmation(y, other_role(b.side()))
                &&& confirmation(y, b.side()) == confirmation(x, other_role(a.side()))
                &&& session_key(x) == session_key(y)
            },
            _ => false,
        },
{
    assert(pake_message(a.code(), b.secret()) == b.message());
    assert(pake_message(b.code(), a.secret()) == a.message());
}

/// The two roles confirm different things: what is digested for one role is never what
/// is digested for the other.
pub proof fn law_roles_confirm_different_things(key: Seq<u8>)
    ensures
        key + role_tag(Role::Display) != key + role_tag(Role::Input),
{
    reveal_strlit("kayiver-pair-confirm-display");
    reveal_strlit("kayiver-pair-confirm-input");
    vstd::utf8::is_ascii_chars_encode_utf8("kayiver-pair-confirm-display"@);
    vstd::utf8::is_ascii_chars_encode_utf8("kayiver-pair-confirm-input"@);
    let d = key + role_tag(Role::Display);
    let i = key + role_tag(Role::Input);
    assert(d.len() == key.len() + 28);
    assert(i.len() == key.len() + 26);
}

/// The address to join at: the default port where none is given.
pub fn with_default_port(s: &str) -> (r: String)
    ensures
        r@ == if s@.contains(':') {
            s@
        } else {
            s@ + ":"@ + text::decimal_of(DEFAULT_PORT as nat)
        },
{
    if has_char(s, ':') {
        s.to_owned()
    } else {
        joined(joined(s, ":").as_str(), text::decimal(DEFAULT_PORT as u64).as_str())
    }
}

/// A link has this machine at one of its ends.
pub open spec fn involves(l: crate::layout::LinkView, peer: Seq<char>) -> bool {
    l.from == peer || l.to == peer
}

/// Some link has this machine at one of its ends.
pub open spec fn is_linked(links: Seq<crate::layout::LinkView>, peer: Seq<char>) -> bool {
    exists|i: int| 0 <= i < links.len() && involves(#[trigger] links[i], peer)
}

/// A newly paired machine that no link mentions is placed to the right.
pub fn ensure_layout_link(cfg: &mut Config, peer: &str)
    ensures
        final(cfg)@ == (crate::config::ConfigView {
            links: if is_linked(old(cfg)@.links, peer@) {
                old(cfg)@.links
            } else {
                old(cfg)@.links.push(
                    crate::layout::LinkView {
                        from: old(cfg)@.name,
                        edge: Edge::Right,
                        to: peer@,
                    },
                )
            },
            ..old(cfg)@
        }),
{
    for i in 0..cfg.layout.links.len()
        invariant
            cfg@ == old(cfg)@,
            forall|j: int| 0 <= j < i ==> !involves(#[trigger] cfg@.links[j], peer@),
    {
        let l: &Link = &cfg.layout.links[i];
        assert(cfg@.links[i as int] == l@);
        if same_text(l.from.as_str(), peer) || same_text(l.to.as_str(), peer) {
            assert(involves(cfg@.links[i as int], peer@));
            return ;
        }
    }
    let l: Link = Link { from: cfg.name.clone(), edge: Edge::Right, to: peer.to_owned() };
    cfg.layout.links.push(l);
    assert(cfg@.links =~= old(cfg)@.links.push(l@));
}

/// The entry of a newly paired machine.
pub fn paired_peer(name: &str, psk: &[u8; 32], addr: Option<String>) -> (r: Peer)
    ensures
        r@ == (crate::config::PeerView {
            name: name@,
            psk: crate::config::base64_text(psk@),
            addr: text::opt_text(addr),
            addrs: seq![],
            last_good: None,
            screens: seq![],
            os: None,
        }),
        crate::config::key_in(r@) matches Ok(k) && k == psk@,
{
    let mut p: Peer = Peer {
        name: name.to_owned(),
        psk: String::new(),
        addr,
        addrs: Vec::new(),
        last_good: None,
        screens: Vec::new(),
        os: None,
    };
    p.set_psk(psk);
    assert(p@.addrs =~= seq![]);
    p
}

} // verus!
