//! Encrypted session transport: Noise `NNpsk0`.
//!
//! Both sides already share a 32-byte key established during pairing, so `NNpsk0`
//! gives mutual authentication and forward-secret encryption in a single round trip.
//!
//! After the handshake the read and write halves are driven independently, each
//! keeping its own nonce counter. A half that seals or opens a frame advances its
//! counter; one that fails does not.
use vstd::prelude::*;

use std::sync::Arc;

use crate::Error;

verus! {

/// A Noise handshake in progress.
#[verifier::external_type_specification]
#[verifier::external_body]
pub struct ExHandshakeState(snow::HandshakeState);

/// The two keys of a finished handshake.
#[verifier::external_type_specification]
#[verifier::external_body]
pub struct ExStatelessTransportState(snow::StatelessTransportState);

/// What a handshake holds.
#[verifier::ext_equal]
pub ghost struct Talk {
    /// It follows `NNpsk0`, with one frame each way.
    pub nnpsk0: bool,
    /// The pre-shared key that it was set up with.
    pub psk: Seq<u8>,
    /// It is the side that sends first.
    pub initiates: bool,
    /// The random key that it drew as it wrote.
    pub secret: Option<Seq<u8>>,
    /// The frame that it wrote.
    pub sent: Option<Seq<u8>>,
    /// The frame that it read.
    pub got: Option<Seq<u8>>,
}

/// What a handshake holds.
pub uninterp spec fn talk_of(h: &snow::HandshakeState) -> Talk;

/// The frame that a side writes, given its random key and the frame that it read before.
pub uninterp spec fn handshake_frame(
    psk: Seq<u8>,
    initiates: bool,
    secret: Seq<u8>,
    got: Option<Seq<u8>>,
) -> Seq<u8>;

/// Whether a side accepts a frame, given its random key and the frame that it wrote before.
pub uninterp spec fn handshake_accepts(
    psk: Seq<u8>,
    initiates: bool,
    secret: Option<Seq<u8>>,
    sent: Option<Seq<u8>>,
    frame: Seq<u8>,
) -> bool;

/// The keys that a side arrives at, given its random key and the two frames: the one under
/// which the initiator sends, and the one under which the responder does.
pub uninterp spec fn session_keys(
    psk: Seq<u8>,
    initiates: bool,
    secret: Seq<u8>,
    sent: Seq<u8>,
    got: Seq<u8>,
) -> (Seq<u8>, Seq<u8>);

/// The key under which a session's end sends.
pub uninterp spec fn sending_key(t: &snow::StatelessTransportState) -> Seq<u8>;

/// The key under which a session's end receives.
pub uninterp spec fn receiving_key(t: &snow::StatelessTransportState) -> Seq<u8>;

/// Both ends of the session may send.
pub uninterp spec fn is_two_way(t: &snow::StatelessTransportState) -> bool;

/// The frame of a payload under a key and a nonce.
pub uninterp spec fn sealed(key: Seq<u8>, nonce: u64, plain: Seq<u8>) -> Seq<u8>;

/// The payload of a frame under a key and a nonce, if the frame is authentic.
pub uninterp spec fn opened(key: Seq<u8>, nonce: u64, frame: Seq<u8>) -> Option<Seq<u8>>;

/// The longest frame.
pub const MAX_NOISE: usize = 65535;

/// What authentication adds to a payload.
pub const TAG_LEN: usize = 16;

/// How long a frame of the handshake is.
pub const HANDSHAKE_LEN: usize = 48;

/// A handshake that has neither sent nor received.
pub open spec fn fresh_talk(psk: Seq<u8>, initiates: bool) -> Talk {
    Talk { nnpsk0: true, psk, initiates, secret: None, sent: None, got: None }
}

/// The protocol of the handshake.
pub open spec fn pattern() -> Seq<char> {
    "Noise_NNpsk0_25519_ChaChaPoly_BLAKE2s"@
}

/// `snow::Builder::build_initiator`, of a builder with this pattern and `psk` at position
/// 0. The pattern is a valid one and needs no other key, so this does not fail. The state
/// holds the key that it was given, and has neither sent nor received.
#[verifier::external_body]
fn build_initiator(name: &str, psk: &[u8; 32]) -> (r: Result<snow::HandshakeState, String>)
    requires
        name@ == pattern(),
    ensures
        r is Ok,
        r matches Ok(h) ==> talk_of(&h) == fresh_talk(psk@, true),
{
    let params = name.parse().map_err(|e: snow::Error| e.to_string())?;
    let b = snow::Builder::new(params).psk(0, psk).map_err(|e| e.to_string())?;
    b.build_initiator().map_err(|e| e.to_string())
}

/// `snow::Builder::build_responder`, of a builder with this pattern and `psk` at position
/// 0. The pattern is a valid one and needs no other key, so this does not fail. The state
/// holds the key that it was given, and has neither sent nor received.
#[verifier::external_body]
fn build_responder(name: &str, psk: &[u8; 32]) -> (r: Result<snow::HandshakeState, String>)
    requires
        name@ == pattern(),
    ensures
        r is Ok,
        r matches Ok(h) ==> talk_of(&h) == fresh_talk(psk@, false),
{
    let params = name.parse().map_err(|e: snow::Error| e.to_string())?;
    let b = snow::Builder::new(params).psk(0, psk).map_err(|e| e.to_string())?;
    b.build_responder().map_err(|e| e.to_string())
}

/// A side of a new handshake.
fn new_handshake(psk: &[u8; 32], initiator: bool) -> (r: Result<snow::HandshakeState, String>)
    ensures
        r is Ok,
        r matches Ok(h) ==> talk_of(&h) == fresh_talk(psk@, initiator),
{
    if initiator {
        build_initiator("Noise_NNpsk0_25519_ChaChaPoly_BLAKE2s", psk)
    } else {
        build_responder("Noise_NNpsk0_25519_ChaChaPoly_BLAKE2s", psk)
    }
}

/// A handshake after it drew this random key and wrote this frame.
pub open spec fn wrote(t: Talk, secret: Seq<u8>, frame: Seq<u8>) -> Talk {
    Talk { secret: Some(secret), sent: Some(frame), ..t }
}

/// A handshake after it read this frame.
pub open spec fn read(t: Talk, frame: Seq<u8>) -> Talk {
    Talk { got: Some(frame), ..t }
}

/// `snow::HandshakeState::write_message` with an empty payload, into a buffer of 128
/// bytes. It draws a random key; the frame is a function of that, of the pre-shared key
/// and of the frame that was read before: a public key and an authentication tag. Whether
/// it succeeds rests on the machine's source of random numbers, and nothing is said of it.
#[verifier::external_body]
fn handshake_write(h: &mut snow::HandshakeState) -> (r: Result<Vec<u8>, String>)
    requires
        talk_of(old(h)).nnpsk0,
    ensures
        r matches Ok(m) ==> m@ == handshake_frame(
            talk_of(old(h)).psk,
            talk_of(old(h)).initiates,
            talk_of(final(h)).secret->0,
            talk_of(old(h)).got,
        ) && m@.len() == HANDSHAKE_LEN,
        r matches Ok(m) ==> talk_of(final(h)) == wrote(
            talk_of(old(h)),
            talk_of(final(h)).secret->0,
            m@,
        ),
{
    let mut buf = vec![0u8; 128];
    let n = h.write_message(&[], &mut buf).map_err(|e| e.to_string())?;
    buf.truncate(n);
    Ok(buf)
}

/// It is the other side's turn to write.
pub open spec fn may_read(t: Talk) -> bool {
    t.got is None && (t.sent is Some == t.initiates)
}

/// What the other side, with the same pre-shared key and this random key, writes to a
/// side that has not read yet.
pub open spec fn peer_frame(t: Talk, s: Seq<u8>) -> Seq<u8> {
    handshake_frame(t.psk, !t.initiates, s, t.sent)
}

/// The other side, with the same pre-shared key and some random key, wrote this frame.
pub open spec fn answers(t: Talk, frame: Seq<u8>) -> bool {
    exists|s: Seq<u8>| frame == #[trigger] peer_frame(t, s)
}

/// `snow::HandshakeState::read_message`. Whether a frame is accepted is a function of what
/// the state holds and of the frame; what the other side of the same handshake wrote under
/// the same pre-shared key is accepted. That a frame under another pre-shared key is
/// refused holds only up to chance, and is not said.
#[verifier::external_body]
fn handshake_read(h: &mut snow::HandshakeState, frame: &[u8]) -> (r: Result<(), String>)
    requires
        talk_of(old(h)).nnpsk0,
    ensures
        r is Ok == (may_read(talk_of(old(h))) && handshake_accepts(
            talk_of(old(h)).psk,
            talk_of(old(h)).initiates,
            talk_of(old(h)).secret,
            talk_of(old(h)).sent,
            frame@,
        )),
        may_read(talk_of(old(h))) && answers(talk_of(old(h)), frame@) ==> r is Ok,
        r is Ok ==> talk_of(final(h)) == read(talk_of(old(h)), frame@),
{
    let mut payload = vec![0u8; frame.len()];
    h.read_message(frame, &mut payload).map(|_| ()).map_err(|e| e.to_string())
}

/// The key under which a side sends, of the two keys of a session.
pub open spec fn side_key(initiates: bool, keys: (Seq<u8>, Seq<u8>)) -> Seq<u8> {
    if initiates {
        keys.0
    } else {
        keys.1
    }
}

/// A side's end of a session has these keys.
pub open spec fn has_keys(
    t: &snow::StatelessTransportState,
    initiates: bool,
    keys: (Seq<u8>, Seq<u8>),
) -> bool {
    sending_key(t) == side_key(initiates, keys) && receiving_key(t) == side_key(!initiates, keys)
}

/// The keys that a finished handshake arrives at.
pub open spec fn keys_of(t: Talk) -> (Seq<u8>, Seq<u8>) {
    session_keys(t.psk, t.initiates, t.secret->0, t.sent->0, t.got->0)
}

/// The other side, with the same pre-shared key and this random key, wrote what this side
/// read.
pub open spec fn met(t: Talk, s: Seq<u8>) -> bool {
    t.got == Some(
        handshake_frame(
            t.psk,
            !t.initiates,
            s,
            if t.initiates {
                t.sent
            } else {
                None
            },
        ),
    )
}

/// What the other side of a finished handshake holds.
pub open spec fn other_side(t: Talk, s: Seq<u8>) -> Talk {
    Talk { initiates: !t.initiates, secret: Some(s), sent: t.got, got: t.sent, ..t }
}

/// `snow::HandshakeState::into_stateless_transport_mode`: succeeds once a frame went each
/// way. The keys are a function of what the state holds, and the two sides of one handshake
/// arrive at the same ones.
#[verifier::external_body]
fn into_transport(h: snow::HandshakeState) -> (r: Result<snow::StatelessTransportState, String>)
    requires
        talk_of(&h).nnpsk0,
    ensures
        r is Ok == (talk_of(&h).sent is Some && talk_of(&h).got is Some),
        r matches Ok(t) ==> is_two_way(&t) && has_keys(
            &t,
            talk_of(&h).initiates,
            session_keys(
                talk_of(&h).psk,
                talk_of(&h).initiates,
                talk_of(&h).secret->0,
                talk_of(&h).sent->0,
                talk_of(&h).got->0,
            ),
        ),
        r matches Ok(t) ==> forall|s: Seq<u8>| #[trigger]
            met(talk_of(&h), s) ==> has_keys(
                &t,
                talk_of(&h).initiates,
                keys_of(other_side(talk_of(&h), s)),
            ),
{
    h.into_stateless_transport_mode().map_err(|e| e.to_string())
}

/// `snow::StatelessTransportState::write_message`, into a buffer that is large enough.
/// A frame is 16 bytes longer than its payload, and the other end opens it under the
/// same key and nonce. It fails exactly when the frame would exceed the greatest
/// length, or the nonce is the reserved one.
#[verifier::external_body]
fn seal(
    t: &snow::StatelessTransportState,
    nonce: u64,
    plain: &[u8],
) -> (r: Result<Vec<u8>, String>)
    requires
        is_two_way(t),
        plain@.len() + TAG_LEN <= usize::MAX,
    ensures
        r is Ok == (plain@.len() + TAG_LEN <= MAX_NOISE && nonce != u64::MAX),
        r matches Ok(c) ==> c@ == sealed(sending_key(t), nonce, plain@) && c@.len() == plain@.len()
            + TAG_LEN && opened(sending_key(t), nonce, c@) == Some(plain@),
{
    let mut cipher = vec![0u8; plain.len() + 16];
    let n = t.write_message(nonce, plain, &mut cipher).map_err(|e| e.to_string())?;
    cipher.truncate(n);
    Ok(cipher)
}

/// `snow::StatelessTransportState::read_message`, into a buffer of the frame's length.
/// The payload is that of an authentic frame of at most the greatest length under a
/// nonce other than the reserved one; anything else fails.
#[verifier::external_body]
fn open(
    t: &snow::StatelessTransportState,
    nonce: u64,
    frame: &[u8],
) -> (r: Result<Vec<u8>, String>)
    requires
        is_two_way(t),
    ensures
        r is Ok == (frame@.len() <= MAX_NOISE && nonce != u64::MAX && opened(
            receiving_key(t),
            nonce,
            frame@,
        ) is Some),
        r matches Ok(p) ==> opened(receiving_key(t), nonce, frame@) == Some(p@),
{
    let mut plain = vec![0u8; frame.len()];
    let n = t.read_message(nonce, frame, &mut plain).map_err(|e| e.to_string())?;
    plain.truncate(n);
    Ok(plain)
}

/// `frame` is what a sending half makes of `plain` at this counter.
pub open spec fn is_sent(key: Seq<u8>, counter: u64, plain: Seq<u8>, frame: Seq<u8>) -> bool {
    &&& counter < u64::MAX
    &&& frame == sealed(key, counter, plain)
    &&& frame.len() == plain.len() + TAG_LEN <= MAX_NOISE
    &&& opened(key, counter, frame) == Some(plain)
}

/// What a receiving half makes of a frame at this counter.
pub open spec fn received(key: Seq<u8>, counter: u64, frame: Seq<u8>) -> Option<Seq<u8>> {
    if frame.len() <= MAX_NOISE && counter < u64::MAX {
        opened(key, counter, frame)
    } else {
        None
    }
}

/// What one end sends, the other end receives: a frame opens to the payload that it
/// was made of, where both ends have the same key and count alike.
pub proof fn law_what_is_sent_is_received(
    key: Seq<u8>,
    counter: u64,
    plain: Seq<u8>,
    frame: Seq<u8>,
)
    requires
        is_sent(key, counter, plain, frame),
    ensures
        received(key, counter, frame) == Some(plain),
{
}

/// `frames` are what a sending half that counts from `counter` makes of some payloads, one
/// after the other.
pub open spec fn all_sent(
    key: Seq<u8>,
    counter: int,
    plains: Seq<Seq<u8>>,
    frames: Seq<Seq<u8>>,
) -> bool {
    &&& frames.len() == plains.len()
    &&& forall|k: int|
        0 <= k < plains.len() ==> is_sent(
            key,
            (counter + k) as u64,
            #[trigger] plains[k],
            frames[k],
        )
}

/// What a receiving half that counts from `counter` makes of some frames, one after the
/// other: its counter advances with every frame that opens.
pub open spec fn all_received(key: Seq<u8>, counter: int, frames: Seq<Seq<u8>>) -> Seq<
    Option<Seq<u8>>,
>
    decreases frames.len(),
{
    if frames.len() == 0 {
        seq![]
    } else {
        let first = received(key, counter as u64, frames[0]);
        let next = if first is Some {
            counter + 1
        } else {
            counter
        };
        seq![first] + all_received(key, next, frames.skip(1))
    }
}

/// Each of some payloads, received.
pub open spec fn each_one(plains: Seq<Seq<u8>>) -> Seq<Option<Seq<u8>>> {
    plains.map_values(|p: Seq<u8>| Some(p))
}

/// All that one end sends, the other end receives in order, where both ends have the same
/// key and count alike.
proof fn lemma_all_arrive(
    key: Seq<u8>,
    counter: int,
    plains: Seq<Seq<u8>>,
    frames: Seq<Seq<u8>>,
)
    requires
        counter >= 0,
        counter + plains.len() <= u64::MAX,
        all_sent(key, counter, plains, frames),
    ensures
        all_received(key, counter, frames) == each_one(plains),
    decreases plains.len(),
{
    if plains.len() > 0 {
        let (p, f) = (plains.skip(1), frames.skip(1));
        assert(is_sent(key, (counter + 0) as u64, plains[0], frames[0]));
        law_what_is_sent_is_received(key, counter as u64, plains[0], frames[0]);
        assert forall|k: int| 0 <= k < p.len() implies is_sent(
            key,
            (counter + 1 + k) as u64,
            #[trigger] p[k],
            f[k],
        ) by {
            assert(p[k] == plains[k + 1] && f[k] == frames[k + 1]);
        }
        lemma_all_arrive(key, counter + 1, p, f);
        assert(each_one(plains) =~= seq![Some(plains[0])] + each_one(p));
    } else {
        assert(each_one(plains) =~= seq![]);
    }
}

/// The receiving half of a session.
pub struct SecureReader {
    state: Arc<snow::StatelessTransportState>,
    nonce: u64,
}

/// The sending half of a session.
pub struct SecureWriter {
    state: Arc<snow::StatelessTransportState>,
    nonce: u64,
}

impl SecureReader {
    /// The key under which frames are opened.
    pub closed spec fn key(self) -> Seq<u8> {
        receiving_key(&*self.state)
    }

    /// The counter of the next frame.
    pub closed spec fn counter(self) -> u64 {
        self.nonce
    }

    pub closed spec fn wf(self) -> bool {
        is_two_way(&*self.state)
    }

    /// The payload of the next received frame. The counter advances with every frame
    /// that opens, and stays where it is when one does not.
    pub fn recv(&mut self, frame: &[u8]) -> (r: Result<Vec<u8>, Error>)
        requires
            old(self).wf(),
        ensures
            final(self).wf(),
            final(self).key() == old(self).key(),
            match received(old(self).key(), old(self).counter(), frame@) {
                Some(plain) => r matches Ok(p) && p@ == plain && final(self).counter() == old(self).counter() + 1,
                None => r matches Err(e) && e is Noise && final(self).counter() == old(self).counter(),
            },
    {
        match open(&*self.state, self.nonce, frame) {
            Ok(plain) => {
                self.nonce = self.nonce + 1;
                Ok(plain)
            },
            Err(e) => Err(Error::Noise(e)),
        }
    }
}

impl SecureWriter {
    /// The key under which frames are sealed.
    pub closed spec fn key(self) -> Seq<u8> {
        sending_key(&*self.state)
    }

    /// The counter of the next frame.
    pub closed spec fn counter(self) -> u64 {
        self.nonce
    }

    pub closed spec fn wf(self) -> bool {
        is_two_way(&*self.state)
    }

    /// The frame of the next payload to send. The counter advances with every frame,
    /// and stays where it is when a payload is too long.
    pub fn send(&mut self, plain: &[u8]) -> (r: Result<Vec<u8>, Error>)
        requires
            old(self).wf(),
            plain@.len() + TAG_LEN <= usize::MAX,
        ensures
            final(self).wf(),
            final(self).key() == old(self).key(),
            r is Ok <==> plain@.len() + TAG_LEN <= MAX_NOISE && old(self).counter() < u64::MAX,
            match r {
                Ok(c) => is_sent(old(self).key(), old(self).counter(), plain@, c@) && final(self).counter() == old(self).counter() + 1,
                Err(e) => e is Noise && final(self).counter() == old(self).counter(),
            },
    {
        match seal(&*self.state, self.nonce, plain) {
            Ok(cipher) => {
                self.nonce = self.nonce + 1;
                Ok(cipher)
            },
            Err(e) => Err(Error::Noise(e)),
        }
    }
}

/// A session of a side of this talk: its two halves are well formed, count from zero, and
/// have the keys that the talk arrives at.
pub open spec fn is_session(t: Talk, reader: SecureReader, writer: SecureWriter) -> bool {
    &&& reader.wf()
    &&& writer.wf()
    &&& reader.counter() == 0
    &&& writer.counter() == 0
    &&& writer.key() == side_key(t.initiates, keys_of(t))
    &&& reader.key() == side_key(!t.initiates, keys_of(t))
}

/// The keys are those of every other side that this side may have met.
pub open spec fn keys_agree(t: Talk) -> bool {
    forall|s: Seq<u8>| #[trigger] met(t, s) ==> keys_of(t) == keys_of(other_side(t, s))
}

/// The two halves of a session whose handshake is finished.
fn finish(h: snow::HandshakeState) -> (r: Result<(SecureReader, SecureWriter), Error>)
    requires
        talk_of(&h).nnpsk0,
    ensures
        r is Ok == (talk_of(&h).sent is Some && talk_of(&h).got is Some),
        match r {
            Ok((reader, writer)) => is_session(talk_of(&h), reader, writer) && keys_agree(
                talk_of(&h),
            ),
            Err(e) => e is Noise,
        },
{
    let ghost talk = talk_of(&h);
    match into_transport(h) {
        Ok(t) => {
            proof {
                assert forall|s: Seq<u8>| #[trigger] met(talk, s) implies keys_of(talk) == keys_of(
                    other_side(talk, s),
                ) by {
                    let (mine, theirs) = (keys_of(talk), keys_of(other_side(talk, s)));
                    assert(mine.0 == theirs.0 && mine.1 == theirs.1);
                }
            }
            let state: Arc<snow::StatelessTransportState> = Arc::new(t);
            let again: Arc<snow::StatelessTransportState> = state.clone();
            Ok((SecureReader { state: again, nonce: 0 }, SecureWriter { state, nonce: 0 }))
        },
        Err(e) => Err(Error::Noise(e)),
    }
}

/// The dialing side's handshake, waiting for the reply.
pub struct Initiation {
    hs: snow::HandshakeState,
}

/// The dialing side's talk with this reply.
pub open spec fn dialed(psk: Seq<u8>, secret: Seq<u8>, sent: Seq<u8>, reply: Seq<u8>) -> Talk {
    Talk {
        nnpsk0: true,
        psk,
        initiates: true,
        secret: Some(secret),
        sent: Some(sent),
        got: Some(reply),
    }
}

/// The listening side's talk with this reply.
pub open spec fn heard(psk: Seq<u8>, secret: Seq<u8>, first: Seq<u8>, reply: Seq<u8>) -> Talk {
    Talk {
        nnpsk0: true,
        psk,
        initiates: false,
        secret: Some(secret),
        sent: Some(reply),
        got: Some(first),
    }
}

impl Initiation {
    /// The key that the handshake was set up with.
    pub closed spec fn psk(self) -> Seq<u8> {
        talk_of(&self.hs).psk
    }

    /// The random key that the handshake drew.
    pub closed spec fn secret(self) -> Seq<u8> {
        talk_of(&self.hs).secret->0
    }

    /// The frame that was sent.
    pub closed spec fn sent(self) -> Seq<u8> {
        talk_of(&self.hs).sent->0
    }

    pub closed spec fn wf(self) -> bool {
        talk_of(&self.hs) == (Talk {
            nnpsk0: true,
            psk: self.psk(),
            initiates: true,
            secret: Some(self.secret()),
            sent: Some(self.sent()),
            got: None,
        })
    }

    /// Takes the reply: the session's two halves, if it is accepted. The reply of a
    /// listening side that holds the same key is, and both sides arrive at the same keys.
    pub fn finish(self, frame: &[u8]) -> (r: Result<(SecureReader, SecureWriter), Error>)
        requires
            self.wf(),
        ensures
            r is Ok == handshake_accepts(
                self.psk(),
                true,
                Some(self.secret()),
                Some(self.sent()),
                frame@,
            ),
            match r {
                Ok((reader, writer)) => {
                    let t = dialed(self.psk(), self.secret(), self.sent(), frame@);
                    is_session(t, reader, writer) && keys_agree(t)
                },
                Err(e) => e is Noise,
            },
            forall|s: Seq<u8>|
                frame@ == #[trigger] handshake_frame(self.psk(), false, s, Some(self.sent()))
                    ==> r is Ok,
    {
        let mut hs = self.hs;
        let ghost t = talk_of(&hs);
        assert forall|s: Seq<u8>|
            frame@ == #[trigger] handshake_frame(t.psk, false, s, t.sent) implies answers(
            t,
            frame@,
        ) by {
            assert(frame@ == peer_frame(t, s));
        }
        match handshake_read(&mut hs, frame) {
            Ok(_) => self::finish(hs),
            Err(e) => Err(Error::Noise(e)),
        }
    }
}

/// Dialing side: initiates the handshake. Returns what waits for the reply, and the
/// first frame. Whether it succeeds rests on the machine's source of random numbers.
pub fn handshake_initiator(psk: &[u8; 32]) -> (r: Result<(Initiation, Vec<u8>), Error>)
    ensures
        match r {
            Ok((wait, frame)) => {
                &&& wait.wf()
                &&& wait.psk() == psk@
                &&& wait.sent() == frame@
                &&& frame@ == handshake_frame(psk@, true, wait.secret(), None)
                &&& frame@.len() == HANDSHAKE_LEN
            },
            Err(e) => e is Noise,
        },
{
    match new_handshake(psk, true) {
        Ok(h) => {
            let mut hs = h;
            match handshake_write(&mut hs) {
                Ok(frame) => Ok((Initiation { hs }, frame)),
                Err(e) => Err(Error::Noise(e)),
            }
        },
        Err(e) => Err(Error::Noise(e)),
    }
}

/// `reply` and the session's halves are what the listening side with this key and this
/// random key makes of the first frame.
pub open spec fn responded(
    psk: Seq<u8>,
    s: Seq<u8>,
    first: Seq<u8>,
    reply: Seq<u8>,
    reader: SecureReader,
    writer: SecureWriter,
) -> bool {
    &&& reply == handshake_frame(psk, false, s, Some(first))
    &&& is_session(heard(psk, s, first, reply), reader, writer)
    &&& keys_agree(heard(psk, s, first, reply))
}

/// `reply` and the session's halves are what the listening side with this key makes of
/// the first frame.
pub open spec fn is_response(
    psk: Seq<u8>,
    first: Seq<u8>,
    reply: Seq<u8>,
    reader: SecureReader,
    writer: SecureWriter,
) -> bool {
    exists|s: Seq<u8>| responded(psk, s, first, reply, reader, writer)
}

/// The listening side's handshake, about to reply.
pub struct Reception {
    hs: snow::HandshakeState,
}

impl Reception {
    /// The key that the handshake was set up with.
    pub closed spec fn psk(self) -> Seq<u8> {
        talk_of(&self.hs).psk
    }

    /// The frame that was received.
    pub closed spec fn first(self) -> Seq<u8> {
        talk_of(&self.hs).got->0
    }

    pub closed spec fn wf(self) -> bool {
        talk_of(&self.hs) == read(fresh_talk(self.psk(), false), self.first())
    }

    /// Takes the first frame, if it is accepted. That of a dialing side which holds the same
    /// key is.
    pub fn begin(psk: &[u8; 32], frame: &[u8]) -> (r: Result<Reception, Error>)
        ensures
            r is Ok == handshake_accepts(psk@, false, None, None, frame@),
            match r {
                Ok(wait) => wait.wf() && wait.psk() == psk@ && wait.first() == frame@,
                Err(e) => e is Noise,
            },
            forall|s: Seq<u8>|
                frame@ == #[trigger] handshake_frame(psk@, true, s, None) ==> r is Ok,
    {
        let mut hs = match new_handshake(psk, false) {
            Ok(h) => h,
            Err(e) => {
                return Err(Error::Noise(e));
            },
        };
        let ghost t = talk_of(&hs);
        assert forall|s: Seq<u8>|
            frame@ == #[trigger] handshake_frame(psk@, true, s, None) implies answers(
            t,
            frame@,
        ) by {
            assert(frame@ == peer_frame(t, s));
        }
        match handshake_read(&mut hs, frame) {
            Ok(_) => Ok(Reception { hs }),
            Err(e) => Err(Error::Noise(e)),
        }
    }

    /// The reply and the session's two halves. Whether it succeeds rests on the machine's
    /// source of random numbers.
    pub fn reply(self) -> (r: Result<(Vec<u8>, SecureReader, SecureWriter), Error>)
        requires
            self.wf(),
        ensures
            match r {
                Ok((reply, reader, writer)) => reply@.len() == HANDSHAKE_LEN && is_response(
                    self.psk(),
                    self.first(),
                    reply@,
                    reader,
                    writer,
                ),
                Err(e) => e is Noise,
            },
    {
        let ghost (psk, first) = (self.psk(), self.first());
        let mut hs = self.hs;
        let reply: Vec<u8> = match handshake_write(&mut hs) {
            Ok(m) => m,
            Err(e) => {
                return Err(Error::Noise(e));
            },
        };
        let ghost s = talk_of(&hs).secret->0;
        assert(talk_of(&hs) == heard(psk, s, first, reply@));
        match finish(hs) {
            Ok((reader, writer)) => {
                assert(responded(psk, s, first, reply@, reader, writer));
                Ok((reply, reader, writer))
            },
            Err(e) => Err(e),
        }
    }
}

/// Listening side: responds to the first frame. Returns the reply and the session's
/// two halves. A first frame that is not accepted is refused; that of a dialing side which
/// holds the same key is accepted, and whether a reply then comes about rests on the
/// machine's source of random numbers.
pub fn handshake_responder(psk: &[u8; 32], frame: &[u8]) -> (r: Result<
    (Vec<u8>, SecureReader, SecureWriter),
    Error,
>)
    ensures
        match r {
            Ok((reply, reader, writer)) => reply@.len() == HANDSHAKE_LEN && is_response(
                psk@,
                frame@,
                reply@,
                reader,
                writer,
            ),
            Err(e) => e is Noise,
        },
        r is Ok ==> handshake_accepts(psk@, false, None, None, frame@),
        forall|s: Seq<u8>|
            frame@ == #[trigger] handshake_frame(psk@, true, s, None) ==> handshake_accepts(
                psk@,
                false,
                None,
                None,
                frame@,
            ),
{
    match Reception::begin(psk, frame) {
        Ok(wait) => wait.reply(),
        Err(e) => Err(e),
    }
}

/// Two machines that hold the same key make one session: where the dialing side gets the
/// reply that the listening side made of its first frame, each side sends under the key
/// under which the other receives.
pub proof fn law_one_key_makes_one_session(
    psk: Seq<u8>,
    si: Seq<u8>,
    first: Seq<u8>,
    reply: Seq<u8>,
    dialer: (SecureReader, SecureWriter),
    listener: (SecureReader, SecureWriter),
)
    requires
        is_response(psk, first, reply, listener.0, listener.1),
        is_session(dialed(psk, si, first, reply), dialer.0, dialer.1),
        keys_agree(dialed(psk, si, first, reply)),
    ensures
        dialer.1.key() == listener.0.key(),
        listener.1.key() == dialer.0.key(),
        dialer.1.counter() == listener.0.counter(),
        listener.1.counter() == dialer.0.counter(),
{
    let t = dialed(psk, si, first, reply);
    let sr = choose|s: Seq<u8>| responded(psk, s, first, reply, listener.0, listener.1);
    assert(met(t, sr));
    assert(other_side(t, sr) == heard(psk, sr, first, reply));
}

/// Two machines that hold the same key hear each other: in a session of the two, the
/// payloads that one side sends come out at the other side as they were, in order, none
/// left out.
pub proof fn law_messages_arrive_in_order(
    psk: Seq<u8>,
    si: Seq<u8>,
    first: Seq<u8>,
    reply: Seq<u8>,
    dialer: (SecureReader, SecureWriter),
    listener: (SecureReader, SecureWriter),
    plains: Seq<Seq<u8>>,
    frames: Seq<Seq<u8>>,
)
    requires
        is_response(psk, first, reply, listener.0, listener.1),
        is_session(dialed(psk, si, first, reply), dialer.0, dialer.1),
        keys_agree(dialed(psk, si, first, reply)),
        plains.len() <= u64::MAX,
    ensures
        all_sent(dialer.1.key(), dialer.1.counter() as int, plains, frames) ==> all_received(
            listener.0.key(),
            listener.0.counter() as int,
            frames,
        ) == each_one(plains),
        all_sent(listener.1.key(), listener.1.counter() as int, plains, frames) ==> all_received(
            dialer.0.key(),
            dialer.0.counter() as int,
            frames,
        ) == each_one(plains),
{
    law_one_key_makes_one_session(psk, si, first, reply, dialer, listener);
    if all_sent(dialer.1.key(), 0, plains, frames) {
        lemma_all_arrive(dialer.1.key(), 0, plains, frames);
    }
    if all_sent(listener.1.key(), 0, plains, frames) {
        lemma_all_arrive(listener.1.key(), 0, plains, frames);
    }
}

} // verus!
