//! The search for a peer: which of its addresses are tried, in which order, and when
//! discovery is asked.
use vstd::prelude::*;

use crate::config::Peer;
use crate::text::{self, joined, same_text};

verus! {

/// Where a session's address comes from decides how long it may take to answer.
pub const CONNECT_TIMEOUT_MS: u64 = 4000;

/// Per-candidate probe: short, so a stale address doesn't stall a whole reconnect
/// round.
pub const PROBE_TIMEOUT_MS: u64 = 1500;

/// How long discovery may take.
pub const DISCOVER_TIMEOUT_MS: u64 = 3000;

/// An address to try, and how long it may take to answer.
#[derive(Debug)]
pub struct Candidate {
    pub addr: String,
    pub timeout_ms: u64,
}

/// What a candidate says.
#[verifier::ext_equal]
pub ghost struct CandidateView {
    pub addr: Seq<char>,
    pub timeout_ms: u64,
}

impl View for Candidate {
    type V = CandidateView;

    open spec fn view(&self) -> CandidateView {
        CandidateView { addr: self.addr@, timeout_ms: self.timeout_ms }
    }
}

pub open spec fn candidates_view(v: Seq<Candidate>) -> Seq<CandidateView> {
    v.map_values(|c: Candidate| c@)
}

/// The address is among the candidates.
pub open spec fn is_listed(v: Seq<CandidateView>, addr: Seq<char>) -> bool {
    exists|i: int| 0 <= i < v.len() && (#[trigger] v[i]).addr == addr
}

/// The candidates with one more address at the end, unless it is empty or listed.
pub open spec fn with_candidate(
    v: Seq<CandidateView>,
    addr: Seq<char>,
    timeout_ms: u64,
) -> Seq<CandidateView> {
    if addr.len() == 0 || is_listed(v, addr) {
        v
    } else {
        v.push(CandidateView { addr, timeout_ms })
    }
}

/// The candidates with an optional address.
pub open spec fn with_optional(
    v: Seq<CandidateView>,
    addr: Option<Seq<char>>,
    timeout_ms: u64,
) -> Seq<CandidateView> {
    match addr {
        Some(a) => with_candidate(v, a, timeout_ms),
        None => v,
    }
}

/// The candidates with the first `n` of some addresses.
pub open spec fn with_all(
    v: Seq<CandidateView>,
    addrs: Seq<Seq<char>>,
    timeout_ms: u64,
    n: int,
) -> Seq<CandidateView>
    decreases n,
{
    if n <= 0 {
        v
    } else {
        with_candidate(with_all(v, addrs, timeout_ms, n - 1), addrs[n - 1], timeout_ms)
    }
}

/// The addresses of a peer in the order in which a session dials them: the configured
/// primary, with the full timeout since it is a deliberate choice, then the last good
/// one and the learned fallbacks, with a short probe.
pub open spec fn dial_order(p: crate::config::PeerView) -> Seq<CandidateView> {
    with_all(
        with_optional(
            with_optional(seq![], p.addr, CONNECT_TIMEOUT_MS),
            p.last_good,
            PROBE_TIMEOUT_MS,
        ),
        p.addrs,
        PROBE_TIMEOUT_MS,
        p.addrs.len() as int,
    )
}

/// The addresses of a host in the order in which a client tries them: the last good
/// one, the configured primary, then the learned fallbacks.
pub open spec fn probe_order(p: crate::config::PeerView) -> Seq<CandidateView> {
    with_all(
        with_optional(
            with_optional(seq![], p.last_good, PROBE_TIMEOUT_MS),
            p.addr,
            PROBE_TIMEOUT_MS,
        ),
        p.addrs,
        PROBE_TIMEOUT_MS,
        p.addrs.len() as int,
    )
}

/// Adds an address to the candidates.
fn offer(v: &mut Vec<Candidate>, addr: &str, timeout_ms: u64)
    ensures
        candidates_view(final(v)@) == with_candidate(candidates_view(old(v)@), addr@, timeout_ms),
{
    if addr.is_empty() {
        return ;
    }
    for i in 0..v.len()
        invariant
            *v == *old(v),
            forall|j: int| 0 <= j < i ==> (#[trigger] candidates_view(v@)[j]).addr != addr@,
    {
        assert(candidates_view(v@)[i as int] == v@[i as int]@);
        if same_text(v[i].addr.as_str(), addr) {
            return ;
        }
    }
    let c: Candidate = Candidate { addr: addr.to_owned(), timeout_ms };
    v.push(c);
    assert(candidates_view(v@) =~= candidates_view(old(v)@).push(c@));
}

fn offer_optional(v: &mut Vec<Candidate>, addr: &Option<String>, timeout_ms: u64)
    ensures
        candidates_view(final(v)@) == with_optional(
            candidates_view(old(v)@),
            text::opt_text(*addr),
            timeout_ms,
        ),
{
    if let Some(a) = addr {
        offer(v, a.as_str(), timeout_ms);
    }
}

fn offer_all(v: &mut Vec<Candidate>, addrs: &Vec<String>, timeout_ms: u64)
    ensures
        candidates_view(final(v)@) == with_all(
            candidates_view(old(v)@),
            text::texts(addrs@),
            timeout_ms,
            addrs@.len() as int,
        ),
{
    for i in 0..addrs.len()
        invariant
            candidates_view(v@) == with_all(
                candidates_view(old(v)@),
                text::texts(addrs@),
                timeout_ms,
                i as int,
            ),
    {
        assert(text::texts(addrs@)[i as int] == addrs@[i as int]@);
        offer(v, addrs[i].as_str(), timeout_ms);
    }
}

/// No address is empty, and none is listed twice.
pub open spec fn clean(v: Seq<CandidateView>) -> bool {
    &&& forall|i: int| 0 <= i < v.len() ==> (#[trigger] v[i]).addr.len() > 0
    &&& forall|i: int, j: int|
        0 <= i < j < v.len() ==> (#[trigger] v[i]).addr != (#[trigger] v[j]).addr
}

proof fn lemma_with_candidate(v: Seq<CandidateView>, addr: Seq<char>, timeout_ms: u64)
    requires
        clean(v),
    ensures
        clean(with_candidate(v, addr, timeout_ms)),
        addr.len() > 0 ==> is_listed(with_candidate(v, addr, timeout_ms), addr),
        forall|a: Seq<char>| is_listed(v, a) ==> is_listed(with_candidate(v, addr, timeout_ms), a),
{
    let w = with_candidate(v, addr, timeout_ms);
    if addr.len() > 0 && !is_listed(v, addr) {
        assert(w[v.len() as int].addr == addr);
        assert forall|a: Seq<char>| is_listed(v, a) implies is_listed(w, a) by {
            let i = choose|i: int| 0 <= i < v.len() && (#[trigger] v[i]).addr == a;
            assert(w[i].addr == a);
        }
    }
}

proof fn lemma_with_all(v: Seq<CandidateView>, addrs: Seq<Seq<char>>, timeout_ms: u64, n: int)
    requires
        clean(v),
        0 <= n <= addrs.len(),
    ensures
        clean(with_all(v, addrs, timeout_ms, n)),
        forall|i: int|
            0 <= i < n && (#[trigger] addrs[i]).len() > 0 ==> is_listed(
                with_all(v, addrs, timeout_ms, n),
                addrs[i],
            ),
        forall|a: Seq<char>| is_listed(v, a) ==> is_listed(with_all(v, addrs, timeout_ms, n), a),
    decreases n,
{
    if n > 0 {
        lemma_with_all(v, addrs, timeout_ms, n - 1);
        lemma_with_candidate(
            with_all(v, addrs, timeout_ms, n - 1),
            addrs[n - 1],
            timeout_ms,
        );
    }
}

/// Every known address is tried, each once: none is empty or listed twice.
pub proof fn law_every_address_is_tried_once(p: crate::config::PeerView)
    ensures
        clean(dial_order(p)),
        clean(probe_order(p)),
        forall|i: int|
            0 <= i < p.addrs.len() && (#[trigger] p.addrs[i]).len() > 0 ==> is_listed(
                dial_order(p),
                p.addrs[i],
            ) && is_listed(probe_order(p), p.addrs[i]),
        p.addr matches Some(a) ==> a.len() > 0 ==> is_listed(dial_order(p), a) && is_listed(
            probe_order(p),
            a,
        ),
        p.last_good matches Some(a) ==> a.len() > 0 ==> is_listed(dial_order(p), a) && is_listed(
            probe_order(p),
            a,
        ),
{
    let none: Seq<CandidateView> = seq![];
    let a1 = with_optional(none, p.addr, CONNECT_TIMEOUT_MS);
    let a2 = with_optional(a1, p.last_good, PROBE_TIMEOUT_MS);
    let b1 = with_optional(none, p.last_good, PROBE_TIMEOUT_MS);
    let b2 = with_optional(b1, p.addr, PROBE_TIMEOUT_MS);
    match p.addr {
        Some(a) => {
            lemma_with_candidate(none, a, CONNECT_TIMEOUT_MS);
        },
        None => {},
    }
    match p.last_good {
        Some(a) => {
            lemma_with_candidate(a1, a, PROBE_TIMEOUT_MS);
            lemma_with_candidate(none, a, PROBE_TIMEOUT_MS);
        },
        None => {},
    }
    match p.addr {
        Some(a) => {
            lemma_with_candidate(b1, a, PROBE_TIMEOUT_MS);
        },
        None => {},
    }
    lemma_with_all(a2, p.addrs, PROBE_TIMEOUT_MS, p.addrs.len() as int);
    lemma_with_all(b2, p.addrs, PROBE_TIMEOUT_MS, p.addrs.len() as int);
}

/// Some texts with `" · "` between them, the first `n`.
pub open spec fn listed_failures(v: Seq<Seq<char>>, n: int) -> Seq<char>
    decreases n,
{
    if n <= 0 {
        seq![]
    } else if n == 1 {
        v[0]
    } else {
        listed_failures(v, n - 1) + " · "@ + v[n - 1]
    }
}

/// Some texts with `" · "` between them.
fn list_failures(failures: &Vec<String>) -> (r: String)
    ensures
        r@ == listed_failures(text::texts(failures@), failures@.len() as int),
{
    let mut list: String = String::new();
    let ghost all = text::texts(failures@);
    assert(list@ =~= listed_failures(all, 0));
    for i in 0..failures.len()
        invariant
            all == text::texts(failures@),
            list@ == listed_failures(all, i as int),
    {
        assert(all[i as int] == failures@[i as int]@);
        if i > 0 {
            list = joined(list.as_str(), " · ");
        }
        list = joined(list.as_str(), failures[i].as_str());
        proof {
            if i == 0 {
                assert(list@ =~= failures@[0]@);
            }
        }
    }
    list
}

/// The text about a peer that none of the ways that were tried leads to.
pub fn unreachable_text(name: &str, failures: &Vec<String>) -> (r: String)
    ensures
        r@ == "'"@ + name@ + "' unreachable — tried: "@ + listed_failures(
            text::texts(failures@),
            failures@.len() as int,
        ),
{
    joined(
        joined(joined("'", name).as_str(), "' unreachable — tried: ").as_str(),
        list_failures(failures).as_str(),
    )
}

/// The text about a host that none of the ways that were tried leads to.
pub fn host_missing_text(name: &str, failures: &Vec<String>) -> (r: String)
    ensures
        r@ == "'"@ + name@ + "' bulunamadı — denenen yollar: "@ + listed_failures(
            text::texts(failures@),
            failures@.len() as int,
        ),
{
    joined(
        joined(joined("'", name).as_str(), "' bulunamadı — denenen yollar: ").as_str(),
        list_failures(failures).as_str(),
    )
}

// -------------------------------------------------------------- search ----

/// Who looks for whom decides the order of the addresses and the language of the report.
#[derive(Clone, Copy, Debug, PartialEq, Eq, Structural)]
pub enum Wanted {
    /// A session's other end.
    Peer,
    /// The machine that a client belongs to.
    Host,
}

/// What a search has to know next, or what it came to.
#[derive(Debug)]
pub enum Ask {
    /// Does this address resolve, and take a connection within this time?
    Dial { addr: String, timeout_ms: u64 },
    /// Which address does discovery give for this name within this time?
    Discover { name: String, timeout_ms: u64 },
    /// The search is over: this socket address was found.
    Found(String),
    /// The search is over: nothing was found.
    Failed(String),
}

/// What a search has to know next, as values.
#[verifier::ext_equal]
pub ghost enum AskView {
    Dial { addr: Seq<char>, timeout_ms: u64 },
    Discover { name: Seq<char>, timeout_ms: u64 },
    Found(Seq<char>),
    Failed(Seq<char>),
}

impl View for Ask {
    type V = AskView;

    open spec fn view(&self) -> AskView {
        match *self {
            Ask::Dial { addr, timeout_ms } => AskView::Dial { addr: addr@, timeout_ms },
            Ask::Discover { name, timeout_ms } => AskView::Discover { name: name@, timeout_ms },
            Ask::Found(a) => AskView::Found(a@),
            Ask::Failed(t) => AskView::Failed(t@),
        }
    }
}

/// What came of a question.
#[derive(Debug)]
pub enum Answer {
    /// This socket address is the one.
    Up(String),
    /// The machine says why not.
    Refused(String),
    TimedOut,
    Unresolved,
}

/// What came of a question, as values.
#[verifier::ext_equal]
pub ghost enum AnswerView {
    Up(Seq<char>),
    Refused(Seq<char>),
    TimedOut,
    Unresolved,
}

impl View for Answer {
    type V = AnswerView;

    open spec fn view(&self) -> AnswerView {
        match *self {
            Answer::Up(a) => AnswerView::Up(a@),
            Answer::Refused(e) => AnswerView::Refused(e@),
            Answer::TimedOut => AnswerView::TimedOut,
            Answer::Unresolved => AnswerView::Unresolved,
        }
    }
}

/// A search under way.
#[derive(Debug)]
pub struct Search {
    pub wanted: Wanted,
    pub name: String,
    pub candidates: Vec<Candidate>,
    /// How many of the candidates were tried.
    pub tried: usize,
    /// Discovery was asked.
    pub asked: bool,
    pub failures: Vec<String>,
    pub found: Option<String>,
}

/// A search under way, as values.
#[verifier::ext_equal]
pub ghost struct SearchView {
    pub wanted: Wanted,
    pub name: Seq<char>,
    pub candidates: Seq<CandidateView>,
    pub tried: int,
    pub asked: bool,
    pub failures: Seq<Seq<char>>,
    pub found: Option<Seq<char>>,
}

impl View for Search {
    type V = SearchView;

    open spec fn view(&self) -> SearchView {
        SearchView {
            wanted: self.wanted,
            name: self.name@,
            candidates: candidates_view(self.candidates@),
            tried: self.tried as int,
            asked: self.asked,
            failures: text::texts(self.failures@),
            found: text::opt_text(self.found),
        }
    }
}

/// The text about a machine that none of the ways that were tried leads to.
pub open spec fn missing_of(wanted: Wanted, name: Seq<char>, failures: Seq<Seq<char>>) -> Seq<char> {
    "'"@ + name + match wanted {
        Wanted::Peer => "' unreachable — tried: "@,
        Wanted::Host => "' bulunamadı — denenen yollar: "@,
    } + listed_failures(failures, failures.len() as int)
}

/// Why an address does not lead to the machine.
pub open spec fn reason_of(wanted: Wanted, answer: AnswerView) -> Seq<char> {
    match (answer, wanted) {
        (AnswerView::Refused(e), _) => e,
        (AnswerView::TimedOut, Wanted::Peer) => "timed out"@,
        (AnswerView::TimedOut, Wanted::Host) => "zaman aşımı"@,
        (_, Wanted::Peer) => "could not resolve"@,
        (_, Wanted::Host) => "adres çözülemedi"@,
    }
}

/// Discovery does not lead to the machine.
pub open spec fn undiscovered(wanted: Wanted) -> Seq<char> {
    match wanted {
        Wanted::Peer => "mDNS: no answer"@,
        Wanted::Host => "mDNS: bulunamadı"@,
    }
}

impl SearchView {
    /// A search for the peer that is to begin.
    pub open spec fn start(wanted: Wanted, p: crate::config::PeerView) -> SearchView {
        SearchView {
            wanted,
            name: p.name,
            candidates: match wanted {
                Wanted::Peer => dial_order(p),
                Wanted::Host => probe_order(p),
            },
            tried: 0,
            asked: false,
            failures: seq![],
            found: None,
        }
    }

    /// What the search has to know next: whether the next address answers; once none is
    /// left, what discovery says.
    pub open spec fn ask(self) -> AskView {
        if self.found is Some {
            AskView::Found(self.found->0)
        } else if 0 <= self.tried < self.candidates.len() {
            let c = self.candidates[self.tried];
            AskView::Dial { addr: c.addr, timeout_ms: c.timeout_ms }
        } else if !self.asked {
            AskView::Discover { name: self.name, timeout_ms: DISCOVER_TIMEOUT_MS }
        } else {
            AskView::Failed(missing_of(self.wanted, self.name, self.failures))
        }
    }

    /// The search after an answer to what it asked.
    pub open spec fn heard(self, answer: AnswerView) -> SearchView {
        match (self.ask(), answer) {
            (AskView::Found(_), _) | (AskView::Failed(_), _) => self,
            (_, AnswerView::Up(a)) => SearchView { found: Some(a), ..self },
            (AskView::Dial { addr, .. }, _) => SearchView {
                tried: self.tried + 1,
                failures: self.failures.push(addr + ": "@ + reason_of(self.wanted, answer)),
                ..self
            },
            (AskView::Discover { .. }, _) => SearchView {
                asked: true,
                failures: self.failures.push(undiscovered(self.wanted)),
                ..self
            },
        }
    }
}

impl Search {
    /// What the search has to know next, or what it came to.
    pub fn ask(&self) -> (r: Ask)
        ensures
            r@ == self@.ask(),
    {
        if let Some(a) = &self.found {
            return Ask::Found(a.clone());
        }
        if self.tried < self.candidates.len() {
            let c: &Candidate = &self.candidates[self.tried];
            assert(self@.candidates[self.tried as int] == c@);
            return Ask::Dial { addr: c.addr.clone(), timeout_ms: c.timeout_ms };
        }
        if !self.asked {
            return Ask::Discover { name: self.name.clone(), timeout_ms: DISCOVER_TIMEOUT_MS };
        }
        Ask::Failed(
            match self.wanted {
                Wanted::Peer => unreachable_text(self.name.as_str(), &self.failures),
                Wanted::Host => host_missing_text(self.name.as_str(), &self.failures),
            },
        )
    }

    /// Takes the answer to what the search asked.
    pub fn heard(&mut self, answer: Answer)
        ensures
            final(self)@ == old(self)@.heard(answer@),
    {
        let ask: Ask = self.ask();
        let wanted: Wanted = self.wanted;
        match ask {
            Ask::Found(_) | Ask::Failed(_) => {},
            Ask::Dial { addr, .. } => {
                assert(self.tried < self.candidates.len());
                let reason: String = match answer {
                    Answer::Up(a) => {
                        self.found = Some(a);
                        return ;
                    },
                    Answer::Refused(e) => e,
                    Answer::TimedOut => match wanted {
                        Wanted::Peer => "timed out".to_owned(),
                        Wanted::Host => "zaman aşımı".to_owned(),
                    },
                    Answer::Unresolved => match wanted {
                        Wanted::Peer => "could not resolve".to_owned(),
                        Wanted::Host => "adres çözülemedi".to_owned(),
                    },
                };
                let line: String = joined(joined(addr.as_str(), ": ").as_str(), reason.as_str());
                proof {
                    text::lemma_texts_push(self.failures@, line);
                }
                self.failures.push(line);
                self.tried = self.tried + 1;
            },
            Ask::Discover { .. } => {
                if let Answer::Up(a) = answer {
                    self.found = Some(a);
                    return ;
                }
                let line: String = match wanted {
                    Wanted::Peer => "mDNS: no answer".to_owned(),
                    Wanted::Host => "mDNS: bulunamadı".to_owned(),
                };
                proof {
                    text::lemma_texts_push(self.failures@, line);
                }
                self.failures.push(line);
                self.asked = true;
            },
        }
    }
}

/// The search for a session's other end.
pub fn find_peer(peer: &Peer) -> (r: Search)
    ensures
        r@ == SearchView::start(Wanted::Peer, peer@),
{
    let mut v: Vec<Candidate> = Vec::new();
    assert(candidates_view(v@) =~= seq![]);
    offer_optional(&mut v, &peer.addr, CONNECT_TIMEOUT_MS);
    offer_optional(&mut v, &peer.last_good, PROBE_TIMEOUT_MS);
    offer_all(&mut v, &peer.addrs, PROBE_TIMEOUT_MS);
    begin(Wanted::Peer, peer.name.as_str(), v)
}

/// The search for a client's host.
pub fn find_host(peer: &Peer) -> (r: Search)
    ensures
        r@ == SearchView::start(Wanted::Host, peer@),
{
    let mut v: Vec<Candidate> = Vec::new();
    assert(candidates_view(v@) =~= seq![]);
    offer_optional(&mut v, &peer.last_good, PROBE_TIMEOUT_MS);
    offer_optional(&mut v, &peer.addr, PROBE_TIMEOUT_MS);
    offer_all(&mut v, &peer.addrs, PROBE_TIMEOUT_MS);
    begin(Wanted::Host, peer.name.as_str(), v)
}

/// A search among some addresses that is to begin.
fn begin(wanted: Wanted, name: &str, candidates: Vec<Candidate>) -> (r: Search)
    ensures
        r@ == (SearchView {
            wanted,
            name: name@,
            candidates: candidates_view(candidates@),
            tried: 0,
            asked: false,
            failures: seq![],
            found: None,
        }),
{
    let r: Search = Search {
        wanted,
        name: name.to_owned(),
        candidates,
        tried: 0,
        asked: false,
        failures: Vec::new(),
        found: None,
    };
    assert(r@.failures =~= seq![]);
    r
}

/// What a network answers: each address, and discovery.
pub ghost struct Network {
    pub dialed: spec_fn(Seq<char>) -> AnswerView,
    pub discovered: AnswerView,
}

impl Network {
    /// An address resolves, and takes a connection.
    pub open spec fn is_up(self, addr: Seq<char>) -> bool {
        (self.dialed)(addr) is Up
    }

    /// What is answered to a question.
    pub open spec fn answers(self, ask: AskView) -> AnswerView {
        match ask {
            AskView::Dial { addr, .. } => (self.dialed)(addr),
            _ => self.discovered,
        }
    }
}

/// What a search asks of a network, in order, and what it comes to.
pub open spec fn searched(s: SearchView, net: Network) -> (Seq<AskView>, AskView)
    decreases
            if s.found is Some {
                0
            } else {
                1 + (if s.asked {
                    0int
                } else {
                    1
                }) + (if 0 <= s.tried < s.candidates.len() {
                    s.candidates.len() - s.tried
                } else {
                    0
                })
            },
{
    match s.ask() {
        AskView::Dial { .. } | AskView::Discover { .. } => {
            let (asked, end) = searched(s.heard(net.answers(s.ask())), net);
            (seq![s.ask()] + asked, end)
        },
        _ => (seq![], s.ask()),
    }
}

/// The questions about some addresses.
pub open spec fn dials(v: Seq<CandidateView>) -> Seq<AskView> {
    v.map_values(|c: CandidateView| AskView::Dial { addr: c.addr, timeout_ms: c.timeout_ms })
}

/// Why each of some addresses does not lead to the machine.
pub open spec fn dial_failures(v: Seq<CandidateView>, wanted: Wanted, net: Network) -> Seq<
    Seq<char>,
> {
    v.map_values(
        |c: CandidateView| c.addr + ": "@ + reason_of(wanted, (net.dialed)(c.addr)),
    )
}

/// A search that has tried the addresses before the `k`th, none of which is up.
pub open spec fn has_tried(s: SearchView, net: Network, k: int) -> SearchView {
    SearchView {
        tried: k,
        failures: dial_failures(s.candidates.take(k), s.wanted, net),
        ..s
    }
}

proof fn lemma_down(s: SearchView, net: Network, k: int)
    requires
        s.tried == 0 && !s.asked && s.failures == Seq::<Seq<char>>::empty() && s.found is None,
        0 <= k <= s.candidates.len(),
        forall|i: int| 0 <= i < k ==> !net.is_up((#[trigger] s.candidates[i]).addr),
    ensures
        searched(s, net) == (
            dials(s.candidates.take(k)) + searched(has_tried(s, net, k), net).0,
            searched(has_tried(s, net, k), net).1,
        ),
    decreases k,
{
    if k == 0 {
        assert(has_tried(s, net, 0) =~= s);
        assert(dials(s.candidates.take(0)) =~= seq![]);
        let rest = searched(s, net).0;
        assert(Seq::<AskView>::empty() + rest =~= rest);
    } else {
        lemma_down(s, net, k - 1);
        let (before, after) = (has_tried(s, net, k - 1), has_tried(s, net, k));
        let c = s.candidates[k - 1];
        assert(!net.is_up(c.addr));
        assert(s.candidates.take(k) =~= s.candidates.take(k - 1).push(c));
        assert(after.failures =~= before.failures.push(
            c.addr + ": "@ + reason_of(s.wanted, (net.dialed)(c.addr)),
        ));
        assert(before.heard(net.answers(before.ask())) =~= after);
        assert(dials(s.candidates.take(k)) =~= dials(s.candidates.take(k - 1)).push(before.ask()));
        let rest = searched(after, net).0;
        assert(dials(s.candidates.take(k - 1)) + (seq![before.ask()] + rest) =~= dials(
            s.candidates.take(k),
        ) + rest);
    }
}

/// The first address that answers is taken: those before it are tried in order, those after
/// it are not, and discovery is not asked.
pub proof fn law_first_answer_is_taken(
    wanted: Wanted,
    p: crate::config::PeerView,
    net: Network,
    k: int,
)
    requires
        ({
            let c = SearchView::start(wanted, p).candidates;
            &&& 0 <= k < c.len()
            &&& net.is_up(c[k].addr)
            &&& forall|i: int| 0 <= i < k ==> !net.is_up((#[trigger] c[i]).addr)
        }),
    ensures
        ({
            let s = SearchView::start(wanted, p);
            searched(s, net) == (
                dials(s.candidates.take(k + 1)),
                AskView::Found((net.dialed)(s.candidates[k].addr)->Up_0),
            )
        }),
{
    let s = SearchView::start(wanted, p);
    lemma_down(s, net, k);
    let t = has_tried(s, net, k);
    let u = t.heard(net.answers(t.ask()));
    assert(u.found is Some);
    assert(searched(u, net).0 =~= seq![]);
    assert(searched(t, net).0 =~= seq![t.ask()]);
    assert(s.candidates.take(k + 1) =~= s.candidates.take(k).push(s.candidates[k]));
    assert(dials(s.candidates.take(k)) + seq![t.ask()] =~= dials(s.candidates.take(k + 1)));
}

/// Discovery is asked last: only once every address was tried and none is up. What it gives
/// is taken; where it gives nothing either, the search fails and says what was tried.
pub proof fn law_discovery_is_asked_last(
    wanted: Wanted,
    p: crate::config::PeerView,
    net: Network,
)
    requires
        forall|i: int|
            0 <= i < SearchView::start(wanted, p).candidates.len() ==> !net.is_up(
                (#[trigger] SearchView::start(wanted, p).candidates[i]).addr,
            ),
    ensures
        ({
            let s = SearchView::start(wanted, p);
            searched(s, net) == (
                dials(s.candidates).push(
                    AskView::Discover { name: p.name, timeout_ms: DISCOVER_TIMEOUT_MS },
                ),
                match net.discovered {
                    AnswerView::Up(a) => AskView::Found(a),
                    _ => AskView::Failed(
                        missing_of(
                            wanted,
                            p.name,
                            dial_failures(s.candidates, wanted, net).push(undiscovered(wanted)),
                        ),
                    ),
                },
            )
        }),
{
    let s = SearchView::start(wanted, p);
    let n = s.candidates.len() as int;
    lemma_down(s, net, n);
    assert(s.candidates.take(n) =~= s.candidates);
    let t = has_tried(s, net, n);
    let u = t.heard(net.answers(t.ask()));
    assert(searched(u, net).0 =~= seq![]);
    assert(searched(t, net).0 =~= seq![t.ask()]);
    assert(dials(s.candidates) + seq![t.ask()] =~= dials(s.candidates).push(t.ask()));
}

/// A session dials the configured address of its peer first, and gives it the longest to
/// answer; a client tries the address that last worked first. Neither passes over an
/// address that is known.
pub proof fn law_the_likeliest_address_comes_first(
    p: crate::config::PeerView,
    addr: Seq<char>,
    i: int,
)
    requires
        addr.len() > 0,
    ensures
        p.addr == Some(addr) ==> dial_order(p).len() > 0 && dial_order(p)[0] == (CandidateView {
            addr,
            timeout_ms: 4000,
        }),
        p.last_good == Some(addr) ==> probe_order(p).len() > 0 && probe_order(p)[0].addr == addr,
        p.addr == Some(addr) || p.last_good == Some(addr) || (0 <= i < p.addrs.len() && p.addrs[i]
            == addr) ==> is_listed(dial_order(p), addr) && is_listed(probe_order(p), addr),
{
    let d0 = with_optional(seq![], p.addr, CONNECT_TIMEOUT_MS);
    let d1 = with_optional(d0, p.last_good, PROBE_TIMEOUT_MS);
    let q0 = with_optional(seq![], p.last_good, PROBE_TIMEOUT_MS);
    let q1 = with_optional(q0, p.addr, PROBE_TIMEOUT_MS);
    lemma_grows(d1, p.addrs, PROBE_TIMEOUT_MS, p.addrs.len() as int, addr, i);
    lemma_grows(q1, p.addrs, PROBE_TIMEOUT_MS, p.addrs.len() as int, addr, i);
    if p.addr == Some(addr) {
        assert(d0[0].addr == addr && d1[0] == d0[0]);
        if !is_listed(q0, addr) {
            assert(q1[q0.len() as int].addr == addr);
        } else {
            assert(q1 == q0);
        }
    }
    if p.last_good == Some(addr) {
        assert(q0[0].addr == addr && q1[0] == q0[0]);
        if !is_listed(d0, addr) {
            assert(d1[d0.len() as int].addr == addr);
        } else {
            assert(d1 == d0);
        }
    }
}

proof fn lemma_grows(
    v: Seq<CandidateView>,
    addrs: Seq<Seq<char>>,
    timeout_ms: u64,
    n: int,
    addr: Seq<char>,
    i: int,
)
    requires
        0 <= n <= addrs.len(),
        addr.len() > 0,
    ensures
        ({
            let w = with_all(v, addrs, timeout_ms, n);
            &&& w.len() >= v.len()
            &&& v.len() > 0 ==> w[0] == v[0]
            &&& is_listed(v, addr) || (0 <= i < n && addrs[i] == addr) ==> is_listed(w, addr)
        }),
    decreases n,
{
    if n > 0 {
        lemma_grows(v, addrs, timeout_ms, n - 1, addr, i);
        let u = with_all(v, addrs, timeout_ms, n - 1);
        let w = with_all(v, addrs, timeout_ms, n);
        if is_listed(u, addr) {
            let j = choose|j: int| 0 <= j < u.len() && (#[trigger] u[j]).addr == addr;
            assert(w[j].addr == addr);
        } else if addrs[n - 1] == addr {
            assert(w[u.len() as int].addr == addr);
        }
    }
}

} // verus!
