//! Requests and responses on the wire.
use vstd::prelude::*;

use crate::parse::{self, ascii_lower, lines, parse_up_to, split_once, words};
use crate::text::{self, decimal, joined, same_text, trim};
use crate::wire::push_all;

verus! {

pub const UI_PORT: u16 = 24818;

/// A request whose head is longer than this is refused.
pub const HEAD_MAX: usize = 65536;

/// A request whose body is longer than this is refused.
pub const BODY_MAX: usize = 262144;

/// Some bytes as text, with a replacement character for what is no UTF-8.
pub uninterp spec fn utf8_lossy(bytes: Seq<u8>) -> Seq<char>;

/// `String::from_utf8_lossy`: the text is a function of the bytes.
#[verifier::external_body]
fn lossy(bytes: &[u8]) -> (r: String)
    ensures
        r@ == utf8_lossy(bytes@),
{
    String::from_utf8_lossy(bytes).into_owned()
}

// ----------------------------------------------------------------- head ----

/// A blank line starts here.
pub open spec fn blank_at(buf: Seq<u8>, i: int) -> bool {
    0 <= i && i + 4 <= buf.len() && buf[i] == 13 && buf[i + 1] == 10 && buf[i + 2] == 13 && buf[i
        + 3] == 10
}

/// Where the head of a request ends: at the first blank line.
pub open spec fn is_headers_end(buf: Seq<u8>, i: int) -> bool {
    blank_at(buf, i) && forall|j: int| 0 <= j < i ==> !blank_at(buf, j)
}

/// There is no blank line.
pub open spec fn is_headless(buf: Seq<u8>) -> bool {
    forall|j: int| !blank_at(buf, j)
}

/// Where the head of a request ends.
pub fn find_headers_end(buf: &[u8]) -> (r: Option<usize>)
    ensures
        match r {
            Some(i) => is_headers_end(buf@, i as int),
            None => is_headless(buf@),
        },
{
    if buf.len() < 4 {
        return None;
    }
    let last: usize = buf.len() - 4;
    let mut i: usize = 0;
    loop
        invariant
            last + 4 == buf@.len(),
            last + 4 <= usize::MAX,
            i <= last,
            forall|j: int| 0 <= j < i ==> !blank_at(buf@, j),
        decreases last - i,
    {
        if buf[i] == 13 && buf[i + 1] == 10 && buf[i + 2] == 13 && buf[i + 3] == 10 {
            return Some(i);
        }
        assert(!blank_at(buf@, i as int));
        if i == last {
            return None;
        }
        i = i + 1;
    }
}

/// A header: its name in lower case, and its value.
#[derive(Debug)]
pub struct Header {
    pub name: String,
    pub value: String,
}

/// What the headers say.
pub open spec fn headers_view(v: Seq<Header>) -> Seq<(Seq<char>, Seq<char>)> {
    v.map_values(|h: Header| (h.name@, h.value@))
}

/// The header on a line; a line without a colon holds none.
pub open spec fn header_on(line: Seq<char>) -> Option<(Seq<char>, Seq<char>)> {
    match parse::parted(line, ':') {
        Some((k, v)) => Some((parse::ascii_lower_of(k), text::trimmed(v))),
        None => None,
    }
}

/// The headers on some lines.
pub open spec fn headers_on(rows: Seq<Seq<char>>) -> Seq<(Seq<char>, Seq<char>)>
    decreases rows.len(),
{
    if rows.len() == 0 {
        seq![]
    } else {
        let before = headers_on(rows.drop_last());
        match header_on(rows.last()) {
            Some(h) => before.push(h),
            None => before,
        }
    }
}

/// The first line of a head; nothing where it has none.
pub open spec fn request_line_of(head: Seq<char>) -> Seq<char> {
    let rows = parse::lines_of(head);
    if rows.len() > 0 {
        rows[0]
    } else {
        ""@
    }
}

/// The headers of a head.
pub open spec fn headers_of(head: Seq<char>) -> Seq<(Seq<char>, Seq<char>)> {
    let rows = parse::lines_of(head);
    if rows.len() > 0 {
        headers_on(rows.skip(1))
    } else {
        seq![]
    }
}

/// The value of the first header with a name.
pub open spec fn header_value(h: Seq<(Seq<char>, Seq<char>)>, name: Seq<char>) -> Option<Seq<char>>
    decreases h.len(),
{
    if h.len() == 0 {
        None
    } else if h[0].0 == name {
        Some(h[0].1)
    } else {
        header_value(h.skip(1), name)
    }
}

/// How long the body is said to be; zero where that is no number.
pub open spec fn content_length_of(h: Seq<(Seq<char>, Seq<char>)>) -> int {
    match header_value(h, "content-length"@) {
        Some(v) => match parse::parsed(v, 0, usize::MAX as int) {
            Some(n) => n,
            None => 0,
        },
        None => 0,
    }
}

/// A request may proceed: no token is required, or it carries the right one.
pub open spec fn is_authorized(
    h: Seq<(Seq<char>, Seq<char>)>,
    required: Option<Seq<char>>,
) -> bool {
    match required {
        None => true,
        Some(token) => header_value(h, "authorization"@) == Some("Bearer "@ + token),
    }
}

/// The head of a request.
#[derive(Debug)]
pub struct Head {
    pub request_line: String,
    pub headers: Vec<Header>,
}

/// Reads the head of a request.
pub fn read_head(head: &str) -> (r: Head)
    ensures
        r.request_line@ == request_line_of(head@),
        headers_view(r.headers@) == headers_of(head@),
{
    let rows: Vec<String> = lines(head);
    let ghost all = text::texts(rows@);
    let mut headers: Vec<Header> = Vec::new();
    assert(headers_view(headers@) =~= seq![]);
    assert(all.len() == rows@.len());
    if rows.len() == 0 {
        return Head { request_line: "".to_owned(), headers };
    }
    let ghost body = all.skip(1);
    let mut i: usize = 1;
    assert(body.take(0) =~= seq![]);
    while i < rows.len()
        invariant
            1 <= i <= rows@.len(),
            all == text::texts(rows@),
            body == all.skip(1),
            headers_view(headers@) == headers_on(body.take(i - 1)),
        decreases rows@.len() - i,
    {
        proof {
            assert(body.take(i as int).drop_last() =~= body.take(i - 1));
            assert(body.take(i as int).last() == rows@[i as int]@);
        }
        match split_once(rows[i].as_str(), ':') {
            Some((k, v)) => {
                let h: Header = Header { name: ascii_lower(k.as_str()), value: trim(v.as_str()) };
                let ghost before = headers_view(headers@);
                let ghost hv = (h.name@, h.value@);
                headers.push(h);
                assert(headers_view(headers@) =~= before.push(hv));
            },
            None => {},
        }
        i = i + 1;
    }
    proof {
        assert(body.take(body.len() as int) =~= body);
        assert(all[0] == rows@[0]@);
    }
    Head { request_line: rows[0].clone(), headers }
}

impl Head {
    /// The value of the first header with a name.
    pub fn header(&self, name: &str) -> (r: Option<String>)
        ensures
            text::opt_text(r) == header_value(headers_view(self.headers@), name@),
    {
        let ghost all = headers_view(self.headers@);
        assert(all.skip(0) =~= all);
        for i in 0..self.headers.len()
            invariant
                all == headers_view(self.headers@),
                header_value(all, name@) == header_value(all.skip(i as int), name@),
        {
            proof {
                let h = self.headers@[i as int];
                assert(all.skip(i as int)[0] == (h.name@, h.value@));
            }
            if same_text(self.headers[i].name.as_str(), name) {
                return Some(self.headers[i].value.clone());
            }
            assert(all.skip(i as int).skip(1) =~= all.skip(i + 1));
        }
        None
    }

    /// How long the body is said to be.
    pub fn content_length(&self) -> (r: usize)
        ensures
            r == content_length_of(headers_view(self.headers@)),
    {
        match self.header("content-length") {
            Some(v) => match parse_up_to(v.as_str(), usize::MAX as u64) {
                Some(n) => n as usize,
                None => 0,
            },
            None => 0,
        }
    }

    /// May the request proceed?
    pub fn authorized(&self, required: &Option<String>) -> (r: bool)
        ensures
            r == is_authorized(headers_view(self.headers@), text::opt_text(*required)),
    {
        match required {
            None => true,
            Some(token) => match self.header("authorization") {
                Some(v) => same_text(v.as_str(), joined("Bearer ", token.as_str()).as_str()),
                None => false,
            },
        }
    }
}

/// Nothing gets past a required token: a request without the right bearer token, the
/// wrong one or none at all, may not proceed.
pub proof fn law_the_token_is_required(
    h: Seq<(Seq<char>, Seq<char>)>,
    token: Seq<char>,
    given: Seq<char>,
)
    requires
        header_value(h, "authorization"@) is None || header_value(h, "authorization"@) == Some(
            "Bearer "@ + given,
        ),
        given != token,
    ensures
        !is_authorized(h, Some(token)),
{
    let a = "Bearer "@ + given;
    let b = "Bearer "@ + token;
    if a == b {
        let n = "Bearer "@.len();
        assert(a.skip(n as int) =~= given);
        assert(b.skip(n as int) =~= token);
    }
}

// ------------------------------------------------------------- receiving ----

/// How far a request has come in.
#[derive(Debug)]
pub enum Stage {
    /// The head is not complete.
    Head,
    /// The body is not complete.
    Body { request_line: String, need: usize },
}

/// A request that is coming in.
#[derive(Debug)]
pub struct Incoming {
    /// The bearer token that it must present, where one is required.
    pub token: Option<String>,
    pub stage: Stage,
    /// What has come in of the head, or of the body.
    pub buf: Vec<u8>,
}

/// What has come of a request.
#[derive(Debug)]
pub enum Step {
    /// More has to be read.
    Read,
    /// The other side went away before it asked for anything.
    End,
    /// It is refused.
    Refused(String),
    /// It lacks the right token.
    Unauthorized,
    /// It is complete.
    Ready { request_line: String, body: Vec<u8> },
}

/// A request that is coming in, as values.
#[verifier::ext_equal]
pub ghost struct IncomingView {
    pub token: Option<Seq<char>>,
    /// The request line and the length of the body, once the head is complete.
    pub head: Option<(Seq<char>, int)>,
    pub buf: Seq<u8>,
}

/// What has come of a request, as values.
#[verifier::ext_equal]
pub ghost enum StepView {
    Read,
    End,
    Refused(Seq<char>),
    Unauthorized,
    Ready { request_line: Seq<char>, body: Seq<u8> },
}

impl View for Incoming {
    type V = IncomingView;

    open spec fn view(&self) -> IncomingView {
        IncomingView {
            token: text::opt_text(self.token),
            head: match self.stage {
                Stage::Head => None,
                Stage::Body { request_line, need } => Some((request_line@, need as int)),
            },
            buf: self.buf@,
        }
    }
}

impl View for Step {
    type V = StepView;

    open spec fn view(&self) -> StepView {
        match self {
            Step::Read => StepView::Read,
            Step::End => StepView::End,
            Step::Refused(e) => StepView::Refused(e@),
            Step::Unauthorized => StepView::Unauthorized,
            Step::Ready { request_line, body } => StepView::Ready {
                request_line: request_line@,
                body: body@,
            },
        }
    }
}

impl IncomingView {
    /// What comes of a complete head that ends at `end` in `all`.
    pub open spec fn headed(self, all: Seq<u8>, end: int) -> (IncomingView, StepView) {
        let head = utf8_lossy(all.take(end));
        let headers = headers_of(head);
        let line = request_line_of(head);
        let need = content_length_of(headers);
        let body = all.skip(end + 4);
        if !is_authorized(headers, self.token) {
            (IncomingView { buf: all, ..self }, StepView::Unauthorized)
        } else if body.len() >= need {
            (
                IncomingView { head: Some((line, need)), buf: seq![], ..self },
                StepView::Ready { request_line: line, body },
            )
        } else {
            (IncomingView { head: Some((line, need)), buf: body, ..self }, StepView::Read)
        }
    }

    /// What comes of a request with this much more of it; nothing more means that the
    /// other side is done sending. A body that ends early is taken as it is.
    pub open spec fn is_fed(self, chunk: Seq<u8>, after: IncomingView, step: StepView) -> bool {
        let all = self.buf + chunk;
        match self.head {
            None => if chunk.len() == 0 {
                after == self && step == StepView::End
            } else if is_headless(all) {
                &&& after == (IncomingView { buf: all, ..self })
                &&& step == if all.len() > HEAD_MAX {
                    StepView::Refused("request too large"@)
                } else {
                    StepView::Read
                }
            } else {
                exists|end: int| #[trigger]
                    is_headers_end(all, end) && (after, step) == self.headed(all, end)
            },
            Some((line, need)) => if chunk.len() == 0 {
                &&& after == (IncomingView { buf: seq![], ..self })
                &&& step == (StepView::Ready { request_line: line, body: self.buf })
            } else if all.len() > BODY_MAX {
                &&& after == (IncomingView { buf: all, ..self })
                &&& step == StepView::Refused("body too large"@)
            } else if all.len() >= need {
                &&& after == (IncomingView { buf: seq![], ..self })
                &&& step == (StepView::Ready { request_line: line, body: all })
            } else {
                after == (IncomingView { buf: all, ..self }) && step == StepView::Read
            },
        }
    }
}

/// What comes of more input is certain: the head ends in one place.
pub proof fn law_feeding_is_certain(
    v: IncomingView,
    chunk: Seq<u8>,
    a: IncomingView,
    b: IncomingView,
    x: StepView,
    y: StepView,
)
    requires
        v.is_fed(chunk, a, x),
        v.is_fed(chunk, b, y),
    ensures
        a == b,
        x == y,
{
    let all = v.buf + chunk;
    if v.head is None && chunk.len() > 0 && !is_headless(all) {
        let i = choose|end: int| #[trigger]
            is_headers_end(all, end) && (a, x) == v.headed(all, end);
        let j = choose|end: int| #[trigger]
            is_headers_end(all, end) && (b, y) == v.headed(all, end);
        assert(i == j) by {
            if i < j {
                assert(blank_at(all, i));
            }
            if j < i {
                assert(blank_at(all, j));
            }
        }
    }
}

/// Every request reaches its handler only with the right token, where one is required.
pub proof fn law_requests_are_authorized(
    v: IncomingView,
    chunk: Seq<u8>,
    after: IncomingView,
    step: StepView,
)
    requires
        v.head is None,
        v.is_fed(chunk, after, step),
        step is Ready || after.head is Some,
    ensures
        exists|end: int| #[trigger]
            is_headers_end(v.buf + chunk, end) && is_authorized(
                headers_of(utf8_lossy((v.buf + chunk).take(end))),
                v.token,
            ),
{
    let all = v.buf + chunk;
    let end = choose|end: int| #[trigger]
        is_headers_end(all, end) && (after, step) == v.headed(all, end);
    assert(is_headers_end(all, end));
}

impl Incoming {
    /// A request of which nothing has come in.
    pub fn new(token: Option<String>) -> (r: Incoming)
        ensures
            r@ == (IncomingView { token: text::opt_text(token), head: None, buf: seq![] }),
    {
        let r: Incoming = Incoming { token, stage: Stage::Head, buf: Vec::new() };
        assert(r@.buf =~= seq![]);
        r
    }

    /// Takes in what was read; nothing means that the other side is done sending.
    pub fn feed(&mut self, chunk: &[u8]) -> (r: Step)
        ensures
            old(self)@.is_fed(chunk@, final(self)@, r@),
    {
        let ghost all = self.buf@ + chunk@;
        let body_line: Option<(String, usize)> = match &self.stage {
            Stage::Head => None,
            Stage::Body { request_line, need } => Some((request_line.clone(), *need)),
        };
        if chunk.len() == 0 {
            match body_line {
                None => {
                    return Step::End;
                },
                Some((request_line, _)) => {
                    let mut body: Vec<u8> = Vec::new();
                    std::mem::swap(&mut body, &mut self.buf);
                    assert(self@.buf =~= seq![]);
                    return Step::Ready { request_line, body };
                },
            }
        }
        push_all(&mut self.buf, chunk);
        match body_line {
            Some((request_line, need)) => {
                if self.buf.len() > BODY_MAX {
                    return Step::Refused("body too large".to_owned());
                }
                if self.buf.len() < need {
                    return Step::Read;
                }
                let mut body: Vec<u8> = Vec::new();
                std::mem::swap(&mut body, &mut self.buf);
                assert(self@.buf =~= seq![]);
                Step::Ready { request_line, body }
            },
            None => {
                let end: usize = match find_headers_end(self.buf.as_slice()) {
                    Some(i) => i,
                    None => {
                        if self.buf.len() > HEAD_MAX {
                            return Step::Refused("request too large".to_owned());
                        }
                        return Step::Read;
                    },
                };
                let n: usize = self.buf.len();
                assert(blank_at(all, end as int));
                assert(end + 4 <= n);
                let part: &[u8] = vstd::slice::slice_subrange(self.buf.as_slice(), 0, end);
                assert(part@ =~= all.take(end as int));
                let head: Head = read_head(lossy(part).as_str());
                if !head.authorized(&self.token) {
                    return Step::Unauthorized;
                }
                let need: usize = head.content_length();
                let rest: &[u8] = vstd::slice::slice_subrange(self.buf.as_slice(), end + 4, n);
                assert(rest@ =~= all.skip(end + 4));
                let mut body: Vec<u8> = Vec::new();
                assert(body@ =~= seq![]);
                push_all(&mut body, rest);
                assert(body@ =~= all.skip(end + 4));
                self.stage = Stage::Body { request_line: head.request_line.clone(), need };
                if body.len() >= need {
                    self.buf = Vec::new();
                    assert(self@.buf =~= seq![]);
                    Step::Ready { request_line: head.request_line, body }
                } else {
                    self.buf = body;
                    Step::Read
                }
            },
        }
    }
}

// ------------------------------------------------------------- responses ----

/// What precedes a payload.
pub open spec fn response_head_of(status: Seq<char>, ctype: Seq<char>, len: nat) -> Seq<char> {
    "HTTP/1.1 "@ + status + "\r\nContent-Type: "@ + ctype + "\r\nContent-Length: "@
        + text::decimal_of(len) + "\r\nCache-Control: no-store\r\nConnection: close\r\n\r\n"@
}

/// What precedes a payload.
pub fn response_head(status: &str, ctype: &str, len: usize) -> (r: String)
    ensures
        r@ == response_head_of(status@, ctype@, len as nat),
{
    let a: String = joined(joined("HTTP/1.1 ", status).as_str(), "\r\nContent-Type: ");
    let b: String = joined(joined(a.as_str(), ctype).as_str(), "\r\nContent-Length: ");
    joined(
        joined(b.as_str(), decimal(len as u64).as_str()).as_str(),
        "\r\nCache-Control: no-store\r\nConnection: close\r\n\r\n",
    )
}

/// What a request without the right token is answered.
pub fn unauthorized() -> (r: &'static str)
    ensures
        r@
            == "HTTP/1.1 401 Unauthorized\r\nContent-Type: text/plain\r\nContent-Length: 12\r\nConnection: close\r\n\r\nunauthorized"@,
{
    "HTTP/1.1 401 Unauthorized\r\nContent-Type: text/plain\r\nContent-Length: 12\r\nConnection: close\r\n\r\nunauthorized"
}

// ---------------------------------------------------------- local client ----

/// The address of the local service.
pub open spec fn local_addr() -> Seq<char> {
    "127.0.0.1:"@ + text::decimal_of(UI_PORT as nat)
}

/// Where the editor is served.
pub fn url() -> (r: String)
    ensures
        r@ == "http://127.0.0.1:"@ + text::decimal_of(UI_PORT as nat),
{
    joined("http://127.0.0.1:", decimal(UI_PORT as u64).as_str())
}

/// A request to the local service. The length is that of the body in bytes.
pub open spec fn local_request_of(
    method: Seq<char>,
    path: Seq<char>,
    body: Seq<char>,
) -> Seq<char> {
    method + " "@ + path + " HTTP/1.1\r\nHost: "@ + local_addr()
        + "\r\nContent-Type: application/json\r\nContent-Length: "@ + text::decimal_of(
        vstd::utf8::encode_utf8(body).len(),
    ) + "\r\nConnection: close\r\n\r\n"@ + body
}

/// A request to the local service.
pub fn local_request(method: &str, path: &str, body: &str) -> (r: String)
    ensures
        r@ == local_request_of(method@, path@, body@),
{
    let addr: String = joined("127.0.0.1:", decimal(UI_PORT as u64).as_str());
    let a: String = joined(joined(joined(method, " ").as_str(), path).as_str(), " HTTP/1.1\r\nHost: ");
    let b: String = joined(
        joined(a.as_str(), addr.as_str()).as_str(),
        "\r\nContent-Type: application/json\r\nContent-Length: ",
    );
    let c: String = joined(
        joined(b.as_str(), decimal(body.as_bytes().len() as u64).as_str()).as_str(),
        "\r\nConnection: close\r\n\r\n",
    );
    joined(c.as_str(), body)
}

/// The status of a response: its second word, zero where that is no number of 16 bits.
pub open spec fn status_of(resp: Seq<char>) -> int {
    let w = parse::words_of(resp);
    if w.len() >= 2 {
        match parse::parsed(w[1], 0, u16::MAX as int) {
            Some(n) => n,
            None => 0,
        }
    } else {
        0
    }
}

/// Where a text first stands in another one; one past the last place it could where it
/// does not.
pub open spec fn found_at(s: Seq<char>, n: Seq<char>, from: int) -> int
    decreases s.len() + 1 - n.len() - from,
{
    if from > s.len() - n.len() {
        from
    } else if parse::stands_at(s, n, from) {
        from
    } else {
        found_at(s, n, from + 1)
    }
}

/// The payload of a response: what follows the first blank line.
pub open spec fn payload_of(resp: Seq<char>) -> Seq<char> {
    let i = found_at(resp, "\r\n\r\n"@, 0);
    if parse::stands_at(resp, "\r\n\r\n"@, i) {
        resp.skip(i + "\r\n\r\n"@.len())
    } else {
        ""@
    }
}

/// The status and the payload of a response.
pub fn read_response(resp: &str) -> (r: (u16, String))
    ensures
        r.0 == status_of(resp@),
        r.1@ == payload_of(resp@),
{
    let w: Vec<String> = words(resp);
    assert(text::texts(w@).len() == w@.len());
    let mut status: u16 = 0;
    if w.len() >= 2 {
        assert(text::texts(w@)[1] == w@[1]@);
        match parse_up_to(w[1].as_str(), u16::MAX as u64) {
            Some(n) => {
                status = n as u16;
            },
            None => {},
        }
    }
    let v: Vec<char> = text::chars_of(resp);
    let sep: Vec<char> = text::chars_of("\r\n\r\n");
    let ghost blank = "\r\n\r\n"@;
    proof {
        reveal_strlit("\r\n\r\n");
    }
    if v.len() < 4 {
        assert(!parse::stands_at(v@, blank, found_at(v@, blank, 0)));
        return (status, "".to_owned());
    }
    let last: usize = v.len() - 4;
    let mut i: usize = 0;
    while i <= last
        invariant
            v@ == resp@,
            sep@ == blank,
            blank == "\r\n\r\n"@,
            blank.len() == 4,
            last + 4 == v@.len(),
            last + 4 <= usize::MAX,
            i <= last + 1,
            found_at(v@, blank, 0) == found_at(v@, blank, i as int),
            status == status_of(resp@),
        decreases last + 1 - i,
    {
        let part: &[char] = vstd::slice::slice_subrange(v.as_slice(), i, i + 4);
        if text::same_chars(part, sep.as_slice()) {
            assert(parse::stands_at(v@, blank, i as int));
            let rest: &[char] = vstd::slice::slice_subrange(v.as_slice(), i + 4, v.len());
            assert(rest@ =~= v@.skip(i + 4));
            return (status, text::text_of(rest));
        }
        assert(!parse::stands_at(v@, blank, i as int));
        i = i + 1;
    }
    assert(!parse::stands_at(v@, blank, i as int));
    (status, "".to_owned())
}

} // verus!
