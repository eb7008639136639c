//! The routes of the editor's service, and what they are answered.
use vstd::prelude::*;

use crate::parse::{self, words};
use crate::text::{self, same_text};

verus! {

/// Which service is meant.
#[derive(Clone, Copy, Debug, PartialEq, Eq, Structural)]
pub enum Edition {
    /// The whole of it.
    Kayiver,
    /// The slim one, which arranges screens and does nothing else.
    Drift,
}

/// Something that is asked of a running machine.
#[derive(Clone, Copy, Debug, PartialEq, Eq, Structural)]
pub enum Api {
    State,
    Status,
    Cursor,
    SaveLayout,
    SetShared,
    UseAddr,
    SharedConfig,
    GetSettings,
    SetSettings,
    AndroidList,
    AndroidConnect,
    AndroidControl,
    AndroidDisconnect,
    AndroidWireless,
    AndroidPlace,
    AndroidAdd,
}

/// Where a request leads.
#[derive(Clone, Copy, Debug, PartialEq, Eq, Structural)]
pub enum Route {
    Page,
    NotFound,
    Ask(Api),
}

/// Where a request of the whole service leads.
pub open spec fn full_route(method: Seq<char>, path: Seq<char>) -> Route {
    if method == "GET"@ {
        if path == "/"@ {
            Route::Page
        } else if path == "/api/state"@ {
            Route::Ask(Api::State)
        } else if path == "/api/status"@ {
            Route::Ask(Api::Status)
        } else if path == "/api/cursor"@ {
            Route::Ask(Api::Cursor)
        } else if path == "/api/settings"@ {
            Route::Ask(Api::GetSettings)
        } else if path == "/api/android"@ {
            Route::Ask(Api::AndroidList)
        } else {
            Route::NotFound
        }
    } else if method == "POST"@ {
        if path == "/api/layout"@ {
            Route::Ask(Api::SaveLayout)
        } else if path == "/api/shared"@ {
            Route::Ask(Api::SetShared)
        } else if path == "/api/link"@ {
            Route::Ask(Api::UseAddr)
        } else if path == "/api/shared-config"@ {
            Route::Ask(Api::SharedConfig)
        } else if path == "/api/settings"@ {
            Route::Ask(Api::SetSettings)
        } else if path == "/api/android/connect"@ {
            Route::Ask(Api::AndroidConnect)
        } else if path == "/api/android/control"@ {
            Route::Ask(Api::AndroidControl)
        } else if path == "/api/android/disconnect"@ {
            Route::Ask(Api::AndroidDisconnect)
        } else if path == "/api/android/wireless"@ {
            Route::Ask(Api::AndroidWireless)
        } else if path == "/api/android/place"@ {
            Route::Ask(Api::AndroidPlace)
        } else if path == "/api/android/add"@ {
            Route::Ask(Api::AndroidAdd)
        } else {
            Route::NotFound
        }
    } else {
        Route::NotFound
    }
}

/// Where a request leads. The slim service has the page, the state and the layout.
pub open spec fn route_of(edition: Edition, method: Seq<char>, path: Seq<char>) -> Route {
    let r = full_route(method, path);
    match edition {
        Edition::Kayiver => r,
        Edition::Drift => if r == Route::Page || r == Route::Ask(Api::State) || r == Route::Ask(
            Api::SaveLayout,
        ) {
            r
        } else {
            Route::NotFound
        },
    }
}

/// A word of a request line; nothing where it has too few.
pub open spec fn word_of(line: Seq<char>, i: int) -> Seq<char> {
    let w = parse::words_of(line);
    if i < w.len() {
        w[i]
    } else {
        ""@
    }
}

/// Where a request line leads: by its method and its path.
pub open spec fn line_route(edition: Edition, line: Seq<char>) -> Route {
    route_of(edition, word_of(line, 0), word_of(line, 1))
}

/// Where a request leads.
pub fn find_route(edition: Edition, method: &str, path: &str) -> (r: Route)
    ensures
        r == route_of(edition, method@, path@),
{
    let full: Route = if same_text(method, "GET") {
        if same_text(path, "/") {
            Route::Page
        } else if same_text(path, "/api/state") {
            Route::Ask(Api::State)
        } else if same_text(path, "/api/status") {
            Route::Ask(Api::Status)
        } else if same_text(path, "/api/cursor") {
            Route::Ask(Api::Cursor)
        } else if same_text(path, "/api/settings") {
            Route::Ask(Api::GetSettings)
        } else if same_text(path, "/api/android") {
            Route::Ask(Api::AndroidList)
        } else {
            Route::NotFound
        }
    } else if same_text(method, "POST") {
        if same_text(path, "/api/layout") {
            Route::Ask(Api::SaveLayout)
        } else if same_text(path, "/api/shared") {
            Route::Ask(Api::SetShared)
        } else if same_text(path, "/api/link") {
            Route::Ask(Api::UseAddr)
        } else if same_text(path, "/api/shared-config") {
            Route::Ask(Api::SharedConfig)
        } else if same_text(path, "/api/settings") {
            Route::Ask(Api::SetSettings)
        } else if same_text(path, "/api/android/connect") {
            Route::Ask(Api::AndroidConnect)
        } else if same_text(path, "/api/android/control") {
            Route::Ask(Api::AndroidControl)
        } else if same_text(path, "/api/android/disconnect") {
            Route::Ask(Api::AndroidDisconnect)
        } else if same_text(path, "/api/android/wireless") {
            Route::Ask(Api::AndroidWireless)
        } else if same_text(path, "/api/android/place") {
            Route::Ask(Api::AndroidPlace)
        } else if same_text(path, "/api/android/add") {
            Route::Ask(Api::AndroidAdd)
        } else {
            Route::NotFound
        }
    } else {
        Route::NotFound
    };
    match edition {
        Edition::Kayiver => full,
        Edition::Drift => if full == Route::Page || full == Route::Ask(Api::State) || full
            == Route::Ask(Api::SaveLayout) {
            full
        } else {
            Route::NotFound
        },
    }
}

// --------------------------------------------------------------- answers ----

/// What a request is answered.
#[derive(Debug)]
pub struct Answer {
    pub status: &'static str,
    pub ctype: &'static str,
    pub payload: Vec<u8>,
}

/// An answer, as values.
#[verifier::ext_equal]
pub ghost struct AnswerView {
    pub status: Seq<char>,
    pub ctype: Seq<char>,
    pub payload: Seq<u8>,
}

impl View for Answer {
    type V = AnswerView;

    open spec fn view(&self) -> AnswerView {
        AnswerView { status: self.status@, ctype: self.ctype@, payload: self.payload@ }
    }
}

/// An answer whose payload is a text.
pub open spec fn text_answer(status: Seq<char>, ctype: Seq<char>, t: Seq<char>) -> AnswerView {
    AnswerView { status, ctype, payload: vstd::utf8::encode_utf8(t) }
}

/// An answer whose payload is a text.
pub fn answer(status: &'static str, ctype: &'static str, t: &str) -> (r: Answer)
    ensures
        r@ == text_answer(status@, ctype@, t@),
{
    let b: &[u8] = t.as_bytes();
    let mut payload: Vec<u8> = Vec::new();
    for i in 0..b.len()
        invariant
            payload@ =~= b@.take(i as int),
    {
        payload.push(b[i]);
    }
    assert(b@.take(b@.len() as int) =~= b@);
    Answer { status, ctype, payload }
}

/// The page that the service serves.
pub open spec fn page_of(edition: Edition) -> Seq<char> {
    match edition {
        Edition::Kayiver => "<!doctype html><html lang=\"tr\"><meta charset=\"utf-8\"><title>Kayıver</title><h1>Kayıver</h1><pre id=\"state\"></pre><form id=\"f\"><input name=\"links\" size=\"100\"><button>Kaydet</button></form><script>fetch('/api/state').then(r=>r.json()).then(s=>{state.textContent=JSON.stringify(s,null,1);f.links.value=JSON.stringify(s.links)});f.onsubmit=e=>{e.preventDefault();fetch('/api/layout',{method:'POST',body:f.links.value}).then(r=>r.text()).then(alert)}</script></html>"@,
        Edition::Drift => "<!doctype html><html lang=\"en\"><meta charset=\"utf-8\"><title>drift</title><h1>drift</h1><pre id=\"state\"></pre><form id=\"f\"><input name=\"links\" size=\"100\"><button>Save</button></form><script>fetch('/api/state').then(r=>r.json()).then(s=>{state.textContent=JSON.stringify(s,null,1);f.links.value=JSON.stringify(s.links)});f.onsubmit=e=>{e.preventDefault();fetch('/api/layout',{method:'POST',body:f.links.value}).then(r=>r.text()).then(alert)}</script></html>"@,
    }
}

/// The page that the service serves.
pub fn index_html(edition: Edition) -> (r: &'static str)
    ensures
        r@ == page_of(edition),
{
    match edition {
        Edition::Kayiver => "<!doctype html><html lang=\"tr\"><meta charset=\"utf-8\"><title>Kayıver</title><h1>Kayıver</h1><pre id=\"state\"></pre><form id=\"f\"><input name=\"links\" size=\"100\"><button>Kaydet</button></form><script>fetch('/api/state').then(r=>r.json()).then(s=>{state.textContent=JSON.stringify(s,null,1);f.links.value=JSON.stringify(s.links)});f.onsubmit=e=>{e.preventDefault();fetch('/api/layout',{method:'POST',body:f.links.value}).then(r=>r.text()).then(alert)}</script></html>",
        Edition::Drift => "<!doctype html><html lang=\"en\"><meta charset=\"utf-8\"><title>drift</title><h1>drift</h1><pre id=\"state\"></pre><form id=\"f\"><input name=\"links\" size=\"100\"><button>Save</button></form><script>fetch('/api/state').then(r=>r.json()).then(s=>{state.textContent=JSON.stringify(s,null,1);f.links.value=JSON.stringify(s.links)});f.onsubmit=e=>{e.preventDefault();fetch('/api/layout',{method:'POST',body:f.links.value}).then(r=>r.text()).then(alert)}</script></html>",
    }
}

/// What is answered at once, or what has to be asked first.
#[derive(Debug)]
pub enum Reply {
    Now(Answer),
    Ask(Api),
}

/// What a request line is answered, or what has to be asked first.
pub fn route(edition: Edition, request_line: &str) -> (r: Reply)
    ensures
        match line_route(edition, request_line@) {
            Route::Page => r matches Reply::Now(a) && a@ == text_answer(
                "200 OK"@,
                "text/html; charset=utf-8"@,
                page_of(edition),
            ),
            Route::NotFound => r matches Reply::Now(a) && a@ == text_answer(
                "404 Not Found"@,
                "text/plain"@,
                "not found"@,
            ),
            Route::Ask(api) => r == Reply::Ask(api),
        },
{
    let w: Vec<String> = words(request_line);
    assert(text::texts(w@).len() == w@.len());
    let method: String = if w.len() > 0 {
        assert(text::texts(w@)[0] == w@[0]@);
        w[0].clone()
    } else {
        "".to_owned()
    };
    let path: String = if w.len() > 1 {
        assert(text::texts(w@)[1] == w@[1]@);
        w[1].clone()
    } else {
        "".to_owned()
    };
    match find_route(edition, method.as_str(), path.as_str()) {
        Route::Page => Reply::Now(
            answer("200 OK", "text/html; charset=utf-8", index_html(edition)),
        ),
        Route::NotFound => Reply::Now(answer("404 Not Found", "text/plain", "not found")),
        Route::Ask(api) => Reply::Ask(api),
    }
}

/// What is answered to something that was done, or refused.
pub fn done(r: Result<(), String>) -> (a: Answer)
    ensures
        a@ == match r {
            Ok(_) => text_answer("200 OK"@, "text/plain"@, "ok"@),
            Err(e) => text_answer("400 Bad Request"@, "text/plain"@, e@),
        },
{
    match r {
        Ok(_) => answer("200 OK", "text/plain", "ok"),
        Err(e) => answer("400 Bad Request", "text/plain", e.as_str()),
    }
}

/// What is answered to something that was looked up, as JSON; a failure is the service's.
pub fn fetched(r: Result<String, String>) -> (a: Answer)
    ensures
        a@ == match r {
            Ok(t) => text_answer("200 OK"@, "application/json"@, t@),
            Err(e) => text_answer("500 Internal Server Error"@, "text/plain"@, e@),
        },
{
    match r {
        Ok(t) => answer("200 OK", "application/json", t.as_str()),
        Err(e) => answer("500 Internal Server Error", "text/plain", e.as_str()),
    }
}

/// What is answered to something that was done and gave a result, as JSON; a failure is
/// the request's.
pub fn posted(r: Result<String, String>) -> (a: Answer)
    ensures
        a@ == match r {
            Ok(t) => text_answer("200 OK"@, "application/json"@, t@),
            Err(e) => text_answer("400 Bad Request"@, "text/plain"@, e@),
        },
{
    match r {
        Ok(t) => answer("200 OK", "application/json", t.as_str()),
        Err(e) => answer("400 Bad Request", "text/plain", e.as_str()),
    }
}

} // verus!
