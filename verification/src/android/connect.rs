//! Opening a control session: what is asked of adb, one thing after another.
use vstd::prelude::*;

use crate::android::control::{self, server_args, FORWARD_PORT_BASE};
use crate::text::{self, decimal, joined};

verus! {

/// How often the server is dialed before it is given up: it accepts the forwarded port
/// before it has bound its socket, so a premature attempt ends at once.
pub const DIAL_MAX: u32 = 80;

/// How long to rest after an attempt, in milliseconds.
pub const DIAL_REST: u64 = 80;

/// How far the session has come.
#[derive(Clone, Copy, Debug, PartialEq, Eq, Structural)]
pub enum Stage {
    /// The server is being pushed to the device.
    Push,
    /// An old forward is being removed.
    Unforward,
    /// The port is being forwarded.
    Forward,
    /// The server is being started.
    Launch,
    /// The so-many-eth attempt to reach it.
    Dial(u32),
    /// A rest after the so-many-eth attempt.
    Rest(u32),
    Over,
}

/// What came of the thing that was asked for.
#[derive(Debug)]
pub struct Heard {
    /// It could be done at all.
    pub ran: bool,
    /// It succeeded; of an attempt to reach the server: the server is ready.
    pub ok: bool,
    /// What it said about its failure.
    pub said: String,
}

/// What is asked for next.
#[derive(Debug)]
pub enum Ask {
    /// Run adb with these arguments.
    Run(Vec<String>),
    /// Start adb with these arguments and let it run.
    Launch(Vec<String>),
    /// Connect to this local port, and wait for the server's first byte.
    Dial(u16),
    /// Rest for so many milliseconds.
    Rest(u64),
    /// The session is open.
    Connected,
    /// It failed.
    Failed(String),
    /// It failed, and the server is to be stopped.
    GiveUp(String),
    /// Nothing is left to ask.
    Nothing,
}

/// What is asked for next, as values.
#[verifier::ext_equal]
pub ghost enum AskView {
    Run(Seq<Seq<char>>),
    Launch(Seq<Seq<char>>),
    Dial(u16),
    Rest(u64),
    Connected,
    Failed(Seq<char>),
    GiveUp(Seq<char>),
    Nothing,
}

impl View for Ask {
    type V = AskView;

    open spec fn view(&self) -> AskView {
        match self {
            Ask::Run(a) => AskView::Run(text::texts(a@)),
            Ask::Launch(a) => AskView::Launch(text::texts(a@)),
            Ask::Dial(p) => AskView::Dial(*p),
            Ask::Rest(ms) => AskView::Rest(*ms),
            Ask::Connected => AskView::Connected,
            Ask::Failed(e) => AskView::Failed(e@),
            Ask::GiveUp(e) => AskView::GiveUp(e@),
            Ask::Nothing => AskView::Nothing,
        }
    }
}

/// A session that is being opened.
#[derive(Debug)]
pub struct Connecting {
    pub serial: String,
    pub jar: String,
    pub scid: String,
    pub stage: Stage,
}

/// A session that is being opened, as values.
#[verifier::ext_equal]
pub ghost struct ConnectingView {
    pub serial: Seq<char>,
    pub jar: Seq<char>,
    pub scid: Seq<char>,
    pub stage: Stage,
}

impl View for Connecting {
    type V = ConnectingView;

    open spec fn view(&self) -> ConnectingView {
        ConnectingView {
            serial: self.serial@,
            jar: self.jar@,
            scid: self.scid@,
            stage: self.stage,
        }
    }
}

/// The local port, as adb names it.
pub open spec fn port_name() -> Seq<char> {
    "tcp:"@ + text::decimal_of(FORWARD_PORT_BASE as nat)
}

/// The arguments that push the server to the device.
pub open spec fn push_args(serial: Seq<char>, jar: Seq<char>) -> Seq<Seq<char>> {
    seq!["-s"@, serial, "push"@, jar, "/data/local/tmp/scrcpy-server.jar"@]
}

/// The arguments that remove a forward.
pub open spec fn unforward_args(serial: Seq<char>) -> Seq<Seq<char>> {
    seq!["-s"@, serial, "forward"@, "--remove"@, port_name()]
}

/// The arguments that forward the local port to the server's socket.
pub open spec fn forward_args(serial: Seq<char>, scid: Seq<char>) -> Seq<Seq<char>> {
    seq!["-s"@, serial, "forward"@, port_name(), "localabstract:scrcpy_"@ + scid]
}

/// The arguments that start the server on a device.
pub open spec fn launch_args(serial: Seq<char>, scid: Seq<char>) -> Seq<Seq<char>> {
    seq!["-s"@, serial, "shell"@] + control::server_args_of(scid)
}

impl ConnectingView {
    /// The next stage, and what is asked for.
    pub open spec fn next(self, ran: bool, ok: bool, said: Seq<char>) -> (Stage, AskView) {
        match self.stage {
            Stage::Push => if !ran {
                (Stage::Over, AskView::Failed("adb push (scrcpy-server) failed"@))
            } else if !ok {
                (Stage::Over, AskView::Failed("adb push failed: "@ + said))
            } else {
                (Stage::Unforward, AskView::Run(unforward_args(self.serial)))
            },
            Stage::Unforward => (
                Stage::Forward,
                AskView::Run(forward_args(self.serial, self.scid)),
            ),
            Stage::Forward => if !ran {
                (Stage::Over, AskView::Failed("adb forward failed"@))
            } else if !ok {
                (Stage::Over, AskView::Failed("adb forward failed: "@ + said))
            } else {
                (Stage::Launch, AskView::Launch(launch_args(self.serial, self.scid)))
            },
            Stage::Launch => if !ran {
                (Stage::Over, AskView::Failed("failed to launch scrcpy server"@))
            } else {
                (Stage::Dial(1), AskView::Dial(FORWARD_PORT_BASE))
            },
            Stage::Dial(n) => if ok {
                (Stage::Over, AskView::Connected)
            } else {
                (Stage::Rest(n), AskView::Rest(DIAL_REST))
            },
            Stage::Rest(n) => if n < DIAL_MAX {
                (Stage::Dial((n + 1) as u32), AskView::Dial(FORWARD_PORT_BASE))
            } else {
                (
                    Stage::Over,
                    AskView::GiveUp(
                        "no handshake from scrcpy server (is USB debugging authorized on the tablet?)"@,
                    ),
                )
            },
            Stage::Over => (Stage::Over, AskView::Nothing),
        }
    }
}

/// How much is left to do at a stage, at most.
pub open spec fn left(s: Stage) -> int {
    match s {
        Stage::Push => 2 * DIAL_MAX + 5,
        Stage::Unforward => 2 * DIAL_MAX + 4,
        Stage::Forward => 2 * DIAL_MAX + 3,
        Stage::Launch => 2 * DIAL_MAX + 2,
        Stage::Dial(n) => if n <= DIAL_MAX {
            2 * (DIAL_MAX - n) + 2
        } else {
            2
        },
        Stage::Rest(n) => if n <= DIAL_MAX {
            2 * (DIAL_MAX - n) + 1
        } else {
            1
        },
        Stage::Over => 0,
    }
}

/// Opening a session comes to an end, whatever adb and the device do: less is left after
/// each answer.
pub proof fn law_connecting_ends(v: ConnectingView, ran: bool, ok: bool, said: Seq<char>)
    requires
        !(v.stage is Over),
    ensures
        0 <= left(v.next(ran, ok, said).0) < left(v.stage),
{
}

/// A session counts as open only once the server has answered.
pub proof fn law_only_an_answer_connects(
    v: ConnectingView,
    ran: bool,
    ok: bool,
    said: Seq<char>,
)
    requires
        v.next(ran, ok, said).1 is Connected,
    ensures
        ok,
        v.stage is Dial,
{
}

/// The local port, as adb names it.
fn write_port() -> (r: String)
    ensures
        r@ == port_name(),
{
    joined("tcp:", decimal(FORWARD_PORT_BASE as u64).as_str())
}

/// The arguments that remove the forward of a session.
pub fn stop_args(serial: &str) -> (r: Vec<String>)
    ensures
        text::texts(r@) == unforward_args(serial@),
{
    let v: Vec<String> = vec![
        "-s".to_owned(),
        serial.to_owned(),
        "forward".to_owned(),
        "--remove".to_owned(),
        write_port(),
    ];
    assert(text::texts(v@) =~= unforward_args(serial@));
    v
}

/// The arguments that wake the device's screen: the control socket can't, with video
/// disabled.
pub fn wake_args(serial: &str) -> (r: Vec<String>)
    ensures
        text::texts(r@) == seq![
            "-s"@,
            serial@,
            "shell"@,
            "input"@,
            "keyevent"@,
            "224"@,
        ],
{
    let v: Vec<String> = vec![
        "-s".to_owned(),
        serial.to_owned(),
        "shell".to_owned(),
        "input".to_owned(),
        "keyevent".to_owned(),
        "224".to_owned(),
    ];
    assert(text::texts(v@) =~= seq!["-s"@, serial@, "shell"@, "input"@, "keyevent"@, "224"@]);
    v
}

impl Connecting {
    /// Begins a session with a device: the server is pushed first. It fails where there
    /// is no server to push.
    pub fn connect(serial: &str, jar: Option<String>, scid: String) -> (r: Result<
        (Connecting, Ask),
        String,
    >)
        ensures
            match jar {
                None => r matches Err(e) && e@
                    == "scrcpy-server not found (brew install scrcpy)"@,
                Some(j) => r matches Ok((c, a)) && c@ == (ConnectingView {
                    serial: serial@,
                    jar: j@,
                    scid: scid@,
                    stage: Stage::Push,
                }) && a@ == AskView::Run(push_args(serial@, j@)),
            },
    {
        match jar {
            None => Err("scrcpy-server not found (brew install scrcpy)".to_owned()),
            Some(jar) => {
                let args: Vec<String> = vec![
                    "-s".to_owned(),
                    serial.to_owned(),
                    "push".to_owned(),
                    jar.clone(),
                    "/data/local/tmp/scrcpy-server.jar".to_owned(),
                ];
                assert(text::texts(args@) =~= push_args(serial@, jar@));
                let c: Connecting = Connecting {
                    serial: serial.to_owned(),
                    jar,
                    scid,
                    stage: Stage::Push,
                };
                Ok((c, Ask::Run(args)))
            },
        }
    }

    /// Takes in what came of the last thing, and asks for the next one.
    pub fn next(&mut self, heard: &Heard) -> (r: Ask)
        ensures
            ({
                let (stage, ask) = old(self)@.next(heard.ran, heard.ok, heard.said@);
                final(self)@ == (ConnectingView { stage, ..old(self)@ }) && r@ == ask
            }),
    {
        match self.stage {
            Stage::Push => {
                if !heard.ran {
                    self.stage = Stage::Over;
                    Ask::Failed("adb push (scrcpy-server) failed".to_owned())
                } else if !heard.ok {
                    self.stage = Stage::Over;
                    Ask::Failed(joined("adb push failed: ", heard.said.as_str()))
                } else {
                    self.stage = Stage::Unforward;
                    Ask::Run(stop_args(self.serial.as_str()))
                }
            },
            Stage::Unforward => {
                self.stage = Stage::Forward;
                let args: Vec<String> = vec![
                    "-s".to_owned(),
                    self.serial.clone(),
                    "forward".to_owned(),
                    write_port(),
                    joined("localabstract:scrcpy_", self.scid.as_str()),
                ];
                assert(text::texts(args@) =~= forward_args(self.serial@, self.scid@));
                Ask::Run(args)
            },
            Stage::Forward => {
                if !heard.ran {
                    self.stage = Stage::Over;
                    Ask::Failed("adb forward failed".to_owned())
                } else if !heard.ok {
                    self.stage = Stage::Over;
                    Ask::Failed(joined("adb forward failed: ", heard.said.as_str()))
                } else {
                    self.stage = Stage::Launch;
                    Ask::Launch(self.launch())
                }
            },
            Stage::Launch => {
                if !heard.ran {
                    self.stage = Stage::Over;
                    Ask::Failed("failed to launch scrcpy server".to_owned())
                } else {
                    self.stage = Stage::Dial(1);
                    Ask::Dial(FORWARD_PORT_BASE)
                }
            },
            Stage::Dial(n) => {
                if heard.ok {
                    self.stage = Stage::Over;
                    Ask::Connected
                } else {
                    self.stage = Stage::Rest(n);
                    Ask::Rest(DIAL_REST)
                }
            },
            Stage::Rest(n) => {
                if n < DIAL_MAX {
                    self.stage = Stage::Dial(n + 1);
                    Ask::Dial(FORWARD_PORT_BASE)
                } else {
                    self.stage = Stage::Over;
                    Ask::GiveUp(
                        "no handshake from scrcpy server (is USB debugging authorized on the tablet?)".to_owned(),
                    )
                }
            },
            Stage::Over => Ask::Nothing,
        }
    }

    /// The arguments that start the server on the device.
    fn launch(&self) -> (r: Vec<String>)
        ensures
            text::texts(r@) == launch_args(self@.serial, self@.scid),
    {
        let mut v: Vec<String> = vec!["-s".to_owned(), self.serial.clone(), "shell".to_owned()];
        let rest: Vec<String> = server_args(self.scid.as_str());
        let ghost head = seq!["-s"@, self.serial@, "shell"@];
        let ghost tail = control::server_args_of(self.scid@);
        assert(text::texts(v@) =~= head + tail.take(0));
        assert(text::texts(rest@).len() == rest@.len());
        for i in 0..rest.len()
            invariant
                tail == text::texts(rest@),
                tail.len() == rest@.len(),
                text::texts(v@) == head + tail.take(i as int),
        {
            proof {
                text::lemma_texts_push(v@, rest@[i as int]);
                assert(tail[i as int] == rest@[i as int]@);
                assert((head + tail.take(i as int)).push(tail[i as int]) =~= head + tail.take(
                    i + 1,
                ));
            }
            v.push(rest[i].clone());
        }
        assert(tail.take(tail.len() as int) =~= tail);
        v
    }
}

} // verus!
