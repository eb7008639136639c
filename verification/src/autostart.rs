//! Starting at login.
//!
//! macOS: a LaunchAgent that also restarts the program if it ever crashes. Windows: a
//! value under the user's `Run` key, which needs no administrator rights.
use vstd::prelude::*;

use crate::keymap::Os;
use crate::text::{self, joined};

verus! {

/// What must come of a command.
#[derive(Clone, Copy, Debug, PartialEq, Eq, Structural)]
pub enum Need {
    /// Nothing.
    Nothing,
    /// That it could be run.
    Run,
    /// That it succeeded.
    Success,
}

/// A step of switching autostart on or off.
#[derive(Debug)]
pub enum Step {
    /// Write the agent's description, in a directory that is made where it is missing.
    Write { path: String, text: String },
    /// Remove the agent's description.
    Remove { path: String },
    /// Run a command; where it fails and may not, the error starts with `failed`.
    Command { program: String, args: Vec<String>, need: Need, failed: String },
}

/// A step of switching autostart on or off, as values.
#[verifier::ext_equal]
pub ghost enum StepView {
    Write { path: Seq<char>, text: Seq<char> },
    Remove { path: Seq<char> },
    Command { program: Seq<char>, args: Seq<Seq<char>>, need: Need, failed: Seq<char> },
}

impl View for Step {
    type V = StepView;

    open spec fn view(&self) -> StepView {
        match self {
            Step::Write { path, text } => StepView::Write { path: path@, text: text@ },
            Step::Remove { path } => StepView::Remove { path: path@ },
            Step::Command { program, args, need, failed } => StepView::Command {
                program: program@,
                args: text::texts(args@),
                need: *need,
                failed: failed@,
            },
        }
    }
}

/// Some steps, as values.
pub open spec fn steps_view(v: Seq<Step>) -> Seq<StepView> {
    v.map_values(|s: Step| s@)
}

/// Where the agent is described, under the user's home.
pub open spec fn agent_path() -> Seq<char> {
    "Library/LaunchAgents/dev.drift.kvm.plist"@
}

/// Where the agent is described, under the user's home.
pub fn plist_path() -> (r: String)
    ensures
        r@ == agent_path(),
{
    "Library/LaunchAgents/dev.drift.kvm.plist".to_owned()
}

/// What stands before the program in the agent's description.
pub open spec fn before_program() -> Seq<char> {
    "<?xml version=\"1.0\" encoding=\"UTF-8\"?>\n<!DOCTYPE plist PUBLIC \"-//Apple//DTD PLIST 1.0//EN\" \"http://www.apple.com/DTDs/PropertyList-1.0.dtd\">\n<plist version=\"1.0\">\n<dict>\n    <key>Label</key><string>dev.drift.kvm</string>\n    <key>ProgramArguments</key>\n    <array>\n        <string>"@
}

/// What stands behind the program in the agent's description.
pub open spec fn behind_program() -> Seq<char> {
    "</string>\n        <string>run</string>\n    </array>\n    <key>RunAtLoad</key><true/>\n    <key>KeepAlive</key>\n    <dict><key>SuccessfulExit</key><false/></dict>\n    <key>ProcessType</key><string>Interactive</string>\n</dict>\n</plist>\n"@
}

/// The agent's description: it runs the program at login and again after a crash.
pub fn plist(exe: &str) -> (r: String)
    ensures
        r@ == before_program() + exe@ + behind_program(),
{
    joined(
        joined(
            "<?xml version=\"1.0\" encoding=\"UTF-8\"?>\n<!DOCTYPE plist PUBLIC \"-//Apple//DTD PLIST 1.0//EN\" \"http://www.apple.com/DTDs/PropertyList-1.0.dtd\">\n<plist version=\"1.0\">\n<dict>\n    <key>Label</key><string>dev.drift.kvm</string>\n    <key>ProgramArguments</key>\n    <array>\n        <string>",
            exe,
        ).as_str(),
        "</string>\n        <string>run</string>\n    </array>\n    <key>RunAtLoad</key><true/>\n    <key>KeepAlive</key>\n    <dict><key>SuccessfulExit</key><false/></dict>\n    <key>ProcessType</key><string>Interactive</string>\n</dict>\n</plist>\n",
    )
}

/// The key under which Windows keeps what it runs at login.
pub open spec fn run_key() -> Seq<char> {
    "HKCU\\Software\\Microsoft\\Windows\\CurrentVersion\\Run"@
}

/// The steps on a system; none are known for others than macOS and Windows.
pub open spec fn steps_of(
    os: Os,
    enable: bool,
    exe: Seq<char>,
    path: Seq<char>,
    exists: bool,
) -> Option<Seq<StepView>> {
    match os {
        Os::MacOs => if enable {
            Some(
                seq![
                    StepView::Write { path, text: before_program() + exe + behind_program() },
                    StepView::Command {
                        program: "launchctl"@,
                        args: seq!["unload"@, path],
                        need: Need::Nothing,
                        failed: ""@,
                    },
                    StepView::Command {
                        program: "launchctl"@,
                        args: seq!["load"@, "-w"@, path],
                        need: Need::Success,
                        failed: "launchctl load failed: "@,
                    },
                ],
            )
        } else if exists {
            Some(
                seq![
                    StepView::Command {
                        program: "launchctl"@,
                        args: seq!["unload"@, "-w"@, path],
                        need: Need::Nothing,
                        failed: ""@,
                    },
                    StepView::Remove { path },
                ],
            )
        } else {
            Some(seq![])
        },
        Os::Windows => if enable {
            Some(
                seq![
                    StepView::Command {
                        program: "reg"@,
                        args: seq![
                            "add"@,
                            run_key(),
                            "/v"@,
                            "DriftKVM"@,
                            "/t"@,
                            "REG_SZ"@,
                            "/d"@,
                            "\""@ + exe + "\" run"@,
                            "/f"@,
                        ],
                        need: Need::Success,
                        failed: "reg failed: "@,
                    },
                ],
            )
        } else {
            Some(
                seq![
                    StepView::Command {
                        program: "reg"@,
                        args: seq!["delete"@, run_key(), "/v"@, "DriftKVM"@, "/f"@],
                        need: Need::Run,
                        failed: "reg failed: "@,
                    },
                ],
            )
        },
        _ => None,
    }
}

/// A command that may fail.
fn attempt(program: &str, args: Vec<String>) -> (r: Step)
    ensures
        r@ == (StepView::Command {
            program: program@,
            args: text::texts(args@),
            need: Need::Nothing,
            failed: ""@,
        }),
{
    Step::Command {
        program: program.to_owned(),
        args,
        need: Need::Nothing,
        failed: "".to_owned(),
    }
}

/// A command that must not fail.
fn must(program: &str, args: Vec<String>, need: Need, failed: &str) -> (r: Step)
    ensures
        r@ == (StepView::Command {
            program: program@,
            args: text::texts(args@),
            need,
            failed: failed@,
        }),
{
    Step::Command { program: program.to_owned(), args, need, failed: failed.to_owned() }
}

/// The steps that switch autostart on or off. `path` is where the agent is described,
/// and `exists` says whether it is.
pub fn apply(os: Os, enable: bool, exe: &str, path: &str, exists: bool) -> (r: Result<
    Vec<Step>,
    String,
>)
    ensures
        match steps_of(os, enable, exe@, path@, exists) {
            Some(s) => r matches Ok(v) && steps_view(v@) == s,
            None => r matches Err(e) && e@
                == "autostart is not implemented for this platform yet"@,
        },
{
    let mut v: Vec<Step> = Vec::new();
    match os {
        Os::MacOs => {
            if enable {
                v.push(Step::Write { path: path.to_owned(), text: plist(exe) });
                let unload: Vec<String> = vec!["unload".to_owned(), path.to_owned()];
                assert(text::texts(unload@) =~= seq!["unload"@, path@]);
                v.push(attempt("launchctl", unload));
                let load: Vec<String> = vec!["load".to_owned(), "-w".to_owned(), path.to_owned()];
                assert(text::texts(load@) =~= seq!["load"@, "-w"@, path@]);
                v.push(must("launchctl", load, Need::Success, "launchctl load failed: "));
            } else if exists {
                let unload: Vec<String> = vec![
                    "unload".to_owned(),
                    "-w".to_owned(),
                    path.to_owned(),
                ];
                assert(text::texts(unload@) =~= seq!["unload"@, "-w"@, path@]);
                v.push(attempt("launchctl", unload));
                v.push(Step::Remove { path: path.to_owned() });
            }
        },
        Os::Windows => {
            let key: String =
                "HKCU\\Software\\Microsoft\\Windows\\CurrentVersion\\Run".to_owned();
            if enable {
                let run: String = joined(joined("\"", exe).as_str(), "\" run");
                let args: Vec<String> = vec![
                    "add".to_owned(),
                    key,
                    "/v".to_owned(),
                    "DriftKVM".to_owned(),
                    "/t".to_owned(),
                    "REG_SZ".to_owned(),
                    "/d".to_owned(),
                    run,
                    "/f".to_owned(),
                ];
                assert(text::texts(args@) =~= seq![
                    "add"@,
                    run_key(),
                    "/v"@,
                    "DriftKVM"@,
                    "/t"@,
                    "REG_SZ"@,
                    "/d"@,
                    "\""@ + exe@ + "\" run"@,
                    "/f"@,
                ]);
                v.push(must("reg", args, Need::Success, "reg failed: "));
            } else {
                let args: Vec<String> = vec![
                    "delete".to_owned(),
                    key,
                    "/v".to_owned(),
                    "DriftKVM".to_owned(),
                    "/f".to_owned(),
                ];
                assert(text::texts(args@) =~= seq![
                    "delete"@,
                    run_key(),
                    "/v"@,
                    "DriftKVM"@,
                    "/f"@,
                ]);
                v.push(must("reg", args, Need::Run, "reg failed: "));
            }
        },
        _ => {
            return Err("autostart is not implemented for this platform yet".to_owned());
        },
    }
    assert(steps_view(v@) =~= steps_of(os, enable, exe@, path@, exists)->0);
    Ok(v)
}

/// The error of a command, if it counts as one: `ran` says whether it could be run,
/// `succeeded` whether it then succeeded, and `detail` what it said.
pub fn outcome(need: Need, failed: &str, ran: bool, succeeded: bool, detail: &str) -> (r: Option<
    String,
>)
    ensures
        match need {
            Need::Nothing => r is None,
            Need::Run => if ran {
                r is None
            } else {
                r matches Some(e) && e@ == detail@
            },
            Need::Success => if !ran {
                r matches Some(e) && e@ == detail@
            } else if succeeded {
                r is None
            } else {
                r matches Some(e) && e@ == failed@ + detail@
            },
        },
{
    match need {
        Need::Nothing => None,
        Need::Run => if ran {
            None
        } else {
            Some(detail.to_owned())
        },
        Need::Success => if !ran {
            Some(detail.to_owned())
        } else if succeeded {
            None
        } else {
            Some(joined(failed, detail))
        },
    }
}

} // verus!
