//! The app shell: a menu-bar icon and the editor's window.
//!
//! While the editor's window is open the app is an ordinary one, with an icon in the
//! Dock; when it is closed only the menu-bar icon remains.
use vstd::prelude::*;

use crate::engine::panel::{self, to_coord};
use crate::keymap::Os;
use crate::platform::display::{self, signed};
use crate::text::{self, decimal, joined};

verus! {

/// What happens to the shell.
#[derive(Debug)]
pub enum ShellEvent {
    /// It started; an overlay may be wanted.
    Started { overlay: bool },
    /// The editor's window was opened.
    EditorOpened,
    /// The overlay was opened, its corner here.
    OverlayOpened { x: i32, y: i32 },
    /// The cursor is here, and just crossed this edge (zero: none).
    Cursor { x: i32, y: i32, flash: u8 },
    /// Menu: open the editor.
    Open,
    /// Menu: switch the shared monitor.
    ToggleShared,
    /// Menu: quit.
    Quit,
    /// The state of the connections, and whether something is off.
    Status { line: String, warn: bool },
    /// The editor's window was closed.
    Closed,
}

/// What happens to the shell, as values.
#[verifier::ext_equal]
pub ghost enum ShellEventView {
    Started { overlay: bool },
    EditorOpened,
    OverlayOpened { x: i32, y: i32 },
    Cursor { x: i32, y: i32, flash: u8 },
    Open,
    ToggleShared,
    Quit,
    Status { line: Seq<char>, warn: bool },
    Closed,
}

impl View for ShellEvent {
    type V = ShellEventView;

    open spec fn view(&self) -> ShellEventView {
        match self {
            ShellEvent::Started { overlay } => ShellEventView::Started { overlay: *overlay },
            ShellEvent::EditorOpened => ShellEventView::EditorOpened,
            ShellEvent::OverlayOpened { x, y } => ShellEventView::OverlayOpened { x: *x, y: *y },
            ShellEvent::Cursor { x, y, flash } => ShellEventView::Cursor {
                x: *x,
                y: *y,
                flash: *flash,
            },
            ShellEvent::Open => ShellEventView::Open,
            ShellEvent::ToggleShared => ShellEventView::ToggleShared,
            ShellEvent::Quit => ShellEventView::Quit,
            ShellEvent::Status { line, warn } => ShellEventView::Status {
                line: line@,
                warn: *warn,
            },
            ShellEvent::Closed => ShellEventView::Closed,
        }
    }
}

/// What the shell does.
#[derive(Debug)]
pub enum ShellAction {
    OpenEditor,
    OpenOverlay,
    /// Bring the app into the Dock and the app switcher, and focus the editor.
    ShowInDock,
    /// Let go of the editor's window and retreat to the menu bar.
    Retreat,
    /// Run a script in the overlay.
    Script(String),
    /// Ask the running machine to switch the shared monitor.
    PostToggle,
    Exit,
    /// The first line of the menu.
    StatusText(String),
    Tooltip(String),
    /// The text next to the icon.
    Title(Option<String>),
}

/// What the shell does, as values.
#[verifier::ext_equal]
pub ghost enum ShellActionView {
    OpenEditor,
    OpenOverlay,
    ShowInDock,
    Retreat,
    Script(Seq<char>),
    PostToggle,
    Exit,
    StatusText(Seq<char>),
    Tooltip(Seq<char>),
    Title(Option<Seq<char>>),
}

impl View for ShellAction {
    type V = ShellActionView;

    open spec fn view(&self) -> ShellActionView {
        match self {
            ShellAction::OpenEditor => ShellActionView::OpenEditor,
            ShellAction::OpenOverlay => ShellActionView::OpenOverlay,
            ShellAction::ShowInDock => ShellActionView::ShowInDock,
            ShellAction::Retreat => ShellActionView::Retreat,
            ShellAction::Script(s) => ShellActionView::Script(s@),
            ShellAction::PostToggle => ShellActionView::PostToggle,
            ShellAction::Exit => ShellActionView::Exit,
            ShellAction::StatusText(s) => ShellActionView::StatusText(s@),
            ShellAction::Tooltip(s) => ShellActionView::Tooltip(s@),
            ShellAction::Title(s) => ShellActionView::Title(text::opt_text(*s)),
        }
    }
}

/// What some actions say.
pub open spec fn actions_view(v: Seq<ShellAction>) -> Seq<ShellActionView> {
    v.map_values(|a: ShellAction| a@)
}

/// The shell.
#[derive(Clone, Copy, Debug, PartialEq, Eq)]
pub struct Shell {
    /// The editor's window is open.
    pub editor: bool,
    /// The overlay's corner, where it is open.
    pub overlay: Option<(i32, i32)>,
}

/// The script that tells the overlay where the cursor is.
pub open spec fn tick_script(x: int, y: int, flash: u8) -> Seq<char> {
    "window.tick&&tick("@ + display::signed_of(x) + ","@ + display::signed_of(y) + ","@
        + text::decimal_of(flash as nat) + ")"@
}

impl Shell {
    /// The shell after an event, and what it does.
    pub open spec fn after(self, e: ShellEventView) -> (Shell, Seq<ShellActionView>) {
        match e {
            ShellEventView::Started { overlay } => (
                self,
                if overlay {
                    seq![ShellActionView::OpenEditor, ShellActionView::OpenOverlay]
                } else {
                    seq![ShellActionView::OpenEditor]
                },
            ),
            ShellEventView::EditorOpened => (
                Shell { editor: true, ..self },
                seq![ShellActionView::ShowInDock],
            ),
            ShellEventView::OverlayOpened { x, y } => (
                Shell { overlay: Some((x, y)), ..self },
                seq![],
            ),
            ShellEventView::Cursor { x, y, flash } => (
                self,
                match self.overlay {
                    Some(o) => seq![
                        ShellActionView::Script(
                            tick_script(panel::coord(x - o.0), panel::coord(y - o.1), flash),
                        ),
                    ],
                    None => seq![],
                },
            ),
            ShellEventView::Open => (
                self,
                if self.editor {
                    seq![ShellActionView::ShowInDock]
                } else {
                    seq![ShellActionView::OpenEditor]
                },
            ),
            ShellEventView::ToggleShared => (self, seq![ShellActionView::PostToggle]),
            ShellEventView::Quit => (self, seq![ShellActionView::Exit]),
            ShellEventView::Status { line, warn } => (
                self,
                seq![
                    ShellActionView::StatusText(line),
                    ShellActionView::Tooltip("Kayıver — "@ + line),
                    ShellActionView::Title(
                        if warn {
                            Some("⚠"@)
                        } else {
                            None
                        },
                    ),
                ],
            ),
            ShellEventView::Closed => (
                Shell { editor: false, ..self },
                seq![ShellActionView::Retreat],
            ),
        }
    }

    /// A shell with nothing open.
    pub fn new() -> (r: Shell)
        ensures
            r == (Shell { editor: false, overlay: None }),
    {
        Shell { editor: false, overlay: None }
    }

    /// Takes in an event.
    pub fn on_event(&mut self, e: ShellEvent) -> (r: Vec<ShellAction>)
        ensures
            (*final(self), actions_view(r@)) == old(self).after(e@),
    {
        let mut out: Vec<ShellAction> = Vec::new();
        let ghost want = old(self).after(e@).1;
        match e {
            ShellEvent::Started { overlay } => {
                out.push(ShellAction::OpenEditor);
                if overlay {
                    out.push(ShellAction::OpenOverlay);
                }
            },
            ShellEvent::EditorOpened => {
                self.editor = true;
                out.push(ShellAction::ShowInDock);
            },
            ShellEvent::OverlayOpened { x, y } => {
                self.overlay = Some((x, y));
            },
            ShellEvent::Cursor { x, y, flash } => {
                if let Some(o) = self.overlay {
                    let dx: i32 = to_coord(x as i64 - o.0 as i64);
                    let dy: i32 = to_coord(y as i64 - o.1 as i64);
                    let a: String = joined(
                        joined("window.tick&&tick(", signed(dx).as_str()).as_str(),
                        ",",
                    );
                    let b: String = joined(joined(a.as_str(), signed(dy).as_str()).as_str(), ",");
                    out.push(
                        ShellAction::Script(
                            joined(joined(b.as_str(), decimal(flash as u64).as_str()).as_str(), ")"),
                        ),
                    );
                }
            },
            ShellEvent::Open => {
                if self.editor {
                    out.push(ShellAction::ShowInDock);
                } else {
                    out.push(ShellAction::OpenEditor);
                }
            },
            ShellEvent::ToggleShared => {
                out.push(ShellAction::PostToggle);
            },
            ShellEvent::Quit => {
                out.push(ShellAction::Exit);
            },
            ShellEvent::Status { line, warn } => {
                let tip: String = joined("Kayıver — ", line.as_str());
                out.push(ShellAction::StatusText(line));
                out.push(ShellAction::Tooltip(tip));
                let title: Option<String> = if warn {
                    Some("⚠".to_owned())
                } else {
                    None
                };
                out.push(ShellAction::Title(title));
            },
            ShellEvent::Closed => {
                self.editor = false;
                out.push(ShellAction::Retreat);
            },
        }
        assert(actions_view(out@) =~= want);
        out
    }
}

/// Once it has started, the shell opens an editor only where none is open: there is one
/// window at most.
pub proof fn law_one_editor_window(s: Shell, e: ShellEventView, i: int)
    requires
        !(e is Started),
        0 <= i < s.after(e).1.len(),
        s.after(e).1[i] is OpenEditor,
    ensures
        !s.editor,
{
}

// ----------------------------------------------------------------- tray ----

// Window messages and menu entries of the notification area.
pub const WM_TRAY: u32 = 0x8001;

pub const WM_COMMAND: u32 = 0x0111;

pub const WM_DESTROY: u32 = 0x0002;

pub const WM_RBUTTONUP: u32 = 0x0205;

pub const ID_OPEN: u32 = 1001;

pub const ID_QUIT: u32 = 1002;

/// What the notification area does about a window message.
#[derive(Clone, Copy, Debug, PartialEq, Eq, Structural)]
pub enum TrayAction {
    /// Show the menu.
    Menu,
    /// Open the editor.
    Open,
    /// End the program.
    Quit,
    /// End the message loop.
    Stop,
    /// Nothing.
    Done,
    /// What the system does by default.
    Default,
}

/// What the notification area does about a window message: the low words of its two
/// parameters say what was done to the icon, and which entry of the menu was picked.
pub fn tray_message(msg: u32, wparam: u64, lparam: u64) -> (r: TrayAction)
    ensures
        r == (if msg == WM_TRAY {
            if lparam % 0x1_0000 == WM_RBUTTONUP {
                TrayAction::Menu
            } else {
                TrayAction::Done
            }
        } else if msg == WM_COMMAND {
            if wparam % 0x1_0000 == ID_OPEN {
                TrayAction::Open
            } else if wparam % 0x1_0000 == ID_QUIT {
                TrayAction::Quit
            } else {
                TrayAction::Done
            }
        } else if msg == WM_DESTROY {
            TrayAction::Stop
        } else {
            TrayAction::Default
        }),
{
    if msg == WM_TRAY {
        if lparam % 0x1_0000 == WM_RBUTTONUP as u64 {
            TrayAction::Menu
        } else {
            TrayAction::Done
        }
    } else if msg == WM_COMMAND {
        if wparam % 0x1_0000 == ID_OPEN as u64 {
            TrayAction::Open
        } else if wparam % 0x1_0000 == ID_QUIT as u64 {
            TrayAction::Quit
        } else {
            TrayAction::Done
        }
    } else if msg == WM_DESTROY {
        TrayAction::Stop
    } else {
        TrayAction::Default
    }
}

// ------------------------------------------------------------- browsers ----

/// Where browsers that can show a page without their own chrome may be installed, in the
/// order in which they are tried. The three directories are those of Windows.
pub open spec fn browsers_of(
    os: Os,
    files: Seq<char>,
    files86: Seq<char>,
    local: Seq<char>,
) -> Seq<Seq<char>> {
    match os {
        Os::MacOs => seq![
            "/Applications/Google Chrome.app/Contents/MacOS/Google Chrome"@,
            "/Applications/Microsoft Edge.app/Contents/MacOS/Microsoft Edge"@,
            "/Applications/Brave Browser.app/Contents/MacOS/Brave Browser"@,
            "/Applications/Chromium.app/Contents/MacOS/Chromium"@,
        ],
        Os::Windows => seq![
            files + "\\Google\\Chrome\\Application\\chrome.exe"@,
            files86 + "\\Google\\Chrome\\Application\\chrome.exe"@,
            files86 + "\\Microsoft\\Edge\\Application\\msedge.exe"@,
            files + "\\Microsoft\\Edge\\Application\\msedge.exe"@,
            local + "\\Google\\Chrome\\Application\\chrome.exe"@,
        ],
        Os::Other => seq![],
    }
}

/// Where browsers may be installed.
pub fn app_browsers(os: Os, files: &str, files86: &str, local: &str) -> (r: Vec<String>)
    ensures
        text::texts(r@) == browsers_of(os, files@, files86@, local@),
{
    let v: Vec<String> = match os {
        Os::MacOs => vec![
            "/Applications/Google Chrome.app/Contents/MacOS/Google Chrome".to_owned(),
            "/Applications/Microsoft Edge.app/Contents/MacOS/Microsoft Edge".to_owned(),
            "/Applications/Brave Browser.app/Contents/MacOS/Brave Browser".to_owned(),
            "/Applications/Chromium.app/Contents/MacOS/Chromium".to_owned(),
        ],
        Os::Windows => vec![
            joined(files, "\\Google\\Chrome\\Application\\chrome.exe"),
            joined(files86, "\\Google\\Chrome\\Application\\chrome.exe"),
            joined(files86, "\\Microsoft\\Edge\\Application\\msedge.exe"),
            joined(files, "\\Microsoft\\Edge\\Application\\msedge.exe"),
            joined(local, "\\Google\\Chrome\\Application\\chrome.exe"),
        ],
        Os::Other => Vec::new(),
    };
    assert(text::texts(v@) =~= browsers_of(os, files@, files86@, local@));
    v
}

/// The arguments that show a page as an app window of this size.
pub fn app_window_args(url: &str, width: u32, height: u32) -> (r: Vec<String>)
    ensures
        text::texts(r@) == seq![
            "--app="@ + url@,
            "--window-size="@ + text::decimal_of(width as nat) + ","@ + text::decimal_of(
                height as nat,
            ),
        ],
{
    let size: String = joined(
        joined(joined("--window-size=", decimal(width as u64).as_str()).as_str(), ",").as_str(),
        decimal(height as u64).as_str(),
    );
    let v: Vec<String> = vec![joined("--app=", url), size];
    assert(text::texts(v@) =~= seq![v@[0]@, v@[1]@]);
    v
}

} // verus!
