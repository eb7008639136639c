# Kayıver

One keyboard and mouse across several machines: push the cursor through an edge of the
desktop and it goes on on the machine next to it. The machines talk over TCP, encrypted
with a key that a one-time pairing derives from a six-digit code. A monitor that is
cabled to two machines, an Android tablet and the clipboard are shared too.

`src/` is the library, written in Verus: every function states what it does, and Verus
proves that it does.

- `proto`, `layout`, `binary32`: messages, screens, edges, and ratios along an edge as
  IEEE single-precision numbers.
- `wire`, `secure`, `pairing`, `discovery`: frames, encrypted channels, pairing.
- `config`: the configuration and what is remembered in it.
- `engine`: the router, which decides where input goes and who shows the shared panel;
  the sessions, and the search for a peer's address; the clipboard. `engine::laws` states
  what holds of the router as a whole.
- `platform`: capture and injection on macOS and Windows, displays, the cursor guard, the
  tray, and a virtual desk for tests.
- `android`: tablets over adb.
- `ui`, `report`, `shell`: the layout editor's service, the command line's reports, and
  the menu-bar shell.
- `keymap`, `json`, `parse`, `text`, `autostart`: what the others are built from.

The functions that are marked as external hold one call into another crate or into the
standard library each; what is claimed of the call stands above them.

`app/` is the program around the library: sockets, files, processes and the calls into
the operating system. It performs what the library decides. The menu-bar shell on macOS
needs tao, wry, tray-icon and the objc2 crates, the Windows backend the windows crate.
With `KAYIVER_SIM_MONITORS` or `KAYIVER_SIM_CTL` set it runs on the virtual desk.

`tests/` runs the library, outside crates included; `tests/sim_e2e.rs` joins two virtual
desks.
