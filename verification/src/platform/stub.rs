//! Placeholder backend for platforms without an implementation.
use vstd::prelude::*;

use crate::proto::Rect;

verus! {

/// The desktop that is reported where it cannot be read.
pub open spec fn common_desktop() -> Rect {
    Rect { x: 0, y: 0, w: 1920, h: 1080 }
}

pub fn desktop_bounds() -> (r: Rect)
    ensures
        r == common_desktop(),
{
    Rect { x: 0, y: 0, w: 1920, h: 1080 }
}

/// One monitor: the whole desktop.
pub fn monitors() -> (r: Vec<Rect>)
    ensures
        r@ == seq![common_desktop()],
{
    let mut v: Vec<Rect> = Vec::new();
    v.push(desktop_bounds());
    assert(v@ =~= seq![common_desktop()]);
    v
}

/// No display can be listed: no index, name or input source.
pub fn displays() -> (r: Vec<(u32, String, Option<u16>)>)
    ensures
        r@.len() == 0,
{
    Vec::new()
}

/// No display's input can be set.
pub fn set_display_input(index: u32, value: u16) -> (r: Result<(), String>)
    ensures
        r matches Err(e) && e@ == "display switching not supported on this platform"@,
{
    Err("display switching not supported on this platform".to_owned())
}

/// No display can be enabled or disabled.
pub fn set_display_enabled(index: u32, enabled: bool) -> (r: Result<(), String>)
    ensures
        r matches Err(e) && e@ == "display enable/disable not supported on this platform"@,
{
    Err("display enable/disable not supported on this platform".to_owned())
}

/// Input cannot be captured.
pub fn start_capture() -> (r: Result<(), String>)
    ensures
        r matches Err(e) && e@ == "input capture is not implemented on this platform"@,
{
    Err("input capture is not implemented on this platform".to_owned())
}

/// Input cannot be injected.
pub fn new_injector() -> (r: Result<(), String>)
    ensures
        r matches Err(e) && e@ == "input injection is not implemented on this platform"@,
{
    Err("input injection is not implemented on this platform".to_owned())
}

/// Where the cursor is said to be.
pub fn cursor_pos() -> (r: (i32, i32))
    ensures
        r == (0i32, 0i32),
{
    (0, 0)
}

} // verus!
