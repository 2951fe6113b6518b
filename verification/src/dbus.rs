//! The capture service's bus names and the requests its methods carry.

use vstd::prelude::*;
use crate::text::chars_of;

verus! {

/// Well-known bus name of the capture service, also its interface name.
pub const SERVICE_NAME: &'static str = "org.rustshot.Wayland";
/// Object path the service is exported at.
pub const OBJECT_PATH: &'static str = "/";

/// What a capture request covers.
#[derive(Debug, Clone, Copy, PartialEq, Eq, Structural)]
pub enum CaptureKind {
    /// The screen under the cursor.
    CursorScreen,
    /// Every monitor.
    All,
    /// The screen with this 0-based index.
    Screen(usize),
}

/// A negative screen number means the cursor's screen.
pub open spec fn screen_kind_of(n: i32) -> CaptureKind {
    if n < 0 {
        CaptureKind::CursorScreen
    } else {
        CaptureKind::Screen(n as usize)
    }
}

/// Every negative number asks for the cursor's screen; every other number
/// asks for the screen of that index, so different non-negative numbers ask
/// for different screens.
pub proof fn lemma_screen_kinds(n: i32, m: i32)
    ensures
        screen_kind_of(n) == CaptureKind::CursorScreen <==> n < 0,
        n >= 0 ==> screen_kind_of(n) == CaptureKind::Screen(n as usize) && n as usize == n,
        n >= 0 && m >= 0 && n != m ==> screen_kind_of(n) != screen_kind_of(m),
{
}

pub fn kind_for_screen(n: i32) -> (k: CaptureKind)
    ensures
        k == screen_kind_of(n),
{
    if n < 0 {
        CaptureKind::CursorScreen
    } else {
        CaptureKind::Screen(n as usize)
    }
}

/// What a finished capture is exported to.
#[derive(Debug, Clone, Copy, PartialEq, Eq, Structural)]
pub struct Outputs {
    /// Save a PNG at the save path.
    pub save: bool,
    /// Copy to the clipboard.
    pub copy: bool,
}

/// A capture is saved when it has a save path, and copied when the request
/// asked for the clipboard (or the overlay's Copy action forces it). With
/// neither, the capture produces no output.
pub fn outputs_for(save_path: &str, clipboard: bool, force_copy: bool) -> (o: Outputs)
    ensures
        o.save == (save_path@.len() > 0),
        o.copy == (clipboard || force_copy),
{
    Outputs { save: chars_of(save_path).len() > 0, copy: clipboard || force_copy }
}

} // verus!
