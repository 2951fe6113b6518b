//! The client side: which method of the capture service a subcommand calls,
//! and with which arguments.

use vstd::prelude::*;
use vstd::string::*;
use crate::cli::{CaptureArgs, Command};
use crate::dbus::{CaptureKind, screen_kind_of};

verus! {

/// The path argument on the bus: the given path, or empty for none.
pub fn path_string(p: Option<String>) -> (r: String)
    ensures
        r@ == match p {
            Some(s) => s@,
            None => Seq::<char>::empty(),
        },
{
    match p {
        Some(s) => s,
        None => String::new(),
    }
}

/// The service methods the client calls.
#[derive(Debug, Clone, Copy, PartialEq, Eq, Structural)]
pub enum DbusMethod {
    GraphicCaptureFlags,
    FullScreenFlags,
    CaptureScreenFlags,
}

impl DbusMethod {
    pub open spec fn spec_name(self) -> Seq<char> {
        match self {
            DbusMethod::GraphicCaptureFlags => "graphicCaptureFlags"@,
            DbusMethod::FullScreenFlags => "fullScreenFlags"@,
            DbusMethod::CaptureScreenFlags => "captureScreenFlags"@,
        }
    }

    /// The method's name on the bus.
    pub fn name(self) -> (r: &'static str)
        ensures
            r@ == self.spec_name(),
    {
        match self {
            DbusMethod::GraphicCaptureFlags => "graphicCaptureFlags",
            DbusMethod::FullScreenFlags => "fullScreenFlags",
            DbusMethod::CaptureScreenFlags => "captureScreenFlags",
        }
    }
}

/// The three methods go by their own bus names: the region capture is
/// `graphicCaptureFlags`, the full-screen one `fullScreenFlags`, the
/// one-screen one `captureScreenFlags`; no two share a name.
pub proof fn lemma_method_names(a: DbusMethod, b: DbusMethod)
    ensures
        DbusMethod::GraphicCaptureFlags.spec_name() == "graphicCaptureFlags"@,
        DbusMethod::FullScreenFlags.spec_name() == "fullScreenFlags"@,
        DbusMethod::CaptureScreenFlags.spec_name() == "captureScreenFlags"@,
        a.spec_name() == b.spec_name() <==> a == b,
{
    reveal_strlit("graphicCaptureFlags");
    reveal_strlit("fullScreenFlags");
    reveal_strlit("captureScreenFlags");
    if a != b {
        if a.spec_name().len() == b.spec_name().len() {
            assert(a.spec_name()[0] != b.spec_name()[0]);
        }
    }
}

/// One method call on the capture service. Its arguments go out in the
/// order `screen` (only for `captureScreenFlags`), `path`, `delay`,
/// `clipboard`, `no_save`, and an empty request id.
#[derive(Debug, Clone)]
pub struct DbusCall {
    pub method: DbusMethod,
    pub screen: Option<i32>,
    pub path: String,
    /// Milliseconds; the flag's value truncated to 32 bits.
    pub delay: u32,
    pub clipboard: bool,
    pub no_save: bool,
}

/// The call's arguments shared by every subcommand.
pub open spec fn carries(c: DbusCall, a: CaptureArgs) -> bool {
    &&& c.path@ == match a.path {
        Some(s) => s@,
        None => Seq::<char>::empty(),
    }
    &&& c.delay == a.delay as u32
    &&& c.clipboard == a.clipboard
    &&& c.no_save == a.no_save
}

fn call_with(method: DbusMethod, screen: Option<i32>, a: CaptureArgs) -> (c: DbusCall)
    ensures
        c.method == method,
        c.screen == screen,
        carries(c, a),
{
    DbusCall {
        method,
        screen,
        path: path_string(a.path),
        delay: a.delay as u32,
        clipboard: a.clipboard,
        no_save: a.no_save,
    }
}

/// The service call a subcommand makes. A screen number is sent as an
/// `i32` (truncated), and an absent one as -1, which the service reads as
/// "the cursor's screen".
pub fn dbus_call(cmd: Command) -> (c: DbusCall)
    ensures
        match cmd {
            Command::Gui(a) => c.method == DbusMethod::GraphicCaptureFlags && c.screen is None
                && carries(c, a),
            Command::Full(a) => c.method == DbusMethod::FullScreenFlags && c.screen is None
                && carries(c, a),
            Command::Screen { common, number } => c.method == DbusMethod::CaptureScreenFlags
                && c.screen == Some(
                match number {
                    Some(n) => n as i32,
                    None => -1i32,
                },
            ) && carries(c, common),
        },
{
    match cmd {
        Command::Gui(a) => call_with(DbusMethod::GraphicCaptureFlags, None, a),
        Command::Full(a) => call_with(DbusMethod::FullScreenFlags, None, a),
        Command::Screen { common, number } => {
            let n: i32 = match number {
                Some(n) => n as i32,
                None => -1,
            };
            call_with(DbusMethod::CaptureScreenFlags, Some(n), common)
        },
    }
}

/// The screen a `screen` subcommand names is the screen the service
/// captures: an absent number travels as -1 and comes back as the cursor's
/// screen, a number that fits `i32` comes back as itself.
pub proof fn lemma_screen_number_round_trip(number: Option<usize>)
    requires
        number matches Some(n) ==> n <= i32::MAX,
    ensures
        screen_kind_of(
            match number {
                Some(n) => n as i32,
                None => -1i32,
            },
        ) == match number {
            Some(n) => CaptureKind::Screen(n),
            None => CaptureKind::CursorScreen,
        },
{
}

} // verus!
