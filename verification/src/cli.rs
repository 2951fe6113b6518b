//! Command-line model: the capture subcommands and their flags.
//!
//! Without a subcommand the program runs as the background service; each
//! subcommand asks that service for one capture.

use vstd::prelude::*;

verus! {

/// Flags shared by every capture subcommand.
#[derive(Debug, Clone)]
pub struct CaptureArgs {
    /// Save the screenshot to this path (PNG).
    pub path: Option<String>,
    /// Copy the screenshot to the clipboard.
    pub clipboard: bool,
    /// Delay before the capture, in milliseconds.
    pub delay: u64,
    /// Do not save to disk (with `clipboard`, a clipboard-only capture).
    pub no_save: bool,
}

/// A capture subcommand.
#[derive(Debug, Clone)]
pub enum Command {
    /// Interactive region selection on the cursor's screen.
    Gui(CaptureArgs),
    /// Every monitor at once, no UI.
    Full(CaptureArgs),
    /// One screen, no UI; by 0-based index, or the cursor's screen when
    /// `number` is absent.
    Screen { common: CaptureArgs, number: Option<usize> },
}

/// The parsed command line.
#[derive(Debug, Clone)]
pub struct Cli {
    pub command: Option<Command>,
}

} // verus!
