//! The command handlers: one task per recognized command, each performing
//! one side effect and terminating.
//!
//! Three handlers write a fixed (or build-descriptor-carrying) text through
//! the shared transmit resource; the toggle handler flips its exclusively
//! owned row pins and writes nothing.

use vstd::prelude::*;
use vstd::string::StringExecFns;

use crate::command::Command;
use crate::display::command_toggle_display;
use crate::display::toggled;
use crate::display::DisplayRows;
use crate::transmit::wire_after;
use crate::transmit::TransmitResource;

verus! {

/// The full help banner.
pub open spec fn help_text_spec() -> Seq<char> {
    "\r\n=== command-rs ===\r\n\r\nThis is my take at week 5's assignment of the\r\nMaking embedded systems course (2023 edition).\r\n\r\navailable commands:\r\n\r\nhelp - prints this help message\r\ntoggle - toggles the entire 5x5 LED matrix\r\nlog_board - logs the entire game board to serial\r\nversion - prints VCS information\r\n\r\n==================\r\n"@
}

/// The fixed placeholder sent while the board engine is unimplemented.
pub open spec fn log_board_text_spec() -> Seq<char> {
    "\r\n=== board ===\r\n\r\nAs of now, the engine has not been implemented\r\nso there is no board to log - I'm sorry :/\r\n\r\n=============\r\n"@
}

/// The single version line, around the build-time descriptor.
pub open spec fn version_text_spec(descriptor: Seq<char>) -> Seq<char> {
    "This command-rs build is based on '"@ + descriptor + "'.\r\n"@
}

/// The help banner as sent on the wire.
pub fn help_text() -> (r: &'static str)
    ensures
        r@ == help_text_spec(),
{
    "\r\n=== command-rs ===\r\n\r\nThis is my take at week 5's assignment of the\r\nMaking embedded systems course (2023 edition).\r\n\r\navailable commands:\r\n\r\nhelp - prints this help message\r\ntoggle - toggles the entire 5x5 LED matrix\r\nlog_board - logs the entire game board to serial\r\nversion - prints VCS information\r\n\r\n==================\r\n"
}

/// The board-log placeholder as sent on the wire.
pub fn log_board_text() -> (r: &'static str)
    ensures
        r@ == log_board_text_spec(),
{
    "\r\n=== board ===\r\n\r\nAs of now, the engine has not been implemented\r\nso there is no board to log - I'm sorry :/\r\n\r\n=============\r\n"
}

/// The version line around the given build descriptor.
pub fn version_text(descriptor: &str) -> (r: String)
    ensures
        r@ == version_text_spec(descriptor@),
{
    let mut line = String::from_str("This command-rs build is based on '");
    line.append(descriptor);
    line.append("'.\r\n");
    line
}

/// The help handler: writes the help banner under the transmit lock.
pub fn command_help(tx: &mut TransmitResource)
    ensures
        final(tx)@ == wire_after(old(tx)@, help_text_spec()),
{
    tx.lock_write_flush(help_text());
}

/// The board-log handler: writes the placeholder under the transmit lock.
pub fn command_log_board(tx: &mut TransmitResource)
    ensures
        final(tx)@ == wire_after(old(tx)@, log_board_text_spec()),
{
    tx.lock_write_flush(log_board_text());
}

/// The version handler: writes the version line under the transmit lock.
pub fn command_version(tx: &mut TransmitResource, descriptor: &str)
    ensures
        final(tx)@ == wire_after(old(tx)@, version_text_spec(descriptor@)),
{
    let line = version_text(descriptor);
    tx.lock_write_flush(line.as_str());
}

/// The full response a command's handler puts on the wire; the toggle
/// handler writes nothing.
pub open spec fn response_of(c: Command, descriptor: Seq<char>) -> Seq<char> {
    match c {
        Command::Help => help_text_spec(),
        Command::ToggleDisplay => Seq::<char>::empty(),
        Command::LogBoard => log_board_text_spec(),
        Command::Version => version_text_spec(descriptor),
    }
}

/// Runs the handler of one dispatched command to completion: its full
/// response lands on the wire as one uninterleaved block, and only the
/// toggle command touches the row pins.
pub fn execute_handler(
    cmd: Command,
    tx: &mut TransmitResource,
    rows: &mut DisplayRows,
    descriptor: &str,
)
    ensures
        final(tx)@ == wire_after(old(tx)@, response_of(cmd, descriptor@)),
        *final(rows) == (if cmd is ToggleDisplay {
            toggled(*old(rows))
        } else {
            *old(rows)
        }),
{
    match cmd {
        Command::Help => {
            command_help(tx);
        },
        Command::ToggleDisplay => {
            command_toggle_display(rows);
            proof {
                assert(old(tx)@ + Seq::<char>::empty() =~= old(tx)@);
            }
        },
        Command::LogBoard => {
            command_log_board(tx);
        },
        Command::Version => {
            command_version(tx, descriptor);
        },
    }
}

} // verus!
