//! The command line: which operation a run of the program is to carry out.
use vstd::prelude::*;

verus! {

/// The operations that can be asked for on the command line.
#[derive(Debug, Clone, Copy, PartialEq, Eq, Structural)]
pub enum Command {
    /// Open the playback program's search and track what is watched.
    Start,
    /// Play the episode after the last one seen.
    Next,
    /// Play the last episode seen once more.
    Replay,
    /// Print the tracked shows.
    List,
    /// Open the dashboard.
    Tui,
}

/// What the command line held.
#[derive(Debug, Clone, Copy, PartialEq, Eq, Structural)]
pub struct Cli {
    pub command: Option<Command>,
}

/// The operation that a command line asks for: the one it names, or the
/// dashboard where it names none.
pub open spec fn operation_of(cli: Cli) -> Command {
    match cli.command {
        Some(c) => c,
        None => Command::Tui,
    }
}

/// Decides which operation to carry out.
pub fn run(cli: Cli) -> (op: Command)
    ensures
        op == operation_of(cli),
{
    match cli.command {
        Some(c) => c,
        None => Command::Tui,
    }
}

} // verus!
