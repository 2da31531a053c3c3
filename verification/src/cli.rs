//! The command set of the application shell.
use vstd::prelude::*;

verus! {

/// Parsed command-line arguments for Head Huntress.
#[derive(Debug, Clone, Copy, PartialEq, Eq)]
pub struct Cli {
    /// The requested subcommand, if any.
    pub command: Option<Command>,
}

/// Commands exposed by the initial CLI shell.
#[derive(Debug, Clone, Copy, PartialEq, Eq, Structural)]
pub enum Command {
    /// Discover and ingest jobs from configured sources.
    Sync,
    /// Evaluate jobs against configured hard and semantic rules.
    Evaluate,
    /// Generate a tailored resume plan for a job.
    Resume,
    /// Review jobs awaiting a human decision.
    Review,
    /// Start the future API or GUI application shell.
    Serve,
}

/// The name under which a command is invoked.
pub open spec fn command_name_text(command: Command) -> Seq<char> {
    match command {
        Command::Sync => "sync"@,
        Command::Evaluate => "evaluate"@,
        Command::Resume => "resume"@,
        Command::Review => "review"@,
        Command::Serve => "serve"@,
    }
}

/// The name under which a command is invoked on the command line.
pub fn command_name(command: &Command) -> (r: &'static str)
    ensures
        r@ == command_name_text(*command),
{
    match command {
        Command::Sync => "sync",
        Command::Evaluate => "evaluate",
        Command::Resume => "resume",
        Command::Review => "review",
        Command::Serve => "serve",
    }
}

/// Every command has its own name.
pub proof fn law_command_names_are_distinct(a: Command, b: Command)
    requires
        a != b,
    ensures
        command_name_text(a) != command_name_text(b),
{
    reveal_strlit("sync");
    reveal_strlit("evaluate");
    reveal_strlit("resume");
    reveal_strlit("review");
    reveal_strlit("serve");
    assert("sync"@[1] == 'y');
    assert("serve"@[1] == 'e');
    assert("review"@[2] == 'v');
    assert("resume"@[2] == 's');
}

} // verus!
