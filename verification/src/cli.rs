//! What the command line tool does for each of its commands, up to the
//! point where it prints lines or starts `cargo`.

use vstd::prelude::*;
use crate::boards::{BoardSpec, BoardView, board_table, boards, find_board, lookup_board};
use crate::text::owned;

verus! {

/// A command of the tool, as parsed from its arguments.
pub enum Command {
    /// Build the application for the named board.
    Build { board: String },
    /// Build, flash and run the application on the named board.
    Run { board: String },
    /// List the supported boards.
    ListBoards,
}

/// What carrying out a command takes.
pub enum Action {
    /// Print these lines on standard output.
    Print(Vec<String>),
    /// Start `cargo` with these arguments and exit with its status; where
    /// `cargo` cannot be started, stop with the given message.
    Cargo { args: Vec<String>, failure: &'static str },
}

/// A command the tool refuses.
pub enum CliError {
    /// No supported board has the given name.
    BoardNotFound(String),
}

/// A list of strings taken as character sequences.
pub open spec fn strings_view(v: Seq<String>) -> Seq<Seq<char>> {
    v.map_values(|s: String| s@)
}

/// The lines the board listing prints: a heading, then each name behind a tab.
pub open spec fn listing_lines(table: Seq<BoardView>) -> Seq<Seq<char>> {
    seq!["Supported boards:"@] + table.map_values(|b: BoardView| "\t"@ + b.name)
}

/// The `cargo` arguments that build the application for board `b`.
pub open spec fn build_args(b: BoardView) -> Seq<Seq<char>> {
    seq!["build"@, "--release"@, "--target"@, b.target, "--features"@, b.feature]
}

/// The `cargo` arguments that build and run the application on board `b`,
/// handing the chip name on to the runner.
pub open spec fn run_args(b: BoardView) -> Seq<Seq<char>> {
    seq![
        "run"@,
        "--release"@,
        "--target"@,
        b.target,
        "--features"@,
        b.feature,
        "--"@,
        "--chip"@,
        b.chip,
    ]
}

/// The outcome owed for `cmd`.
pub open spec fn command_outcome(cmd: Command, r: Result<Action, CliError>) -> bool {
    match cmd {
        Command::ListBoards => r matches Ok(Action::Print(lines)) && strings_view(lines@)
            == listing_lines(board_table()),
        Command::Build { board } => match lookup_board(board_table(), board@) {
            Some(b) => r matches Ok(Action::Cargo { args, failure }) && strings_view(args@)
                == build_args(b) && failure@ == "error building firmware"@,
            None => r matches Err(CliError::BoardNotFound(name)) && name@ == board@,
        },
        Command::Run { board } => match lookup_board(board_table(), board@) {
            Some(b) => r matches Ok(Action::Cargo { args, failure }) && strings_view(args@)
                == run_args(b) && failure@ == "error running firmware"@,
            None => r matches Err(CliError::BoardNotFound(name)) && name@ == board@,
        },
    }
}

/// The lines of the board listing.
pub fn listing() -> (lines: Vec<String>)
    ensures
        strings_view(lines@) == listing_lines(board_table()),
{
    let table: Vec<BoardSpec> = boards();
    let ghost views = table@.map_values(|b: BoardSpec| b@);
    let mut lines: Vec<String> = Vec::new();
    lines.push(owned("Supported boards:"));
    let mut i: usize = 0;
    while i < table.len()
        invariant
            views == table@.map_values(|b: BoardSpec| b@),
            views == board_table(),
            i <= table.len(),
            strings_view(lines@) =~= seq!["Supported boards:"@] + views.take(i as int).map_values(
                |b: BoardView| "\t"@ + b.name,
            ),
        decreases table.len() - i,
    {
        let ghost before = lines@;
        let mut line: String = owned("\t");
        line.append(table[i].name);
        lines.push(line);
        assert(strings_view(lines@) =~= strings_view(before).push(line@));
        assert(views.take(i + 1) =~= views.take(i as int).push(table@[i as int]@));
        assert(views.take(i + 1).map_values(|b: BoardView| "\t"@ + b.name) =~= views.take(
            i as int,
        ).map_values(|b: BoardView| "\t"@ + b.name).push("\t"@ + table@[i as int]@.name));
        i = i + 1;
    }
    assert(views.take(table.len() as int) =~= views);
    lines
}

fn cargo_args(b: BoardSpec, run: bool) -> (args: Vec<String>)
    ensures
        strings_view(args@) == if run {
            run_args(b@)
        } else {
            build_args(b@)
        },
{
    let mut args: Vec<String> = Vec::new();
    if run {
        args.push(owned("run"));
    } else {
        args.push(owned("build"));
    }
    args.push(owned("--release"));
    args.push(owned("--target"));
    args.push(owned(b.target));
    args.push(owned("--features"));
    args.push(owned(b.feature));
    if run {
        args.push(owned("--"));
        args.push(owned("--chip"));
        args.push(owned(b.chip));
    }
    proof {
        if run {
            assert(strings_view(args@) =~= run_args(b@));
        } else {
            assert(strings_view(args@) =~= build_args(b@));
        }
    }
    args
}

/// Decides what a command takes: the listing to print, or the `cargo`
/// invocation for the selected board; a board name that no entry carries
/// is refused.
pub fn plan_command(cmd: &Command) -> (r: Result<Action, CliError>)
    ensures
        command_outcome(*cmd, r),
{
    match cmd {
        Command::ListBoards => Ok(Action::Print(listing())),
        Command::Build { board } => match find_board(board.as_str()) {
            Some(b) => Ok(
                Action::Cargo { args: cargo_args(b, false), failure: "error building firmware" },
            ),
            None => Err(CliError::BoardNotFound(board.clone())),
        },
        Command::Run { board } => match find_board(board.as_str()) {
            Some(b) => Ok(
                Action::Cargo { args: cargo_args(b, true), failure: "error running firmware" },
            ),
            None => Err(CliError::BoardNotFound(board.clone())),
        },
    }
}

impl CliError {
    /// The line the tool prints when it refuses the command.
    pub fn message(&self) -> (m: String)
        ensures
            match self {
                CliError::BoardNotFound(board) => m@ == "Selected board not found: "@ + board@,
            },
    {
        match self {
            CliError::BoardNotFound(board) => {
                let mut m: String = owned("Selected board not found: ");
                m.append(board.as_str());
                m
            },
        }
    }

    /// The status the tool exits with when it refuses the command.
    pub fn exit_code(&self) -> (c: i32)
        ensures
            c == -1,
    {
        -1
    }
}

/// The status the tool exits with once `cargo` has been waited for:
/// `cargo`'s own exit code, or -1 where waiting for it failed.
pub fn exit_status(waited: Option<i32>) -> (c: i32)
    ensures
        c == match waited {
            Some(code) => code as int,
            None => -1int,
        },
{
    match waited {
        Some(code) => code,
        None => -1,
    }
}

} // verus!
