//! The commands of the front-end and the invocations of the package
//! manager that they stand for.

use crate::package::{Package, PackageView};
use crate::text::{join, joined, trim, trimmed};
use vstd::prelude::*;
use vstd::string::*;

verus! {

/// The program that every invocation runs.
pub const PROGRAM: &'static str = "nix";

/// A command of the front-end.
#[derive(Debug)]
pub enum Commands {
    /// Install packages into the profile.
    Install { packages: Vec<Package> },
    /// List the installed packages.
    List,
    /// Upgrade every installed package.
    Upgrade,
    /// Search the registry for a package.
    Search { package: Package },
    /// Remove installed packages, chosen interactively.
    Remove { packages: Vec<Package> },
}

/// The mathematical content of a [`Commands`] value.
pub enum CommandsView {
    Install { packages: Seq<PackageView> },
    List,
    Upgrade,
    Search { package: PackageView },
    Remove { packages: Seq<PackageView> },
}

impl View for Commands {
    type V = CommandsView;

    open spec fn view(&self) -> CommandsView {
        match self {
            Commands::Install { packages } => CommandsView::Install {
                packages: packages.deep_view(),
            },
            Commands::List => CommandsView::List,
            Commands::Upgrade => CommandsView::Upgrade,
            Commands::Search { package } => CommandsView::Search { package: package@ },
            Commands::Remove { packages } => CommandsView::Remove {
                packages: packages.deep_view(),
            },
        }
    }
}

/// One run of the package manager: its arguments, and whether its error
/// stream is followed line by line while it runs.
#[derive(Debug)]
pub struct Invocation {
    pub args: Vec<String>,
    pub streaming: bool,
}

/// The mathematical content of an [`Invocation`].
pub struct InvocationView {
    pub args: Seq<Seq<char>>,
    pub streaming: bool,
}

impl View for Invocation {
    type V = InvocationView;

    open spec fn view(&self) -> InvocationView {
        InvocationView { args: self.args.deep_view(), streaming: self.streaming }
    }
}

/// The full names of the given references, in order.
pub open spec fn fullnames_of(packages: Seq<PackageView>) -> Seq<Seq<char>> {
    packages.map_values(|p: PackageView| p.fullname)
}

impl CommandsView {
    /// The invocation with which the command starts. Installing and
    /// upgrading stream; the others run to completion unobserved. Removing
    /// starts by listing the profile.
    pub open spec fn invocation(self) -> InvocationView {
        match self {
            CommandsView::Install { packages } => InvocationView {
                args: seq!["profile"@, "install"@] + fullnames_of(packages),
                streaming: true,
            },
            CommandsView::List => InvocationView {
                args: seq!["profile"@, "list"@],
                streaming: false,
            },
            CommandsView::Upgrade => InvocationView {
                args: seq!["profile"@, "upgrade"@, ".*"@],
                streaming: true,
            },
            CommandsView::Search { package } => InvocationView {
                args: seq!["search"@, package.fullname],
                streaming: false,
            },
            CommandsView::Remove { packages } => InvocationView {
                args: seq!["profile"@, "list"@],
                streaming: false,
            },
        }
    }
}

/// The invocation that removes the entries at `positions`.
pub open spec fn removal_of_positions(positions: Seq<Seq<char>>) -> InvocationView {
    InvocationView { args: seq!["profile"@, "remove"@] + positions, streaming: false }
}

/// The full names of `packages`, in order.
pub fn fullnames(packages: &Vec<Package>) -> (r: Vec<String>)
    ensures
        r.deep_view() == fullnames_of(packages.deep_view()),
{
    let mut r: Vec<String> = Vec::new();
    let mut i: usize = 0;
    while i < packages.len()
        invariant
            i <= packages.len(),
            r.deep_view() == fullnames_of(packages.deep_view().take(i as int)),
        decreases packages.len() - i,
    {
        let ghost before = r.deep_view();
        r.push(packages[i].fullname().to_owned());
        assert(r.deep_view() == before.push(packages[i as int]@.fullname));
        assert(packages.deep_view().take(i as int + 1) == packages.deep_view().take(
            i as int,
        ).push(packages[i as int]@));
        i += 1;
    }
    assert(packages.deep_view().take(packages.len() as int) == packages.deep_view());
    r
}

/// Appends a copy of every text of `more` to `args`.
fn extend(args: &mut Vec<String>, more: &Vec<String>)
    ensures
        final(args).deep_view() == old(args).deep_view() + more.deep_view(),
{
    let mut i: usize = 0;
    assert(old(args).deep_view() + more.deep_view().take(0) == old(args).deep_view());
    while i < more.len()
        invariant
            i <= more.len(),
            args.deep_view() == old(args).deep_view() + more.deep_view().take(i as int),
        decreases more.len() - i,
    {
        let ghost before = args.deep_view();
        args.push(more[i].clone());
        assert(args.deep_view() == before.push(more[i as int]@));
        assert(more.deep_view().take(i as int + 1) == more.deep_view().take(i as int).push(
            more[i as int]@,
        ));
        i += 1;
    }
    assert(more.deep_view().take(more.len() as int) == more.deep_view());
}

impl Commands {
    /// Builds the invocation with which the command starts.
    pub fn invocation(&self) -> (r: Invocation)
        ensures
            r@ == self@.invocation(),
    {
        let mut args: Vec<String> = Vec::new();
        match self {
            Commands::Install { packages } => {
                args.push("profile".to_owned());
                args.push("install".to_owned());
                assert(args.deep_view() == seq!["profile"@, "install"@]);
                let names = fullnames(packages);
                extend(&mut args, &names);
                Invocation { args, streaming: true }
            },
            Commands::List => {
                args.push("profile".to_owned());
                args.push("list".to_owned());
                assert(args.deep_view() == seq!["profile"@, "list"@]);
                Invocation { args, streaming: false }
            },
            Commands::Upgrade => {
                args.push("profile".to_owned());
                args.push("upgrade".to_owned());
                args.push(".*".to_owned());
                assert(args.deep_view() == seq!["profile"@, "upgrade"@, ".*"@]);
                Invocation { args, streaming: true }
            },
            Commands::Search { package } => {
                args.push("search".to_owned());
                args.push(package.fullname().to_owned());
                assert(args.deep_view() == seq!["search"@, package@.fullname]);
                Invocation { args, streaming: false }
            },
            Commands::Remove { packages } => {
                args.push("profile".to_owned());
                args.push("list".to_owned());
                assert(args.deep_view() == seq!["profile"@, "list"@]);
                Invocation { args, streaming: false }
            },
        }
    }
}

/// Builds the invocation that removes the entries at `positions`.
pub fn removal_invocation(positions: &Vec<String>) -> (r: Invocation)
    ensures
        r@ == removal_of_positions(positions.deep_view()),
{
    let mut args: Vec<String> = Vec::new();
    args.push("profile".to_owned());
    args.push("remove".to_owned());
    assert(args.deep_view() == seq!["profile"@, "remove"@]);
    extend(&mut args, positions);
    Invocation { args, streaming: false }
}

/// The message shown while packages are being installed: their full
/// names, separated by single spaces.
pub fn install_message(packages: &Vec<Package>) -> (r: String)
    ensures
        r@ == joined(fullnames_of(packages.deep_view()), seq![' ']),
{
    let names = fullnames(packages);
    proof {
        reveal_strlit(" ");
        assert(" "@ == seq![' ']);
    }
    join(&names, " ")
}

/// Renders a command line for display: the program, a space, and the
/// arguments separated by single spaces.
pub fn command_as_string(program: &str, args: &Vec<String>) -> (r: String)
    ensures
        r@ == program@ + seq![' '] + joined(args.deep_view(), seq![' ']),
{
    proof {
        reveal_strlit(" ");
        assert(" "@ == seq![' ']);
    }
    let mut r = program.to_owned();
    r.append(" ");
    let rest = join(args, " ");
    r.append(rest.as_str());
    r
}

/// The status message that a line of the error stream stands for: the
/// line without the whitespace at its ends, unless nothing is left of it.
pub open spec fn status_of(line: Seq<char>) -> Option<Seq<char>> {
    if trimmed(line).len() > 0 {
        Some(trimmed(line))
    } else {
        None
    }
}

/// Turns a line of the error stream into the next status message. A line
/// of whitespace alone leaves the message as it is.
pub fn status_message<'a>(line: &'a str) -> (r: Option<&'a str>)
    ensures
        r.deep_view() == status_of(line@),
{
    let stripped = trim(line);
    if stripped.unicode_len() > 0 {
        Some(stripped)
    } else {
        None
    }
}

/// What is shown once an invocation has completed.
#[derive(Debug)]
pub enum Report {
    /// The captured standard output, for the user-visible output.
    Output(String),
    /// The captured standard error, for the error stream.
    Failure(String),
}

/// The mathematical content of a [`Report`].
pub enum ReportView {
    Output(Seq<char>),
    Failure(Seq<char>),
}

impl View for Report {
    type V = ReportView;

    open spec fn view(&self) -> ReportView {
        match self {
            Report::Output(text) => ReportView::Output(text@),
            Report::Failure(text) => ReportView::Failure(text@),
        }
    }
}

/// Picks what to show of a completed invocation: its standard output if
/// it succeeded, its standard error if it failed.
pub fn report(succeeded: bool, stdout: String, stderr: String) -> (r: Report)
    ensures
        r@ == (if succeeded {
            ReportView::Output(stdout@)
        } else {
            ReportView::Failure(stderr@)
        }),
{
    if succeeded {
        Report::Output(stdout)
    } else {
        Report::Failure(stderr)
    }
}

} // verus!
