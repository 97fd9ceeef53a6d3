//! The interactive choice of which profile entries to remove.

use crate::listing::{candidates, find_requested, ListedPackage, ListedPackageView};
use crate::package::Package;
use crate::text::lemma_filter_push;
use crate::text::{chars_of, is_ascii_digit, is_digit, lowercase_of, trim, trimmed};
use vstd::prelude::*;
use vstd::string::*;

verus! {

/// Where the removal stands once the profile has been listed.
#[derive(Debug)]
pub enum Selection {
    /// No entry belongs to a requested package: nothing is shown or asked.
    NotFound,
    /// These entries are shown, and one line of input is awaited.
    AwaitingChoice(Vec<ListedPackage>),
}

/// The mathematical content of a [`Selection`].
pub enum SelectionView {
    NotFound,
    AwaitingChoice(Seq<ListedPackageView>),
}

impl View for Selection {
    type V = SelectionView;

    open spec fn view(&self) -> SelectionView {
        match self {
            Selection::NotFound => SelectionView::NotFound,
            Selection::AwaitingChoice(entries) => SelectionView::AwaitingChoice(
                entries.deep_view(),
            ),
        }
    }
}

/// The state after listing: the candidates are awaited on unless there are none.
pub open spec fn selection_of(raw: Seq<char>, names: Seq<Seq<char>>) -> SelectionView {
    let found = candidates(raw, names);
    if found.len() == 0 {
        SelectionView::NotFound
    } else {
        SelectionView::AwaitingChoice(found)
    }
}

/// What the user decided.
#[derive(Debug)]
pub enum Removal {
    /// Remove every entry shown: the positions of all of them, in order.
    RemoveAll(Vec<String>),
    /// Remove nothing.
    RemoveNone,
    /// Remove the positions picked out of a free-form answer.
    RemoveSubset(Vec<String>),
}

/// The mathematical content of a [`Removal`].
pub enum RemovalView {
    RemoveAll(Seq<Seq<char>>),
    RemoveNone,
    RemoveSubset(Seq<Seq<char>>),
}

impl View for Removal {
    type V = RemovalView;

    open spec fn view(&self) -> RemovalView {
        match self {
            Removal::RemoveAll(positions) => RemovalView::RemoveAll(positions.deep_view()),
            Removal::RemoveNone => RemovalView::RemoveNone,
            Removal::RemoveSubset(positions) => RemovalView::RemoveSubset(positions.deep_view()),
        }
    }
}

impl RemovalView {
    /// The arguments of the one removal call, or `None` where none is made.
    pub open spec fn arguments(self) -> Option<Seq<Seq<char>>> {
        match self {
            RemovalView::RemoveAll(positions) => Some(positions),
            RemovalView::RemoveNone => None,
            RemovalView::RemoveSubset(positions) => Some(positions),
        }
    }

    /// The exit code of the command: 1 after a free-form answer, whatever
    /// the removal itself reports, and 0 otherwise.
    pub open spec fn exit_code(self) -> int {
        match self {
            RemovalView::RemoveSubset(_) => 1,
            _ => 0,
        }
    }
}

/// The positions of the given entries, in order.
pub open spec fn positions_of(entries: Seq<ListedPackageView>) -> Seq<Seq<char>> {
    entries.map_values(|e: ListedPackageView| e.position)
}

/// The predicate that holds of the ASCII digits.
pub open spec fn digit() -> spec_fn(char) -> bool {
    |c: char| is_digit(c)
}

/// The text that holds one character alone.
pub open spec fn single() -> spec_fn(char) -> Seq<char> {
    |c: char| seq![c]
}

/// The digits of a text, each as a text of its own, in order.
pub open spec fn digits_of(answer: Seq<char>) -> Seq<Seq<char>> {
    answer.filter(digit()).map_values(single())
}

/// The decision that a lowercased line of input stands for. Trimmed, the
/// line `a` removes all entries and the line `n` removes none. Any other
/// line removes the positions given by its digits, one position per digit.
pub open spec fn removal_of(entries: Seq<ListedPackageView>, answer: Seq<char>) -> RemovalView {
    let choice = trimmed(answer);
    if choice == seq!['a'] {
        RemovalView::RemoveAll(positions_of(entries))
    } else if choice == seq!['n'] {
        RemovalView::RemoveNone
    } else {
        RemovalView::RemoveSubset(digits_of(answer))
    }
}

impl Selection {
    /// The exit code with which the command ends at once, if it does.
    pub fn finished(&self) -> (code: Option<i32>)
        ensures
            code == (match self@ {
                SelectionView::NotFound => Some(0i32),
                SelectionView::AwaitingChoice(_) => None,
            }),
    {
        match self {
            Selection::NotFound => Some(0),
            Selection::AwaitingChoice(_) => None,
        }
    }
}

impl Removal {
    /// The positions handed to the one removal call, or `None` where no
    /// call is made.
    pub fn arguments(&self) -> (r: Option<&Vec<String>>)
        ensures
            r.deep_view() == self@.arguments(),
    {
        match self {
            Removal::RemoveAll(positions) => Some(positions),
            Removal::RemoveNone => None,
            Removal::RemoveSubset(positions) => Some(positions),
        }
    }

    /// The exit code of the command after this decision.
    pub fn exit_code(&self) -> (code: i32)
        ensures
            code == self@.exit_code(),
    {
        match self {
            Removal::RemoveSubset(_) => 1,
            _ => 0,
        }
    }
}

/// Finds the entries of the listing that belong to the requested packages
/// and says whether there is anything to ask.
pub fn select(raw: &str, packages: &Vec<Package>) -> (s: Selection)
    ensures
        s@ == selection_of(raw@, crate::listing::names_of(packages.deep_view())),
{
    let found = find_requested(raw, packages);
    if found.len() == 0 {
        Selection::NotFound
    } else {
        Selection::AwaitingChoice(found)
    }
}

/// The positions of `entries`, in order.
pub fn positions(entries: &Vec<ListedPackage>) -> (r: Vec<String>)
    ensures
        r.deep_view() == positions_of(entries.deep_view()),
{
    let mut r: Vec<String> = Vec::new();
    let mut i: usize = 0;
    while i < entries.len()
        invariant
            i <= entries.len(),
            r.deep_view() == positions_of(entries.deep_view().take(i as int)),
        decreases entries.len() - i,
    {
        let ghost before = r.deep_view();
        r.push(entries[i].position().to_owned());
        assert(r.deep_view() == before.push(entries[i as int]@.position));
        assert(entries.deep_view().take(i as int + 1) == entries.deep_view().take(i as int).push(
            entries[i as int]@,
        ));
        i += 1;
    }
    assert(entries.deep_view().take(entries.len() as int) == entries.deep_view());
    r
}

/// The digits of `answer`, each as a text of its own.
pub fn digits(answer: &str) -> (r: Vec<String>)
    ensures
        r.deep_view() == digits_of(answer@),
{
    let chars = chars_of(answer);
    let mut r: Vec<String> = Vec::new();
    let mut i: usize = 0;
    assert(answer@.take(0).filter(digit()) == Seq::<char>::empty()) by {
        reveal(Seq::filter);
    }
    assert(r.deep_view() == Seq::<char>::empty().map_values(single()));
    while i < chars.len()
        invariant
            chars@ == answer@,
            i <= chars.len(),
            r.deep_view() == answer@.take(i as int).filter(digit()).map_values(single()),
        decreases chars.len() - i,
    {
        let ghost seen = answer@.take(i as int);
        let ghost c = answer@[i as int];
        let ghost before = r.deep_view();
        proof {
            assert(answer@.take(i as int + 1) == seen.push(c));
            lemma_filter_push(seen, c, digit());
        }
        if is_ascii_digit(chars[i]) {
            r.push(answer.substring_char(i, i + 1).to_owned());
            assert(answer@.subrange(i as int, i + 1) == seq![c]);
            assert(r.deep_view() == before.push(seq![c]));
            assert(seen.filter(digit()).push(c).map_values(single()) == seen.filter(
                digit(),
            ).map_values(single()).push(seq![c]));
        }
        i += 1;
    }
    assert(answer@.take(chars.len() as int) == answer@);
    r
}

/// Whether `s` is the one character `c`.
fn is_char(s: &str, c: char) -> (b: bool)
    ensures
        b == (s@ == seq![c]),
{
    if s.unicode_len() == 1 {
        let same = s.get_char(0) == c;
        assert(same ==> s@ == seq![c]);
        same
    } else {
        false
    }
}

/// Decides on a line of input that has already been lowercased.
pub fn decide(entries: &Vec<ListedPackage>, answer: &str) -> (r: Removal)
    ensures
        r@ == removal_of(entries.deep_view(), answer@),
{
    let choice = trim(answer);
    if is_char(choice, 'a') {
        Removal::RemoveAll(positions(entries))
    } else if is_char(choice, 'n') {
        Removal::RemoveNone
    } else {
        Removal::RemoveSubset(digits(answer))
    }
}

/// Decides on a line of input as the user typed it: the line is lowercased
/// first, so that `A` and `N` are understood as well.
pub fn choose_removal(entries: &Vec<ListedPackage>, line: &str) -> (r: Removal)
    ensures
        r@ == removal_of(entries.deep_view(), lowercase_of(line@)),
{
    let lowered = line.to_lowercase();
    decide(entries, lowered.as_str())
}

} // verus!
