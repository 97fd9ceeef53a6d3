//! The installed-profile listing: one entry per well-formed line.

use crate::package::{Package, PackageView};
use crate::text::{contains, split_on, split_whitespace, trim, Separator};
use crate::text::{lemma_filter_push, occurs_in, split, tokens, trimmed};
use vstd::prelude::*;
use vstd::string::*;

verus! {

/// The mathematical content of a [`ListedPackage`].
pub struct ListedPackageView {
    pub position: Seq<char>,
    pub store_path: Seq<char>,
}

/// One entry of the installed profile: the position by which it is removed,
/// and the store path by which it is recognised.
#[derive(Debug, PartialEq)]
pub struct ListedPackage {
    position: String,
    store_path: String,
}

impl View for ListedPackage {
    type V = ListedPackageView;

    closed spec fn view(&self) -> ListedPackageView {
        ListedPackageView { position: self.position@, store_path: self.store_path@ }
    }
}

impl DeepView for ListedPackage {
    type V = ListedPackageView;

    open spec fn deep_view(&self) -> ListedPackageView {
        self@
    }
}

impl Clone for ListedPackage {
    fn clone(&self) -> (e: ListedPackage)
        ensures
            e@ == self@,
    {
        ListedPackage { position: self.position.clone(), store_path: self.store_path.clone() }
    }
}

impl ListedPackage {
    /// Builds the entry at `position` with the given store path.
    pub fn new(position: String, store_path: String) -> (e: ListedPackage)
        ensures
            e@.position == position@,
            e@.store_path == store_path@,
    {
        ListedPackage { position, store_path }
    }

    /// The position of the entry in the profile.
    pub fn position(&self) -> (r: &str)
        ensures
            r@ == self@.position,
    {
        self.position.as_str()
    }

    /// The store path of the installed package.
    pub fn store_path(&self) -> (r: &str)
        ensures
            r@ == self@.store_path,
    {
        self.store_path.as_str()
    }

    /// Whether the store path holds the name of one of `packages` as a
    /// substring. The match is by characters alone: a requested `bash` also
    /// selects the store path of `bash-completion`.
    pub fn is_requested(&self, packages: &Vec<Package>) -> (b: bool)
        ensures
            b == belongs_to(self@, names_of(packages.deep_view())),
    {
        let mut j: usize = 0;
        while j < packages.len()
            invariant
                j <= packages.len(),
                forall|k: int|
                    0 <= k < j ==> !occurs_in(
                        #[trigger] packages.deep_view()[k].name,
                        self@.store_path,
                    ),
            decreases packages.len() - j,
        {
            if contains(self.store_path.as_str(), packages[j].name()) {
                assert(occurs_in(names_of(packages.deep_view())[j as int], self@.store_path));
                return true;
            }
            j += 1;
        }
        false
    }
}

/// The entry that one line of the listing denotes. A line denotes an entry
/// exactly when it has four words: the first, trimmed, is the position and
/// the fourth the store path. Every other line denotes none.
pub open spec fn entry_of(line: Seq<char>) -> Option<ListedPackageView> {
    let words = tokens(line);
    if words.len() == 4 {
        Some(ListedPackageView { position: trimmed(words[0]), store_path: words[3] })
    } else {
        None
    }
}

/// The entry of a line that denotes one.
pub open spec fn to_entry() -> spec_fn(Seq<char>) -> ListedPackageView {
    |line: Seq<char>| entry_of(line).unwrap()
}

/// The predicate that holds of the lines that denote an entry.
pub open spec fn is_entry() -> spec_fn(Seq<char>) -> bool {
    |line: Seq<char>| entry_of(line) is Some
}

/// The entries of a listing: those that its lines denote, in the order of
/// the lines.
pub open spec fn entries_of(raw: Seq<char>) -> Seq<ListedPackageView> {
    split(raw, Separator::Char('\n')).filter(is_entry()).map_values(to_entry())
}

/// The names of the given references.
pub open spec fn names_of(packages: Seq<PackageView>) -> Seq<Seq<char>> {
    packages.map_values(|p: PackageView| p.name)
}

/// Whether the store path of `entry` holds one of `names` as a substring.
pub open spec fn belongs_to(entry: ListedPackageView, names: Seq<Seq<char>>) -> bool {
    exists|j: int| 0 <= j < names.len() && occurs_in(#[trigger] names[j], entry.store_path)
}

/// The predicate that holds of the entries that belong to one of `names`.
pub open spec fn requested(names: Seq<Seq<char>>) -> spec_fn(ListedPackageView) -> bool {
    |entry: ListedPackageView| belongs_to(entry, names)
}

/// Reads one line of the listing.
pub fn parse_line(line: &str) -> (r: Option<ListedPackage>)
    ensures
        r.deep_view() == entry_of(line@),
{
    let words = split_whitespace(line);
    if words.len() == 4 {
        Some(ListedPackage::new(trim(words[0].as_str()).to_owned(), words[3].clone()))
    } else {
        None
    }
}

/// Reads the whole listing. Lines that denote no entry are skipped.
pub fn parse_listing(raw: &str) -> (entries: Vec<ListedPackage>)
    ensures
        entries.deep_view() == entries_of(raw@),
{
    let lines = split_on(raw, Separator::Char('\n'));
    let mut entries: Vec<ListedPackage> = Vec::new();
    let mut i: usize = 0;
    assert(lines.deep_view().take(0).filter(is_entry()) == Seq::<Seq<char>>::empty()) by {
        reveal(Seq::filter);
    }
    assert(entries.deep_view() == Seq::<Seq<char>>::empty().map_values(to_entry()));
    while i < lines.len()
        invariant
            i <= lines.len(),
            entries.deep_view() == lines.deep_view().take(i as int).filter(is_entry()).map_values(
                to_entry(),
            ),
        decreases lines.len() - i,
    {
        let ghost seen = lines.deep_view().take(i as int);
        let ghost line = lines[i as int]@;
        let ghost before = entries.deep_view();
        proof {
            assert(lines.deep_view().take(i as int + 1) == seen.push(line));
            lemma_filter_push(seen, line, is_entry());
        }
        match parse_line(lines[i].as_str()) {
            Some(entry) => {
                entries.push(entry);
                assert(entries.deep_view() == before.push(entry_of(line).unwrap()));
                assert(seen.filter(is_entry()).push(line).map_values(to_entry()) == seen.filter(
                    is_entry(),
                ).map_values(to_entry()).push(to_entry()(line)));
            },
            None => {},
        }
        i += 1;
    }
    assert(lines.deep_view().take(lines.len() as int) == lines.deep_view());
    entries
}

/// Keeps the entries that belong to one of `packages`, in their order.
pub fn filter_requested(entries: &Vec<ListedPackage>, packages: &Vec<Package>) -> (found: Vec<
    ListedPackage,
>)
    ensures
        found.deep_view() == entries.deep_view().filter(requested(names_of(packages.deep_view()))),
{
    let mut found: Vec<ListedPackage> = Vec::new();
    let mut i: usize = 0;
    let ghost wanted = requested(names_of(packages.deep_view()));
    assert(entries.deep_view().take(0).filter(wanted) == Seq::<ListedPackageView>::empty()) by {
        reveal(Seq::filter);
    }
    assert(found.deep_view() == Seq::<ListedPackageView>::empty());
    while i < entries.len()
        invariant
            i <= entries.len(),
            wanted == requested(names_of(packages.deep_view())),
            found.deep_view() == entries.deep_view().take(i as int).filter(wanted),
        decreases entries.len() - i,
    {
        let ghost seen = entries.deep_view().take(i as int);
        let ghost before = found.deep_view();
        proof {
            assert(entries.deep_view().take(i as int + 1) == seen.push(entries[i as int]@));
            lemma_filter_push(seen, entries[i as int]@, wanted);
        }
        if entries[i].is_requested(packages) {
            found.push(entries[i].clone());
            assert(found.deep_view() == before.push(entries[i as int]@));
        }
        i += 1;
    }
    assert(entries.deep_view().take(entries.len() as int) == entries.deep_view());
    found
}

/// The entries of a listing that belong to one of `names`.
pub open spec fn candidates(raw: Seq<char>, names: Seq<Seq<char>>) -> Seq<ListedPackageView> {
    entries_of(raw).filter(requested(names))
}

/// Reads the listing and keeps the entries that belong to one of `packages`.
pub fn find_requested(raw: &str, packages: &Vec<Package>) -> (found: Vec<ListedPackage>)
    ensures
        found.deep_view() == candidates(raw@, names_of(packages.deep_view())),
{
    let entries = parse_listing(raw);
    filter_requested(&entries, packages)
}

} // verus!
