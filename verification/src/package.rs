//! Package references of the form `repository#name`.

use crate::text::{free_of, lemma_split_around, lemma_split_nonempty, lemma_split_whole};
use crate::text::{split, split_on, Separator};
use vstd::prelude::*;
use vstd::string::*;

verus! {

/// The mathematical content of a [`Package`].
pub struct PackageView {
    pub repo: Seq<char>,
    pub name: Seq<char>,
    pub fullname: Seq<char>,
}

impl PackageView {
    /// The full name is the repository, a `#`, and the name.
    pub open spec fn reconstructs(self) -> bool {
        self.fullname == self.repo + seq!['#'] + self.name
    }
}

/// The repository of a reference that names none.
pub open spec fn default_repo() -> Seq<char> {
    "nixpkgs"@
}

/// The reference that a raw argument denotes. The argument is split at
/// every `#`. A single piece is the name, in the default repository.
/// Otherwise the first piece is the repository and the second the name;
/// further pieces are ignored. The full name is always rebuilt from the two.
pub open spec fn parse(raw: Seq<char>) -> PackageView {
    let pieces = split(raw, Separator::Char('#'));
    let repo = if pieces.len() == 1 {
        default_repo()
    } else {
        pieces[0]
    };
    let name = if pieces.len() == 1 {
        pieces[0]
    } else {
        pieces[1]
    };
    PackageView { repo, name, fullname: repo + seq!['#'] + name }
}

/// Every parsed reference spells its full name as repository, `#`, name.
pub proof fn lemma_parse_reconstructs(raw: Seq<char>)
    ensures
        parse(raw).reconstructs(),
{
}

/// A bare name denotes the package of that name in the default repository.
pub proof fn lemma_parse_bare_name(name: Seq<char>)
    requires
        free_of(name, Separator::Char('#')),
    ensures
        parse(name) == (PackageView {
            repo: default_repo(),
            name,
            fullname: default_repo() + seq!['#'] + name,
        }),
{
    lemma_split_whole(name, Separator::Char('#'));
}

/// A repository and a name joined by `#` denote that name in that
/// repository, whatever other characters the two hold.
pub proof fn lemma_parse_qualified(repo: Seq<char>, name: Seq<char>)
    requires
        free_of(repo, Separator::Char('#')),
        free_of(name, Separator::Char('#')),
    ensures
        parse(repo + seq!['#'] + name) == (PackageView {
            repo,
            name,
            fullname: repo + seq!['#'] + name,
        }),
{
    let sep = Separator::Char('#');
    lemma_split_whole(repo, sep);
    lemma_split_whole(name, sep);
    lemma_split_around(repo, '#', name, sep);
}

/// Whatever follows a second `#` is ignored.
pub proof fn lemma_parse_ignores_rest(repo: Seq<char>, name: Seq<char>, rest: Seq<char>)
    requires
        free_of(repo, Separator::Char('#')),
        free_of(name, Separator::Char('#')),
    ensures
        parse(repo + seq!['#'] + name + seq!['#'] + rest) == parse(repo + seq!['#'] + name),
{
    let sep = Separator::Char('#');
    lemma_parse_qualified(repo, name);
    lemma_split_whole(repo, sep);
    lemma_split_whole(name, sep);
    lemma_split_nonempty(rest, sep);
    lemma_split_around(name, '#', rest, sep);
    lemma_split_around(repo, '#', name + seq!['#'] + rest, sep);
    assert(repo + seq!['#'] + (name + seq!['#'] + rest) == repo + seq!['#'] + name + seq!['#']
        + rest);
}

/// A package reference: a repository, a name in it, and the two joined by `#`.
#[derive(Debug, PartialEq)]
pub struct Package {
    repo: String,
    name: String,
    fullname: String,
}

impl View for Package {
    type V = PackageView;

    closed spec fn view(&self) -> PackageView {
        PackageView { repo: self.repo@, name: self.name@, fullname: self.fullname@ }
    }
}

impl DeepView for Package {
    type V = PackageView;

    open spec fn deep_view(&self) -> PackageView {
        self@
    }
}

impl Package {
    #[verifier::type_invariant]
    spec fn well_formed(self) -> bool {
        self.fullname@ == self.repo@ + seq!['#'] + self.name@
    }

    /// Builds the reference to `name` in `repo`.
    pub fn new(repo: String, name: String) -> (p: Package)
        ensures
            p@.repo == repo@,
            p@.name == name@,
            p@.reconstructs(),
    {
        let mut fullname = repo.clone();
        proof {
            reveal_strlit("#");
        }
        fullname.append("#");
        fullname.append(name.as_str());
        assert("#"@ == seq!['#']);
        Package { repo, name, fullname }
    }

    /// The repository that holds the package.
    pub fn repo(&self) -> (r: &str)
        ensures
            r@ == self@.repo,
    {
        self.repo.as_str()
    }

    /// The name of the package in its repository.
    pub fn name(&self) -> (r: &str)
        ensures
            r@ == self@.name,
    {
        self.name.as_str()
    }

    /// The repository, a `#`, and the name: the form in which the reference
    /// is shown and handed to the package manager.
    pub fn fullname(&self) -> (r: &str)
        ensures
            r@ == self@.fullname,
            r@ == self@.repo + seq!['#'] + self@.name,
    {
        proof {
            use_type_invariant(self);
        }
        self.fullname.as_str()
    }

    /// The text by which the reference is displayed: its full name.
    pub fn to_string(&self) -> (r: String)
        ensures
            r@ == self@.fullname,
    {
        self.fullname.clone()
    }
}

impl From<Package> for String {
    /// Spells the reference out as repository, `#`, name.
    fn from(p: Package) -> (r: String)
        ensures
            r@ == p@.repo + seq!['#'] + p@.name,
            r@ == p@.fullname,
    {
        proof {
            use_type_invariant(&p);
            reveal_strlit("#");
            assert("#"@ == seq!['#']);
        }
        let mut r = p.repo;
        r.append("#");
        r.append(p.name.as_str());
        r
    }
}

/// The conversion is specified over views, by the `ensures` of `from`
/// itself: no spec function singles out one `String` among equal texts.
impl vstd::std_specs::convert::FromSpecImpl<Package> for String {
    open spec fn obeys_from_spec() -> bool {
        false
    }

    open spec fn from_spec(p: Package) -> String {
        arbitrary()
    }
}

impl Clone for Package {
    fn clone(&self) -> (p: Package)
        ensures
            p@ == self@,
    {
        proof {
            use_type_invariant(self);
        }
        Package {
            repo: self.repo.clone(),
            name: self.name.clone(),
            fullname: self.fullname.clone(),
        }
    }
}

impl From<&str> for Package {
    /// Parses a raw argument. Every text denotes a reference: there is no
    /// error case, and an empty piece gives an empty repository or name.
    fn from(raw: &str) -> (p: Package)
        ensures
            p@ == parse(raw@),
            p@.reconstructs(),
    {
        let pieces = split_on(raw, Separator::Char('#'));
        if pieces.len() == 1 {
            Package::new(String::from_str("nixpkgs"), pieces[0].clone())
        } else {
            Package::new(pieces[0].clone(), pieces[1].clone())
        }
    }
}

/// The conversion is specified over views, by the `ensures` of `from`
/// itself: no spec function singles out one `Package` among equal ones.
impl vstd::std_specs::convert::FromSpecImpl<&str> for Package {
    open spec fn obeys_from_spec() -> bool {
        false
    }

    open spec fn from_spec(raw: &str) -> Package {
        arbitrary()
    }
}

} // verus!
