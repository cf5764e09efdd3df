//! Finding a program on a search path.
//!
//! A search path is a list of directories written with `:` between them. A
//! program is looked for in each directory in turn, and the first directory
//! that holds an entry of the program's name decides. Listing a directory is
//! the caller's part: [`PathSearch`] names the directory to list next and is
//! told what the listing gave.

use vstd::prelude::*;
use crate::text::{same_text, texts, texts_push};

verus! {

/// The number of characters at the front of `s` before its first `sep`.
pub open spec fn head_len(s: Seq<char>, sep: char) -> nat
    decreases s.len(),
{
    if s.len() == 0 || s[0] == sep {
        0
    } else {
        1 + head_len(s.skip(1), sep)
    }
}

/// The pieces of `s` between its occurrences of `sep`, in order. There is one
/// piece more than there are occurrences, and a piece may be empty.
pub open spec fn pieces(s: Seq<char>, sep: char) -> Seq<Seq<char>>
    decreases s.len(),
{
    if head_len(s, sep) >= s.len() {
        seq![s]
    } else {
        seq![s.take(head_len(s, sep) as int)] + pieces(s.skip(head_len(s, sep) as int + 1), sep)
    }
}

/// Where `head` holds no `sep`, the first `sep` of `head`, `sep`, `rest`
/// written one after the other is the one in the middle.
proof fn head_len_before_sep(head: Seq<char>, sep: char, rest: Seq<char>)
    requires
        !head.contains(sep),
    ensures
        head_len(head.push(sep) + rest, sep) == head.len(),
        head_len(head, sep) == head.len(),
    decreases head.len(),
{
    let whole = head.push(sep) + rest;
    if head.len() == 0 {
        assert(whole[0] == sep);
    } else {
        let tail = head.skip(1);
        assert(head[0] != sep) by {
            assert(head.contains(head[0]));
        }
        assert(!tail.contains(sep)) by {
            if tail.contains(sep) {
                let i = choose|i: int| 0 <= i < tail.len() && tail[i] == sep;
                assert(head[i + 1] == sep);
            }
        }
        head_len_before_sep(tail, sep, rest);
        assert(whole.skip(1) =~= tail.push(sep) + rest);
        assert(whole[0] == head[0]);
    }
}

/// Splits `s` at each `sep`.
pub fn split_at_char(s: &str, sep: char) -> (parts: Vec<String>)
    ensures
        texts(parts@) == pieces(s@, sep),
{
    let mut parts: Vec<String> = Vec::new();
    let mut piece = String::new();
    assert(texts(parts@) + pieces(piece@ + s@.skip(0), sep) =~= pieces(s@, sep)) by {
        assert(piece@ + s@.skip(0) =~= s@);
    }
    for c in it: s.chars()
        invariant
            it.seq() == s@,
            !piece@.contains(sep),
            texts(parts@) + pieces(piece@ + s@.skip(it.index()), sep) == pieces(s@, sep),
    {
        let ghost i = it.index();
        let ghost rest = s@.skip(i + 1);
        let ghost before = piece@ + s@.skip(i);
        if c == sep {
            proof {
                head_len_before_sep(piece@, sep, rest);
                assert(before =~= piece@.push(sep) + rest);
                assert(before.take(piece@.len() as int) =~= piece@);
                assert(before.skip(piece@.len() as int + 1) =~= Seq::<char>::empty() + rest);
                texts_push(parts@, piece);
                assert(texts(parts@).push(piece@) + pieces(Seq::<char>::empty() + rest, sep)
                    =~= texts(parts@) + pieces(before, sep));
            }
            parts.push(piece);
            piece = String::new();
        } else {
            proof {
                assert(piece@.push(c) + rest =~= before);
                assert(!piece@.push(c).contains(sep)) by {
                    if piece@.push(c).contains(sep) {
                        let k = choose|k: int|
                            0 <= k < piece@.push(c).len() && piece@.push(c)[k] == sep;
                        assert(piece@[k] == sep);
                        assert(piece@.contains(sep));
                    }
                }
            }
            piece.push(c);
        }
    }
    proof {
        head_len_before_sep(piece@, sep, Seq::empty());
        assert(piece@ + s@.skip(s@.len() as int) =~= piece@);
        texts_push(parts@, piece);
        assert(texts(parts@).push(piece@) =~= texts(parts@) + seq![piece@]);
    }
    parts.push(piece);
    parts
}

/// The directories of a search path, in order.
pub open spec fn directories(path_var: Seq<char>) -> Seq<Seq<char>> {
    pieces(path_var, ':')
}

/// Whether one of `entries` is `name`, character for character.
pub fn has_entry(entries: &Vec<String>, name: &str) -> (found: bool)
    ensures
        found == texts(entries@).contains(name@),
{
    let mut i: usize = 0;
    while i < entries.len()
        invariant
            i <= entries.len(),
            forall|k: int| 0 <= k < i ==> texts(entries@)[k] != name@,
        decreases entries.len() - i,
    {
        if same_text(entries[i].as_str(), name) {
            assert(texts(entries@)[i as int] == name@);
            return true;
        }
        i += 1;
    }
    false
}

/// What looking into one directory gave.
#[derive(Clone, Debug, PartialEq, Eq)]
pub enum Probe {
    /// The directory holds the program: this is its path.
    Found(String),
    /// The directory was listed and does not hold the program.
    Absent,
    /// The directory could not be listed: this line says so, for the error
    /// output.
    Unreadable(String),
}

/// A [`Probe`] as a mathematical value.
pub enum ProbeView {
    Found(Seq<char>),
    Absent,
    Unreadable(Seq<char>),
}

impl View for Probe {
    type V = ProbeView;

    open spec fn view(&self) -> ProbeView {
        match self {
            Probe::Found(path) => ProbeView::Found(path@),
            Probe::Absent => ProbeView::Absent,
            Probe::Unreadable(line) => ProbeView::Unreadable(line@),
        }
    }
}

/// The names in a listing, where there is one.
pub open spec fn names_of(listing: Option<&Vec<String>>) -> Option<Seq<Seq<char>>> {
    match listing {
        Some(entries) => Some(texts(entries@)),
        None => None,
    }
}

/// What looking for `name` in the directory `dir` gives, where `listing`
/// holds the names of the directory's entries, or is `None` where the
/// directory could not be listed.
pub open spec fn probe_of(dir: Seq<char>, name: Seq<char>, listing: Option<Seq<Seq<char>>>)
    -> ProbeView {
    match listing {
        Some(entries) => {
            if entries.contains(name) {
                ProbeView::Found(dir + seq!['/'] + name)
            } else {
                ProbeView::Absent
            }
        },
        None => ProbeView::Unreadable("Couldn't read directory: "@ + dir),
    }
}

/// Looks for `name` in one directory, given the directory's listing.
pub fn probe(dir: &str, name: &str, listing: Option<&Vec<String>>) -> (found: Probe)
    ensures
        found@ == probe_of(dir@, name@, names_of(listing)),
{
    match listing {
        Some(entries) => {
            if has_entry(entries, name) {
                let mut path = String::from_str(dir);
                path.push('/');
                path.append(name);
                assert(dir@.push('/') =~= dir@ + seq!['/']);
                Probe::Found(path)
            } else {
                Probe::Absent
            }
        },
        None => {
            let mut line = String::from_str("Couldn't read directory: ");
            line.append(dir);
            Probe::Unreadable(line)
        },
    }
}

/// A search for a program on a search path, one directory at a time.
pub struct PathSearch {
    name: String,
    dirs: Vec<String>,
    tried: usize,
    found: Option<String>,
}

/// What a search asks of its caller next.
#[derive(Clone, Debug, PartialEq, Eq)]
pub enum Step {
    /// List this directory and hand the listing to [`PathSearch::observe`].
    List(String),
    /// The search is over: the program is at this path.
    Found(String),
    /// The search is over: no directory holds the program.
    NotFound,
}

/// A [`Step`] as a mathematical value.
pub enum StepView {
    List(Seq<char>),
    Found(Seq<char>),
    NotFound,
}

impl View for Step {
    type V = StepView;

    open spec fn view(&self) -> StepView {
        match self {
            Step::List(dir) => StepView::List(dir@),
            Step::Found(path) => StepView::Found(path@),
            Step::NotFound => StepView::NotFound,
        }
    }
}

/// A [`PathSearch`] as a mathematical value.
pub struct SearchView {
    /// The name of the program looked for.
    pub name: Seq<char>,
    /// The directories of the search path, in order.
    pub dirs: Seq<Seq<char>>,
    /// How many of the directories have been looked into.
    pub tried: nat,
    /// The path of the program, once a directory was seen to hold it.
    pub found: Option<Seq<char>>,
}

impl SearchView {
    /// The search for `name` on the search path `path_var`, before any
    /// directory has been looked into.
    pub open spec fn begin(name: Seq<char>, path_var: Seq<char>) -> SearchView {
        SearchView { name, dirs: directories(path_var), tried: 0, found: None }
    }

    /// What the search asks for next: nothing more once the program is
    /// found, else the first directory not yet tried, else nothing more.
    pub open spec fn step(self) -> StepView {
        match self.found {
            Some(path) => StepView::Found(path),
            None => {
                if self.tried < self.dirs.len() {
                    StepView::List(self.dirs[self.tried as int])
                } else {
                    StepView::NotFound
                }
            },
        }
    }

    /// The search after the directory it asked for was listed.
    pub open spec fn observed(self, listing: Option<Seq<Seq<char>>>) -> SearchView {
        match probe_of(self.dirs[self.tried as int], self.name, listing) {
            ProbeView::Found(path) => SearchView {
                tried: self.tried + 1,
                found: Some(path),
                ..self
            },
            _ => SearchView { tried: self.tried + 1, ..self },
        }
    }

    /// What is to be said on the error output after the directory asked for
    /// was listed: a complaint where it could not be, else nothing.
    pub open spec fn complaint(self, listing: Option<Seq<Seq<char>>>) -> Option<Seq<char>> {
        match probe_of(self.dirs[self.tried as int], self.name, listing) {
            ProbeView::Unreadable(line) => Some(line),
            _ => None,
        }
    }

    /// Whether the directory at index `i` holds the program, by `listings`,
    /// which gives for each directory what listing it gives.
    pub open spec fn holds_at(self, listings: Seq<Option<Seq<Seq<char>>>>, i: int) -> bool {
        listings[i] is Some && listings[i].unwrap().contains(self.name)
    }

    /// Where the search ends when, from here on, the directories are listed
    /// as `listings` says, each directory asked for in its turn.
    pub open spec fn result(self, listings: Seq<Option<Seq<Seq<char>>>>) -> Option<Seq<char>>
        decreases self.dirs.len() - self.tried,
    {
        match self.step() {
            StepView::List(_) => self.observed(listings[self.tried as int]).result(listings),
            StepView::Found(path) => Some(path),
            StepView::NotFound => None,
        }
    }
}

impl View for PathSearch {
    type V = SearchView;

    closed spec fn view(&self) -> SearchView {
        SearchView {
            name: self.name@,
            dirs: texts(self.dirs@),
            tried: self.tried as nat,
            found: match self.found {
                Some(path) => Some(path@),
                None => None,
            },
        }
    }
}

impl PathSearch {
    /// A search for the program `name` in the directories of `path_var`, of
    /// which none has been tried yet.
    pub fn new(name: &str, path_var: &str) -> (search: PathSearch)
        ensures
            search@ == SearchView::begin(name@, path_var@),
    {
        PathSearch {
            name: String::from_str(name),
            dirs: split_at_char(path_var, ':'),
            tried: 0,
            found: None,
        }
    }

    /// What the search asks for next.
    pub fn step(&self) -> (step: Step)
        ensures
            step@ == self@.step(),
    {
        match &self.found {
            Some(path) => Step::Found(path.clone()),
            None => {
                if self.tried < self.dirs.len() {
                    Step::List(self.dirs[self.tried].clone())
                } else {
                    Step::NotFound
                }
            },
        }
    }

    /// Takes in what listing the directory asked for gave: the names of its
    /// entries, or `None` where it could not be listed. Returns the
    /// complaint to make where it could not be listed.
    pub fn observe(&mut self, listing: Option<&Vec<String>>) -> (complaint: Option<String>)
        requires
            old(self)@.step() is List,
        ensures
            final(self)@ == old(self)@.observed(names_of(listing)),
            match complaint {
                Some(line) => old(self)@.complaint(names_of(listing)) == Some(line@),
                None => old(self)@.complaint(names_of(listing)).is_none(),
            },
    {
        assert(self.tried < self.dirs.len());
        let found = probe(self.dirs[self.tried].as_str(), self.name.as_str(), listing);
        self.tried = self.tried + 1;
        match found {
            Probe::Found(path) => {
                self.found = Some(path);
                None
            },
            Probe::Absent => None,
            Probe::Unreadable(line) => Some(line),
        }
    }
}

/// A search ends at the first directory that holds the program, whatever
/// comes behind it, and passes over directories that could not be listed.
pub proof fn search_ends_at_first_hit(
    name: Seq<char>,
    path_var: Seq<char>,
    listings: Seq<Option<Seq<Seq<char>>>>,
    i: int,
)
    requires
        0 <= i < directories(path_var).len(),
        SearchView::begin(name, path_var).holds_at(listings, i),
        forall|j: int| 0 <= j < i ==> !SearchView::begin(name, path_var).holds_at(listings, j),
    ensures
        SearchView::begin(name, path_var).result(listings) == Some(
            directories(path_var)[i] + seq!['/'] + name,
        ),
{
    let s = SearchView::begin(name, path_var);
    result_from(s, listings, i);
}

/// A search in which no directory holds the program ends without a path.
pub proof fn search_without_hit_finds_nothing(
    name: Seq<char>,
    path_var: Seq<char>,
    listings: Seq<Option<Seq<Seq<char>>>>,
)
    requires
        forall|j: int|
            0 <= j < directories(path_var).len() ==> !SearchView::begin(name, path_var).holds_at(
                listings,
                j,
            ),
    ensures
        SearchView::begin(name, path_var).result(listings).is_none(),
{
    let s = SearchView::begin(name, path_var);
    result_from(s, listings, s.dirs.len() as int);
}

/// From a state in which nothing is found yet, the search ends at the first
/// directory from `s.tried` on that holds the program, here the one at index
/// `i`, or without a path where `i` is the number of directories.
proof fn result_from(s: SearchView, listings: Seq<Option<Seq<Seq<char>>>>, i: int)
    requires
        s.found is None,
        s.tried <= i <= s.dirs.len(),
        i < s.dirs.len() ==> s.holds_at(listings, i),
        forall|j: int| s.tried <= j < i ==> !s.holds_at(listings, j),
    ensures
        s.result(listings) == if i < s.dirs.len() {
            Some(s.dirs[i] + seq!['/'] + s.name)
        } else {
            None
        },
    decreases s.dirs.len() - s.tried,
{
    if s.tried < s.dirs.len() {
        let next = s.observed(listings[s.tried as int]);
        if s.tried == i {
            assert(s.holds_at(listings, i));
            assert(next.found == Some(s.dirs[i] + seq!['/'] + s.name));
            assert(next.result(listings) == next.found);
        } else {
            assert(!s.holds_at(listings, s.tried as int));
            assert(next.found is None);
            assert forall|j: int| next.tried <= j < i implies !next.holds_at(listings, j) by {
                assert(!s.holds_at(listings, j));
            }
            if i < s.dirs.len() {
                assert(s.holds_at(listings, i));
                assert(next.holds_at(listings, i));
            }
            result_from(next, listings, i);
        }
    }
}

} // verus!
