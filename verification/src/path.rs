//! File names and paths as text: the extension of a name, a name joined to a
//! directory, a planned move and the decision whether it may be carried out.
//! Paths are written with `/` between their components.

use vstd::prelude::*;
use crate::text::{
    chars_of, find_last, last_index_of, lemma_last_index_of, push_range, push_str, string_of,
};

verus! {

/// The extension of a file name: what follows its last `.`; none where the
/// name has no `.`, where its only `.` is its first character, and for `..`.
pub open spec fn extension(name: Seq<char>) -> Option<Seq<char>> {
    let dot = last_index_of(name, '.');
    if dot <= 0 || name == seq!['.', '.'] {
        None
    } else {
        Some(name.skip(dot + 1))
    }
}

/// The extension of `name`, or `fallback` where it has none.
pub open spec fn extension_or(name: Seq<char>, fallback: Seq<char>) -> Seq<char> {
    match extension(name) {
        Some(ext) => ext,
        None => fallback,
    }
}

/// Finds the index at which the extension of `name` starts.
pub fn extension_of(name: &Vec<char>) -> (r: Option<usize>)
    ensures
        match r {
            Some(start) => start <= name.len() && extension(name@) == Some(
                name@.skip(start as int),
            ),
            None => extension(name@) is None,
        },
{
    proof {
        lemma_last_index_of(name@, '.');
    }
    if name.len() == 2 && name[0] == '.' && name[1] == '.' {
        assert(name@ =~= seq!['.', '.']);
        return None;
    }
    match find_last(name, '.') {
        Some(dot) => {
            if dot == 0 {
                None
            } else {
                assert(name@ != seq!['.', '.']) by {
                    if name@ == seq!['.', '.'] {
                        assert(name@.len() == 2);
                        assert(name@[0] == '.');
                        assert(name@[1] == '.');
                    }
                }
                Some(dot + 1)
            }
        },
        None => None,
    }
}

/// Appends the extension of `name` to `out`, or `fallback` where it has none.
pub fn push_extension_or(out: &mut Vec<char>, name: &Vec<char>, fallback: &str)
    ensures
        final(out)@ == old(out)@ + extension_or(name@, fallback@),
{
    match extension_of(name) {
        Some(start) => {
            push_range(out, name, start, name.len());
            assert(name@.subrange(start as int, name.len() as int) =~= name@.skip(start as int));
        },
        None => {
            push_str(out, fallback);
        },
    }
}

/// `name` inside the directory `dir`. An empty `dir` is the current
/// directory, and the path is then the name alone.
pub open spec fn joined(dir: Seq<char>, name: Seq<char>) -> Seq<char> {
    if dir.len() == 0 {
        name
    } else if dir.last() == '/' {
        dir + name
    } else {
        dir + seq!['/'] + name
    }
}

/// The characters of the path of `name` inside `dir`.
pub fn join_chars(dir: &Vec<char>, name: &Vec<char>) -> (path: Vec<char>)
    ensures
        path@ == joined(dir@, name@),
{
    let mut out: Vec<char> = Vec::new();
    push_range(&mut out, dir, 0, dir.len());
    assert(out@ =~= dir@);
    if dir.len() > 0 && dir[dir.len() - 1] != '/' {
        out.push('/');
    }
    push_range(&mut out, name, 0, name.len());
    assert(out@ =~= joined(dir@, name@));
    out
}

/// The path of `name` inside `dir`.
pub fn join(dir: &str, name: &str) -> (path: String)
    ensures
        path@ == joined(dir@, name@),
{
    let d = chars_of(dir);
    let n = chars_of(name);
    let p = join_chars(&d, &n);
    string_of(&p)
}

/// The directory part of a path: what stands before its last `/`, empty
/// where it has none.
pub open spec fn directory(path: Seq<char>) -> Seq<char> {
    let slash = last_index_of(path, '/');
    if slash < 0 {
        Seq::empty()
    } else {
        path.take(slash)
    }
}

/// Cuts the directory part off a path.
pub fn directory_of(path: &str) -> (dir: String)
    ensures
        dir@ == directory(path@),
{
    let p = chars_of(path);
    let mut out: Vec<char> = Vec::new();
    match find_last(&p, '/') {
        Some(slash) => {
            push_range(&mut out, &p, 0, slash);
            assert(out@ =~= p@.take(slash as int));
        },
        None => {},
    }
    string_of(&out)
}

/// A move that has been decided on and not yet carried out.
#[derive(Clone, Debug, PartialEq, Eq)]
pub struct RenamePlan {
    pub source: String,
    pub destination: String,
}

impl RenamePlan {
    /// The two paths as text.
    pub open spec fn paths(&self) -> (Seq<char>, Seq<char>) {
        (self.source@, self.destination@)
    }

    /// Whether the plan leaves the file where it is.
    pub fn is_noop(&self) -> (b: bool)
        ensures
            b == (self.source@ == self.destination@),
    {
        self.source == self.destination
    }
}

/// Why a planned move is not carried out.
#[derive(Clone, Copy, Debug, PartialEq, Eq)]
pub enum MoveError {
    /// Something already stands at the destination; neither file is touched.
    DestinationExists,
}

/// What is to be done on disk for a plan.
#[derive(Clone, Debug, PartialEq, Eq)]
pub enum MoveStep {
    /// Source and destination are the same path.
    Nothing,
    /// Create `directory` with its parents where it is missing (it is empty
    /// for the current directory), then move the file.
    Move { directory: String },
}

/// What `move_file` answers.
pub open spec fn move_step(plan: (Seq<char>, Seq<char>), destination_exists: bool) -> Result<
    Option<Seq<char>>,
    MoveError,
> {
    if plan.0 == plan.1 {
        Ok(None)
    } else if destination_exists {
        Err(MoveError::DestinationExists)
    } else {
        Ok(Some(directory(plan.1)))
    }
}

/// Decides what carrying out `plan` takes, given whether anything stands at
/// its destination now. A plan whose two paths are equal asks for nothing;
/// an occupied destination is never overwritten.
pub fn move_file(plan: &RenamePlan, destination_exists: bool) -> (r: Result<MoveStep, MoveError>)
    ensures
        match r {
            Ok(MoveStep::Nothing) => move_step(plan.paths(), destination_exists) == Ok::<
                Option<Seq<char>>,
                MoveError,
            >(None),
            Ok(MoveStep::Move { directory }) => move_step(plan.paths(), destination_exists)
                == Ok::<Option<Seq<char>>, MoveError>(Some(directory@)),
            Err(e) => move_step(plan.paths(), destination_exists) == Err::<
                Option<Seq<char>>,
                MoveError,
            >(e),
        },
{
    if plan.is_noop() {
        Ok(MoveStep::Nothing)
    } else if destination_exists {
        Err(MoveError::DestinationExists)
    } else {
        Ok(MoveStep::Move { directory: directory_of(plan.destination.as_str()) })
    }
}

} // verus!
