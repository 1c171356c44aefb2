//! Creating a directory with all that is missing above it.

use crate::error::{Error, ErrorKind};
use vstd::prelude::*;

verus! {

/// `libc::ENOENT` on Linux.
pub const ENOENT: i32 = 2;

/// `libc::EEXIST` on Linux.
pub const EEXIST: i32 = 17;

/// `libc::ENOTDIR` on Linux.
pub const ENOTDIR: i32 = 20;

/// What came of creating a directory.
#[derive(Debug, Clone, Copy, PartialEq, Eq)]
pub enum Created {
    /// It was created.
    New,
    /// Something of that name exists.
    Exists(Error),
    /// The directory it would be in does not exist.
    NoParent(Error),
    /// It failed otherwise.
    Failed(Error),
}

/// What creating a directory with all above it calls for next. A directory is named by how many
/// levels it is above the one asked for.
#[derive(Debug, Clone, Copy, PartialEq, Eq)]
pub enum DirStep {
    /// Create this directory.
    Create(usize),
    /// Find out whether what exists there is a directory.
    Check(usize),
    /// All is there.
    Done,
    /// Give up.
    Fail(Error),
}

/// Which way the search goes.
#[derive(Debug, Clone, Copy, PartialEq, Eq, Structural)]
pub enum Way {
    /// Up, to the first directory whose parent exists.
    Up,
    /// Down again, to the one asked for.
    Down,
}

/// What came of creating a directory, by the result of the call.
pub open spec fn created_by(result: Result<(), Error>) -> Created {
    match result {
        Ok(()) => Created::New,
        Err(Error::Os(code)) => if code == EEXIST {
            Created::Exists(Error::Os(code))
        } else if code == ENOENT {
            Created::NoParent(Error::Os(code))
        } else {
            Created::Failed(Error::Os(code))
        },
        Err(Error::Custom(ErrorKind::NotFound, says)) => Created::NoParent(
            Error::Custom(ErrorKind::NotFound, says),
        ),
        Err(error) => Created::Failed(error),
    }
}

/// What came of creating a directory, by the result of the call.
pub fn created_of(result: Result<(), Error>) -> (created: Created)
    ensures
        created == created_by(result),
        created is New <==> result is Ok,
        created matches Created::Exists(error) ==> result == Err::<(), Error>(error) && error
            == Error::Os(EEXIST),
        created matches Created::NoParent(error) ==> result == Err::<(), Error>(error),
        created matches Created::Failed(error) ==> result == Err::<(), Error>(error),
{
    match result {
        Ok(()) => Created::New,
        Err(error) => match error {
            Error::Os(code) => if code == EEXIST {
                Created::Exists(error)
            } else if code == ENOENT {
                Created::NoParent(error)
            } else {
                Created::Failed(error)
            },
            Error::Custom(ErrorKind::NotFound, _) => Created::NoParent(error),
            _ => Created::Failed(error),
        },
    }
}

/// How far the creation of a directory with all above it has come.
pub struct Progress {
    /// Which way the search goes.
    pub way: Way,
    /// The directory it is at.
    pub level: usize,
    /// The error to report if what exists at the directory is no directory.
    pub in_the_way: Option<Error>,
}

/// How it starts: with the directory asked for.
pub open spec fn at_the_start() -> Progress {
    Progress { way: Way::Up, level: 0, in_the_way: None }
}

/// How it goes on once the directory it is at is there: with the one below it.
pub open spec fn after_settled(at: Progress) -> (Progress, DirStep) {
    if at.level == 0 {
        (Progress { way: Way::Down, level: 0, in_the_way: None }, DirStep::Done)
    } else {
        let below = (at.level - 1) as usize;
        (Progress { way: Way::Down, level: below, in_the_way: None }, DirStep::Create(below))
    }
}

/// How it goes on after an attempt to create the directory it is at. On the way up a missing
/// parent is tried next, if there is one.
pub open spec fn after_created(at: Progress, created: Created, has_parent: bool) -> (
    Progress,
    DirStep,
) {
    match created {
        Created::New => after_settled(at),
        Created::Exists(error) => (
            Progress { in_the_way: Some(error), ..at },
            DirStep::Check(at.level),
        ),
        Created::NoParent(error) => if at.way == Way::Up && has_parent {
            let above = (at.level + 1) as usize;
            (Progress { level: above, ..at }, DirStep::Create(above))
        } else {
            (at, DirStep::Fail(error))
        },
        Created::Failed(error) => (at, DirStep::Fail(error)),
    }
}

/// How it goes on after what exists was looked at: a directory is as good as one that was created.
pub open spec fn after_checked(at: Progress, is_dir: bool) -> (Progress, DirStep) {
    if is_dir {
        after_settled(at)
    } else {
        (at, DirStep::Fail(at.in_the_way->0))
    }
}

/// The creation of a directory with all that is missing above it.
pub struct CreateDirAll {
    way: Way,
    level: usize,
    /// The error to report if what exists is no directory.
    found: Option<Error>,
}

impl CreateDirAll {
    /// How far it has come.
    pub closed spec fn view(&self) -> Progress {
        Progress { way: self.way, level: self.level, in_the_way: self.found }
    }

    /// Starts with the directory asked for.
    pub fn new() -> (r: (Self, DirStep))
        ensures
            r.0@ == at_the_start(),
            r.1 == DirStep::Create(0),
    {
        (CreateDirAll { way: Way::Up, level: 0, found: None }, DirStep::Create(0))
    }

    /// The directory at this level is there: on to the one below it.
    fn settled(&mut self) -> (step: DirStep)
        ensures
            (final(self)@, step) == after_settled(old(self)@),
    {
        self.way = Way::Down;
        self.found = None;
        if self.level == 0 {
            return DirStep::Done;
        }
        self.level = self.level - 1;
        DirStep::Create(self.level)
    }

    /// Goes on after an attempt to create a directory. On the way up a missing parent is tried
    /// next, if there is one.
    pub fn on_created(&mut self, created: Created, has_parent: bool) -> (step: DirStep)
        requires
            old(self)@.level < usize::MAX,
        ensures
            (final(self)@, step) == after_created(old(self)@, created, has_parent),
    {
        match created {
            Created::New => self.settled(),
            Created::Exists(error) => {
                self.found = Some(error);
                DirStep::Check(self.level)
            },
            Created::NoParent(error) => {
                let up = match self.way {
                    Way::Up => true,
                    Way::Down => false,
                };
                if up && has_parent {
                    self.level = self.level + 1;
                    DirStep::Create(self.level)
                } else {
                    DirStep::Fail(error)
                }
            },
            Created::Failed(error) => DirStep::Fail(error),
        }
    }

    /// Goes on after what exists was looked at: a directory is as good as one that was created.
    pub fn on_checked(&mut self, is_dir: bool) -> (step: DirStep)
        requires
            old(self)@.in_the_way is Some,
        ensures
            (final(self)@, step) == after_checked(old(self)@, is_dir),
    {
        match self.found {
            Some(error) => if is_dir {
                self.settled()
            } else {
                DirStep::Fail(error)
            },
            None => DirStep::Done,
        }
    }
}

/// What a path names.
pub enum Entry {
    Missing,
    Directory,
    Other,
}

/// What the names of a path stand for, the last name first. Above the first name is a directory:
/// the root, or the current one.
pub open spec fn entry_at(tree: Seq<Entry>, level: int) -> Entry {
    if level < tree.len() {
        tree[level]
    } else {
        Entry::Directory
    }
}

/// Whatever exists is in a directory.
pub open spec fn is_tree(tree: Seq<Entry>) -> bool {
    forall|i: int, j: int|
        0 <= i < j < tree.len() && !(#[trigger] tree[i] is Missing) ==> #[trigger] tree[j] is Directory
}

/// Something exists along the path that is no directory.
pub open spec fn is_blocked(tree: Seq<Entry>) -> bool {
    exists|i: int| 0 <= i < tree.len() && #[trigger] tree[i] is Other
}

/// What the system answers to creating a directory where nobody else changes the tree and nothing
/// is forbidden: it creates nothing where something of that name exists, where a name above it is
/// no directory, or where the directory above it is missing.
pub open spec fn mkdir(tree: Seq<Entry>, level: int) -> Result<(), Error> {
    if !(entry_at(tree, level) is Missing) {
        Err(Error::Os(EEXIST))
    } else if exists|j: int| level < j < tree.len() && #[trigger] tree[j] is Other {
        Err(Error::Os(ENOTDIR))
    } else if entry_at(tree, level + 1) is Missing {
        Err(Error::Os(ENOENT))
    } else {
        Ok(())
    }
}

/// The run of a creation on a tree: what the tree is, how far the creation has come, and what it
/// calls for.
pub struct DirRun {
    pub tree: Seq<Entry>,
    pub at: Progress,
    pub step: DirStep,
}

/// A run that has not begun.
pub open spec fn run_on(tree: Seq<Entry>) -> DirRun {
    DirRun { tree, at: at_the_start(), step: DirStep::Create(0) }
}

/// The run after its next step was carried out.
pub open spec fn step_of(run: DirRun) -> DirRun {
    match run.step {
        DirStep::Create(level) => {
            let result = mkdir(run.tree, level as int);
            let next = after_created(run.at, created_by(result), level < run.tree.len());
            DirRun {
                tree: if result is Ok {
                    run.tree.update(level as int, Entry::Directory)
                } else {
                    run.tree
                },
                at: next.0,
                step: next.1,
            }
        },
        DirStep::Check(level) => {
            let next = after_checked(run.at, entry_at(run.tree, level as int) is Directory);
            DirRun { tree: run.tree, at: next.0, step: next.1 }
        },
        _ => run,
    }
}

/// The run after so many steps.
pub open spec fn steps_of(run: DirRun, n: nat) -> DirRun
    decreases n,
{
    if n == 0 {
        run
    } else {
        steps_of(step_of(run), (n - 1) as nat)
    }
}

/// Directories all along the path.
pub open spec fn all_there(depth: nat) -> Seq<Entry> {
    Seq::new(depth, |i: int| Entry::Directory)
}

proof fn lemma_down(run: DirRun) -> (n: nat)
    requires
        run.step == DirStep::Create(run.at.level),
        run.at.level < run.tree.len(),
        forall|i: int|
            0 <= i < run.tree.len() ==> #[trigger] run.tree[i] == if i <= run.at.level {
                Entry::Missing
            } else {
                Entry::Directory
            },
    ensures
        steps_of(run, n).step is Done,
        steps_of(run, n).tree == all_there(run.tree.len()),
    decreases run.at.level,
{
    let level = run.at.level as int;
    let next = step_of(run);
    assert(run.tree[level] is Missing);
    if level + 1 < run.tree.len() {
        assert(run.tree[level + 1] is Directory);
    }
    assert(mkdir(run.tree, level) is Ok);
    if level == 0 {
        assert(next.tree =~= all_there(run.tree.len()));
        reveal_with_fuel(steps_of, 2);
        1
    } else {
        let rest = lemma_down(next);
        rest + 1
    }
}

proof fn lemma_up(run: DirRun, lowest: int) -> (n: nat)
    requires
        run.step == DirStep::Create(run.at.level),
        run.at.way == Way::Up,
        run.at.level < lowest <= run.tree.len() < usize::MAX,
        forall|i: int|
            0 <= i < run.tree.len() ==> #[trigger] run.tree[i] == if i < lowest {
                Entry::Missing
            } else {
                Entry::Directory
            },
    ensures
        steps_of(run, n).step is Done,
        steps_of(run, n).tree == all_there(run.tree.len()),
    decreases lowest - run.at.level,
{
    let level = run.at.level as int;
    let next = step_of(run);
    assert(run.tree[level] is Missing);
    if level + 1 < lowest {
        assert(run.tree[level + 1] is Missing);
        let rest = lemma_up(next, lowest);
        rest + 1
    } else {
        lemma_down(run)
    }
}

proof fn lemma_two_steps(run: DirRun)
    ensures
        steps_of(run, 2) == step_of(step_of(run)),
{
    reveal_with_fuel(steps_of, 3);
}

/// Where nothing but directories exists along a path, creating it with all above it succeeds, and
/// all along the path are directories then.
pub proof fn law_a_directory_is_created_with_all_above_it(tree: Seq<Entry>)
    requires
        tree.len() < usize::MAX,
        is_tree(tree),
        !is_blocked(tree),
    ensures
        exists|n: nat|
            (#[trigger] steps_of(run_on(tree), n)).step is Done && steps_of(run_on(tree), n).tree
                == all_there(tree.len()),
{
    let run = run_on(tree);
    if entry_at(tree, 0) is Missing {
        let lowest = lowest_in(tree);
        lemma_lowest(tree);
        let n = lemma_up(run, lowest);
        assert(steps_of(run, n).step is Done);
    } else {
        if tree.len() > 0 {
            assert(!(tree[0] is Other));
        }
        assert(tree =~= all_there(tree.len())) by {
            assert forall|i: int| 0 <= i < tree.len() implies #[trigger] tree[i]
                == Entry::Directory by {
                assert(!(tree[0] is Missing));
            }
        }
        lemma_two_steps(run);
        assert(steps_of(run, 2).step is Done);
    }
}

/// The lowest level at which something exists.
spec fn lowest_in(tree: Seq<Entry>) -> int
    decreases tree.len(),
{
    if tree.len() == 0 || !(tree.last() is Directory) {
        tree.len() as int
    } else {
        lowest_in(tree.drop_last())
    }
}

proof fn lemma_lowest(tree: Seq<Entry>)
    requires
        is_tree(tree),
        !is_blocked(tree),
    ensures
        0 <= lowest_in(tree) <= tree.len(),
        forall|i: int|
            0 <= i < tree.len() ==> #[trigger] tree[i] == if i < lowest_in(tree) {
                Entry::Missing
            } else {
                Entry::Directory
            },
    decreases tree.len(),
{
    if tree.len() > 0 {
        let last = tree.len() - 1;
        assert(!(tree[last] is Other));
        if tree.last() is Directory {
            let rest = tree.drop_last();
            assert forall|i: int, j: int| 0 <= i < j < rest.len() && !(#[trigger] rest[i]
                is Missing) implies #[trigger] rest[j] is Directory by {
                assert(!(tree[i] is Missing));
                assert(tree[j] is Directory);
            }
            assert(!is_blocked(rest)) by {
                if is_blocked(rest) {
                    let i = choose|i: int| 0 <= i < rest.len() && #[trigger] rest[i] is Other;
                    assert(tree[i] is Other);
                }
            }
            lemma_lowest(rest);
            assert forall|i: int| 0 <= i < tree.len() implies #[trigger] tree[i] == if i
                < lowest_in(tree) {
                Entry::Missing
            } else {
                Entry::Directory
            } by {
                if i < last {
                    assert(rest[i] == tree[i]);
                }
            }
        } else {
            assert forall|i: int| 0 <= i < tree.len() implies #[trigger] tree[i]
                == Entry::Missing by {
                if i < last && !(tree[i] is Missing) {
                    assert(tree[last] is Directory);
                }
            }
        }
    }
}

/// Where something that is no directory exists along a path, creating it fails, and the tree is
/// left as it was.
pub proof fn law_what_is_in_the_way_is_left_alone(tree: Seq<Entry>)
    requires
        tree.len() < usize::MAX,
        is_tree(tree),
        is_blocked(tree),
    ensures
        exists|n: nat|
            (#[trigger] steps_of(run_on(tree), n)).step is Fail && steps_of(run_on(tree), n).tree
                == tree,
{
    let run = run_on(tree);
    let b = choose|i: int| 0 <= i < tree.len() && #[trigger] tree[i] is Other;
    assert(tree[b] is Other);
    if b > 0 && !(tree[0] is Missing) {
        assert(tree[b] is Directory);
    }
    lemma_two_steps(run);
    assert(steps_of(run, 2).step is Fail);
}

/// Creating a directory again that was created with all above it succeeds and changes nothing.
pub proof fn law_a_second_run_changes_nothing(depth: nat)
    requires
        depth < usize::MAX,
    ensures
        exists|n: nat|
            (#[trigger] steps_of(run_on(all_there(depth)), n)).step is Done && steps_of(
                run_on(all_there(depth)),
                n,
            ).tree == all_there(depth),
{
    law_a_directory_is_created_with_all_above_it(all_there(depth));
}

/// What came of creating a directory is told from the call's own error, and the error is kept.
pub proof fn law_a_failed_creation_keeps_its_error(result: Result<(), Error>)
    ensures
        created_by(result) is New <==> result is Ok,
        created_by(result) is Exists <==> result == Err::<(), Error>(Error::Os(17)),
        created_by(result) is NoParent <==> result == Err::<(), Error>(Error::Os(2)) || (
        result matches Err(Error::Custom(kind, _)) && kind == ErrorKind::NotFound),
        created_by(result) matches Created::Exists(error) ==> result == Err::<(), Error>(error),
        created_by(result) matches Created::NoParent(error) ==> result == Err::<(), Error>(error),
        created_by(result) matches Created::Failed(error) ==> result == Err::<(), Error>(error),
{
}

/// The search goes up for a missing parent, and not again once it has turned; what fails otherwise
/// ends it with its own error, and a directory is left only when it is there.
pub proof fn law_the_search_goes_up_once(at: Progress, created: Created, has_parent: bool)
    requires
        at.level < usize::MAX,
    ensures
        ({
            let (next, step) = after_created(at, created, has_parent);
            &&& step matches DirStep::Create(level) ==> level == next.level
            &&& created is New ==> next.way is Down && if at.level == 0 {
                step is Done
            } else {
                step is Create && next.level == at.level - 1
            }
            &&& created matches Created::Exists(error) ==> {
                &&& step == DirStep::Check(at.level)
                &&& next.level == at.level && next.way == at.way && next.in_the_way == Some(error)
            }
            &&& created matches Created::NoParent(error) ==> if at.way is Up && has_parent {
                step is Create && next.level == at.level + 1 && next.way is Up
            } else {
                step == DirStep::Fail(error)
            }
            &&& created matches Created::Failed(error) ==> step == DirStep::Fail(error)
        }),
{
}

/// A directory that exists is as good as a new one, and anything else that is in the way ends the
/// search with the error that told of it.
pub proof fn law_only_a_directory_is_as_good(at: Progress, error: Error, has_parent: bool)
    requires
        at.in_the_way == Some(error),
    ensures
        after_checked(at, true) == after_created(at, Created::New, has_parent),
        after_checked(at, false).1 == DirStep::Fail(error),
{
}

} // verus!
