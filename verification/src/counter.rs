//! The number of commits that wait to be pushed.
use vstd::prelude::*;

verus! {

/// Counts the commits that wait to be pushed.
#[derive(Debug)]
pub struct CommitCounter {
    commits: usize,
}

impl View for CommitCounter {
    type V = int;

    closed spec fn view(&self) -> int {
        self.commits as int
    }
}

/// The count after an answer of the executor: one more where the answer tells of a commit. Behind
/// the largest number that the machine has, counting starts again.
pub open spec fn counted(commits: int, committed: bool) -> int {
    if !committed {
        commits
    } else if commits >= usize::MAX {
        0
    } else {
        commits + 1
    }
}

impl CommitCounter {
    /// A counter before the first commit.
    pub fn new() -> (counter: Self)
        ensures
            counter@ == 0,
    {
        CommitCounter { commits: 0 }
    }

    /// How many commits wait.
    pub fn count(&self) -> (commits: usize)
        ensures
            commits == self@,
    {
        self.commits
    }

    /// Takes in an answer of the executor, by whether it tells of a commit.
    pub fn answered(&mut self, committed: bool)
        ensures
            final(self)@ == counted(old(self)@, committed),
    {
        if committed {
            self.commits = if self.commits == usize::MAX {
                0
            } else {
                self.commits + 1
            };
        }
    }

    /// Takes in that all commits were pushed.
    pub fn clear(&mut self)
        ensures
            final(self)@ == 0,
    {
        self.commits = 0;
    }
}

/// Each commit counts for one and every other answer for nothing, as long as the machine has
/// numbers.
pub proof fn law_each_commit_counts_for_one(commits: int)
    ensures
        counted(commits, false) == commits,
        0 <= commits < usize::MAX ==> counted(commits, true) - commits == 1,
        0 <= commits <= usize::MAX ==> 0 <= counted(commits, true) <= usize::MAX,
{
}

} // verus!
