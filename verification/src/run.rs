//! The run coordinator's state: the placement strategy, the progress counts,
//! and the ordered list of per-candidate errors.
//!
//! The surrounding application walks the tree, parses containers and touches
//! the filesystem; it reports each step's outcome here. No per-candidate
//! failure ever aborts a run: every failure becomes one recorded entry, and
//! the whole list is rendered once, as a two-column table, when the run ends.

use vstd::prelude::*;

verus! {

/// How a candidate reaches its destination: duplicate its bytes, leaving the
/// source in place, or move it away from the source path.
#[derive(Clone, Copy, PartialEq, Eq, Structural, Debug)]
pub enum Strategy {
    Copy,
    Move,
}

impl Default for Strategy {
    /// The strategy a run falls back to: moving the files.
    fn default() -> (s: Strategy)
        ensures
            s == Strategy::Move,
    {
        Strategy::Move
    }
}

/// One recorded failure of a run.
pub enum RunError {
    /// A candidate that would not parse as a container: the offending path
    /// and the parser's description.
    InvalidEbook { path: String, error: String },
    /// A filesystem operation that failed: a description, no path retained.
    Io { error: String },
}

impl RunError {
    /// The description column of the summary table.
    pub open spec fn desc_spec(self) -> Seq<char> {
        match self {
            RunError::InvalidEbook { path, error } => error@,
            RunError::Io { error } => error@,
        }
    }

    /// The path column of the summary table: empty for a filesystem failure.
    pub open spec fn path_spec(self) -> Seq<char> {
        match self {
            RunError::InvalidEbook { path, error } => path@,
            RunError::Io { error } => Seq::empty(),
        }
    }
}

/// One row of the summary table: the description, then the source path.
pub struct ErrorRow {
    pub error: String,
    pub path: String,
}

/// A progress count advanced by one step, capped at its type's maximum.
pub open spec fn bumped(c: u64) -> u64 {
    if c < u64::MAX {
        (c + 1) as u64
    } else {
        c
    }
}

/// The state of one run.
pub struct Run {
    pub strategy: Strategy,
    /// How many candidates the counting pass found.
    pub total: u64,
    /// How many candidates progress has moved past.
    pub completed: u64,
    pub errors: Vec<RunError>,
}

impl Run {
    /// Starts a run over `total` discovered candidates. No errors have been
    /// recorded and no candidate has been processed.
    pub fn new(total: u64, strategy: Strategy) -> (r: Run)
        ensures
            r.total == total,
            r.strategy == strategy,
            r.completed == 0,
            r.errors@ =~= Seq::<RunError>::empty(),
    {
        Run { strategy, total, completed: 0, errors: Vec::new() }
    }

    fn advance(&mut self)
        ensures
            final(self).completed == bumped(old(self).completed),
            final(self).errors == old(self).errors,
            final(self).total == old(self).total,
            final(self).strategy == old(self).strategy,
    {
        if self.completed < u64::MAX {
            self.completed = self.completed + 1;
        }
    }

    /// Records that a candidate failed metadata extraction, with its path
    /// and the parser's description, and moves progress past it. No
    /// placement is attempted for such a candidate.
    pub fn extraction_failed(&mut self, path: String, error: String)
        ensures
            final(self).errors@ == old(self).errors@.push(
                RunError::InvalidEbook { path, error },
            ),
            final(self).completed == bumped(old(self).completed),
            final(self).total == old(self).total,
            final(self).strategy == old(self).strategy,
    {
        self.errors.push(RunError::InvalidEbook { path, error });
        self.advance();
    }

    /// Records that the author directory could not be created, and moves
    /// progress past the abandoned candidate.
    pub fn dir_create_failed(&mut self, error: String)
        ensures
            final(self).errors@ == old(self).errors@.push(RunError::Io { error }),
            final(self).completed == bumped(old(self).completed),
            final(self).total == old(self).total,
            final(self).strategy == old(self).strategy,
    {
        self.errors.push(RunError::Io { error });
        self.advance();
    }

    /// Records that the copy or move itself failed. The candidate is
    /// abandoned; progress is left where it was.
    pub fn place_failed(&mut self, error: String)
        ensures
            final(self).errors@ == old(self).errors@.push(RunError::Io { error }),
            final(self).completed == old(self).completed,
            final(self).total == old(self).total,
            final(self).strategy == old(self).strategy,
    {
        self.errors.push(RunError::Io { error });
    }

    /// Records that a candidate was placed at its destination: progress
    /// moves past it and nothing is added to the error list.
    pub fn placed(&mut self)
        ensures
            final(self).errors@ == old(self).errors@,
            final(self).completed == bumped(old(self).completed),
            final(self).total == old(self).total,
            final(self).strategy == old(self).strategy,
    {
        self.advance();
    }

    /// The rows of the summary table, one per recorded error and in the
    /// order the errors occurred: the description, then the source path
    /// (empty for a filesystem failure).
    pub fn error_rows(&self) -> (rows: Vec<ErrorRow>)
        ensures
            rows@.len() == self.errors@.len(),
            forall|i: int|
                #![trigger rows@[i]]
                0 <= i < rows@.len() ==> rows@[i].error@ == self.errors@[i].desc_spec()
                    && rows@[i].path@ == self.errors@[i].path_spec(),
    {
        let mut rows: Vec<ErrorRow> = Vec::new();
        let n = self.errors.len();
        let mut i: usize = 0;
        while i < n
            invariant
                0 <= i <= n,
                n == self.errors@.len(),
                rows@.len() == i,
                forall|m: int|
                    #![trigger rows@[m]]
                    0 <= m < i ==> rows@[m].error@ == self.errors@[m].desc_spec()
                        && rows@[m].path@ == self.errors@[m].path_spec(),
            decreases n - i,
        {
            let row = match &self.errors[i] {
                RunError::InvalidEbook { path, error } => ErrorRow {
                    error: error.clone(),
                    path: path.clone(),
                },
                RunError::Io { error } => {
                    let empty = String::new();
                    proof {
                        assert(empty@ =~= Seq::<char>::empty());
                    }
                    ErrorRow { error: error.clone(), path: empty }
                },
            };
            rows.push(row);
            i = i + 1;
        }
        rows
    }
}

} // verus!
