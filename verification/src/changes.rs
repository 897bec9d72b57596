//! The generator stub: a change-list generator that produces an ordered
//! sequence of change records — currently always empty.

use vstd::prelude::*;

verus! {

/// A change record a generator may produce.  The stub generator below
/// never produces one.
#[derive(Clone, Copy, PartialEq, Eq, Structural, Debug)]
pub struct Changes {}

/// The generator of changes for a fresh notebook: records where the
/// notebook would go, and yields no changes.
pub struct GetChangesForNewNotebook {
    pub project_path: String,
    pub notebook_name: String,
    pub changes: Vec<Changes>,
}

impl GetChangesForNewNotebook {
    /// A generator for the named notebook under the given project path,
    /// with an empty change list.
    pub fn new(project_path: String, notebook_name: String) -> (r: GetChangesForNewNotebook)
        ensures
            r.project_path@ == project_path@,
            r.notebook_name@ == notebook_name@,
            r.changes@.len() == 0,
    {
        GetChangesForNewNotebook { project_path, notebook_name, changes: Vec::new() }
    }

    /// The ordered change list, as recorded: for a generator made by
    /// [`GetChangesForNewNotebook::new`], always empty.
    pub fn run(&self) -> (r: Vec<Changes>)
        ensures
            r@ == self.changes@,
    {
        let mut r: Vec<Changes> = Vec::new();
        let mut i: usize = 0;
        while i < self.changes.len()
            invariant
                i <= self.changes@.len(),
                r@ =~= self.changes@.subrange(0, i as int),
            decreases self.changes@.len() - i,
        {
            r.push(self.changes[i]);
            assert(r@ =~= self.changes@.subrange(0, i + 1));
            i = i + 1;
        }
        assert(r@ =~= self.changes@);
        r
    }
}

} // verus!
