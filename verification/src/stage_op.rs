//! The staging actions the review queue runs for a hunk-, file- or line-level verb. Each
//! captures the file it acts on when it is enqueued, and its direction is fixed by its verb.
use vstd::prelude::*;

use crate::model::{FileChange, FileChangeView};
use crate::synthesis::LineSelection;

verus! {

/// The direction of a staging action.
#[derive(Debug, Clone, Copy, PartialEq, Eq, Structural)]
pub enum StageVerb {
    /// Worktree change into the index.
    Stage,
    /// Index change back out of the index.
    Unstage,
    /// Worktree change thrown away.
    Discard,
}

/// A queued staging action over one captured file: a hunk action when `hunk_idx` is `Some`, a
/// whole-file action when `None`.
pub struct FileStagingOp {
    file: FileChange,
    hunk_idx: Option<usize>,
    verb: StageVerb,
}

/// The mathematical value of a [`FileStagingOp`].
pub struct FileStagingOpView {
    pub file: FileChangeView,
    pub hunk_idx: Option<usize>,
    pub verb: StageVerb,
}

impl View for FileStagingOp {
    type V = FileStagingOpView;

    closed spec fn view(&self) -> FileStagingOpView {
        FileStagingOpView { file: self.file@, hunk_idx: self.hunk_idx, verb: self.verb }
    }
}

impl FileStagingOp {
    /// A hunk-level action: `verb` applied to `file`'s hunk at `hunk_idx`.
    pub fn hunk(file: FileChange, hunk_idx: usize, verb: StageVerb) -> (r: Self)
        ensures
            r@ == (FileStagingOpView { file: file@, hunk_idx: Some(hunk_idx), verb }),
    {
        Self { file, hunk_idx: Some(hunk_idx), verb }
    }

    /// A whole-file action: `verb` applied to all of `file`.
    pub fn file(file: FileChange, verb: StageVerb) -> (r: Self)
        ensures
            r@ == (FileStagingOpView { file: file@, hunk_idx: None, verb }),
    {
        Self { file, hunk_idx: None, verb }
    }
}

/// A queued line-selection staging action: `verb` applied to `file`'s selected lines, possibly
/// across several hunks (each selection names its hunk by index), as one combined patch.
pub struct LineSelectionOp {
    file: FileChange,
    selections: Vec<(usize, LineSelection)>,
    verb: StageVerb,
}

/// The mathematical value of a [`LineSelection`]: kept additions and kept deletions.
pub open spec fn selection_view(s: LineSelection) -> (Set<usize>, Set<usize>) {
    (s.keep_adds@, s.keep_dels@)
}

/// The mathematical value of a [`LineSelectionOp`].
pub struct LineSelectionOpView {
    pub file: FileChangeView,
    pub selections: Seq<(usize, (Set<usize>, Set<usize>))>,
    pub verb: StageVerb,
}

impl View for LineSelectionOp {
    type V = LineSelectionOpView;

    closed spec fn view(&self) -> LineSelectionOpView {
        LineSelectionOpView {
            file: self.file@,
            selections: self.selections@.map_values(
                |p: (usize, LineSelection)| (p.0, selection_view(p.1)),
            ),
            verb: self.verb,
        }
    }
}

impl LineSelectionOp {
    /// A line-selection action over `file`.
    pub fn new(file: FileChange, selections: Vec<(usize, LineSelection)>, verb: StageVerb) -> (r: Self)
        ensures
            r@ == (LineSelectionOpView {
                file: file@,
                selections: selections@.map_values(
                    |p: (usize, LineSelection)| (p.0, selection_view(p.1)),
                ),
                verb,
            }),
    {
        Self { file, selections, verb }
    }
}

} // verus!
