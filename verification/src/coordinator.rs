//! Coordination of one background save with the live document.
//!
//! The application hands the worker a snapshot of the document and polls a
//! completion notification; this type holds the decision logic.  At most one
//! save is in flight: a save may begin only while none is writing.  On
//! completion the live document is marked saved only when the save
//! succeeded and no edit has advanced the document's generation since the
//! snapshot was taken — a save of stale contents never hides newer edits.

use vstd::prelude::*;

use crate::file::{File, FileModel};

verus! {

/// The mathematical model of the coordinator's state.
pub ghost struct CoordinatorModel {
    pub writing: bool,
    pub snapshot_generation: int,
}

/// Tracks whether a background save is in flight and which document
/// generation it snapshotted.
pub struct SaveCoordinator {
    writing: bool,
    snapshot_generation: u64,
}

impl View for SaveCoordinator {
    type V = CoordinatorModel;

    closed spec fn view(&self) -> CoordinatorModel {
        CoordinatorModel {
            writing: self.writing,
            snapshot_generation: self.snapshot_generation as int,
        }
    }
}

/// The document state after a save completes: marked saved exactly when the
/// save succeeded and the document's generation still matches the snapshot.
pub open spec fn spec_after_completion(
    file: FileModel,
    coordinator: CoordinatorModel,
    success: bool,
) -> FileModel {
    if success && file.generation == coordinator.snapshot_generation {
        FileModel { saved: true, ..file }
    } else {
        file
    }
}

/// What a completion does to the document: a successful save whose
/// snapshot is still current marks the document saved (registered, it then
/// reports registered-and-saved); a failed save, or one whose snapshot
/// edits have outrun, leaves the document exactly as it was — never is a
/// changed document silently reported clean.
pub proof fn lemma_completion_marks_saved(
    file: FileModel,
    coordinator: CoordinatorModel,
    success: bool,
)
    ensures
        success && file.generation == coordinator.snapshot_generation ==> spec_after_completion(
            file,
            coordinator,
            success,
        ) == (FileModel { saved: true, ..file }),
        !success || file.generation != coordinator.snapshot_generation ==> spec_after_completion(
            file,
            coordinator,
            success,
        ) == file,
{
}

impl Default for SaveCoordinator {
    /// No save in flight.
    fn default() -> (r: Self)
        ensures
            !r@.writing,
    {
        SaveCoordinator { writing: false, snapshot_generation: 0 }
    }
}

impl SaveCoordinator {
    /// No save in flight.
    pub fn new() -> (r: Self)
        ensures
            !r@.writing,
    {
        SaveCoordinator::default()
    }

    /// Whether a background save is in flight; while it is, the interface
    /// keeps the save actions disabled and no close attempt resolves.
    pub fn is_writing(&self) -> (r: bool)
        ensures
            r == self@.writing,
    {
        self.writing
    }

    /// Starts one background save of the document's current contents.
    /// Only one save may be in flight: none may be running.
    pub fn begin_save(&mut self, file: &File)
        requires
            !old(self)@.writing,
        ensures
            final(self)@.writing,
            final(self)@.snapshot_generation == file@.generation,
    {
        self.writing = true;
        self.snapshot_generation = file.generation();
    }

    /// Applies an observed completion notification to the live document:
    /// the write is over, and the document is marked saved exactly when the
    /// save succeeded and no edit happened since the snapshot was taken.
    /// A failed save leaves the document's state untouched.
    pub fn finish_save(&mut self, success: bool, file: &mut File)
        requires
            old(self)@.writing,
        ensures
            !final(self)@.writing,
            final(file)@ == spec_after_completion(old(file)@, old(self)@, success),
    {
        self.writing = false;
        if success && file.generation() == self.snapshot_generation {
            file.force_set_saved();
        }
    }
}

} // verus!
