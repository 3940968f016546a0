//! The compensating flows that span the database and the image files.
//!
//! Creating an entity inserts its rows in one transaction and then writes
//! its image; when the image cannot be written the rows are deleted again,
//! best effort. Deleting an entity removes the rows that refer to it, then
//! its row, then (best effort) its image. Each flow is a state machine: the
//! caller performs the action it names and reports what happened.
use vstd::prelude::*;

verus! {

/// Where a creation stands.
#[derive(Clone, Copy, Debug, PartialEq, Eq, Structural)]
pub enum CreationState {
    /// The rows are being inserted.
    Inserting,
    /// The rows of entity `id` exist; its image is being written.
    WritingImage { id: i32 },
    /// The image of `id` could not be written; its rows are being deleted.
    Compensating { id: i32 },
    /// Entity `id` exists with its image.
    Created { id: i32 },
    /// The creation failed; nothing of it is meant to remain.
    Failed,
}

/// What happened to the last action of a creation.
#[derive(Clone, Copy, Debug, PartialEq, Eq, Structural)]
pub enum CreationEvent {
    /// The rows were inserted; the new entity has id `id`.
    RowsInserted { id: i32 },
    /// The insert transaction failed.
    InsertFailed,
    /// The image was written.
    ImageWritten,
    /// The image could not be written.
    ImageFailed,
    /// The compensating delete ran, whether it succeeded or not.
    CleanupDone,
}

/// What the caller of a creation is to do next.
#[derive(Clone, Copy, Debug, PartialEq, Eq, Structural)]
pub enum CreationAction {
    /// Insert the entity's rows in one transaction.
    InsertRows,
    /// Write the image of `id`.
    WriteImage { id: i32 },
    /// Delete the rows of `id` and those that depend on them; failures are ignored.
    DeleteRows { id: i32 },
    /// Report entity `id` as created.
    ReportCreated { id: i32 },
    /// Report a storage error.
    ReportStorageError,
    /// The event does not belong to this state: nothing to do.
    Ignore,
}

/// The next state and action of a creation in state `s` after event `e`.
pub open spec fn creation_next(s: CreationState, e: CreationEvent) -> (CreationState, CreationAction) {
    match (s, e) {
        (CreationState::Inserting, CreationEvent::RowsInserted { id }) => (
            CreationState::WritingImage { id },
            CreationAction::WriteImage { id },
        ),
        (CreationState::Inserting, CreationEvent::InsertFailed) => (
            CreationState::Failed,
            CreationAction::ReportStorageError,
        ),
        (CreationState::WritingImage { id }, CreationEvent::ImageWritten) => (
            CreationState::Created { id },
            CreationAction::ReportCreated { id },
        ),
        (CreationState::WritingImage { id }, CreationEvent::ImageFailed) => (
            CreationState::Compensating { id },
            CreationAction::DeleteRows { id },
        ),
        (CreationState::Compensating { id }, CreationEvent::CleanupDone) => (
            CreationState::Failed,
            CreationAction::ReportStorageError,
        ),
        _ => (s, CreationAction::Ignore),
    }
}

/// The first action of a creation, and the state it starts in.
pub fn creation_start() -> (r: (CreationState, CreationAction))
    ensures
        r == (CreationState::Inserting, CreationAction::InsertRows),
{
    (CreationState::Inserting, CreationAction::InsertRows)
}

/// Advances a creation: rows first, then the image; a failed image write
/// deletes the rows before the failure is reported.
pub fn creation_step(s: CreationState, e: CreationEvent) -> (r: (CreationState, CreationAction))
    ensures
        r == creation_next(s, e),
{
    match (s, e) {
        (CreationState::Inserting, CreationEvent::RowsInserted { id }) => (
            CreationState::WritingImage { id },
            CreationAction::WriteImage { id },
        ),
        (CreationState::Inserting, CreationEvent::InsertFailed) => (
            CreationState::Failed,
            CreationAction::ReportStorageError,
        ),
        (CreationState::WritingImage { id }, CreationEvent::ImageWritten) => (
            CreationState::Created { id },
            CreationAction::ReportCreated { id },
        ),
        (CreationState::WritingImage { id }, CreationEvent::ImageFailed) => (
            CreationState::Compensating { id },
            CreationAction::DeleteRows { id },
        ),
        (CreationState::Compensating { id }, CreationEvent::CleanupDone) => (
            CreationState::Failed,
            CreationAction::ReportStorageError,
        ),
        _ => (s, CreationAction::Ignore),
    }
}

/// When the rows of `id` were inserted and its image could not be written,
/// the rows are deleted and the caller is told of a storage error; the
/// creation ends failed.
pub proof fn lemma_image_failure_compensates(id: i32)
    ensures
        creation_next(CreationState::Inserting, CreationEvent::RowsInserted { id }) == (
            CreationState::WritingImage { id },
            CreationAction::WriteImage { id },
        ),
        creation_next(CreationState::WritingImage { id }, CreationEvent::ImageFailed) == (
            CreationState::Compensating { id },
            CreationAction::DeleteRows { id },
        ),
        creation_next(CreationState::Compensating { id }, CreationEvent::CleanupDone) == (
            CreationState::Failed,
            CreationAction::ReportStorageError,
        ),
{
}

/// A creation reports success only for an entity whose image was written
/// after its rows were inserted.
pub proof fn lemma_created_only_after_image(s: CreationState, e: CreationEvent, id: i32)
    ensures
        creation_next(s, e).1 == (CreationAction::ReportCreated { id }) ==> s == (
        CreationState::WritingImage { id }) && e == CreationEvent::ImageWritten,
{
}

/// Where a deletion stands.
#[derive(Clone, Copy, Debug, PartialEq, Eq, Structural)]
pub enum DeletionState {
    /// The caller's entity with this id is being looked up.
    LookingUp { id: i32 },
    /// The rows that refer to `id` are being deleted.
    DeletingDependents { id: i32 },
    /// The row of `id` is being deleted.
    DeletingEntity { id: i32 },
    /// The image of `id` is being removed.
    RemovingImage { id: i32 },
    /// The deletion is over.
    Finished,
}

/// What happened to the last action of a deletion.
#[derive(Clone, Copy, Debug, PartialEq, Eq, Structural)]
pub enum DeletionEvent {
    /// The lookup found the caller's entity.
    Found,
    /// The caller has no entity with this id.
    Missing,
    /// The last step succeeded.
    Succeeded,
    /// The last step failed.
    Failed,
}

/// What the caller of a deletion is to do next.
#[derive(Clone, Copy, Debug, PartialEq, Eq, Structural)]
pub enum DeletionAction {
    /// Look up the caller's entity `id`, by id and owner together.
    LookUp { id: i32 },
    /// Delete every row that refers to `id`.
    DeleteDependents { id: i32 },
    /// Delete the row of `id`.
    DeleteEntity { id: i32 },
    /// Remove the image of `id`; failures are ignored.
    RemoveImage { id: i32 },
    /// Report the entity as deleted.
    ReportDeleted,
    /// Report that the caller has no such entity.
    ReportNotFound,
    /// Report a storage error.
    ReportStorageError,
    /// The event does not belong to this state: nothing to do.
    Ignore,
}

/// The next state and action of a deletion in state `s` after event `e`.
pub open spec fn deletion_next(s: DeletionState, e: DeletionEvent) -> (DeletionState, DeletionAction) {
    match (s, e) {
        (DeletionState::LookingUp { id }, DeletionEvent::Found) => (
            DeletionState::DeletingDependents { id },
            DeletionAction::DeleteDependents { id },
        ),
        (DeletionState::LookingUp { id }, DeletionEvent::Missing) => (
            DeletionState::Finished,
            DeletionAction::ReportNotFound,
        ),
        (DeletionState::DeletingDependents { id }, DeletionEvent::Succeeded) => (
            DeletionState::DeletingEntity { id },
            DeletionAction::DeleteEntity { id },
        ),
        (DeletionState::DeletingEntity { id }, DeletionEvent::Succeeded) => (
            DeletionState::RemovingImage { id },
            DeletionAction::RemoveImage { id },
        ),
        (DeletionState::RemovingImage { id }, DeletionEvent::Succeeded) => (
            DeletionState::Finished,
            DeletionAction::ReportDeleted,
        ),
        (DeletionState::RemovingImage { id }, DeletionEvent::Failed) => (
            DeletionState::Finished,
            DeletionAction::ReportDeleted,
        ),
        (DeletionState::LookingUp { id }, DeletionEvent::Failed) => (
            DeletionState::Finished,
            DeletionAction::ReportStorageError,
        ),
        (DeletionState::DeletingDependents { id }, DeletionEvent::Failed) => (
            DeletionState::Finished,
            DeletionAction::ReportStorageError,
        ),
        (DeletionState::DeletingEntity { id }, DeletionEvent::Failed) => (
            DeletionState::Finished,
            DeletionAction::ReportStorageError,
        ),
        _ => (s, DeletionAction::Ignore),
    }
}

/// The first action of a deletion of entity `id`, and the state it starts in.
pub fn deletion_start(id: i32) -> (r: (DeletionState, DeletionAction))
    ensures
        r == (DeletionState::LookingUp { id }, DeletionAction::LookUp { id }),
{
    (DeletionState::LookingUp { id }, DeletionAction::LookUp { id })
}

/// Advances a deletion: dependent rows, then the entity's row, then its
/// image; an entity that is not the caller's is reported as not found.
pub fn deletion_step(s: DeletionState, e: DeletionEvent) -> (r: (DeletionState, DeletionAction))
    ensures
        r == deletion_next(s, e),
{
    match (s, e) {
        (DeletionState::LookingUp { id }, DeletionEvent::Found) => (
            DeletionState::DeletingDependents { id },
            DeletionAction::DeleteDependents { id },
        ),
        (DeletionState::LookingUp { id }, DeletionEvent::Missing) => (
            DeletionState::Finished,
            DeletionAction::ReportNotFound,
        ),
        (DeletionState::DeletingDependents { id }, DeletionEvent::Succeeded) => (
            DeletionState::DeletingEntity { id },
            DeletionAction::DeleteEntity { id },
        ),
        (DeletionState::DeletingEntity { id }, DeletionEvent::Succeeded) => (
            DeletionState::RemovingImage { id },
            DeletionAction::RemoveImage { id },
        ),
        (DeletionState::RemovingImage { id }, DeletionEvent::Succeeded) => (
            DeletionState::Finished,
            DeletionAction::ReportDeleted,
        ),
        (DeletionState::RemovingImage { id }, DeletionEvent::Failed) => (
            DeletionState::Finished,
            DeletionAction::ReportDeleted,
        ),
        (DeletionState::LookingUp { id }, DeletionEvent::Failed) => (
            DeletionState::Finished,
            DeletionAction::ReportStorageError,
        ),
        (DeletionState::DeletingDependents { id }, DeletionEvent::Failed) => (
            DeletionState::Finished,
            DeletionAction::ReportStorageError,
        ),
        (DeletionState::DeletingEntity { id }, DeletionEvent::Failed) => (
            DeletionState::Finished,
            DeletionAction::ReportStorageError,
        ),
        _ => (s, DeletionAction::Ignore),
    }
}

/// Deleting an entity that the caller owns removes the rows that refer to
/// it, then its row, then its image, and reports it deleted whether or not
/// the image could be removed.
pub proof fn lemma_deletion_order(id: i32, image: DeletionEvent)
    requires
        image == DeletionEvent::Succeeded || image == DeletionEvent::Failed,
    ensures
        deletion_next(DeletionState::LookingUp { id }, DeletionEvent::Found) == (
            DeletionState::DeletingDependents { id },
            DeletionAction::DeleteDependents { id },
        ),
        deletion_next(DeletionState::DeletingDependents { id }, DeletionEvent::Succeeded) == (
            DeletionState::DeletingEntity { id },
            DeletionAction::DeleteEntity { id },
        ),
        deletion_next(DeletionState::DeletingEntity { id }, DeletionEvent::Succeeded) == (
            DeletionState::RemovingImage { id },
            DeletionAction::RemoveImage { id },
        ),
        deletion_next(DeletionState::RemovingImage { id }, image) == (
            DeletionState::Finished,
            DeletionAction::ReportDeleted,
        ),
{
}

/// The image of an entity is removed only after its row is gone.
pub proof fn lemma_image_removed_after_rows(s: DeletionState, e: DeletionEvent, id: i32)
    ensures
        deletion_next(s, e).1 == (DeletionAction::RemoveImage { id }) ==> s == (
        DeletionState::DeletingEntity { id }) && e == DeletionEvent::Succeeded,
{
}

} // verus!
