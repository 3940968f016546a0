use track_wear::entities::{
    cloth_out, edited_name, find_owned_cloth, find_owned_item, image_path, initial_movement,
    item_out, items_out, Cloth, Item,
};
use track_wear::error::{ApiError, ErrorKind, ErrorResponse};
use track_wear::guard::AuthError;
use track_wear::saga::{
    creation_start, creation_step, deletion_start, deletion_step, CreationAction,
    CreationEvent, CreationState, DeletionAction, DeletionEvent, DeletionState,
};
use track_wear::site::index;

fn item(id: i32, owner: i32, name: &str) -> Item {
    Item { id, user_id: owner, item_name: name.to_string() }
}

#[test]
fn entity_of_other_owner_is_not_found() {
    let rows = vec![item(42, 2, "hat"), item(43, 1, "scarf")];
    assert_eq!(find_owned_item(&rows, 42, 1), None);
    assert_eq!(find_owned_item(&rows, 42, 2), Some(0));
    assert_eq!(find_owned_item(&rows, 43, 1), Some(1));
    assert_eq!(find_owned_item(&Vec::new(), 42, 2), None);
    let clothes = vec![Cloth { id: 5, user_id: 9, cloth_name: "coat".to_string() }];
    assert_eq!(find_owned_cloth(&clothes, 5, 8), None);
    assert_eq!(find_owned_cloth(&clothes, 5, 9), Some(0));
}

#[test]
fn image_paths() {
    assert_eq!(image_path("images", 42), "images/42");
    assert_eq!(image_path("images/", 42), "images/42");
    assert_eq!(image_path("", 7), "7");
    assert_eq!(image_path("/srv/img", 0), "/srv/img/0");
    assert_eq!(image_path("img", -15), "img/-15");
    assert_eq!(image_path("img", i32::MIN), "img/-2147483648");
    assert_eq!(image_path("img", i32::MAX), "img/2147483647");
}

#[test]
fn reports_carry_counts() {
    let it = item(3, 4, "mug");
    let o = item_out(&it, 12);
    assert_eq!((o.id, o.user_id, o.item_name.as_str(), o.count), (3, 4, "mug", 12));
    let c = Cloth { id: 1, user_id: 2, cloth_name: "sock".to_string() };
    let co = cloth_out(&c, 0);
    assert_eq!((co.id, co.user_id, co.cloth_name.as_str(), co.count), (1, 2, "sock", 0));
    let list = items_out(&vec![item(1, 4, "a"), item(2, 4, "b")], &vec![5, 6]);
    assert_eq!(list.len(), 2);
    assert_eq!((list[0].id, list[0].count), (1, 5));
    assert_eq!((list[1].item_name.as_str(), list[1].count), ("b", 6));
}

#[test]
fn creation_defaults_and_edits() {
    assert_eq!(initial_movement(None), 1);
    assert_eq!(initial_movement(Some(-3)), -3);
    assert_eq!(edited_name(Some("new".to_string()), &"old".to_string()), "new");
    assert_eq!(edited_name(None, &"old".to_string()), "old");
}

#[test]
fn image_failure_removes_rows_and_reports_storage_error() {
    let (s, a) = creation_start();
    assert_eq!(a, CreationAction::InsertRows);
    let (s, a) = creation_step(s, CreationEvent::RowsInserted { id: 42 });
    assert_eq!(a, CreationAction::WriteImage { id: 42 });
    let (s, a) = creation_step(s, CreationEvent::ImageFailed);
    assert_eq!(a, CreationAction::DeleteRows { id: 42 });
    let (s, a) = creation_step(s, CreationEvent::CleanupDone);
    assert_eq!(a, CreationAction::ReportStorageError);
    assert_eq!(s, CreationState::Failed);
    // the rows are gone: a later lookup finds nothing
    let rows: Vec<Item> = Vec::new();
    assert_eq!(find_owned_item(&rows, 42, 1), None);
}

#[test]
fn creation_success_and_insert_failure() {
    let (s, _) = creation_start();
    let (s, _) = creation_step(s, CreationEvent::RowsInserted { id: 8 });
    let (s, a) = creation_step(s, CreationEvent::ImageWritten);
    assert_eq!(a, CreationAction::ReportCreated { id: 8 });
    assert_eq!(s, CreationState::Created { id: 8 });
    let (s, _) = creation_start();
    let (s, a) = creation_step(s, CreationEvent::InsertFailed);
    assert_eq!((s, a), (CreationState::Failed, CreationAction::ReportStorageError));
    let (s2, a2) = creation_step(s, CreationEvent::ImageWritten);
    assert_eq!((s2, a2), (CreationState::Failed, CreationAction::Ignore));
}

#[test]
fn deletion_removes_dependents_then_row_then_image() {
    let (s, a) = deletion_start(42);
    assert_eq!(a, DeletionAction::LookUp { id: 42 });
    let (s, a) = deletion_step(s, DeletionEvent::Found);
    assert_eq!(a, DeletionAction::DeleteDependents { id: 42 });
    let (s, a) = deletion_step(s, DeletionEvent::Succeeded);
    assert_eq!(a, DeletionAction::DeleteEntity { id: 42 });
    let (s, a) = deletion_step(s, DeletionEvent::Succeeded);
    assert_eq!(a, DeletionAction::RemoveImage { id: 42 });
    assert_eq!(image_path("images", 42), "images/42");
    let (s, a) = deletion_step(s, DeletionEvent::Failed);
    assert_eq!(a, DeletionAction::ReportDeleted);
    assert_eq!(s, DeletionState::Finished);
    // a later lookup of 42 is answered with not found
    let (s, _) = deletion_start(42);
    let (_, a) = deletion_step(s, DeletionEvent::Missing);
    assert_eq!(a, DeletionAction::ReportNotFound);
    assert_eq!(ErrorKind::NotFound.status_code(), 404);
}

#[test]
fn deletion_failures_report_storage_error() {
    let (s, _) = deletion_start(1);
    let (_, a) = deletion_step(s, DeletionEvent::Failed);
    assert_eq!(a, DeletionAction::ReportStorageError);
    let (s, _) = deletion_start(1);
    let (s, _) = deletion_step(s, DeletionEvent::Found);
    let (s, a) = deletion_step(s, DeletionEvent::Failed);
    assert_eq!((s, a), (DeletionState::Finished, DeletionAction::ReportStorageError));
}

#[test]
fn status_table_and_error_bodies() {
    assert_eq!(ErrorKind::Unauthenticated.status_code(), 401);
    assert_eq!(ErrorKind::InvalidCredentials.status_code(), 500);
    assert_eq!(ErrorKind::StorageError.status_code(), 500);
    assert_eq!(ErrorKind::NotFound.status_code(), 404);
    assert_eq!(AuthError::SessionTooOld.kind(), ErrorKind::Unauthenticated);
    assert!(!AuthError::SessionTooOld.falls_through());
    assert!(AuthError::NoSession.falls_through());
    assert!(AuthError::MissingCookie.falls_through());
    assert_eq!(ApiError::new("boom".to_string()).err, "boom");
    let r = ErrorResponse::new(401, "Login required".to_string());
    assert_eq!((r.status, r.error.err.as_str()), (401, "Login required"));
    let r = ErrorResponse::of_kind(ErrorKind::NotFound, "Couldn't load item".to_string());
    assert_eq!(r.status, 404);
}

#[test]
fn greeting() {
    assert_eq!(index(), "Hello, world!");
}
