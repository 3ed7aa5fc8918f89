use magictax::amount::Amount;
use magictax::csv::{Csv, CsvRow};
use magictax::file::File;
use magictax::SaveCoordinator;

fn row(label: &str, cents: i64) -> CsvRow {
    CsvRow {
        label: label.to_string(),
        value: Amount::from_cents(cents).expect("in range"),
    }
}

#[test]
fn check_save_state() {
    // * Unregistered
    // is_saved: Always FALSE
    // is_changed: TRUE if non-empty
    // actual save state should not affect outcome

    // Default (Unregistered, Empty)
    let file = File::default();
    assert_eq!(file.is_registered_and_saved(), false);
    assert_eq!(file.is_changed(), false);

    // Unregistered, Empty
    let file = File::from_parts(None, Csv::default(), false);
    assert_eq!(file.is_registered_and_saved(), false);
    assert_eq!(file.is_changed(), false);
    // Same, but saved (should not matter)
    let file = File::from_parts(None, Csv::default(), true);
    assert_eq!(file.is_registered_and_saved(), false);
    assert_eq!(file.is_changed(), false);

    // Unregistered, NON-Empty
    let contents = Csv::decode("foo,123\nbar,456").expect("Should not fail");
    let file = File::from_parts(None, contents.clone(), false);
    assert_eq!(file.is_registered_and_saved(), false);
    assert_eq!(file.is_changed(), true);
    // Same, but saved (should not matter)
    let file = File::from_parts(None, contents.clone(), true);
    assert_eq!(file.is_registered_and_saved(), false);
    assert_eq!(file.is_changed(), true);

    // * Registered
    // is_saved: TRUE if saved is TRUE
    // is_changed: TRUE if saved is FALSE
    // contents should not affect outcome

    // Registered, unsaved
    let file = File::from_parts(Some(String::from("some/path")), Csv::default(), false);
    assert_eq!(file.is_registered_and_saved(), false);
    assert_eq!(file.is_changed(), true);
    // Same, but non-empty (should not matter)
    let file = File::from_parts(Some(String::from("some/path")), contents.clone(), false);
    assert_eq!(file.is_registered_and_saved(), false);
    assert_eq!(file.is_changed(), true);

    // Registered, saved
    let file = File::from_parts(Some(String::from("some/path")), Csv::default(), true);
    assert_eq!(file.is_registered_and_saved(), true);
    assert_eq!(file.is_changed(), false);
    // Same, but non-empty (should not matter)
    let file = File::from_parts(Some(String::from("some/path")), contents, true);
    assert_eq!(file.is_registered_and_saved(), true);
    assert_eq!(file.is_changed(), false);
}

#[test]
fn fresh_document_is_unchanged_until_edited() {
    let mut file = File::new_empty();
    assert!(file.is_unregistered_and_unchanged());
    assert!(!file.is_changed());

    file.push_row(row("first", 100));
    assert!(!file.is_unregistered_and_unchanged());
    assert!(file.is_changed());
    assert!(!file.is_registered_and_saved());
}

#[test]
fn completed_save_marks_saved_until_the_next_edit() {
    let mut file = File::new_empty();
    file.push_row(row("salary", 250000));
    file.set_path("ledger.mgx".to_string());

    let mut coordinator = SaveCoordinator::new();
    assert!(!coordinator.is_writing());
    coordinator.begin_save(&file);
    assert!(coordinator.is_writing());
    // ... the snapshot is encrypted and written on a worker ...
    coordinator.finish_save(true, &mut file);
    assert!(!coordinator.is_writing());
    assert!(file.is_registered_and_saved());
    assert!(!file.is_changed());

    file.push_row(row("rent", -85000));
    assert!(!file.is_registered_and_saved());
    assert!(file.is_changed());
}

#[test]
fn save_finishing_after_edits_does_not_hide_them() {
    let mut file = File::new_empty();
    file.push_row(row("salary", 250000));
    file.set_path("ledger.mgx".to_string());

    let mut coordinator = SaveCoordinator::new();
    coordinator.begin_save(&file);
    // An edit lands while the worker is still writing the snapshot.
    file.push_row(row("rent", -85000));
    coordinator.finish_save(true, &mut file);
    assert!(!coordinator.is_writing());
    // The write held stale contents: the document must stay changed.
    assert!(!file.is_registered_and_saved());
    assert!(file.is_changed());
}

#[test]
fn failed_save_leaves_the_document_changed() {
    let mut file = File::new_empty();
    file.push_row(row("salary", 250000));
    file.set_path("ledger.mgx".to_string());

    let mut coordinator = SaveCoordinator::new();
    coordinator.begin_save(&file);
    coordinator.finish_save(false, &mut file);
    assert!(!file.is_registered_and_saved());
    assert!(file.is_changed());
}

#[test]
fn direct_mutation_with_explicit_mark() {
    let mut file = File::from_parts(Some("p".to_string()), Csv::default(), true);
    assert!(file.is_registered_and_saved());

    file.contents_mut().rows.push(row("a", 100));
    file.mark_as_unsaved();
    assert!(!file.is_registered_and_saved());
    assert!(file.is_changed());
    assert_eq!(file.contents().rows, vec![row("a", 100)]);
}

#[test]
fn editing_methods_mutate_contents() {
    let mut file = File::new_empty();
    file.push_row(row("a", 100));
    file.push_row(row("c", 300));
    file.insert_row(1, row("b", 200));
    file.replace_row(2, row("c", 350));
    let removed = file.remove_row(0);
    assert_eq!(removed, row("a", 100));
    assert_eq!(file.contents().rows, vec![row("b", 200), row("c", 350)]);
}
