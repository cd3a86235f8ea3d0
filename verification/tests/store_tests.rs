use estudent::course::CourseData;
use estudent::store::RevisionStore;

fn course_payload(name: &str) -> CourseData {
    CourseData {
        year: 2024,
        name: name.to_owned(),
        url: name.to_owned(),
        professor: 1,
        discussion: 1,
    }
}

#[test]
fn latest_wins_two_revisions() {
    // Inserting revisions (id=1, t=1, name="Alg I"), (id=1, t=2, name="Algorithms I")
    // leaves exactly the latest payload in the current view.
    let mut store: RevisionStore<CourseData> = RevisionStore::new();
    let id = store
        .insert_revision(None, 1, false, course_payload("Alg I"))
        .unwrap();
    assert_eq!(id, 1);
    store
        .insert_revision(Some(id), 2, false, course_payload("Algorithms I"))
        .unwrap();
    let current = store.current_indices();
    assert_eq!(current.len(), 1);
    let row = store.row(current[0]);
    assert_eq!(row.payload.name, "Algorithms I");
    assert_eq!(row.marker, 2);
}

#[test]
fn latest_wins_many_revisions_and_delete() {
    let mut store: RevisionStore<CourseData> = RevisionStore::new();
    let id = store
        .insert_revision(None, 1, false, course_payload("v1"))
        .unwrap();
    for t in 2..=5u64 {
        store
            .insert_revision(Some(id), t, false, course_payload(&format!("v{}", t)))
            .unwrap();
    }
    let i = store.current_index_for(id).unwrap();
    assert_eq!(store.row(i).payload.name, "v5");
    // Marking the identity deleted removes it from the current view.
    store
        .insert_revision(Some(id), 6, true, course_payload("v5"))
        .unwrap();
    assert!(store.current_index_for(id).is_none());
    assert!(store.current_indices().is_empty());
}

#[test]
fn delete_keeps_history() {
    // Deleting (marking deleted) an identity removes it from the current
    // view, but a direct history query still returns all prior revisions.
    let mut store: RevisionStore<CourseData> = RevisionStore::new();
    let mut id = 0;
    for _ in 0..7 {
        id = store
            .insert_revision(None, 1, false, course_payload("c"))
            .unwrap();
    }
    assert_eq!(id, 7);
    store
        .insert_revision(Some(7), 2, false, course_payload("c2"))
        .unwrap();
    store
        .insert_revision(Some(7), 3, true, course_payload("c2"))
        .unwrap();
    assert!(store.current_index_for(7).is_none());
    let history = store.history_indices(7);
    assert_eq!(history.len(), 3);
    assert_eq!(store.row(history[0]).payload.name, "c");
    assert_eq!(store.row(history[1]).payload.name, "c2");
    assert!(store.row(history[2]).deleted);
    // Other identities stay visible.
    assert_eq!(store.current_indices().len(), 6);
}

#[test]
fn equal_marker_tiebreak_is_insertion_order() {
    // Two revisions of one identity with the same marker: the later
    // insertion wins, deterministically, on every query.
    let mut store: RevisionStore<CourseData> = RevisionStore::new();
    let id = store
        .insert_revision(None, 9, false, course_payload("first"))
        .unwrap();
    store
        .insert_revision(Some(id), 9, false, course_payload("second"))
        .unwrap();
    for _ in 0..3 {
        let i = store.current_index_for(id).unwrap();
        assert_eq!(store.row(i).payload.name, "second");
    }
}

#[test]
fn append_to_missing_identity_is_entry_not_found() {
    let mut store: RevisionStore<CourseData> = RevisionStore::new();
    let r = store.insert_revision(Some(42), 1, false, course_payload("x"));
    assert_eq!(r, Err(estudent::Error::EntryNotFound));
    assert_eq!(store.len(), 0);
}
