use todo_store::models::ToDo;
use todo_store::store::{StoreError, ToDoStore, FIRST_ID, SAMPLE_DESCRIPTION, SAMPLE_TITLE};

fn item(id: u32, title: &str, description: &str, done: bool) -> ToDo {
    ToDo { id, title: title.to_string(), description: description.to_string(), done }
}

#[test]
fn new_store_is_empty_and_counts_from_one() {
    let store = ToDoStore::new();
    assert_eq!(store.len(), 0);
    assert_eq!(store.next_id(), 1);
    assert_eq!(FIRST_ID, 1);
    assert_eq!(store.list(), Vec::<ToDo>::new());
}

#[test]
fn buy_milk_scenario() {
    let mut store = ToDoStore::new();
    let created = store.create("Buy milk", "2% milk");
    assert_eq!(created, Ok(item(1, "Buy milk", "2% milk", false)));
    assert_eq!(store.list(), vec![item(1, "Buy milk", "2% milk", false)]);
    assert_eq!(store.get_by_id(1), Ok(item(1, "Buy milk", "2% milk", false)));
    assert_eq!(store.get_by_id(2), Err(StoreError::NotFound));
}

#[test]
fn two_creates_get_one_and_two_in_arrival_order() {
    let mut store = ToDoStore::new();
    let first = store.create("Walk the dog", "").unwrap();
    let second = store.create("Water the plants", "").unwrap();
    assert_eq!((first.id, second.id), (1, 2));
    assert_eq!(
        store.list(),
        vec![item(1, "Walk the dog", "", false), item(2, "Water the plants", "", false)]
    );
}

#[test]
fn two_creates_in_the_other_arrival_order() {
    let mut store = ToDoStore::new();
    let first = store.create("Water the plants", "").unwrap();
    let second = store.create("Walk the dog", "").unwrap();
    let mut ids = vec![first.id, second.id];
    ids.sort();
    assert_eq!(ids, vec![1, 2]);
    assert_eq!(
        store.list(),
        vec![item(1, "Water the plants", "", false), item(2, "Walk the dog", "", false)]
    );
}

#[test]
fn many_creates_get_distinct_ids_without_gaps() {
    let mut store = ToDoStore::with_sample();
    let start = store.next_id();
    assert_eq!(start, 2);
    let mut ids: Vec<u32> = Vec::new();
    for k in 0..100u32 {
        let created = store.create(&format!("task {}", k), "d").unwrap();
        ids.push(created.id);
    }
    let expected: Vec<u32> = (start..start + 100).collect();
    assert_eq!(ids, expected);
    assert_eq!(store.next_id(), start + 100);
    assert_eq!(store.len(), 101);
}

#[test]
fn list_ends_with_the_created_item_and_counts_the_creates() {
    let mut store = ToDoStore::new();
    let mut accepted = 0usize;
    for title in ["a", "", "b", "c", ""] {
        let before = store.list();
        match store.create(title, "x") {
            Ok(created) => {
                accepted += 1;
                let after = store.list();
                assert_eq!(after.last(), Some(&created));
                assert_eq!(&after[..after.len() - 1], &before[..]);
            }
            Err(error) => {
                assert_eq!(error, StoreError::ValidationError);
                assert_eq!(store.list(), before);
            }
        }
        assert_eq!(store.list().len(), accepted);
        assert_eq!(store.len(), accepted);
    }
    assert_eq!(accepted, 3);
}

#[test]
fn get_by_id_returns_what_create_returned() {
    let mut store = ToDoStore::new();
    let a = store.create("a", "first").unwrap();
    let b = store.create("b", "second").unwrap();
    let c = store.create("c", "third").unwrap();
    assert_eq!(store.get_by_id(a.id), Ok(a));
    assert_eq!(store.get_by_id(b.id), Ok(b));
    assert_eq!(store.get_by_id(c.id), Ok(c));
}

#[test]
fn get_by_id_of_an_id_never_created_is_not_found() {
    let mut store = ToDoStore::new();
    assert_eq!(store.get_by_id(1), Err(StoreError::NotFound));
    store.create("a", "").unwrap();
    assert_eq!(store.get_by_id(0), Err(StoreError::NotFound));
    assert_eq!(store.get_by_id(2), Err(StoreError::NotFound));
    assert_eq!(store.get_by_id(u32::MAX), Err(StoreError::NotFound));
}

#[test]
fn empty_title_is_a_validation_error_and_changes_nothing() {
    let mut store = ToDoStore::new();
    store.create("kept", "as it is").unwrap();
    let before = store.list();
    assert_eq!(store.create("", "desc"), Err(StoreError::ValidationError));
    assert_eq!(store.len(), 1);
    assert_eq!(store.next_id(), 2);
    assert_eq!(store.list(), before);
    assert_eq!(store.create("next", "").unwrap().id, 2);
}

#[test]
fn empty_title_on_an_empty_store() {
    let mut store = ToDoStore::new();
    assert_eq!(store.create("", "desc"), Err(StoreError::ValidationError));
    assert_eq!(store.len(), 0);
    assert_eq!(store.next_id(), 1);
}

#[test]
fn description_may_be_empty_and_title_may_be_blank() {
    let mut store = ToDoStore::new();
    assert_eq!(store.create("t", ""), Ok(item(1, "t", "", false)));
    assert_eq!(store.create(" ", "blank is not empty"), Ok(item(2, " ", "blank is not empty", false)));
    assert_eq!(store.create("né", "ünïcödé"), Ok(item(3, "né", "ünïcödé", false)));
}

#[test]
fn the_snapshot_is_a_copy() {
    let mut store = ToDoStore::new();
    store.create("a", "b").unwrap();
    let mut snapshot = store.list();
    snapshot[0].title = "changed".to_string();
    snapshot[0].done = true;
    snapshot.push(item(9, "extra", "", false));
    assert_eq!(store.list(), vec![item(1, "a", "b", false)]);
    let mut found = store.get_by_id(1).unwrap();
    found.id = 7;
    assert_eq!(store.get_by_id(1), Ok(item(1, "a", "b", false)));
    assert_eq!(store.get_by_id(7), Err(StoreError::NotFound));
}

#[test]
fn seeded_store_holds_the_sample() {
    let store = ToDoStore::with_sample();
    assert_eq!(SAMPLE_TITLE, "Read Rocket tutorial");
    assert_eq!(SAMPLE_DESCRIPTION, "Read https://rocket.rs/guide/quickstart/");
    assert_eq!(
        store.list(),
        vec![item(1, "Read Rocket tutorial", "Read https://rocket.rs/guide/quickstart/", false)]
    );
    assert_eq!(store.next_id(), 2);
}

#[test]
fn set_done_changes_the_flag_of_one_item_only() {
    let mut store = ToDoStore::new();
    store.create("a", "x").unwrap();
    store.create("b", "y").unwrap();
    store.create("c", "z").unwrap();
    assert_eq!(store.set_done(2, true), Ok(()));
    assert_eq!(
        store.list(),
        vec![item(1, "a", "x", false), item(2, "b", "y", true), item(3, "c", "z", false)]
    );
    assert_eq!(store.get_by_id(2), Ok(item(2, "b", "y", true)));
    assert_eq!(store.set_done(2, false), Ok(()));
    assert_eq!(store.get_by_id(2), Ok(item(2, "b", "y", false)));
    assert_eq!(store.next_id(), 4);
}

#[test]
fn set_done_of_an_unknown_id_is_not_found() {
    let mut store = ToDoStore::new();
    assert_eq!(store.set_done(1, true), Err(StoreError::NotFound));
    store.create("a", "x").unwrap();
    assert_eq!(store.set_done(2, true), Err(StoreError::NotFound));
    assert_eq!(store.list(), vec![item(1, "a", "x", false)]);
}

#[test]
fn a_young_store_has_room() {
    let mut store = ToDoStore::new();
    assert!(store.has_room());
    store.create("a", "").unwrap();
    assert!(store.has_room());
}

#[test]
fn new_item_is_not_done() {
    assert_eq!(ToDo::new(5, "t", "d"), item(5, "t", "d", false));
}

#[test]
fn clone_keeps_every_field() {
    let original = item(4, "title", "description", true);
    let copy = original.clone();
    assert_eq!(copy, original);
}
