use todos::handlers::{todo_index, todos_create, todos_delete, todos_update, Pagination};
use todos::store::Store;
use todos::todo::{ApiError, CreateTodo, Todo, UpdateTodo};

fn create(store: &mut Store, text: &str) -> Todo {
    todos_create(CreateTodo { text: text.to_string() }, store)
}

fn list_all(store: &Store) -> Vec<Todo> {
    todo_index(None, store)
}

fn page(store: &Store, offset: Option<usize>, limit: Option<usize>) -> Vec<Todo> {
    todo_index(Some(Pagination { offset, limit }), store)
}

#[test]
fn created_ids_are_unique_among_live_records() {
    let mut store = Store::new();
    for i in 0..8 {
        create(&mut store, &format!("task {}", i));
    }
    let all = list_all(&store);
    assert_eq!(all.len(), 8);
    for i in 0..all.len() {
        for j in 0..all.len() {
            if i != j {
                assert_ne!(all[i].id, all[j].id);
            }
        }
    }
}

#[test]
fn create_then_list_includes_exactly_that_record() {
    let mut store = Store::new();
    create(&mut store, "first");
    let created = create(&mut store, "second");
    let all = list_all(&store);
    let matching: Vec<&Todo> = all.iter().filter(|t| t.id == created.id).collect();
    assert_eq!(matching.len(), 1);
    assert_eq!(matching[0].text, "second");
    assert!(!matching[0].completed);
}

#[test]
fn update_completed_only_leaves_text_unchanged() {
    let mut store = Store::new();
    let created = create(&mut store, "keep me");
    let updated = todos_update(
        created.id,
        UpdateTodo { text: None, completed: Some(true) },
        &mut store,
    )
    .unwrap();
    assert_eq!(updated.id, created.id);
    assert_eq!(updated.text, "keep me");
    assert!(updated.completed);
}

#[test]
fn update_text_only_leaves_completed_unchanged() {
    let mut store = Store::new();
    let created = create(&mut store, "old text");
    todos_update(created.id, UpdateTodo { text: None, completed: Some(true) }, &mut store)
        .unwrap();
    let updated = todos_update(
        created.id,
        UpdateTodo { text: Some("new text".to_string()), completed: None },
        &mut store,
    )
    .unwrap();
    assert_eq!(updated.id, created.id);
    assert_eq!(updated.text, "new text");
    assert!(updated.completed);
}

#[test]
fn update_with_nothing_supplied_is_a_no_op() {
    let mut store = Store::new();
    let created = create(&mut store, "as is");
    let updated = todos_update(
        created.id,
        UpdateTodo { text: None, completed: None },
        &mut store,
    )
    .unwrap();
    assert_eq!(updated.id, created.id);
    assert_eq!(updated.text, "as is");
    assert!(!updated.completed);
}

#[test]
fn update_nonexistent_id_is_not_found_and_changes_nothing() {
    let mut store = Store::new();
    let created = create(&mut store, "only one");
    let missing = created.id.wrapping_add(1);
    let r = todos_update(
        missing,
        UpdateTodo { text: Some("ghost".to_string()), completed: Some(true) },
        &mut store,
    );
    assert_eq!(r.unwrap_err(), ApiError::NotFound);
    let all = list_all(&store);
    assert_eq!(all.len(), 1);
    assert_eq!(all[0].id, created.id);
    assert_eq!(all[0].text, "only one");
    assert!(!all[0].completed);
}

#[test]
fn delete_then_lookup_shows_absent_and_second_delete_is_not_found() {
    let mut store = Store::new();
    let created = create(&mut store, "short lived");
    assert!(todos_delete(created.id, &mut store).is_ok());
    assert!(store.get(created.id).is_none());
    assert!(list_all(&store).iter().all(|t| t.id != created.id));
    assert_eq!(todos_delete(created.id, &mut store).unwrap_err(), ApiError::NotFound);
}

#[test]
fn delete_nonexistent_id_is_not_found() {
    let mut store = Store::new();
    let created = create(&mut store, "present");
    let r = todos_delete(created.id.wrapping_add(1), &mut store);
    assert_eq!(r.unwrap_err(), ApiError::NotFound);
    assert_eq!(list_all(&store).len(), 1);
}

#[test]
fn pagination_returns_a_slice_of_the_snapshot_order() {
    let mut store = Store::new();
    for i in 0..5 {
        create(&mut store, &format!("task {}", i));
    }
    let all = list_all(&store);
    assert_eq!(all.len(), 5);
    for k in 0..7usize {
        for m in 0..7usize {
            let got = page(&store, Some(k), Some(m));
            let expected = 5usize.saturating_sub(k).min(m);
            assert_eq!(got.len(), expected, "offset={} limit={}", k, m);
            for (idx, t) in got.iter().enumerate() {
                assert_eq!(t.id, all[k + idx].id);
                assert_eq!(t.text, all[k + idx].text);
                assert_eq!(t.completed, all[k + idx].completed);
            }
        }
    }
}

#[test]
fn pagination_defaults_each_field_independently() {
    let mut store = Store::new();
    for i in 0..4 {
        create(&mut store, &format!("task {}", i));
    }
    let all = list_all(&store);
    let skipped = page(&store, Some(1), None);
    assert_eq!(skipped.len(), 3);
    assert_eq!(skipped[0].id, all[1].id);
    let capped = page(&store, None, Some(2));
    assert_eq!(capped.len(), 2);
    assert_eq!(capped[0].id, all[0].id);
    let unpaged = page(&store, None, None);
    assert_eq!(unpaged.len(), 4);
}

#[test]
fn offset_beyond_collection_size_yields_empty() {
    let mut store = Store::new();
    create(&mut store, "a");
    create(&mut store, "b");
    assert!(page(&store, Some(2), None).is_empty());
    assert!(page(&store, Some(100), Some(3)).is_empty());
}

#[test]
fn limit_zero_on_nonempty_store_yields_empty() {
    let mut store = Store::new();
    create(&mut store, "something");
    let got = page(&store, None, Some(0));
    assert!(got.is_empty());
}

#[test]
fn create_patch_delete_list_scenario() {
    let mut store = Store::new();
    let created = create(&mut store, "buy milk");
    assert_eq!(created.text, "buy milk");
    assert!(!created.completed);

    let updated = todos_update(
        created.id,
        UpdateTodo { text: None, completed: Some(true) },
        &mut store,
    )
    .unwrap();
    assert_eq!(updated.id, created.id);
    assert_eq!(updated.text, "buy milk");
    assert!(updated.completed);

    assert!(todos_delete(created.id, &mut store).is_ok());
    assert!(list_all(&store).is_empty());
}

#[test]
fn generated_ids_look_like_version_4_uuids() {
    let mut store = Store::new();
    let created = create(&mut store, "check id");
    let uuid = uuid::Uuid::from_u128(created.id);
    assert_eq!(uuid.get_version_num(), 4);
    assert_ne!(created.id, 0);
}

#[test]
fn store_insert_replaces_under_the_same_id() {
    let mut store = Store::new();
    let created = create(&mut store, "v1");
    let replacement = Todo { id: created.id, text: "v2".to_string(), completed: true };
    store.insert(replacement);
    let all = list_all(&store);
    assert_eq!(all.len(), 1);
    assert_eq!(all[0].text, "v2");
    assert!(all[0].completed);
}

#[test]
fn store_get_returns_a_snapshot_copy() {
    let mut store = Store::new();
    let created = create(&mut store, "look me up");
    let got = store.get(created.id).unwrap();
    assert_eq!(got.id, created.id);
    assert_eq!(got.text, "look me up");
    assert!(!got.completed);
    assert!(store.get(created.id.wrapping_add(1)).is_none());
}

#[test]
fn store_remove_reports_whether_a_record_was_live() {
    let mut store = Store::new();
    let created = create(&mut store, "to remove");
    assert!(store.remove(created.id));
    assert!(!store.remove(created.id));
}

#[test]
fn default_pagination_has_no_offset_and_no_limit() {
    let p = Pagination::default();
    assert!(p.offset.is_none());
    assert!(p.limit.is_none());
}
