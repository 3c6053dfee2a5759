use std::sync::Mutex;

use polls::poll::{Poll, PollResponse, Selection};
use polls::store::{PollError, PollStore};

fn strings(items: &[&str]) -> Vec<String> {
    items.iter().map(|s| s.to_string()).collect()
}

fn lunch(store: &mut PollStore) -> String {
    store
        .create_poll(
            "Lunch".to_string(),
            "Pick one".to_string(),
            strings(&["Pizza", "Salad"]),
            None,
        )
        .unwrap()
}

fn pizza_yes() -> Vec<Selection> {
    vec![Selection { x: "Pizza".to_string(), y: None, selection: "yes".to_string() }]
}

#[test]
fn create_then_get_returns_the_new_poll() {
    let mut store = PollStore::new();
    let id = lunch(&mut store);
    let p = store.get_poll(&id).unwrap();
    assert_eq!(p.id, id);
    assert_eq!(p.title, "Lunch");
    assert_eq!(p.description, "Pick one");
    assert_eq!(p.x, strings(&["Pizza", "Salad"]));
    assert_eq!(p.y, None);
    assert!(p.responses.is_empty());
}

#[test]
fn append_then_get_shows_the_response() {
    let mut store = PollStore::new();
    let id = lunch(&mut store);
    assert_eq!(store.append_response(&id, "Alice".to_string(), pizza_yes()), Ok(()));
    let p = store.get_poll(&id).unwrap();
    assert_eq!(p.responses.len(), 1);
    assert_eq!(p.responses[0].name, "Alice");
    assert_eq!(p.responses[0].selections.len(), 1);
    assert_eq!(p.responses[0].selections[0].x, "Pizza");
    assert_eq!(p.responses[0].selections[0].y, None);
    assert_eq!(p.responses[0].selections[0].selection, "yes");
}

#[test]
fn get_unknown_id_is_not_found() {
    let mut store = PollStore::new();
    lunch(&mut store);
    let id = "nonexistent-id".to_string();
    let e = store.get_poll(&id).unwrap_err();
    assert_eq!(e, PollError::NotFound);
    assert_eq!(e.message(&id), "No poll with id nonexistent-id");
}

#[test]
fn append_to_unknown_id_changes_nothing() {
    let mut store = PollStore::new();
    let id = lunch(&mut store);
    let missing = "nonexistent-id".to_string();
    assert_eq!(
        store.append_response(&missing, "Bob".to_string(), Vec::new()),
        Err(PollError::NotFound)
    );
    assert_eq!(store.len(), 1);
    assert!(store.get_poll(&id).unwrap().responses.is_empty());
}

#[test]
fn two_creations_under_a_lock_are_both_listed() {
    let store = Mutex::new(PollStore::new());
    let a = lunch(&mut store.lock().unwrap());
    let b = store
        .lock()
        .unwrap()
        .create_poll("Dinner".to_string(), String::new(), Vec::new(), Some(strings(&["Early"])))
        .unwrap();
    assert_ne!(a, b);
    let guard = store.lock().unwrap();
    let ids: Vec<&String> = guard.list_polls().iter().map(|p| &p.id).collect();
    assert_eq!(ids, vec![&a, &b]);
}

#[test]
fn created_ids_are_distinct_hyphenated_uuids() {
    let mut store = PollStore::new();
    let mut ids: Vec<String> = Vec::new();
    for _ in 0..50 {
        let id = lunch(&mut store);
        let chars: Vec<char> = id.chars().collect();
        assert_eq!(chars.len(), 36);
        for (i, c) in chars.iter().enumerate() {
            if i == 8 || i == 13 || i == 18 || i == 23 {
                assert_eq!(*c, '-');
            } else {
                assert!(c.is_ascii_digit() || ('a'..='f').contains(c));
            }
        }
        assert_eq!(chars[14], '4');
        assert!(['8', '9', 'a', 'b'].contains(&chars[19]));
        assert!(!ids.contains(&id));
        ids.push(id);
    }
    assert_eq!(store.len(), 50);
}

#[test]
fn list_holds_exactly_the_created_ids_in_order() {
    let mut store = PollStore::new();
    assert!(store.list_polls().is_empty());
    let a = lunch(&mut store);
    let b = lunch(&mut store);
    store.append_response(&a, "Carol".to_string(), pizza_yes()).unwrap();
    let c = lunch(&mut store);
    let ids: Vec<String> = store.list_polls().iter().map(|p| p.id.clone()).collect();
    assert_eq!(ids, vec![a, b, c]);
}

#[test]
fn appends_are_kept_in_call_order() {
    let mut store = PollStore::new();
    let id = lunch(&mut store);
    let other = lunch(&mut store);
    for name in ["Ann", "Ben", "Ann", "Dee"] {
        store.append_response(&id, name.to_string(), pizza_yes()).unwrap();
    }
    let p = store.get_poll(&id).unwrap();
    let names: Vec<&str> = p.responses.iter().map(|r| r.name.as_str()).collect();
    assert_eq!(names, vec!["Ann", "Ben", "Ann", "Dee"]);
    assert!(store.get_poll(&other).unwrap().responses.is_empty());
}

#[test]
fn selections_are_stored_without_validation() {
    let mut store = PollStore::new();
    let id = lunch(&mut store);
    let odd = vec![
        Selection { x: "Soup".to_string(), y: Some("Late".to_string()), selection: "".to_string() },
        Selection { x: "Pizza".to_string(), y: None, selection: "no".to_string() },
    ];
    store.append_response(&id, String::new(), odd).unwrap();
    let r = &store.get_poll(&id).unwrap().responses[0];
    assert_eq!(r.name, "");
    assert_eq!(r.selections[0].x, "Soup");
    assert_eq!(r.selections[0].y, Some("Late".to_string()));
    assert_eq!(r.selections[1].selection, "no");
}

#[test]
fn empty_categories_are_accepted() {
    let mut store = PollStore::new();
    let id = store.create_poll(String::new(), String::new(), Vec::new(), Some(Vec::new())).unwrap();
    let p = store.get_poll(&id).unwrap();
    assert!(p.x.is_empty());
    assert_eq!(p.y, Some(Vec::new()));
}

#[test]
fn insert_with_a_held_id_is_refused() {
    let mut store = PollStore::new();
    let r = store.insert_poll("alpha".to_string(), "T".to_string(), "D".to_string(), strings(&["a"]), None);
    assert_eq!(r, Ok("alpha".to_string()));
    let again = store.insert_poll("alpha".to_string(), "U".to_string(), String::new(), Vec::new(), None);
    assert_eq!(again, Err(PollError::IdTaken));
    assert_eq!(again.unwrap_err().message("alpha"), "A poll already has id alpha");
    assert_eq!(store.len(), 1);
    assert_eq!(store.get_poll(&"alpha".to_string()).unwrap().title, "T");
}

#[test]
fn lookup_compares_whole_ids() {
    let mut store = PollStore::new();
    store.insert_poll("abc".to_string(), String::new(), String::new(), Vec::new(), None).unwrap();
    store.insert_poll("ab".to_string(), "short".to_string(), String::new(), Vec::new(), None).unwrap();
    assert_eq!(store.get_poll(&"ab".to_string()).unwrap().title, "short");
    assert_eq!(store.get_poll(&"a".to_string()).unwrap_err(), PollError::NotFound);
    assert_eq!(store.get_poll(&String::new()).unwrap_err(), PollError::NotFound);
}

#[test]
fn constructors_keep_their_fields() {
    let p = Poll::new("i".to_string(), "t".to_string(), "d".to_string(), strings(&["x"]), Some(strings(&["y"])));
    assert_eq!(p.id, "i");
    assert_eq!(p.y, Some(strings(&["y"])));
    assert!(p.responses.is_empty());
    let r = PollResponse::new("n".to_string(), pizza_yes());
    assert_eq!(r.name, "n");
    assert_eq!(r.selections.len(), 1);
}
