use go22dos::item::{Item, Status};
use go22dos::memory::{deserialize, Memory, MemoryError, MemoryManagement, Serializable};

fn texts(m: &Memory, on: usize) -> Vec<(Status, String)> {
    m.items_of(on)
        .unwrap()
        .into_iter()
        .map(|i| (i.status, i.text))
        .collect()
}

fn ids(m: &Memory) -> Vec<String> {
    m.topic_ids()
}

#[test]
fn read() {
    let mem = deserialize("{\"Home\":[\"1Water plants\"],\"Work\":[\"0Buy milk\",\"1Call back\"]}");
    let mem = mem.unwrap();
    assert_eq!(ids(&mem), vec!["Home".to_string(), "Work".to_string()]);
    assert_eq!(
        texts(&mem, 1),
        vec![(Status::Todo, "Buy milk".to_string()), (Status::Done, "Call back".to_string())]
    );
}

#[test]
fn deserialize_rejects_bad_input() {
    assert!(deserialize("not json").is_none());
    assert!(deserialize("[\"0a\"]").is_none());
    assert!(deserialize("{\"Work\":[\"xBuy milk\"]}").is_none());
    assert!(deserialize("{\"Work\":[\"\"]}").is_none());
    assert!(deserialize("{}").unwrap().topic_count() == 0);
}

#[test]
fn scenario_work_topic() {
    let mut m = Memory::new();
    assert_eq!(m.add_topic("Work".to_string()), Ok(()));
    assert_eq!(ids(&m), vec!["Work".to_string()]);
    assert_eq!(m.item_count(0), Ok(0));
    assert_eq!(m.add_item(0, Item::new(Status::Todo, "Buy milk".to_string())), Ok(()));
    assert_eq!(m.item_count(0), Ok(1));
    let gone = m.delete_item(0, 0).unwrap();
    assert_eq!(gone.text, "Buy milk");
    assert_eq!(m.item_count(0), Ok(0));
    assert_eq!(m.access_item(0, 0).unwrap_err(), MemoryError::ItemNotFound);
}

#[test]
fn add_topic_twice_is_refused() {
    let mut m = Memory::new();
    assert_eq!(m.add_topic("X".to_string()), Ok(()));
    assert_eq!(m.add_topic("X".to_string()), Err(MemoryError::DuplicateTopic));
    assert_eq!(m.topic_count(), 1);
}

#[test]
fn toggle_moves_item_to_end_as_done() {
    let mut m = Memory::new();
    m.add_topic("Shop".to_string()).unwrap();
    m.add_item(0, Item::todo("Buy milk".to_string())).unwrap();
    m.add_item(0, Item::todo("Buy bread".to_string())).unwrap();
    assert_eq!(m.toggle_item(0, 0), Ok(()));
    assert_eq!(
        texts(&m, 0),
        vec![(Status::Todo, "Buy bread".to_string()), (Status::Done, "Buy milk".to_string())]
    );
    assert_eq!(m.toggle_item(0, 1), Ok(()));
    assert_eq!(texts(&m, 0)[1], (Status::Todo, "Buy milk".to_string()));
}

#[test]
fn delete_item_keeps_order_and_empties() {
    let mut m = Memory::new();
    m.add_topic("T".to_string()).unwrap();
    for t in ["a", "b", "c", "d"] {
        m.add_item(0, Item::todo(t.to_string())).unwrap();
    }
    assert_eq!(m.delete_item(0, 1).unwrap().text, "b");
    let left: Vec<String> = texts(&m, 0).into_iter().map(|p| p.1).collect();
    assert_eq!(left, vec!["a".to_string(), "c".to_string(), "d".to_string()]);
    for _ in 0..3 {
        m.delete_item(0, 0).unwrap();
    }
    assert_eq!(m.item_count(0), Ok(0));
    assert_eq!(m.delete_item(0, 0).unwrap_err(), MemoryError::ItemNotFound);
}

#[test]
fn errors_for_missing_positions() {
    let mut m = Memory::new();
    assert_eq!(m.delete_topic(0), Err(MemoryError::TopicNotFound));
    assert_eq!(m.add_item(0, Item::todo("x".to_string())), Err(MemoryError::TopicNotFound));
    assert_eq!(m.delete_item(2, 0).unwrap_err(), MemoryError::TopicNotFound);
    assert_eq!(m.access_item(0, 0).unwrap_err(), MemoryError::TopicNotFound);
    assert_eq!(m.toggle_item(0, 0), Err(MemoryError::TopicNotFound));
    assert_eq!(m.item_count(0), Err(MemoryError::TopicNotFound));
    assert_eq!(m.completion(0), Err(MemoryError::TopicNotFound));
    m.add_topic("T".to_string()).unwrap();
    assert_eq!(m.toggle_item(0, 0), Err(MemoryError::ItemNotFound));
}

#[test]
fn order_follows_keys_through_operations() {
    let mut m = Memory::new();
    for t in ["a", "b", "c"] {
        m.add_topic(t.to_string()).unwrap();
    }
    m.delete_topic(1).unwrap();
    assert_eq!(ids(&m), vec!["a".to_string(), "c".to_string()]);
    assert_eq!(m.position_of(&"c".to_string()), Some(1));
    assert_eq!(m.position_of(&"b".to_string()), None);
    m.add_topic("b".to_string()).unwrap();
    assert_eq!(ids(&m), vec!["a".to_string(), "c".to_string(), "b".to_string()]);
}

#[test]
fn completion_counts_done_items() {
    let mut m = Memory::new();
    m.add_topic("T".to_string()).unwrap();
    assert_eq!(m.completion(0), Ok(None));
    m.add_item(0, Item::todo("a".to_string())).unwrap();
    m.add_item(0, Item::new(Status::Done, "b".to_string())).unwrap();
    m.add_item(0, Item::new(Status::Done, "c".to_string())).unwrap();
    assert_eq!(m.completion(0), Ok(Some((2, 3))));
}

#[test]
fn serialize_writes_json_object() {
    let mut m = Memory::new();
    m.add_topic("Work".to_string()).unwrap();
    m.add_item(0, Item::todo("Buy milk".to_string())).unwrap();
    m.add_item(0, Item::new(Status::Done, "Call".to_string())).unwrap();
    assert_eq!(m.serialize().unwrap(), "{\"Work\":[\"0Buy milk\",\"1Call\"]}");
    assert_eq!(Memory::new().serialize().unwrap(), "{}");
}

#[test]
fn save_then_load_keeps_items() {
    let mut m = Memory::new();
    m.add_topic("Work".to_string()).unwrap();
    m.add_topic("Home".to_string()).unwrap();
    m.add_item(0, Item::todo("Buy milk".to_string())).unwrap();
    m.add_item(1, Item::new(Status::Done, "Cook".to_string())).unwrap();
    m.add_item(1, Item::todo("".to_string())).unwrap();
    let back = deserialize(&m.serialize().unwrap()).unwrap();
    for id in ["Work", "Home"] {
        let a = m.position_of(&id.to_string()).unwrap();
        let b = back.position_of(&id.to_string()).unwrap();
        assert_eq!(texts(&m, a), texts(&back, b));
    }
    assert_eq!(back.topic_count(), 2);
}

#[test]
fn entries_round_trip() {
    let mut m = Memory::new();
    m.add_topic("Work".to_string()).unwrap();
    m.add_item(0, Item::new(Status::Done, "1 starts with a digit".to_string())).unwrap();
    let e = m.to_entries();
    assert_eq!(e, vec![("Work".to_string(), vec!["11 starts with a digit".to_string()])]);
    let back = Memory::from_entries(&e).unwrap();
    assert_eq!(texts(&back, 0), texts(&m, 0));
    let dup = vec![("a".to_string(), vec![]), ("a".to_string(), vec![])];
    assert!(Memory::from_entries(&dup).is_none());
}

#[test]
fn item_text_form() {
    let i = Item::new(Status::Done, "Buy milk".to_string());
    assert_eq!(i.to_text(), "1Buy milk");
    assert_eq!(i.to_stored(), "1Buy milk");
    assert_eq!(Item::todo("".to_string()).to_text(), "0");
    let back = Item::from_text("0Buy milk").unwrap();
    assert_eq!((back.status, back.text), (Status::Todo, "Buy milk".to_string()));
    assert!(Item::from_text("").is_none());
    assert!(Item::from_text("2x").is_none());
    assert_eq!(i.toggled().status, Status::Todo);
}
