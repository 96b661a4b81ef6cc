use go22dos::keys::{APPEND, BG, DELETE, DOWN, ESC, EXIT, GO_TO_TODOS, QUIT, REMOVE, SELECT, SG, TAB, UP};
use go22dos::memory::{Memory, MemoryError, MemoryManagement};
use go22dos::nav::{Action, InputTarget, Navigator, Screen};
use go22dos::item::Status;

fn press(nav: &mut Navigator, mem: &mut Memory, keys: &[i32]) -> Result<Action, MemoryError> {
    let mut last = Ok(Action::Stay);
    for k in keys {
        last = nav.handle_key(mem, *k);
        if last.is_err() {
            return last;
        }
    }
    last
}

fn typed(s: &str) -> Vec<i32> {
    let mut v: Vec<i32> = s.bytes().map(|b| b as i32).collect();
    v.push(ESC);
    v
}

fn with_topics(names: &[&str]) -> (Navigator, Memory) {
    let mut mem = Memory::new();
    for n in names {
        mem.add_topic(n.to_string()).unwrap();
    }
    let mut nav = Navigator::new();
    assert_eq!(nav.handle_key(&mut mem, GO_TO_TODOS), Ok(Action::ShowTopics));
    (nav, mem)
}

#[test]
fn start_screen_keys() {
    let mut mem = Memory::new();
    let mut nav = Navigator::new();
    assert_eq!(nav.handle_key(&mut mem, DOWN), Ok(Action::Stay));
    assert_eq!(nav.screen, Screen::Start);
    assert_eq!(nav.handle_key(&mut mem, QUIT), Ok(Action::Quit));
    assert_eq!(nav.handle_key(&mut mem, GO_TO_TODOS), Ok(Action::ShowTopics));
    assert_eq!(nav.screen, Screen::Topics);
    assert_eq!(nav.handle_key(&mut mem, ESC), Ok(Action::ShowStart));
    assert_eq!(nav.screen, Screen::Start);
}

#[test]
fn moves_stop_at_both_ends() {
    let (mut nav, mut mem) = with_topics(&["a", "b", "c"]);
    assert_eq!(nav.handle_key(&mut mem, UP), Ok(Action::ShowTopics));
    assert_eq!(nav.on_topic, 0);
    press(&mut nav, &mut mem, &[DOWN, DOWN]).unwrap();
    assert_eq!(nav.on_topic, 2);
    press(&mut nav, &mut mem, &[DOWN]).unwrap();
    assert_eq!(nav.on_topic, 2);
    press(&mut nav, &mut mem, &[SG, SG]).unwrap();
    assert_eq!(nav.on_topic, 0);
    press(&mut nav, &mut mem, &[BG]).unwrap();
    assert_eq!(nav.on_topic, 2);
    press(&mut nav, &mut mem, &[SG, DOWN]).unwrap();
    assert_eq!(nav.on_topic, 2);
    assert!(!nav.chord);
}

#[test]
fn item_moves_stop_at_both_ends() {
    let (mut nav, mut mem) = with_topics(&["a"]);
    for t in ["x", "y"] {
        mem.add_item(0, go22dos::item::Item::todo(t.to_string())).unwrap();
    }
    press(&mut nav, &mut mem, &[SELECT]).unwrap();
    assert_eq!(nav.screen, Screen::Items);
    press(&mut nav, &mut mem, &[UP]).unwrap();
    assert_eq!(nav.on_item, 0);
    press(&mut nav, &mut mem, &[DOWN, DOWN, DOWN]).unwrap();
    assert_eq!(nav.on_item, 1);
    press(&mut nav, &mut mem, &[SG, SG]).unwrap();
    assert_eq!(nav.on_item, 0);
}

#[test]
fn typing_a_topic_adds_it() {
    let (mut nav, mut mem) = with_topics(&["a"]);
    press(&mut nav, &mut mem, &[DOWN]).unwrap();
    assert_eq!(nav.handle_key(&mut mem, APPEND), Ok(Action::ShowInput));
    assert_eq!(nav.target, InputTarget::Topic);
    let mut keys = b"Workx".iter().map(|b| *b as i32).collect::<Vec<i32>>();
    keys.push(REMOVE);
    keys.push(ESC);
    assert_eq!(press(&mut nav, &mut mem, &keys), Ok(Action::ShowTopics));
    assert_eq!(mem.topic_ids(), vec!["a".to_string(), "Work".to_string()]);
    assert_eq!(nav.on_topic, 0);
    assert_eq!(nav.screen, Screen::Topics);
}

#[test]
fn backspace_on_empty_input_does_nothing() {
    let (mut nav, mut mem) = with_topics(&[]);
    press(&mut nav, &mut mem, &[APPEND, REMOVE, REMOVE, b'z' as i32]).unwrap();
    assert_eq!(nav.buffer, vec!['z']);
}

#[test]
fn typing_a_duplicate_topic_fails() {
    let (mut nav, mut mem) = with_topics(&["X"]);
    press(&mut nav, &mut mem, &[APPEND]).unwrap();
    assert_eq!(press(&mut nav, &mut mem, &typed("X")), Err(MemoryError::DuplicateTopic));
    assert_eq!(mem.topic_count(), 1);
    assert_eq!(nav.screen, Screen::Input);
}

#[test]
fn items_screen_append_toggle_delete() {
    let (mut nav, mut mem) = with_topics(&["Shop"]);
    assert_eq!(nav.handle_key(&mut mem, SELECT), Ok(Action::ShowItems));
    press(&mut nav, &mut mem, &[APPEND]).unwrap();
    assert_eq!(press(&mut nav, &mut mem, &typed("Buy milk")), Ok(Action::ShowItems));
    press(&mut nav, &mut mem, &[APPEND]).unwrap();
    press(&mut nav, &mut mem, &typed("Bread")).unwrap();
    assert_eq!(mem.item_count(0), Ok(2));
    assert_eq!(nav.handle_key(&mut mem, TAB), Ok(Action::ShowItems));
    let items = mem.items_of(0).unwrap();
    assert_eq!(items[1].text, "Buy milk");
    assert_eq!(items[1].status, Status::Done);
    press(&mut nav, &mut mem, &[DOWN, DELETE]).unwrap();
    assert_eq!(nav.on_item, 0);
    assert_eq!(mem.items_of(0).unwrap()[0].text, "Bread");
    assert_eq!(nav.handle_key(&mut mem, EXIT), Ok(Action::ShowTopics));
    assert_eq!(nav.screen, Screen::Topics);
}

#[test]
fn deleting_from_empty_lists_fails() {
    let (mut nav, mut mem) = with_topics(&[]);
    assert_eq!(nav.handle_key(&mut mem, SELECT), Ok(Action::Stay));
    assert_eq!(nav.handle_key(&mut mem, DELETE), Err(MemoryError::TopicNotFound));
    mem.add_topic("T".to_string()).unwrap();
    press(&mut nav, &mut mem, &[SELECT]).unwrap();
    assert_eq!(nav.handle_key(&mut mem, DELETE), Err(MemoryError::ItemNotFound));
    assert_eq!(nav.handle_key(&mut mem, TAB), Err(MemoryError::ItemNotFound));
}

#[test]
fn deleting_a_topic_resets_selection() {
    let (mut nav, mut mem) = with_topics(&["a", "b", "c"]);
    press(&mut nav, &mut mem, &[BG, DELETE]).unwrap();
    assert_eq!(nav.on_topic, 0);
    assert_eq!(mem.topic_ids(), vec!["a".to_string(), "b".to_string()]);
}
