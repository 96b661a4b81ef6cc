use vstd::prelude::*;
use crate::item::{Item, Status};
use crate::keys::{TAB, ESC, BG, APPEND, DELETE, EXIT, SG, DOWN, UP, QUIT, SELECT, GO_TO_TODOS, REMOVE};
use crate::memory::{ItemView, Memory, MemoryError, MemoryManagement};

verus! {

/// The screen that the keys currently act on.
#[derive(Debug, Clone, Copy, PartialEq, Eq, Structural)]
pub enum Screen {
    Start,
    Topics,
    Items,
    Input,
}

/// What typed text becomes when input ends.
#[derive(Debug, Clone, Copy, PartialEq, Eq, Structural)]
pub enum InputTarget {
    Topic,
    Item,
}

/// What the caller should do after a key: redraw a screen, or save and quit.
#[derive(Debug, Clone, Copy, PartialEq, Eq, Structural)]
pub enum Action {
    Stay,
    ShowStart,
    ShowTopics,
    ShowItems,
    ShowInput,
    Quit,
}

/// A store operation that a key asks for.
pub enum Command {
    Nothing,
    AddTopic(Seq<char>),
    DeleteTopic(int),
    AddItem(int, ItemView),
    DeleteItem(int, int),
    ToggleItem(int, int),
}

/// The navigation state as contracts see it.
pub struct NavView {
    pub screen: Screen,
    pub target: InputTarget,
    pub on_topic: usize,
    pub on_item: usize,
    pub chord: bool,
    pub buffer: Seq<char>,
}

/// The selection state of the key-driven interface.
pub struct Navigator {
    pub screen: Screen,
    pub target: InputTarget,
    /// Selected topic.
    pub on_topic: usize,
    /// Selected item of the open topic.
    pub on_item: usize,
    /// The first key of the jump-to-first chord has been pressed.
    pub chord: bool,
    /// Text typed so far.
    pub buffer: Vec<char>,
}

impl View for Navigator {
    type V = NavView;

    open spec fn view(&self) -> NavView {
        NavView {
            screen: self.screen,
            target: self.target,
            on_topic: self.on_topic,
            on_item: self.on_item,
            chord: self.chord,
            buffer: self.buffer@,
        }
    }
}

/// A selection that is valid for a list of `n` entries: on an entry, or at
/// zero when there is none.
pub open spec fn in_range(sel: usize, n: nat) -> bool {
    (n == 0 && sel == 0) || sel < n
}

pub open spec fn moved_down(sel: usize, n: nat) -> usize {
    if sel + 1 < n { (sel + 1) as usize } else { sel }
}

pub open spec fn moved_up(sel: usize) -> usize {
    if sel > 0 { (sel - 1) as usize } else { sel }
}

pub open spec fn last_of(n: nat) -> usize {
    if n > 0 { (n - 1) as usize } else { 0 }
}

/// The character that a key code types.
pub open spec fn key_char(key: i32) -> char {
    (#[verifier::truncate] (key as u8)) as char
}

/// The number of items of the selected topic, or zero without one.
pub open spec fn open_count(v: NavView, m: Memory) -> nat {
    if v.on_topic < m.order().len() {
        m.contents()[v.on_topic as int].len()
    } else {
        0
    }
}

/// The navigation state fits the store: selections are in range, and an
/// open topic exists.
pub open spec fn fits(v: NavView, m: Memory) -> bool {
    &&& in_range(v.on_topic, m.order().len())
    &&& (v.screen == Screen::Items || (v.screen == Screen::Input && v.target == InputTarget::Item))
        ==> v.on_topic < m.order().len() && in_range(v.on_item, open_count(v, m))
}

/// Moves within a list of `n` entries, with the selection `sel`; `None`
/// for a key that does not move.
pub open spec fn moved(sel: usize, n: nat, key: i32) -> Option<usize> {
    if key == DOWN {
        Some(moved_down(sel, n))
    } else if key == UP {
        Some(moved_up(sel))
    } else if key == BG {
        Some(last_of(n))
    } else {
        None
    }
}

/// What a key does: the next navigation state, the store operation it asks
/// for, and what to show. The state and the action hold once the operation
/// has succeeded.
pub open spec fn plan(v: NavView, topics: nat, items: nat, key: i32) -> (NavView, Command, Action) {
    match v.screen {
        Screen::Start => {
            if key == GO_TO_TODOS {
                (NavView { screen: Screen::Topics, chord: false, ..v }, Command::Nothing, Action::ShowTopics)
            } else if key == QUIT {
                (v, Command::Nothing, Action::Quit)
            } else {
                (v, Command::Nothing, Action::Stay)
            }
        },
        Screen::Topics => {
            if v.chord {
                if key == SG {
                    (NavView { chord: false, on_topic: 0, ..v }, Command::Nothing, Action::ShowTopics)
                } else {
                    (NavView { chord: false, ..v }, Command::Nothing, Action::Stay)
                }
            } else if key == SG {
                (NavView { chord: true, ..v }, Command::Nothing, Action::Stay)
            } else if moved(v.on_topic, topics, key) is Some {
                (
                    NavView { on_topic: moved(v.on_topic, topics, key)->Some_0, ..v },
                    Command::Nothing,
                    Action::ShowTopics,
                )
            } else if key == SELECT {
                if v.on_topic < topics {
                    (NavView { screen: Screen::Items, on_item: 0, ..v }, Command::Nothing, Action::ShowItems)
                } else {
                    (v, Command::Nothing, Action::Stay)
                }
            } else if key == APPEND {
                (
                    NavView { screen: Screen::Input, target: InputTarget::Topic, buffer: Seq::empty(), ..v },
                    Command::Nothing,
                    Action::ShowInput,
                )
            } else if key == DELETE {
                (NavView { on_topic: 0, ..v }, Command::DeleteTopic(v.on_topic as int), Action::ShowTopics)
            } else if key == ESC || key == EXIT {
                (NavView { screen: Screen::Start, ..v }, Command::Nothing, Action::ShowStart)
            } else {
                (v, Command::Nothing, Action::Stay)
            }
        },
        Screen::Items => {
            if v.chord {
                if key == SG {
                    (NavView { chord: false, on_item: 0, ..v }, Command::Nothing, Action::ShowItems)
                } else {
                    (NavView { chord: false, ..v }, Command::Nothing, Action::Stay)
                }
            } else if key == SG {
                (NavView { chord: true, ..v }, Command::Nothing, Action::Stay)
            } else if moved(v.on_item, items, key) is Some {
                (
                    NavView { on_item: moved(v.on_item, items, key)->Some_0, ..v },
                    Command::Nothing,
                    Action::ShowItems,
                )
            } else if key == TAB {
                (v, Command::ToggleItem(v.on_topic as int, v.on_item as int), Action::ShowItems)
            } else if key == APPEND {
                (
                    NavView { screen: Screen::Input, target: InputTarget::Item, buffer: Seq::empty(), ..v },
                    Command::Nothing,
                    Action::ShowInput,
                )
            } else if key == DELETE {
                (
                    NavView { on_item: 0, ..v },
                    Command::DeleteItem(v.on_topic as int, v.on_item as int),
                    Action::ShowItems,
                )
            } else if key == ESC || key == EXIT {
                (NavView { screen: Screen::Topics, ..v }, Command::Nothing, Action::ShowTopics)
            } else {
                (v, Command::Nothing, Action::Stay)
            }
        },
        Screen::Input => {
            if key == ESC {
                match v.target {
                    InputTarget::Topic => (
                        NavView { screen: Screen::Topics, on_topic: 0, buffer: Seq::empty(), ..v },
                        Command::AddTopic(v.buffer),
                        Action::ShowTopics,
                    ),
                    InputTarget::Item => (
                        NavView { screen: Screen::Items, on_item: 0, buffer: Seq::empty(), ..v },
                        Command::AddItem(v.on_topic as int, (Status::Todo, v.buffer)),
                        Action::ShowItems,
                    ),
                }
            } else if key == REMOVE {
                (
                    NavView {
                        buffer: if v.buffer.len() > 0 { v.buffer.drop_last() } else { v.buffer },
                        ..v
                    },
                    Command::Nothing,
                    Action::ShowInput,
                )
            } else {
                (NavView { buffer: v.buffer.push(key_char(key)), ..v }, Command::Nothing, Action::ShowInput)
            }
        },
    }
}

/// The error with which a store operation fails on a store, if it does.
pub open spec fn command_error(m: Memory, c: Command) -> Option<MemoryError> {
    match c {
        Command::Nothing => None,
        Command::AddTopic(id) => if m.order().contains(id) {
            Some(MemoryError::DuplicateTopic)
        } else {
            None
        },
        Command::DeleteTopic(t) | Command::AddItem(t, _) => if 0 <= t < m.order().len() {
            None
        } else {
            Some(MemoryError::TopicNotFound)
        },
        Command::DeleteItem(t, i) | Command::ToggleItem(t, i) => if !(0 <= t < m.order().len()) {
            Some(MemoryError::TopicNotFound)
        } else if !(0 <= i < m.contents()[t].len()) {
            Some(MemoryError::ItemNotFound)
        } else {
            None
        },
    }
}

/// The store `after` is what a successful operation makes of `before`.
pub open spec fn command_applied(before: Memory, after: Memory, c: Command) -> bool {
    let o = before.order();
    let s = before.contents();
    match c {
        Command::Nothing => after.order() == o && after.contents() == s,
        Command::AddTopic(id) => after.order() == o.push(id) && after.contents() == s.push(Seq::empty()),
        Command::DeleteTopic(t) => after.order() == o.remove(t) && after.contents() == s.remove(t),
        Command::AddItem(t, iv) => after.order() == o && after.contents() == s.update(t, s[t].push(iv)),
        Command::DeleteItem(t, i) => after.order() == o && after.contents() == s.update(t, s[t].remove(i)),
        Command::ToggleItem(t, i) => after.order() == o && after.contents() == s.update(
            t,
            s[t].remove(i).push((s[t][i].0.flipped(), s[t][i].1)),
        ),
    }
}

/// Relies on std's `String: FromIterator<&char>` (through `collect`): the
/// text holds the characters in their order.
#[verifier::external_body]
fn string_of(cs: &Vec<char>) -> (r: String)
    ensures
        r@ == cs@,
{
    cs.iter().collect::<String>()
}

impl Navigator {
    /// The start screen, with nothing selected or typed.
    pub fn new() -> (r: Navigator)
        ensures
            r@ == (NavView {
                screen: Screen::Start,
                target: InputTarget::Topic,
                on_topic: 0,
                on_item: 0,
                chord: false,
                buffer: Seq::empty(),
            }),
    {
        Navigator {
            screen: Screen::Start,
            target: InputTarget::Topic,
            on_topic: 0,
            on_item: 0,
            chord: false,
            buffer: Vec::new(),
        }
    }
}


impl Navigator {
    /// Moves a selection within a list of `n` entries.
    fn move_in(sel: usize, n: usize, key: i32) -> (r: Option<usize>)
        requires
            in_range(sel, n as nat),
        ensures
            r == moved(sel, n as nat, key),
            r matches Some(x) ==> in_range(x, n as nat),
    {
        if key == DOWN {
            if n > 0 && sel < n - 1 {
                Some(sel + 1)
            } else {
                Some(sel)
            }
        } else if key == UP {
            if sel > 0 {
                Some(sel - 1)
            } else {
                Some(sel)
            }
        } else if key == BG {
            if n > 0 {
                Some(n - 1)
            } else {
                Some(0)
            }
        } else {
            None
        }
    }

    /// Handles one key: changes the selection, runs the store operation that
    /// the key asks for, and says what to show. A failed store operation
    /// leaves the store and the navigation state as they were.
    pub fn handle_key(&mut self, mem: &mut Memory, key: i32) -> (r: Result<Action, MemoryError>)
        requires
            old(mem).wf(),
            fits(old(self)@, *old(mem)),
        ensures
            final(mem).wf(),
            fits(final(self)@, *final(mem)),
            command_error(
                *old(mem),
                plan(old(self)@, old(mem).order().len(), open_count(old(self)@, *old(mem)), key).1,
            ) matches Some(e) ==> r == Err::<Action, MemoryError>(e) && final(self)@ == old(self)@
                && command_applied(*old(mem), *final(mem), Command::Nothing),
            command_error(
                *old(mem),
                plan(old(self)@, old(mem).order().len(), open_count(old(self)@, *old(mem)), key).1,
            ) is None ==> r == Ok::<Action, MemoryError>(
                plan(old(self)@, old(mem).order().len(), open_count(old(self)@, *old(mem)), key).2,
            ) && final(self)@ == plan(
                old(self)@,
                old(mem).order().len(),
                open_count(old(self)@, *old(mem)),
                key,
            ).0 && command_applied(
                *old(mem),
                *final(mem),
                plan(old(self)@, old(mem).order().len(), open_count(old(self)@, *old(mem)), key).1,
            ),
    {
        proof {
            mem.lemma_wf();
        }
        let topics = mem.topic_count();
        match self.screen {
            Screen::Start => {
                if key == GO_TO_TODOS {
                    self.screen = Screen::Topics;
                    self.chord = false;
                    Ok(Action::ShowTopics)
                } else if key == QUIT {
                    Ok(Action::Quit)
                } else {
                    Ok(Action::Stay)
                }
            },
            Screen::Topics => {
                if self.chord {
                    self.chord = false;
                    if key == SG {
                        self.on_topic = 0;
                        return Ok(Action::ShowTopics);
                    }
                    return Ok(Action::Stay);
                }
                if key == SG {
                    self.chord = true;
                    return Ok(Action::Stay);
                }
                match Self::move_in(self.on_topic, topics, key) {
                    Some(x) => {
                        self.on_topic = x;
                        return Ok(Action::ShowTopics);
                    },
                    None => {},
                }
                if key == SELECT {
                    if self.on_topic < topics {
                        self.screen = Screen::Items;
                        self.on_item = 0;
                        Ok(Action::ShowItems)
                    } else {
                        Ok(Action::Stay)
                    }
                } else if key == APPEND {
                    self.screen = Screen::Input;
                    self.target = InputTarget::Topic;
                    self.buffer = Vec::new();
                    Ok(Action::ShowInput)
                } else if key == DELETE {
                    match mem.delete_topic(self.on_topic) {
                        Ok(()) => {
                            self.on_topic = 0;
                            Ok(Action::ShowTopics)
                        },
                        Err(e) => Err(e),
                    }
                } else if key == ESC || key == EXIT {
                    self.screen = Screen::Start;
                    Ok(Action::ShowStart)
                } else {
                    Ok(Action::Stay)
                }
            },
            Screen::Items => {
                let items = match mem.item_count(self.on_topic) {
                    Ok(n) => n,
                    Err(e) => {
                        return Err(e);
                    },
                };
                assert(items == open_count(self@, *mem));
                if self.chord {
                    self.chord = false;
                    if key == SG {
                        self.on_item = 0;
                        return Ok(Action::ShowItems);
                    }
                    return Ok(Action::Stay);
                }
                if key == SG {
                    self.chord = true;
                    return Ok(Action::Stay);
                }
                match Self::move_in(self.on_item, items, key) {
                    Some(x) => {
                        self.on_item = x;
                        return Ok(Action::ShowItems);
                    },
                    None => {},
                }
                if key == TAB {
                    match mem.toggle_item(self.on_topic, self.on_item) {
                        Ok(()) => Ok(Action::ShowItems),
                        Err(e) => Err(e),
                    }
                } else if key == APPEND {
                    self.screen = Screen::Input;
                    self.target = InputTarget::Item;
                    self.buffer = Vec::new();
                    Ok(Action::ShowInput)
                } else if key == DELETE {
                    match mem.delete_item(self.on_topic, self.on_item) {
                        Ok(_) => {
                            self.on_item = 0;
                            Ok(Action::ShowItems)
                        },
                        Err(e) => Err(e),
                    }
                } else if key == ESC || key == EXIT {
                    self.screen = Screen::Topics;
                    Ok(Action::ShowTopics)
                } else {
                    Ok(Action::Stay)
                }
            },
            Screen::Input => {
                if key == ESC {
                    let text = string_of(&self.buffer);
                    match self.target {
                        InputTarget::Topic => {
                            match mem.add_topic(text) {
                                Ok(()) => {
                                    self.screen = Screen::Topics;
                                    self.on_topic = 0;
                                    self.buffer = Vec::new();
                                    Ok(Action::ShowTopics)
                                },
                                Err(e) => Err(e),
                            }
                        },
                        InputTarget::Item => {
                            match mem.add_item(self.on_topic, Item::todo(text)) {
                                Ok(()) => {
                                    self.screen = Screen::Items;
                                    self.on_item = 0;
                                    self.buffer = Vec::new();
                                    Ok(Action::ShowItems)
                                },
                                Err(e) => Err(e),
                            }
                        },
                    }
                } else if key == REMOVE {
                    if self.buffer.len() > 0 {
                        self.buffer.pop();
                    }
                    Ok(Action::ShowInput)
                } else {
                    self.buffer.push((#[verifier::truncate] (key as u8)) as char);
                    Ok(Action::ShowInput)
                }
            },
        }
    }
}


/// Adding a topic under an identifier that was just added fails with
/// `DuplicateTopic`, and the failed call leaves the number of topics as it was.
pub proof fn lemma_add_topic_twice(first: Memory, second: Memory, third: Memory, id: Seq<char>)
    requires
        first.wf(),
        command_error(first, Command::AddTopic(id)) is None,
        command_applied(first, second, Command::AddTopic(id)),
        command_applied(second, third, Command::Nothing),
    ensures
        command_error(second, Command::AddTopic(id)) == Some(MemoryError::DuplicateTopic),
        third.order().len() == second.order().len(),
        second.order().len() == first.order().len() + 1,
{
    assert(second.order()[first.order().len() as int] == id);
}

/// Moving down from the last entry, or up from the first, leaves the
/// selection where it is.
pub proof fn lemma_moves_stop_at_ends(v: NavView, topics: nat, items: nat)
    requires
        !v.chord,
    ensures
        v.screen == Screen::Topics && topics > 0 && v.on_topic == topics - 1 ==> plan(v, topics, items, DOWN).0 == v,
        v.screen == Screen::Topics && v.on_topic == 0 ==> plan(v, topics, items, UP).0 == v,
        v.screen == Screen::Items && items > 0 && v.on_item == items - 1 ==> plan(v, topics, items, DOWN).0 == v,
        v.screen == Screen::Items && v.on_item == 0 ==> plan(v, topics, items, UP).0 == v,
{
}

} // verus!
