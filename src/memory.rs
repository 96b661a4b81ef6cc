use vstd::prelude::*;
use crate::item::{Item, Status, item_text, item_of_text};
use crate::json::{entries_view, entries_map, keys_of, json_object_text, json_object_members, write_object, read_object};

verus! {

/// Why a store operation failed.
#[derive(Debug, Clone, Copy, PartialEq, Eq, Structural)]
pub enum MemoryError {
    TopicNotFound,
    ItemNotFound,
    DuplicateTopic,
    EncodingError,
    IoError,
}

/// What an item looks like to a contract: its status and its text.
pub type ItemView = (Status, Seq<char>);

/// Values that have a stored text form.
pub trait Serializable: Sized {
    spec fn text_form(&self) -> Seq<char>;

    fn to_stored(&self) -> (r: String)
        ensures
            r@ == self.text_form(),
    ;
}

impl Serializable for Item {
    open spec fn text_form(&self) -> Seq<char> {
        item_text(self@)
    }

    fn to_stored(&self) -> (r: String) {
        self.to_text()
    }
}

/// The topics of a to-do list, each with its ordered items.
///
/// `idxs` is the display order of the topic identifiers and `data[i]` holds
/// the items of the topic `idxs[i]`; no identifier occurs twice.
#[derive(Debug, Clone)]
pub struct Memory {
    idxs: Vec<String>,
    data: Vec<Vec<Item>>,
}

/// Store operations that address topics and items by position.
pub trait MemoryManagement: Sized {
    /// The store is well formed.
    spec fn wf(&self) -> bool;

    /// Topic identifiers in display order.
    spec fn order(&self) -> Seq<Seq<char>>;

    /// The items of each topic, position for position with `order`.
    spec fn contents(&self) -> Seq<Seq<ItemView>>;

    /// In a well-formed store every topic has its item sequence, and no
    /// identifier occurs twice in the display order.
    proof fn lemma_wf(&self)
        requires
            self.wf(),
        ensures
            self.order().len() == self.contents().len(),
            self.order().no_duplicates(),
    ;

    /// Appends a new, empty topic; fails if the identifier is taken.
    fn add_topic(&mut self, topic_id: String) -> (r: Result<(), MemoryError>)
        requires
            old(self).wf(),
        ensures
            final(self).wf(),
            r is Err <==> old(self).order().contains(topic_id@),
            r is Err ==> r == Err::<(), MemoryError>(MemoryError::DuplicateTopic)
                && final(self).order() == old(self).order()
                && final(self).contents() == old(self).contents(),
            r is Ok ==> final(self).order() == old(self).order().push(topic_id@)
                && final(self).contents() == old(self).contents().push(Seq::empty()),
    ;

    /// Removes the topic at a position, with all its items.
    fn delete_topic(&mut self, on: usize) -> (r: Result<(), MemoryError>)
        requires
            old(self).wf(),
        ensures
            final(self).wf(),
            r is Err <==> on >= old(self).order().len(),
            r is Err ==> r == Err::<(), MemoryError>(MemoryError::TopicNotFound)
                && final(self).order() == old(self).order()
                && final(self).contents() == old(self).contents(),
            r is Ok ==> final(self).order() == old(self).order().remove(on as int)
                && final(self).contents() == old(self).contents().remove(on as int),
    ;

    /// Appends an item to the topic at a position.
    fn add_item(&mut self, on: usize, item: Item) -> (r: Result<(), MemoryError>)
        requires
            old(self).wf(),
        ensures
            final(self).wf(),
            final(self).order() == old(self).order(),
            r is Err <==> on >= old(self).order().len(),
            r is Err ==> r == Err::<(), MemoryError>(MemoryError::TopicNotFound)
                && final(self).contents() == old(self).contents(),
            r is Ok ==> final(self).contents() == old(self).contents().update(
                on as int,
                old(self).contents()[on as int].push(item@),
            ),
    ;

    /// Removes and returns the item at a position of a topic; the others keep
    /// their order.
    fn delete_item(&mut self, on_topic: usize, on_item: usize) -> (r: Result<Item, MemoryError>)
        requires
            old(self).wf(),
        ensures
            final(self).wf(),
            final(self).order() == old(self).order(),
            on_topic >= old(self).order().len() ==> r == Err::<Item, MemoryError>(
                MemoryError::TopicNotFound,
            ),
            on_topic < old(self).order().len() && on_item >= old(self).contents()[on_topic as int].len()
                ==> r == Err::<Item, MemoryError>(MemoryError::ItemNotFound),
            on_topic < old(self).order().len() && on_item < old(self).contents()[on_topic as int].len()
                ==> r is Ok,
            r is Err ==> final(self).contents() == old(self).contents(),
            r matches Ok(it) ==> on_topic < old(self).order().len()
                && on_item < old(self).contents()[on_topic as int].len()
                && it@ == old(self).contents()[on_topic as int][on_item as int]
                && final(self).contents() == old(self).contents().update(
                    on_topic as int,
                    old(self).contents()[on_topic as int].remove(on_item as int),
                ),
    ;

    /// A copy of the item at a position of a topic.
    fn access_item(&self, on_topic: usize, on_item: usize) -> (r: Result<Item, MemoryError>)
        requires
            self.wf(),
        ensures
            on_topic >= self.order().len() ==> r == Err::<Item, MemoryError>(
                MemoryError::TopicNotFound,
            ),
            on_topic < self.order().len() && on_item >= self.contents()[on_topic as int].len()
                ==> r == Err::<Item, MemoryError>(MemoryError::ItemNotFound),
            on_topic < self.order().len() && on_item < self.contents()[on_topic as int].len() ==> r is Ok,
            r matches Ok(it) ==> on_topic < self.order().len()
                && on_item < self.contents()[on_topic as int].len()
                && it@ == self.contents()[on_topic as int][on_item as int],
    ;
}

impl MemoryManagement for Memory {
    closed spec fn wf(&self) -> bool {
        &&& self.idxs@.len() == self.data@.len()
        &&& self.order().no_duplicates()
    }

    closed spec fn order(&self) -> Seq<Seq<char>> {
        self.idxs@.map_values(|s: String| s@)
    }

    closed spec fn contents(&self) -> Seq<Seq<ItemView>> {
        self.data@.map_values(|v: Vec<Item>| v@.map_values(|i: Item| i@))
    }

    proof fn lemma_wf(&self) {
    }

    fn add_topic(&mut self, topic_id: String) -> (r: Result<(), MemoryError>) {
        match self.position_of(&topic_id) {
            Some(_) => Err(MemoryError::DuplicateTopic),
            None => {
                let ghost old_order = self.order();
                let empty: Vec<Item> = Vec::new();
                assert(empty@.map_values(|i: Item| i@) =~= Seq::<ItemView>::empty());
                self.idxs.push(topic_id);
                self.data.push(empty);
                assert(self.order() =~= old_order.push(topic_id@));
                assert(self.contents() =~= old(self).contents().push(Seq::empty()));
                assert(self.order().no_duplicates());
                Ok(())
            }
        }
    }

    fn delete_topic(&mut self, on: usize) -> (r: Result<(), MemoryError>) {
        if on >= self.idxs.len() {
            return Err(MemoryError::TopicNotFound);
        }
        let ghost old_order = self.order();
        self.idxs.remove(on);
        self.data.remove(on);
        assert(self.order() =~= old_order.remove(on as int));
        assert(self.contents() =~= old(self).contents().remove(on as int));
        proof {
            lemma_remove_keeps_distinct(old_order, on as int);
        }
        Ok(())
    }

    fn add_item(&mut self, on: usize, item: Item) -> (r: Result<(), MemoryError>) {
        if on >= self.data.len() {
            return Err(MemoryError::TopicNotFound);
        }
        let ghost iv = item@;
        let mut items = self.data.remove(on);
        assert(items@.map_values(|i: Item| i@) == old(self).contents()[on as int]);
        items.push(item);
        assert(items@.map_values(|i: Item| i@) =~= old(self).contents()[on as int].push(iv));
        self.data.insert(on, items);
        assert(self.order() =~= old(self).order());
        assert(self.contents() =~= old(self).contents().update(
            on as int,
            old(self).contents()[on as int].push(iv),
        ));
        Ok(())
    }

    fn delete_item(&mut self, on_topic: usize, on_item: usize) -> (r: Result<Item, MemoryError>) {
        if on_topic >= self.data.len() {
            return Err(MemoryError::TopicNotFound);
        }
        if on_item >= self.data[on_topic].len() {
            return Err(MemoryError::ItemNotFound);
        }
        let mut items = self.data.remove(on_topic);
        assert(items@.map_values(|i: Item| i@) == old(self).contents()[on_topic as int]);
        let it = items.remove(on_item);
        assert(items@.map_values(|i: Item| i@) =~= old(self).contents()[on_topic as int].remove(
            on_item as int,
        ));
        self.data.insert(on_topic, items);
        assert(self.order() =~= old(self).order());
        assert(self.contents() =~= old(self).contents().update(
            on_topic as int,
            old(self).contents()[on_topic as int].remove(on_item as int),
        ));
        Ok(it)
    }

    fn access_item(&self, on_topic: usize, on_item: usize) -> (r: Result<Item, MemoryError>) {
        if on_topic >= self.data.len() {
            return Err(MemoryError::TopicNotFound);
        }
        if on_item >= self.data[on_topic].len() {
            return Err(MemoryError::ItemNotFound);
        }
        Ok(self.data[on_topic][on_item].duplicate())
    }
}

/// Removing one element of a sequence without duplicates leaves none.
proof fn lemma_remove_keeps_distinct(s: Seq<Seq<char>>, i: int)
    requires
        s.no_duplicates(),
        0 <= i < s.len(),
    ensures
        s.remove(i).no_duplicates(),
{
    let r = s.remove(i);
    assert forall|a: int, b: int| 0 <= a < r.len() && 0 <= b < r.len() && a != b implies r[a] != r[b] by {
        let sa = if a < i { a } else { a + 1 };
        let sb = if b < i { b } else { b + 1 };
        assert(r[a] == s[sa]);
        assert(r[b] == s[sb]);
    }
}

impl Memory {
    /// An empty store.
    pub fn new() -> (r: Memory)
        ensures
            r.wf(),
            r.order() == Seq::<Seq<char>>::empty(),
            r.contents() == Seq::<Seq<ItemView>>::empty(),
    {
        let r = Memory { idxs: Vec::new(), data: Vec::new() };
        assert(r.order() =~= Seq::<Seq<char>>::empty());
        assert(r.contents() =~= Seq::<Seq<ItemView>>::empty());
        r
    }

    /// The position of a topic identifier in the display order.
    pub fn position_of(&self, topic_id: &String) -> (r: Option<usize>)
        requires
            self.wf(),
        ensures
            r is None <==> !self.order().contains(topic_id@),
            r matches Some(i) ==> i < self.order().len() && self.order()[i as int] == topic_id@,
    {
        let mut i: usize = 0;
        while i < self.idxs.len()
            invariant
                i <= self.idxs@.len(),
                forall|j: int| 0 <= j < i ==> self.order()[j] != topic_id@,
            decreases self.idxs@.len() - i,
        {
            let same = self.idxs[i].eq(topic_id);
            assert(self.order()[i as int] == self.idxs@[i as int]@);
            if same {
                return Some(i);
            }
            i += 1;
        }
        None
    }
}


/// The number of done items in a sequence.
pub open spec fn done_count(s: Seq<ItemView>) -> nat
    decreases s.len(),
{
    if s.len() == 0 {
        0
    } else {
        done_count(s.drop_last()) + if s.last().0 == Status::Done { 1nat } else { 0nat }
    }
}

/// Every stored string of the list decodes to an item.
pub open spec fn all_decode(ts: Seq<Seq<char>>) -> bool {
    forall|j: int| 0 <= j < ts.len() ==> (#[trigger] item_of_text(ts[j])) is Some
}

/// The stored strings are, one for one, the stored forms of the items.
pub open spec fn texts_decode_to(ts: Seq<Seq<char>>, vs: Seq<ItemView>) -> bool {
    &&& ts.len() == vs.len()
    &&& forall|j: int| 0 <= j < ts.len() ==> #[trigger] item_of_text(ts[j]) == Some(vs[j])
}

/// A list of stored entries from which a store can be built: distinct
/// topic identifiers, and every item readable.
pub open spec fn loadable(ev: Seq<(Seq<char>, Seq<Seq<char>>)>) -> bool {
    &&& keys_of(ev).no_duplicates()
    &&& forall|i: int| 0 <= i < ev.len() ==> all_decode(#[trigger] ev[i].1)
}

/// A store with this order and these contents is what the entries describe.
pub open spec fn loads_as(
    ev: Seq<(Seq<char>, Seq<Seq<char>>)>,
    order: Seq<Seq<char>>,
    contents: Seq<Seq<ItemView>>,
) -> bool {
    &&& order == keys_of(ev)
    &&& contents.len() == ev.len()
    &&& forall|i: int| 0 <= i < ev.len() ==> texts_decode_to(#[trigger] ev[i].1, contents[i])
}

/// The mapping from topic identifier to its items.
pub open spec fn mapping(m: Memory) -> Map<Seq<char>, Seq<ItemView>> {
    Map::new(
        |k: Seq<char>| m.order().contains(k),
        |k: Seq<char>| m.contents()[m.order().index_of(k)],
    )
}

/// What a store writes out: each topic with the stored forms of its items,
/// in display order.
pub open spec fn stored_entries(m: Memory) -> Seq<(Seq<char>, Seq<Seq<char>>)> {
    Seq::new(
        m.order().len(),
        |i: int| (m.order()[i], m.contents()[i].map_values(|v: ItemView| item_text(v))),
    )
}

/// Reads the stored strings of one topic.
pub fn decode_items(texts: &Vec<String>) -> (r: Option<Vec<Item>>)
    ensures
        r is Some <==> all_decode(texts@.map_values(|s: String| s@)),
        r matches Some(v) ==> texts_decode_to(
            texts@.map_values(|s: String| s@),
            v@.map_values(|i: Item| i@),
        ),
{
    let ghost ts = texts@.map_values(|s: String| s@);
    let mut out: Vec<Item> = Vec::new();
    let mut j: usize = 0;
    while j < texts.len()
        invariant
            j <= texts@.len(),
            ts == texts@.map_values(|s: String| s@),
            out@.len() == j,
            forall|k: int| 0 <= k < j ==> #[trigger] item_of_text(ts[k]) == Some(out@[k]@),
        decreases texts@.len() - j,
    {
        match Item::from_text(texts[j].as_str()) {
            Some(it) => {
                out.push(it);
            },
            None => {
                assert(item_of_text(ts[j as int]) is None);
                return None;
            },
        }
        j += 1;
    }
    assert(forall|k: int| 0 <= k < ts.len() ==> item_of_text(ts[k]) == Some(
        out@.map_values(|i: Item| i@)[k],
    ));
    Some(out)
}

impl Memory {
    /// Moves the item at a position of a topic to the end of that topic with
    /// its status flipped and its text kept.
    pub fn toggle_item(&mut self, on_topic: usize, on_item: usize) -> (r: Result<(), MemoryError>)
        requires
            old(self).wf(),
        ensures
            final(self).wf(),
            final(self).order() == old(self).order(),
            on_topic >= old(self).order().len() ==> r == Err::<(), MemoryError>(
                MemoryError::TopicNotFound,
            ),
            on_topic < old(self).order().len() && on_item >= old(self).contents()[on_topic as int].len()
                ==> r == Err::<(), MemoryError>(MemoryError::ItemNotFound),
            on_topic < old(self).order().len() && on_item < old(self).contents()[on_topic as int].len()
                ==> r is Ok,
            r is Err ==> final(self).contents() == old(self).contents(),
            r is Ok ==> on_topic < old(self).order().len()
                && on_item < old(self).contents()[on_topic as int].len()
                && final(self).contents() == old(self).contents().update(
                    on_topic as int,
                    old(self).contents()[on_topic as int].remove(on_item as int).push(
                        (
                            old(self).contents()[on_topic as int][on_item as int].0.flipped(),
                            old(self).contents()[on_topic as int][on_item as int].1,
                        ),
                    ),
                ),
    {
        proof {
            self.lemma_wf();
        }
        let item = self.access_item(on_topic, on_item)?;
        let _removed = self.delete_item(on_topic, on_item);
        let r = self.add_item(on_topic, item.toggled());
        proof {
            self.lemma_wf();
        }
        r
    }

    /// The number of topics.
    pub fn topic_count(&self) -> (r: usize)
        requires
            self.wf(),
        ensures
            r == self.order().len(),
    {
        self.idxs.len()
    }

    /// The number of items of the topic at a position.
    pub fn item_count(&self, on: usize) -> (r: Result<usize, MemoryError>)
        requires
            self.wf(),
        ensures
            on >= self.order().len() ==> r == Err::<usize, MemoryError>(MemoryError::TopicNotFound),
            on < self.order().len() ==> (r matches Ok(n) && n == self.contents()[on as int].len()),
    {
        if on >= self.data.len() {
            return Err(MemoryError::TopicNotFound);
        }
        Ok(self.data[on].len())
    }

    /// The topic identifiers in display order.
    pub fn topic_ids(&self) -> (r: Vec<String>)
        requires
            self.wf(),
        ensures
            r@.map_values(|s: String| s@) == self.order(),
    {
        let mut out: Vec<String> = Vec::new();
        let mut i: usize = 0;
        while i < self.idxs.len()
            invariant
                i <= self.idxs@.len(),
                out@.len() == i,
                forall|k: int| 0 <= k < i ==> #[trigger] out@[k]@ == self.idxs@[k]@,
            decreases self.idxs@.len() - i,
        {
            out.push(self.idxs[i].clone());
            i += 1;
        }
        assert(out@.map_values(|s: String| s@) =~= self.order());
        out
    }

    /// Copies of the items of the topic at a position, in order.
    pub fn items_of(&self, on: usize) -> (r: Result<Vec<Item>, MemoryError>)
        requires
            self.wf(),
        ensures
            on >= self.order().len() ==> r == Err::<Vec<Item>, MemoryError>(MemoryError::TopicNotFound),
            r matches Ok(v) ==> on < self.order().len()
                && v@.map_values(|i: Item| i@) == self.contents()[on as int],
            on < self.order().len() ==> r is Ok,
    {
        if on >= self.data.len() {
            return Err(MemoryError::TopicNotFound);
        }
        let items = &self.data[on];
        let mut out: Vec<Item> = Vec::new();
        let mut j: usize = 0;
        while j < items.len()
            invariant
                j <= items@.len(),
                out@.len() == j,
                forall|k: int| 0 <= k < j ==> #[trigger] out@[k]@ == items@[k]@,
            decreases items@.len() - j,
        {
            out.push(items[j].duplicate());
            j += 1;
        }
        assert(out@.map_values(|i: Item| i@) =~= self.contents()[on as int]);
        Ok(out)
    }

    /// How far the topic at a position is done: the number of done items and
    /// the number of items, or `None` for a topic without items.
    pub fn completion(&self, on: usize) -> (r: Result<Option<(usize, usize)>, MemoryError>)
        requires
            self.wf(),
        ensures
            on >= self.order().len() ==> r == Err::<Option<(usize, usize)>, MemoryError>(
                MemoryError::TopicNotFound,
            ),
            on < self.order().len() && self.contents()[on as int].len() == 0 ==> r == Ok::<
                Option<(usize, usize)>,
                MemoryError,
            >(None),
            on < self.order().len() && self.contents()[on as int].len() > 0 ==> r == Ok::<
                Option<(usize, usize)>,
                MemoryError,
            >(
                Some(
                    (
                        done_count(self.contents()[on as int]) as usize,
                        self.contents()[on as int].len() as usize,
                    ),
                ),
            ),
    {
        if on >= self.data.len() {
            return Err(MemoryError::TopicNotFound);
        }
        let items = &self.data[on];
        let ghost s = self.contents()[on as int];
        if items.len() == 0 {
            return Ok(None);
        }
        let mut done: usize = 0;
        let mut j: usize = 0;
        while j < items.len()
            invariant
                j <= items@.len(),
                s == items@.map_values(|i: Item| i@),
                done == done_count(s.take(j as int)),
                done <= j,
            decreases items@.len() - j,
        {
            assert(s.take(j as int + 1).drop_last() =~= s.take(j as int));
            if items[j].is_done() {
                done += 1;
            }
            j += 1;
        }
        assert(s.take(j as int) =~= s);
        Ok(Some((done, items.len())))
    }
}


impl Memory {
    /// Each topic with the stored forms of its items, in display order.
    pub fn to_entries(&self) -> (r: Vec<(String, Vec<String>)>)
        requires
            self.wf(),
        ensures
            entries_view(r@) == stored_entries(*self),
    {
        let ghost want = stored_entries(*self);
        let mut out: Vec<(String, Vec<String>)> = Vec::new();
        let mut i: usize = 0;
        while i < self.idxs.len()
            invariant
                self.wf(),
                want == stored_entries(*self),
                i <= self.idxs@.len(),
                out@.len() == i,
                forall|k: int| 0 <= k < i ==> #[trigger] entries_view(out@)[k] == want[k],
            decreases self.idxs@.len() - i,
        {
            let items = &self.data[i];
            let mut texts: Vec<String> = Vec::new();
            let mut j: usize = 0;
            while j < items.len()
                invariant
                    j <= items@.len(),
                    texts@.len() == j,
                    forall|k: int| 0 <= k < j ==> #[trigger] texts@[k]@ == item_text(items@[k]@),
                decreases items@.len() - j,
            {
                texts.push(items[j].to_text());
                j += 1;
            }
            assert(texts@.map_values(|t: String| t@) =~= want[i as int].1);
            let ghost before = out@;
            let ghost tv = texts@;
            let id = self.idxs[i].clone();
            assert(id@ == self.order()[i as int]);
            out.push((id, texts));
            assert forall|k: int| 0 <= k < i + 1 implies #[trigger] entries_view(out@)[k] == want[k] by {
                if k < i {
                    assert(out@[k] == before[k]);
                    assert(entries_view(before)[k] == want[k]);
                } else {
                    assert(out@[k].1@ == tv);
                }
            }
            i += 1;
        }
        assert(entries_view(out@) =~= want);
        out
    }

    /// The JSON text of the store: an object from each topic identifier to
    /// the array of its items' stored forms. `None` where encoding failed.
    pub fn serialize(&self) -> (r: Option<String>)
        requires
            self.wf(),
        ensures
            r is Some,
            r matches Some(t) ==> t@ == json_object_text(entries_map(stored_entries(*self))),
    {
        let entries = self.to_entries();
        proof {
            self.lemma_wf();
            assert(keys_of(stored_entries(*self)) =~= self.order());
        }
        write_object(&entries)
    }

    /// Builds a store from topics with the stored forms of their items;
    /// `None` where an identifier repeats or an item cannot be read.
    pub fn from_entries(entries: &Vec<(String, Vec<String>)>) -> (r: Option<Memory>)
        ensures
            r is Some <==> loadable(entries_view(entries@)),
            r matches Some(m) ==> m.wf() && loads_as(entries_view(entries@), m.order(), m.contents()),
    {
        let ghost ev = entries_view(entries@);
        let mut m = Memory::new();
        let mut i: usize = 0;
        while i < entries.len()
            invariant
                ev == entries_view(entries@),
                i <= entries@.len(),
                m.wf(),
                m.order() == keys_of(ev).take(i as int),
                m.contents().len() == i,
                forall|k: int| 0 <= k < i ==> all_decode(#[trigger] ev[k].1),
                forall|k: int| 0 <= k < i ==> texts_decode_to(#[trigger] ev[k].1, m.contents()[k]),
            decreases entries@.len() - i,
        {
            let pair = &entries[i];
            assert(ev[i as int].1 == pair.1@.map_values(|s: String| s@));
            let items = match decode_items(&pair.1) {
                Some(v) => v,
                None => {
                    return None;
                },
            };
            if m.position_of(&pair.0).is_some() {
                proof {
                    let j = m.order().index_of(pair.0@);
                    assert(keys_of(ev)[j] == keys_of(ev)[i as int]);
                }
                return None;
            }
            let ghost old_m = m;
            let ghost iv = items@.map_values(|x: Item| x@);
            m.idxs.push(pair.0.clone());
            m.data.push(items);
            assert(m.order() =~= old_m.order().push(pair.0@));
            assert(m.contents() =~= old_m.contents().push(iv));
            assert(keys_of(ev).take(i as int + 1) =~= keys_of(ev).take(i as int).push(pair.0@));
            i += 1;
        }
        assert(keys_of(ev).take(i as int) =~= keys_of(ev));
        Some(m)
    }
}

/// Reads a store from JSON text: an object from topic identifiers to arrays
/// of stored items. `None` where the text is no such object, an identifier
/// repeats, or an item cannot be read. The display order is the key order
/// in which the text is read.
pub fn deserialize(contents: &str) -> (r: Option<Memory>)
    ensures
        json_object_members(contents@) is None ==> r is None,
        json_object_members(contents@) matches Some(ev) ==> (r is Some <==> loadable(ev)),
        r matches Some(m) ==> m.wf() && (json_object_members(contents@) matches Some(ev) && loads_as(
            ev,
            m.order(),
            m.contents(),
        )),
{
    match read_object(contents) {
        Some(entries) => Memory::from_entries(&entries),
        None => None,
    }
}

/// In a well-formed store the display order lists each key of the mapping
/// exactly once, and nothing else.
pub proof fn lemma_order_is_key_set(m: Memory)
    requires
        m.wf(),
    ensures
        m.order().no_duplicates(),
        m.order().to_set() == mapping(m).dom(),
        m.order().len() == mapping(m).dom().len(),
{
    m.lemma_wf();
    assert(m.order().to_set() =~= mapping(m).dom());
    m.order().unique_seq_to_set();
}

/// What a store writes out reads back as the same store: the entries are
/// loadable, and any store that they describe has the same display order and
/// the same items, with the same status and text, in each topic.
pub proof fn lemma_entries_round_trip(m: Memory, order: Seq<Seq<char>>, contents: Seq<Seq<ItemView>>)
    requires
        m.wf(),
    ensures
        loadable(stored_entries(m)),
        loads_as(stored_entries(m), m.order(), m.contents()),
        loads_as(stored_entries(m), order, contents) ==> order == m.order() && contents == m.contents(),
{
    m.lemma_wf();
    let ev = stored_entries(m);
    assert(keys_of(ev) =~= m.order());
    assert forall|i: int| 0 <= i < ev.len() implies texts_decode_to(#[trigger] ev[i].1, m.contents()[i]) by {
        assert forall|j: int| 0 <= j < ev[i].1.len() implies #[trigger] item_of_text(ev[i].1[j]) == Some(
            m.contents()[i][j],
        ) by {
            crate::item::lemma_item_text_round_trip(m.contents()[i][j]);
        }
    }
    assert forall|i: int| 0 <= i < ev.len() implies all_decode(#[trigger] ev[i].1) by {
        assert(texts_decode_to(ev[i].1, m.contents()[i]));
    }
    if loads_as(ev, order, contents) {
        assert forall|i: int| 0 <= i < ev.len() implies #[trigger] contents[i] == m.contents()[i] by {
            assert(texts_decode_to(ev[i].1, contents[i]));
            assert(texts_decode_to(ev[i].1, m.contents()[i]));
            assert forall|j: int| 0 <= j < contents[i].len() implies contents[i][j] == m.contents()[i][j] by {
                assert(item_of_text(ev[i].1[j]) == Some(contents[i][j]));
            }
            assert(contents[i] =~= m.contents()[i]);
        }
        assert(contents =~= m.contents());
    }
}

/// The sequence left after removing its first element `k` times.
pub open spec fn removed_front(s: Seq<ItemView>, k: nat) -> Seq<ItemView>
    decreases k,
{
    if k == 0 {
        s
    } else {
        removed_front(s, (k - 1) as nat).remove(0)
    }
}

/// Deleting the item at one position removes exactly that item and keeps
/// the others in their order. Deleting the first item again and again hands
/// the items out in their order: after `k` deletions the topic holds the
/// items from position `k` on, the next deletion returns the item at `k`,
/// and after as many deletions as the topic had items it is empty.
pub proof fn lemma_delete_front_empties(s: Seq<ItemView>, i: int)
    requires
        0 <= i < s.len(),
    ensures
        s.remove(i).len() == s.len() - 1,
        forall|k: int| 0 <= k < i ==> s.remove(i)[k] == s[k],
        forall|k: int| i <= k < s.len() - 1 ==> s.remove(i)[k] == s[k + 1],
        forall|k: nat| k <= s.len() ==> #[trigger] removed_front(s, k) == s.subrange(k as int, s.len() as int),
        forall|k: nat| k < s.len() ==> #[trigger] removed_front(s, k)[0] == s[k as int],
        removed_front(s, s.len()) == Seq::<ItemView>::empty(),
{
    assert forall|k: nat| k <= s.len() implies #[trigger] removed_front(s, k) == s.subrange(
        k as int,
        s.len() as int,
    ) by {
        lemma_removed_front_rest(s, k);
    }
    assert forall|k: nat| k < s.len() implies #[trigger] removed_front(s, k)[0] == s[k as int] by {
        lemma_removed_front_rest(s, k);
    }
    lemma_removed_front_rest(s, s.len());
    assert(s.subrange(s.len() as int, s.len() as int) =~= Seq::<ItemView>::empty());
}

proof fn lemma_removed_front_rest(s: Seq<ItemView>, k: nat)
    requires
        k <= s.len(),
    ensures
        removed_front(s, k) == s.subrange(k as int, s.len() as int),
    decreases k,
{
    if k == 0 {
        assert(s.subrange(0, s.len() as int) =~= s);
    } else {
        lemma_removed_front_rest(s, (k - 1) as nat);
        assert(s.subrange(k - 1, s.len() as int).remove(0) =~= s.subrange(k as int, s.len() as int));
    }
}

} // verus!
