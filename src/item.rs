use vstd::prelude::*;
use vstd::string::*;

verus! {

/// Whether an item is still to do or already done.
#[derive(Debug, Clone, Copy, PartialEq, Eq, Structural)]
pub enum Status {
    Todo,
    Done,
}

impl Status {
    pub open spec fn flipped(self) -> Status {
        match self {
            Status::Todo => Status::Done,
            Status::Done => Status::Todo,
        }
    }

    /// The status character of the stored form: `'0'` for to do, `'1'` for done.
    pub open spec fn spec_code(self) -> char {
        match self {
            Status::Todo => '0',
            Status::Done => '1',
        }
    }

    pub fn flip(self) -> (r: Status)
        ensures
            r == self.flipped(),
    {
        match self {
            Status::Todo => Status::Done,
            Status::Done => Status::Todo,
        }
    }

    pub fn code(self) -> (r: char)
        ensures
            r == self.spec_code(),
    {
        match self {
            Status::Todo => '0',
            Status::Done => '1',
        }
    }
}

/// The status that a stored status character stands for, if any.
pub open spec fn status_of_code(c: char) -> Option<Status> {
    if c == '0' {
        Some(Status::Todo)
    } else if c == '1' {
        Some(Status::Done)
    } else {
        None
    }
}

/// One entry of a topic: a status and free text.
#[derive(Debug, Clone)]
pub struct Item {
    pub status: Status,
    pub text: String,
}

impl View for Item {
    type V = (Status, Seq<char>);

    open spec fn view(&self) -> (Status, Seq<char>) {
        (self.status, self.text@)
    }
}

/// The stored form of an item: its status character followed by its text.
pub open spec fn item_text(v: (Status, Seq<char>)) -> Seq<char> {
    seq![v.0.spec_code()] + v.1
}

/// The item that a stored string stands for: `None` when the string is
/// empty or does not start with a status character.
pub open spec fn item_of_text(s: Seq<char>) -> Option<(Status, Seq<char>)> {
    if s.len() == 0 {
        None
    } else {
        match status_of_code(s[0]) {
            Some(st) => Some((st, s.subrange(1, s.len() as int))),
            None => None,
        }
    }
}

/// Decoding the stored form of an item gives the item back.
pub proof fn lemma_item_text_round_trip(v: (Status, Seq<char>))
    ensures
        item_of_text(item_text(v)) == Some(v),
{
    let s = item_text(v);
    assert(s[0] == v.0.spec_code());
    assert(s.subrange(1, s.len() as int) =~= v.1);
}

impl Item {
    pub fn new(status: Status, text: String) -> (r: Item)
        ensures
            r@ == (status, text@),
    {
        Item { status, text }
    }

    /// A to-do item with the given text.
    pub fn todo(text: String) -> (r: Item)
        ensures
            r@ == (Status::Todo, text@),
    {
        Item { status: Status::Todo, text }
    }

    pub fn duplicate(&self) -> (r: Item)
        ensures
            r@ == self@,
    {
        Item { status: self.status, text: self.text.clone() }
    }

    /// The same text with the status flipped.
    pub fn toggled(&self) -> (r: Item)
        ensures
            r@ == (self.status.flipped(), self.text@),
    {
        Item { status: self.status.flip(), text: self.text.clone() }
    }

    pub fn is_done(&self) -> (r: bool)
        ensures
            r == (self.status == Status::Done),
    {
        match self.status {
            Status::Done => true,
            Status::Todo => false,
        }
    }

    /// The stored form: status character, then the text.
    pub fn to_text(&self) -> (r: String)
        ensures
            r@ == item_text(self@),
    {
        let head = if self.status.code() == '0' {
            String::from_str("0")
        } else {
            String::from_str("1")
        };
        proof {
            reveal_strlit("0");
            reveal_strlit("1");
        }
        let r = head.concat(self.text.as_str());
        assert(r@ =~= item_text(self@));
        r
    }

    /// Reads an item from its stored form.
    pub fn from_text(s: &str) -> (r: Option<Item>)
        ensures
            r matches Some(i) ==> item_of_text(s@) == Some(i@),
            r is None ==> item_of_text(s@) is None,
    {
        let n = s.unicode_len();
        if n == 0 {
            return None;
        }
        let c = s.get_char(0);
        let status = if c == '0' {
            Status::Todo
        } else if c == '1' {
            Status::Done
        } else {
            return None;
        };
        let rest = s.substring_char(1, n);
        Some(Item { status, text: rest.to_owned() })
    }
}

} // verus!
