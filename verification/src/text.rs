//! Text that the library builds itself: decimal numbers and small
//! string-keyed tables.

use vstd::prelude::*;

verus! {

/// The character of the decimal digit `d`.
pub open spec fn digit_char(d: nat) -> char {
    if d == 0 {
        '0'
    } else if d == 1 {
        '1'
    } else if d == 2 {
        '2'
    } else if d == 3 {
        '3'
    } else if d == 4 {
        '4'
    } else if d == 5 {
        '5'
    } else if d == 6 {
        '6'
    } else if d == 7 {
        '7'
    } else if d == 8 {
        '8'
    } else {
        '9'
    }
}

/// The decimal numeral of `n`, without leading zeros.
pub open spec fn decimal(n: nat) -> Seq<char>
    decreases n,
{
    if n < 10 {
        seq![digit_char(n)]
    } else {
        decimal(n / 10).push(digit_char(n % 10))
    }
}

fn digit_text(d: u64) -> (r: &'static str)
    requires
        d < 10,
    ensures
        r@ == seq![digit_char(d as nat)],
{
    proof {
        reveal_strlit("0");
        reveal_strlit("1");
        reveal_strlit("2");
        reveal_strlit("3");
        reveal_strlit("4");
        reveal_strlit("5");
        reveal_strlit("6");
        reveal_strlit("7");
        reveal_strlit("8");
        reveal_strlit("9");
    }
    let r = if d == 0 {
        "0"
    } else if d == 1 {
        "1"
    } else if d == 2 {
        "2"
    } else if d == 3 {
        "3"
    } else if d == 4 {
        "4"
    } else if d == 5 {
        "5"
    } else if d == 6 {
        "6"
    } else if d == 7 {
        "7"
    } else if d == 8 {
        "8"
    } else {
        "9"
    };
    assert(r@ =~= seq![digit_char(d as nat)]);
    r
}

/// The decimal numeral of `n`.
pub fn decimal_string(n: u64) -> (r: String)
    ensures
        r@ == decimal(n as nat),
    decreases n,
{
    if n < 10 {
        String::from_str(digit_text(n))
    } else {
        let mut s = decimal_string(n / 10);
        s.append(digit_text(n % 10));
        assert(s@ =~= decimal((n / 10) as nat).push(digit_char((n % 10) as nat)));
        s
    }
}

/// The text of a string in Rust's debug notation: in double quotes, with
/// the characters escaped that the notation escapes.
pub uninterp spec fn debug_text(text: Seq<char>) -> Seq<char>;

/// A string in debug notation: `format!("{:?}", text)`, which goes through
/// `<str as core::fmt::Debug>::fmt`. The result is determined by the
/// characters of `text`; the contract gives it a name.
#[verifier::external_body]
pub(crate) fn debug_string(text: &str) -> (r: String)
    ensures
        r@ == debug_text(text@),
{
    format!("{:?}", text)
}

/// Whether two strings hold the same characters.
pub fn same_text(a: &str, b: &str) -> (r: bool)
    ensures
        r == (a@ == b@),
{
    let x = String::from_str(a);
    let y = String::from_str(b);
    x == y
}

/// `a` followed by `b`.
pub fn concat2(a: &str, b: &str) -> (r: String)
    ensures
        r@ == a@ + b@,
{
    let mut s = String::from_str(a);
    s.append(b);
    s
}

/// The lines of a list as sequences of characters.
pub open spec fn line_views(lines: Seq<String>) -> Seq<Seq<char>> {
    lines.map_values(|l: String| l@)
}

/// The lines of a text put together, with a line feed between every two.
pub open spec fn joined(lines: Seq<Seq<char>>) -> Seq<char>
    decreases lines.len(),
{
    if lines.len() == 0 {
        Seq::empty()
    } else if lines.len() == 1 {
        lines[0]
    } else {
        joined(lines.drop_last()) + seq!['\n'] + lines.last()
    }
}

/// The lines of a text put together, with a line feed between every two.
pub fn join_lines(lines: &Vec<String>) -> (r: String)
    ensures
        r@ == joined(line_views(lines@)),
{
    let mut text = String::new();
    let mut i: usize = 0;
    proof {
        reveal_strlit("\n");
        assert(line_views(lines@).take(0) =~= Seq::empty());
        assert("\n"@ =~= seq!['\n']);
    }
    while i < lines.len()
        invariant
            i <= lines@.len(),
            "\n"@ == seq!['\n'],
            text@ == joined(line_views(lines@).take(i as int)),
        decreases lines@.len() - i,
    {
        let ghost before = text@;
        proof {
            assert(line_views(lines@).take(i as int + 1).drop_last() =~= line_views(lines@).take(
                i as int,
            ));
            assert(line_views(lines@).take(i as int + 1).last() == lines@[i as int]@);
        }
        if i > 0 {
            text.append("\n");
        }
        text.append(lines[i].as_str());
        i += 1;
        proof {
            if i == 1 {
                assert(before =~= Seq::empty());
                assert(text@ =~= lines@[0]@);
            }
        }
    }
    proof {
        assert(line_views(lines@).take(lines@.len() as int) =~= line_views(lines@));
    }
    text
}

/// A table from strings to strings, kept as the chain of its insertions:
/// a later entry for a key stands in front of an earlier one.
#[derive(Debug, PartialEq, Eq)]
pub enum StringMap {
    Empty,
    Entry { key: String, value: String, rest: Box<StringMap> },
}

/// The table that a chain of insertions stands for.
pub open spec fn table_of(chain: StringMap) -> Map<Seq<char>, Seq<char>>
    decreases chain,
{
    match chain {
        StringMap::Empty => Map::empty(),
        StringMap::Entry { key, value, rest } => table_of(*rest).insert(key@, value@),
    }
}

impl View for StringMap {
    type V = Map<Seq<char>, Seq<char>>;

    open spec fn view(&self) -> Map<Seq<char>, Seq<char>> {
        table_of(*self)
    }
}

impl Clone for StringMap {
    fn clone(&self) -> (r: Self)
        ensures
            r == *self,
        decreases self,
    {
        match self {
            StringMap::Empty => StringMap::Empty,
            StringMap::Entry { key, value, rest } => {
                let tail: StringMap = (**rest).clone();
                StringMap::Entry { key: key.clone(), value: value.clone(), rest: Box::new(tail) }
            },
        }
    }
}

impl StringMap {
    /// The empty table.
    pub fn new() -> (r: Self)
        ensures
            r == StringMap::Empty,
            r@ == Map::<Seq<char>, Seq<char>>::empty(),
    {
        StringMap::Empty
    }

    /// Sets the entry for `key` to `value`.
    pub fn insert(&mut self, key: String, value: String)
        ensures
            *final(self) == (StringMap::Entry { key, value, rest: Box::new(*old(self)) }),
            final(self)@ == old(self)@.insert(key@, value@),
    {
        let mut rest = StringMap::Empty;
        core::mem::swap(self, &mut rest);
        *self = StringMap::Entry { key, value, rest: Box::new(rest) };
    }

    fn lookup(&self, wanted: &String) -> (r: Option<&String>)
        ensures
            match r {
                Some(v) => self@.contains_key(wanted@) && self@[wanted@] == v@,
                None => !self@.contains_key(wanted@),
            },
        decreases self,
    {
        match self {
            StringMap::Empty => None,
            StringMap::Entry { key, value, rest } => {
                if *key == *wanted {
                    Some(value)
                } else {
                    rest.lookup(wanted)
                }
            },
        }
    }

    /// The value that stands for `key`, if any.
    pub fn get(&self, key: &str) -> (r: Option<&String>)
        ensures
            match r {
                Some(v) => self@.contains_key(key@) && self@[key@] == v@,
                None => !self@.contains_key(key@),
            },
    {
        let wanted = String::from_str(key);
        self.lookup(&wanted)
    }

    /// Whether the table has an entry for `key`.
    pub fn contains_key(&self, key: &str) -> (r: bool)
        ensures
            r == self@.contains_key(key@),
    {
        self.get(key).is_some()
    }

    /// Whether the table is empty.
    pub fn is_empty(&self) -> (r: bool)
        ensures
            r == (*self == StringMap::Empty),
            r == (self@ == Map::<Seq<char>, Seq<char>>::empty()),
    {
        match self {
            StringMap::Empty => true,
            StringMap::Entry { key, value, rest } => {
                proof {
                    assert(self@.contains_key(key@));
                }
                false
            },
        }
    }
}

} // verus!
