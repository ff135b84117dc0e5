use vstd::prelude::*;
use crate::assoc::{position, position_from, value_of};
use crate::text::str_equal;

verus! {

/// The mathematical value of a document: a tree of scalars, lists and
/// tables. A table keeps its entries in the order in which the document
/// lists them. A real number is held by its IEEE-754 binary64 bit pattern.
pub enum Tree {
    Text(Seq<char>),
    Integer(i64),
    Real(u64),
    Boolean(bool),
    Datetime,
    List(Seq<Tree>),
    Table(Seq<(Seq<char>, Tree)>),
}

impl Tree {
    /// The value that a table holds under `key`; `None` for a missing key
    /// and for every tree that is no table.
    pub open spec fn get(self, key: Seq<char>) -> Option<Tree> {
        match self {
            Tree::Table(entries) => value_of(entries, key),
            _ => None,
        }
    }

    /// The items of a list; `None` for every tree that is no list.
    pub open spec fn items(self) -> Option<Seq<Tree>> {
        match self {
            Tree::List(items) => Some(items),
            _ => None,
        }
    }

    /// The characters of a text; `None` for every other tree.
    pub open spec fn text(self) -> Option<Seq<char>> {
        match self {
            Tree::Text(s) => Some(s),
            _ => None,
        }
    }
}

/// A document held in memory: the executable counterpart of [`Tree`].
#[derive(Debug)]
pub enum Node {
    Text(String),
    Integer(i64),
    Real(u64),
    Boolean(bool),
    Datetime,
    List(Vec<Node>),
    Table(Vec<(String, Node)>),
}

/// The trees of a sequence of nodes, one for one.
pub open spec fn trees_of(items: Seq<Node>) -> Seq<Tree>
    decreases items,
{
    Seq::new(items.len(), |i: int| if 0 <= i < items.len() { items[i]@ } else { Tree::Datetime })
}

/// The keys and trees of a sequence of table entries, one for one.
pub open spec fn entries_of(entries: Seq<(String, Node)>) -> Seq<(Seq<char>, Tree)>
    decreases entries,
{
    Seq::new(
        entries.len(),
        |i: int| if 0 <= i < entries.len() { (entries[i].0@, entries[i].1@) } else { (Seq::empty(), Tree::Datetime) },
    )
}

impl View for Node {
    type V = Tree;

    open spec fn view(&self) -> Tree
        decreases self,
    {
        match self {
            Node::Text(s) => Tree::Text(s@),
            Node::Integer(i) => Tree::Integer(*i),
            Node::Real(b) => Tree::Real(*b),
            Node::Boolean(b) => Tree::Boolean(*b),
            Node::Datetime => Tree::Datetime,
            Node::List(items) => Tree::List(trees_of(items@)),
            Node::Table(entries) => Tree::Table(entries_of(entries@)),
        }
    }
}

/// Looks a key up among the entries of a table.
pub fn lookup<'a>(entries: &'a Vec<(String, Node)>, key: &str) -> (found: Option<&'a Node>)
    ensures
        match found {
            Some(n) => value_of(entries_of(entries@), key@) == Some(n@),
            None => value_of(entries_of(entries@), key@) is None,
        },
{
    let mut i: usize = 0;
    while i < entries.len()
        invariant
            i <= entries.len(),
            position(entries_of(entries@), key@) == position_from(entries_of(entries@), key@, i as int),
        decreases entries.len() - i,
    {
        assert(entries_of(entries@)[i as int] == (entries[i as int].0@, entries[i as int].1@));
        if str_equal(entries[i].0.as_str(), key) {
            return Some(&entries[i].1);
        }
        i += 1;
    }
    None
}

impl Node {
    /// Looks a key up in a table.
    pub fn get(&self, key: &str) -> (found: Option<&Node>)
        ensures
            match found {
                Some(n) => self@.get(key@) == Some(n@),
                None => self@.get(key@) is None,
            },
    {
        match self {
            Node::Table(entries) => lookup(entries, key),
            _ => None,
        }
    }

    /// The items of a list.
    pub fn as_list(&self) -> (found: Option<&Vec<Node>>)
        ensures
            match found {
                Some(items) => self@.items() == Some(trees_of(items@)),
                None => self@.items() is None,
            },
    {
        match self {
            Node::List(items) => Some(items),
            _ => None,
        }
    }

    /// The characters of a text.
    pub fn as_text(&self) -> (found: Option<&String>)
        ensures
            match found {
                Some(s) => self@.text() == Some(s@),
                None => self@.text() is None,
            },
    {
        match self {
            Node::Text(s) => Some(s),
            _ => None,
        }
    }
}

} // verus!
