use vstd::prelude::*;
use crate::assoc::distinct_keys;
use crate::document::{Node, Tree, entries_of, trees_of};

verus! {

/// `toml::Value`, a value of a TOML document. Nothing is known of it but
/// what the functions below tell.
#[verifier::external_type_specification]
#[verifier::external_body]
pub struct ExValue(toml::Value);

/// `toml::map::Map`, the table of a TOML document.
#[verifier::external_type_specification]
#[verifier::external_body]
#[verifier::reject_recursive_types(K)]
#[verifier::reject_recursive_types(V)]
pub struct ExMap<K, V>(toml::map::Map<K, V>);

/// `toml::de::Error`, the error of reading a TOML text.
#[verifier::external_type_specification]
#[verifier::external_body]
pub struct ExError(toml::de::Error);

/// The tree that a `toml::Value` stands for.
pub uninterp spec fn value_tree(v: toml::Value) -> Tree;

/// The entries of a `toml::map::Map`, in the order in which the map is
/// walked.
pub uninterp spec fn table_entries(t: toml::map::Map<String, toml::Value>) -> Seq<(Seq<char>, Tree)>;

/// The top-level table that `toml::from_str` reads out of a text; `None`
/// where it rejects the text.
pub uninterp spec fn toml_document(text: Seq<char>) -> Option<Seq<(Seq<char>, Tree)>>;

/// One level of a `toml::Value`: the scalar it holds, or a reference to
/// its children.
pub enum Shallow<'a> {
    Text(&'a String),
    Integer(i64),
    Real(u64),
    Boolean(bool),
    Datetime,
    List(&'a Vec<toml::Value>),
    Table(&'a toml::map::Map<String, toml::Value>),
}

/// The trees of a sequence of `toml::Value`s, one for one.
pub open spec fn value_trees(items: Seq<toml::Value>) -> Seq<Tree> {
    Seq::new(items.len(), |i: int| value_tree(items[i]))
}

/// Tells the seven variants of `toml::Value` apart. The contract says that
/// the tree of the value has the same variant, with the scalar that the
/// value holds (a float by its bits), the trees of an array's items in the
/// array's order, or the entries of a table.
#[verifier::external_body]
fn shallow<'a>(v: &'a toml::Value) -> (s: Shallow<'a>)
    ensures
        match s {
            Shallow::Text(t) => value_tree(*v) == Tree::Text(t@),
            Shallow::Integer(i) => value_tree(*v) == Tree::Integer(i),
            Shallow::Real(b) => value_tree(*v) == Tree::Real(b),
            Shallow::Boolean(b) => value_tree(*v) == Tree::Boolean(b),
            Shallow::Datetime => value_tree(*v) == Tree::Datetime,
            Shallow::List(items) => value_tree(*v) == Tree::List(value_trees(items@)),
            Shallow::Table(t) => value_tree(*v) == Tree::Table(table_entries(*t)),
        },
{
    match v {
        toml::Value::String(t) => Shallow::Text(t),
        toml::Value::Integer(i) => Shallow::Integer(*i),
        toml::Value::Float(x) => Shallow::Real(x.to_bits()),
        toml::Value::Boolean(b) => Shallow::Boolean(*b),
        toml::Value::Datetime(_) => Shallow::Datetime,
        toml::Value::Array(items) => Shallow::List(items),
        toml::Value::Table(t) => Shallow::Table(t),
    }
}

/// Walks a `toml::map::Map` with its `iter`. The contract says that the
/// pairs come in the order of the map's entries, each with its key and
/// with the value whose tree the entry holds, and that no two pairs have
/// the same key: a map holds a key once.
#[verifier::external_body]
fn table_pairs<'a>(t: &'a toml::map::Map<String, toml::Value>) -> (pairs: Vec<(&'a String, &'a toml::Value)>)
    ensures
        pairs@.len() == table_entries(*t).len(),
        forall|i: int| 0 <= i < pairs@.len() ==> table_entries(*t)[i] == (pairs@[i].0@, value_tree(*pairs@[i].1)),
        forall|i: int, j: int| 0 <= i < j < pairs@.len() ==> pairs@[i].0@ != pairs@[j].0@,
{
    t.iter().collect()
}

/// Reads a text with `toml::from_str`. The contract names the table that
/// it returns and says that it fails exactly where that name is `None`.
#[verifier::external_body]
fn toml_parse(text: &str) -> (r: Result<toml::map::Map<String, toml::Value>, toml::de::Error>)
    ensures
        match r {
            Ok(t) => toml_document(text@) == Some(table_entries(t)),
            Err(_) => toml_document(text@) is None,
        },
{
    toml::from_str(text)
}

/// The message of a `toml::de::Error`, as its `message` gives it.
#[verifier::external_body]
fn error_message(e: &toml::de::Error) -> (message: String)
{
    e.message().to_string()
}

/// Why a text could not be read.
#[derive(Debug, PartialEq, Eq)]
pub enum ConfigParseError {
    /// The text is no TOML document; the message says where it goes wrong.
    DocumentMalformed(String),
}

impl ConfigParseError {
    /// The message of the error.
    pub fn message(&self) -> (message: &String)
        ensures
            *self == ConfigParseError::DocumentMalformed(*message),
    {
        match self {
            ConfigParseError::DocumentMalformed(message) => message,
        }
    }
}

/// Reads a TOML text into the entries of its top-level table, each under
/// a key of its own. It fails exactly on the texts that are no TOML
/// documents.
pub fn read_document(text: &str) -> (r: Result<Vec<(String, Node)>, ConfigParseError>)
    ensures
        match r {
            Ok(doc) => toml_document(text@) == Some(entries_of(doc@)) && distinct_keys(entries_of(doc@)),
            Err(_) => toml_document(text@) is None,
        },
{
    match toml_parse(text) {
        Ok(table) => Ok(nodes_of_table(&table)),
        Err(e) => Err(ConfigParseError::DocumentMalformed(error_message(&e))),
    }
}

/// Copies a `toml::Value` into a node with the same tree.
pub fn node_of_value(v: &toml::Value) -> (n: Node)
    ensures
        n@ == value_tree(*v),
    decreases value_tree(*v), 1nat,
{
    match shallow(v) {
        Shallow::Text(t) => Node::Text(t.clone()),
        Shallow::Integer(i) => Node::Integer(i),
        Shallow::Real(b) => Node::Real(b),
        Shallow::Boolean(b) => Node::Boolean(b),
        Shallow::Datetime => Node::Datetime,
        Shallow::List(items) => {
            let mut nodes: Vec<Node> = Vec::new();
            let mut i: usize = 0;
            while i < items.len()
                invariant
                    i <= items.len(),
                    value_tree(*v) == Tree::List(value_trees(items@)),
                    nodes@.len() == i,
                    forall|k: int| 0 <= k < i ==> nodes@[k]@ == value_tree(items@[k]),
                decreases items.len() - i,
            {
                assert(value_trees(items@)[i as int] == value_tree(items@[i as int]));
                assert(decreases_to!(value_tree(*v) => value_tree(*v)->List_0));
                assert(decreases_to!(value_tree(*v)->List_0 => value_tree(*v)->List_0[i as int]));
                let child = node_of_value(&items[i]);
                nodes.push(child);
                i += 1;
            }
            assert(trees_of(nodes@) =~= value_trees(items@));
            Node::List(nodes)
        },
        Shallow::Table(t) => Node::Table(entries_of_table(t, Ghost(value_tree(*v)))),
    }
}

/// Copies the entries of a `toml::map::Map`, in its order. No two of them
/// have the same key.
pub fn nodes_of_table(t: &toml::map::Map<String, toml::Value>) -> (entries: Vec<(String, Node)>)
    ensures
        entries_of(entries@) == table_entries(*t),
        distinct_keys(entries_of(entries@)),
{
    entries_of_table(t, Ghost(Tree::Table(table_entries(*t))))
}

fn entries_of_table(t: &toml::map::Map<String, toml::Value>, Ghost(whole): Ghost<Tree>) -> (entries: Vec<
    (String, Node),
>)
    requires
        whole == Tree::Table(table_entries(*t)),
    ensures
        entries_of(entries@) == table_entries(*t),
        distinct_keys(entries_of(entries@)),
    decreases whole, 0nat,
{
    let pairs = table_pairs(t);
    let mut entries: Vec<(String, Node)> = Vec::new();
    let mut i: usize = 0;
    while i < pairs.len()
        invariant
            i <= pairs.len(),
            whole == Tree::Table(table_entries(*t)),
            pairs@.len() == table_entries(*t).len(),
            forall|k: int|
                0 <= k < pairs@.len() ==> table_entries(*t)[k] == (pairs@[k].0@, value_tree(*pairs@[k].1)),
            entries@.len() == i,
            forall|k: int| 0 <= k < i ==> entries_of(entries@)[k] == table_entries(*t)[k],
        decreases pairs.len() - i,
    {
        let key = pairs[i].0.clone();
        assert(table_entries(*t)[i as int].1 == value_tree(*pairs@[i as int].1));
        assert(decreases_to!(whole => whole->Table_0));
        assert(decreases_to!(whole->Table_0 => whole->Table_0[i as int]));
        assert(decreases_to!(whole->Table_0[i as int] => whole->Table_0[i as int].1));
        let child = node_of_value(pairs[i].1);
        let ghost before = entries@;
        entries.push((key, child));
        assert(forall|k: int| 0 <= k < i ==> entries_of(entries@)[k] == entries_of(before)[k]);
        i += 1;
    }
    assert(entries_of(entries@) =~= table_entries(*t));
    assert forall|a: int, b: int| 0 <= a < b < entries_of(entries@).len() implies entries_of(entries@)[a].0
        != entries_of(entries@)[b].0 by {
        assert(table_entries(*t)[a].0 == pairs@[a].0@);
        assert(table_entries(*t)[b].0 == pairs@[b].0@);
    }
    entries
}

} // verus!
