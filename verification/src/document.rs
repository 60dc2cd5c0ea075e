//! The manifest as a tree of plain values. The TOML grammar is `toml`'s: this
//! module calls its parser, copies what it built, and reads the copy.

use crate::text::texts;
use vstd::prelude::*;

verus! {

/// The mathematical value of a [`Node`].
pub enum Tree {
    Text(Seq<char>),
    Integer(i64),
    Float,
    Boolean(bool),
    Datetime,
    List(Seq<Tree>),
    Table(Seq<(Seq<char>, Tree)>),
}

/// One value of a TOML document. A table keeps its entries in the order of
/// the source text. Of a float or a datetime only the kind is kept.
#[derive(Debug)]
pub enum Node {
    Text(String),
    Integer(i64),
    Float,
    Boolean(bool),
    Datetime,
    List(Vec<Node>),
    Table(Vec<(String, Node)>),
}

impl Node {
    /// The value of a node: its texts by their characters, its lists and
    /// tables by the values of what they hold, in the same order.
    pub open spec fn model(self) -> Tree
        decreases self,
    {
        match self {
            Node::Text(text) => Tree::Text(text@),
            Node::Integer(number) => Tree::Integer(number),
            Node::Float => Tree::Float,
            Node::Boolean(value) => Tree::Boolean(value),
            Node::Datetime => Tree::Datetime,
            Node::List(items) => Tree::List(
                Seq::new(
                    items@.len(),
                    |i: int|
                        if 0 <= i < items@.len() {
                            items@[i].model()
                        } else {
                            Tree::Float
                        },
                ),
            ),
            Node::Table(entries) => Tree::Table(
                Seq::new(
                    entries@.len(),
                    |i: int|
                        if 0 <= i < entries@.len() {
                            (entries@[i].0@, entries@[i].1.model())
                        } else {
                            (Seq::empty(), Tree::Float)
                        },
                ),
            ),
        }
    }
}

impl View for Node {
    type V = Tree;

    open spec fn view(&self) -> Tree {
        self.model()
    }
}

/// The values of the entries of a table.
pub open spec fn entry_models(entries: Vec<(String, Node)>) -> Seq<(Seq<char>, Tree)> {
    Node::Table(entries)@->Table_0
}

/// The value of a table has the values of the table's entries, one for one.
pub proof fn lemma_entry_models(entries: Vec<(String, Node)>)
    ensures
        entry_models(entries).len() == entries@.len(),
        forall|i: int|
            0 <= i < entries@.len() ==> #[trigger] entry_models(entries)[i] == (
                entries@[i].0@,
                entries@[i].1@,
            ),
{
}

/// The value of an optional node.
pub open spec fn node_model(node: Option<Node>) -> Option<Tree> {
    match node {
        Some(node) => Some(node@),
        None => None,
    }
}

/// `toml::Value`, the parser's own tree. Nothing is read from it here but by
/// [`node_of`].
#[verifier::external_type_specification]
#[verifier::external_body]
pub struct ExTomlValue(toml::Value);

/// What `toml`'s parser makes of a text (`FromStr` for `toml::Value`): the
/// document, a table, or `None` where the text is not valid TOML. The crate
/// is built with its order-preserving tables, so the entries of a table come
/// as the source has them.
pub uninterp spec fn parsed_document(text: Seq<char>) -> Option<Tree>;

/// Copies a `toml::Value` into a [`Node`], variant by variant, and the items
/// of an array or a table one by one, in their order.
#[verifier::external_body]
fn node_of(value: &toml::Value) -> Node {
    match value {
        toml::Value::String(s) => Node::Text(s.clone()),
        toml::Value::Integer(i) => Node::Integer(*i),
        toml::Value::Float(_) => Node::Float,
        toml::Value::Boolean(b) => Node::Boolean(*b),
        toml::Value::Datetime(_) => Node::Datetime,
        toml::Value::Array(a) => Node::List(a.iter().map(node_of).collect()),
        toml::Value::Table(t) => Node::Table(
            t.iter().map(|(k, v)| (k.clone(), node_of(v))).collect(),
        ),
    }
}

/// Calls `toml`'s `FromStr` for `toml::Value`, which parses a whole document
/// into a table, and copies the result with [`node_of`].
#[verifier::external_body]
fn parse_toml(text: &str) -> (r: Option<Node>)
    ensures
        node_model(r) == parsed_document(text@),
{
    match text.parse::<toml::Value>() {
        Ok(value) => Some(node_of(&value)),
        Err(_) => None,
    }
}

/// Parses a TOML document.
pub fn parse_document(text: &str) -> (r: Option<Node>)
    ensures
        node_model(r) == parsed_document(text@),
{
    parse_toml(text)
}

/// The value of the first entry with the given key.
pub open spec fn lookup(entries: Seq<(Seq<char>, Tree)>, key: Seq<char>) -> Option<Tree>
    decreases entries.len(),
{
    if entries.len() == 0 {
        None
    } else if entries[0].0 == key {
        Some(entries[0].1)
    } else {
        lookup(entries.drop_first(), key)
    }
}

/// The entries of the table under `key`: none where there is no such entry
/// (`Ok` of the empty list), and `Err` where the entry is no table.
pub open spec fn subtable(entries: Seq<(Seq<char>, Tree)>, key: Seq<char>) -> Result<
    Seq<(Seq<char>, Tree)>,
    (),
> {
    match lookup(entries, key) {
        None => Ok(Seq::empty()),
        Some(Tree::Table(inner)) => Ok(inner),
        Some(_) => Err(()),
    }
}

/// The text under `key`, where there is an entry with that key and it is a
/// text.
pub open spec fn text_field(entries: Seq<(Seq<char>, Tree)>, key: Seq<char>) -> Option<
    Seq<char>,
> {
    match lookup(entries, key) {
        Some(Tree::Text(text)) => Some(text),
        _ => None,
    }
}

/// There is no entry with that key, or it is a text.
pub open spec fn text_or_absent(entries: Seq<(Seq<char>, Tree)>, key: Seq<char>) -> bool {
    match lookup(entries, key) {
        None => true,
        Some(tree) => tree is Text,
    }
}

/// A list, all of whose items are texts.
pub open spec fn is_text_list(tree: Tree) -> bool {
    tree matches Tree::List(items) && forall|i: int|
        0 <= i < items.len() ==> (#[trigger] items[i]) is Text
}

/// The texts of a list of texts.
pub open spec fn listed_texts(tree: Tree) -> Seq<Seq<char>> {
    Seq::new(tree->List_0.len(), |i: int| tree->List_0[i]->Text_0)
}

/// Finds the first entry with the given key.
pub fn find<'a>(entries: &'a Vec<(String, Node)>, key: &str) -> (r: Option<&'a Node>)
    ensures
        lookup(entry_models(*entries), key@) == match r {
            Some(node) => Some(node@),
            None => None,
        },
{
    let ghost all = entry_models(*entries);
    let mut i: usize = 0;
    assert(all.skip(0) =~= all);
    while i < entries.len()
        invariant
            i <= entries.len(),
            all == entry_models(*entries),
            lookup(all, key@) == lookup(all.skip(i as int), key@),
        decreases entries.len() - i,
    {
        assert(all.skip(i as int)[0] == (entries@[i as int].0@, entries@[i as int].1@));
        if entries[i].0.as_str().eq(key) {
            return Some(&entries[i].1);
        }
        assert(all.skip(i as int).drop_first() =~= all.skip(i as int + 1));
        i += 1;
    }
    None
}

/// The text under `key`, if there is one.
pub fn find_text<'a>(entries: &'a Vec<(String, Node)>, key: &str) -> (r: Option<&'a String>)
    ensures
        text_field(entry_models(*entries), key@) == match r {
            Some(text) => Some(text@),
            None => None,
        },
{
    match find(entries, key) {
        Some(Node::Text(text)) => Some(text),
        _ => None,
    }
}

/// Whether there is no entry with that key, or a text.
pub fn is_text_or_absent(entries: &Vec<(String, Node)>, key: &str) -> (b: bool)
    ensures
        b == text_or_absent(entry_models(*entries), key@),
{
    match find(entries, key) {
        None => true,
        Some(Node::Text(_)) => true,
        Some(_) => false,
    }
}

/// The texts of a list of texts; `None` for any other node.
pub fn text_list(node: &Node) -> (r: Option<Vec<String>>)
    ensures
        match r {
            Some(list) => is_text_list(node@) && texts(list@) == listed_texts(node@),
            None => !is_text_list(node@),
        },
{
    match node {
        Node::List(items) => {
            let mut list: Vec<String> = Vec::new();
            let mut i: usize = 0;
            while i < items.len()
                invariant
                    *node == Node::List(*items),
                    i <= items.len(),
                    list@.len() == i,
                    forall|j: int| 0 <= j < i ==> (#[trigger] items@[j]) is Text,
                    forall|j: int| 0 <= j < i ==> (#[trigger] list@[j])@ == items@[j]->Text_0@,
                decreases items.len() - i,
            {
                match &items[i] {
                    Node::Text(text) => {
                        list.push(text.clone());
                    },
                    _ => {
                        proof {
                            reveal_with_fuel(Node::model, 2);
                        }
                        assert(!(node@->List_0[i as int] is Text));
                        return None;
                    },
                }
                i += 1;
            }
            proof {
                reveal_with_fuel(Node::model, 2);
                assert forall|j: int| 0 <= j < items@.len() implies (#[trigger] node@->List_0[j])
                    is Text by {
                    assert(items@[j] is Text);
                }
                assert(texts(list@) =~= listed_texts(node@));
            }
            Some(list)
        },
        _ => None,
    }
}

} // verus!
