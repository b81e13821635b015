//! JSON values.

use vstd::prelude::*;
use vstd::string::*;

use crate::text::same_text;

verus! {

/// A JSON value. A number is kept as its text, an object as its fields in
/// order. A value that is built by hand may hold what no JSON text says: a name
/// twice in one object, or a number that is none, which cannot be sent.
#[derive(Debug, PartialEq)]
pub enum Json {
    Null,
    Bool(bool),
    Number(String),
    Text(String),
    Array(Vec<Json>),
    Object(Vec<(String, Json)>),
}

/// What a JSON value says.
pub enum Tree {
    Null,
    Bool(bool),
    Number(Seq<char>),
    Text(Seq<char>),
    Array(Seq<Tree>),
    Object(Seq<(Seq<char>, Tree)>),
}

/// The place of the first field called `name`, or the number of fields when
/// there is none.
pub open spec fn field_index(fields: Seq<(Seq<char>, Tree)>, name: Seq<char>) -> nat
    decreases fields.len(),
{
    if fields.len() == 0 {
        0
    } else if field_index(fields.drop_last(), name) < fields.len() - 1 {
        field_index(fields.drop_last(), name)
    } else if fields.last().0 == name {
        (fields.len() - 1) as nat
    } else {
        fields.len()
    }
}

/// Which field `field_index` finds.
pub proof fn lemma_field_index(fields: Seq<(Seq<char>, Tree)>, name: Seq<char>, i: int)
    requires
        0 <= i <= fields.len(),
        i < fields.len() ==> fields[i].0 == name,
        forall|j: int| 0 <= j < i ==> (#[trigger] fields[j]).0 != name,
    ensures
        field_index(fields, name) == i,
    decreases fields.len(),
{
    if fields.len() > 0 {
        let init = fields.drop_last();
        if i < fields.len() {
            if i < init.len() {
                lemma_field_index(init, name, i);
            } else {
                lemma_field_index(init, name, init.len() as int);
            }
        } else {
            lemma_field_index(init, name, init.len() as int);
            assert(fields[fields.len() - 1].0 != name);
        }
    }
}

impl Tree {
    /// The value of the first field called `name`, if this is an object with
    /// such a field.
    pub open spec fn field(self, name: Seq<char>) -> Option<Tree> {
        match self {
            Tree::Object(fields) => if field_index(fields, name) < fields.len() {
                Some(fields[field_index(fields, name) as int].1)
            } else {
                None
            },
            _ => None,
        }
    }
}

impl Json {
    /// What this value says.
    pub open spec fn tree(self) -> Tree
        decreases self,
    {
        match self {
            Json::Null => Tree::Null,
            Json::Bool(b) => Tree::Bool(b),
            Json::Number(text) => Tree::Number(text@),
            Json::Text(text) => Tree::Text(text@),
            Json::Array(items) => Tree::Array(
                Seq::new(
                    items@.len(),
                    |i: int|
                        if 0 <= i < items@.len() {
                            items@[i].tree()
                        } else {
                            Tree::Null
                        },
                ),
            ),
            Json::Object(fields) => Tree::Object(
                Seq::new(
                    fields@.len(),
                    |i: int|
                        if 0 <= i < fields@.len() {
                            (fields@[i].0@, fields@[i].1.tree())
                        } else {
                            (Seq::empty(), Tree::Null)
                        },
                ),
            ),
        }
    }

    /// A text.
    pub fn text(text: &str) -> (json: Json)
        ensures
            json.tree() == Tree::Text(text@),
    {
        Json::Text(text.to_owned())
    }

    /// Whether this is `null`.
    pub fn is_null(&self) -> (r: bool)
        ensures
            r == (self.tree() == Tree::Null),
    {
        matches!(self, Json::Null)
    }

    /// The value of the first field called `name`, if this is an object with
    /// such a field.
    pub fn get(&self, name: &str) -> (r: Option<&Json>)
        ensures
            match r {
                Some(value) => self.tree().field(name@) == Some(value.tree()) && decreases_to!(
                    self => value
                ),
                None => self.tree().field(name@) is None,
            },
    {
        match self {
            Json::Object(fields) => {
                let ghost trees = self.tree()->Object_0;
                let mut i: usize = 0;
                while i < fields.len()
                    invariant
                        i <= fields@.len(),
                        self.tree() == Tree::Object(trees),
                        *self == Json::Object(*fields),
                        trees.len() == fields@.len(),
                        forall|k: int|
                            0 <= k < fields@.len() ==> #[trigger] trees[k] == (
                                fields@[k].0@,
                                fields@[k].1.tree(),
                            ),
                        forall|k: int| 0 <= k < i ==> (#[trigger] trees[k]).0 != name@,
                    decreases fields@.len() - i,
                {
                    let field = &fields[i];
                    assert(trees[i as int].0 == field.0@);
                    if same_text(field.0.as_str(), name) {
                        proof {
                            lemma_field_index(trees, name@, i as int);
                            assert(decreases_to!(*self => self->Object_0));
                            assert(decreases_to!(fields => fields@));
                            assert(decreases_to!(fields@ => fields@[i as int]));
                            assert(decreases_to!(fields@[i as int] => fields@[i as int].1));
                        }
                        return Some(&field.1);
                    }
                    i = i + 1;
                }
                proof {
                    lemma_field_index(trees, name@, trees.len() as int);
                }
                None
            },
            _ => None,
        }
    }

    /// The text, if this is a text.
    pub fn as_str(&self) -> (r: Option<&str>)
        ensures
            match (r, self.tree()) {
                (Some(text), Tree::Text(inner)) => text@ == inner,
                (None, tree) => !(tree is Text),
                _ => false,
            },
    {
        match self {
            Json::Text(text) => Some(text.as_str()),
            _ => None,
        }
    }
}

impl Clone for Json {
    fn clone(&self) -> (copy: Self)
        ensures
            copy.tree() == self.tree(),
        decreases self,
    {
        match self {
            Json::Null => Json::Null,
            Json::Bool(b) => Json::Bool(*b),
            Json::Number(text) => Json::Number(text.clone()),
            Json::Text(text) => Json::Text(text.clone()),
            Json::Array(items) => {
                let mut out: Vec<Json> = Vec::new();
                let mut i: usize = 0;
                while i < items.len()
                    invariant
                        *self == Json::Array(*items),
                        i <= items@.len(),
                        out@.len() == i,
                        forall|k: int|
                            0 <= k < i ==> (#[trigger] out@[k]).tree() == items@[k].tree(),
                    decreases items@.len() - i,
                {
                    assert(decreases_to!(*self => self->Array_0));
                    assert(decreases_to!(items => items@));
                    assert(decreases_to!(items@ => items@[i as int]));
                    out.push(items[i].clone());
                    i = i + 1;
                }
                let copy = Json::Array(out);
                assert(copy.tree()->Array_0 =~= self.tree()->Array_0);
                copy
            },
            Json::Object(fields) => {
                let mut out: Vec<(String, Json)> = Vec::new();
                let mut i: usize = 0;
                while i < fields.len()
                    invariant
                        *self == Json::Object(*fields),
                        i <= fields@.len(),
                        out@.len() == i,
                        forall|k: int|
                            0 <= k < i ==> (#[trigger] out@[k]).0 == fields@[k].0 && out@[k].1.tree()
                                == fields@[k].1.tree(),
                    decreases fields@.len() - i,
                {
                    assert(decreases_to!(*self => self->Object_0));
                    assert(decreases_to!(fields => fields@));
                    assert(decreases_to!(fields@ => fields@[i as int]));
                    assert(decreases_to!(fields@[i as int] => fields@[i as int].1));
                    out.push((fields[i].0.clone(), fields[i].1.clone()));
                    i = i + 1;
                }
                let copy = Json::Object(out);
                assert(copy.tree()->Object_0 =~= self.tree()->Object_0);
                copy
            },
        }
    }
}

#[verifier::external_type_specification]
#[verifier::external_body]
pub struct ExValue(serde_json::Value);

/// What a `serde_json::Value` holds: its scalars, its items in order, and its
/// fields in the order in which its map is walked, a number by the text that
/// its `Display` writes.
pub uninterp spec fn value_tree(value: serde_json::Value) -> Tree;

/// What `serde_json::from_slice` reads from a text, or `None` where it fails.
pub uninterp spec fn parsed(text: Seq<u8>) -> Option<Tree>;

/// The outermost layer of a `serde_json::Value`.
pub enum Layer {
    Null,
    Bool(bool),
    Number(String),
    Text(String),
    Array(Vec<serde_json::Value>),
    Object(Vec<(String, serde_json::Value)>),
}

impl Layer {
    /// What the value with this outermost layer says.
    pub open spec fn tree(self) -> Tree {
        match self {
            Layer::Null => Tree::Null,
            Layer::Bool(b) => Tree::Bool(b),
            Layer::Number(text) => Tree::Number(text@),
            Layer::Text(text) => Tree::Text(text@),
            Layer::Array(items) => Tree::Array(
                Seq::new(items@.len(), |i: int| value_tree(items@[i])),
            ),
            Layer::Object(fields) => Tree::Object(
                Seq::new(fields@.len(), |i: int| (fields@[i].0@, value_tree(fields@[i].1))),
            ),
        }
    }
}

/// `serde_json::from_slice` into a `serde_json::Value`. Whether the text is
/// JSON, and what it says, is left to the name `parsed`.
#[verifier::external_body]
fn parse_value(text: &[u8]) -> (r: Option<serde_json::Value>)
    ensures
        match r {
            Some(value) => parsed(text@) == Some(value_tree(value)),
            None => parsed(text@) is None,
        },
{
    serde_json::from_slice::<serde_json::Value>(text).ok()
}

/// The variants of `serde_json::Value`, told apart: each layer says what the
/// value says. A number is written by its `Display`.
#[verifier::external_body]
fn open_value(value: serde_json::Value) -> (layer: Layer)
    ensures
        layer.tree() == value_tree(value),
{
    match value {
        serde_json::Value::Null => Layer::Null,
        serde_json::Value::Bool(b) => Layer::Bool(b),
        serde_json::Value::Number(n) => Layer::Number(n.to_string()),
        serde_json::Value::String(s) => Layer::Text(s),
        serde_json::Value::Array(items) => Layer::Array(items),
        serde_json::Value::Object(fields) => Layer::Object(fields.into_iter().collect()),
    }
}

/// The JSON value that a `serde_json::Value` holds.
pub fn read(value: serde_json::Value) -> (json: Json)
    ensures
        json.tree() == value_tree(value),
    decreases value_tree(value),
{
    let ghost t = value_tree(value);
    match open_value(value) {
        Layer::Null => Json::Null,
        Layer::Bool(b) => Json::Bool(b),
        Layer::Number(text) => Json::Number(text),
        Layer::Text(text) => Json::Text(text),
        Layer::Array(items) => {
            let mut out: Vec<Json> = Vec::new();
            for item in it: items
                invariant
                    t == value_tree(value),
                    t is Array,
                    t->Array_0.len() == it.seq().len(),
                    forall|i: int|
                        0 <= i < it.seq().len() ==> t->Array_0[i] == value_tree(
                            #[trigger] it.seq()[i],
                        ),
                    out@.len() == it.index(),
                    forall|i: int|
                        0 <= i < out@.len() ==> (#[trigger] out@[i]).tree() == value_tree(
                            it.seq()[i],
                        ),
            {
                proof {
                    let s = t->Array_0;
                    assert(s[it.index() as int] == value_tree(item));
                    assert(decreases_to!(t => s));
                    assert(decreases_to!(s => s[it.index() as int]));
                }
                out.push(read(item));
            }
            let json = Json::Array(out);
            assert(json.tree()->Array_0 =~= t->Array_0);
            json
        },
        Layer::Object(fields) => {
            let mut out: Vec<(String, Json)> = Vec::new();
            for field in it: fields
                invariant
                    t == value_tree(value),
                    t is Object,
                    t->Object_0.len() == it.seq().len(),
                    forall|i: int|
                        0 <= i < it.seq().len() ==> t->Object_0[i] == (
                            it.seq()[i].0@,
                            value_tree((#[trigger] it.seq()[i]).1),
                        ),
                    out@.len() == it.index(),
                    forall|i: int|
                        0 <= i < out@.len() ==> (#[trigger] out@[i]).1.tree() == value_tree(
                            it.seq()[i].1,
                        ) && out@[i].0 == it.seq()[i].0,
            {
                proof {
                    let s = t->Object_0;
                    assert(s[it.index() as int].1 == value_tree(field.1));
                    assert(decreases_to!(t => s));
                    assert(decreases_to!(s => s[it.index() as int]));
                    assert(decreases_to!(s[it.index() as int] => s[it.index() as int].1));
                }
                let (name, inner) = field;
                out.push((name, read(inner)));
            }
            let json = Json::Object(out);
            assert(json.tree()->Object_0 =~= t->Object_0);
            json
        },
    }
}

/// The JSON value that a text says, or `None` where the text is not JSON.
pub fn parse(text: &[u8]) -> (r: Option<Json>)
    ensures
        match r {
            Some(json) => parsed(text@) == Some(json.tree()),
            None => parsed(text@) is None,
        },
{
    match parse_value(text) {
        Some(value) => Some(read(value)),
        None => None,
    }
}

/// A JSON value says what it holds: a scalar itself, an array its items in
/// order, an object its fields in order.
pub proof fn law_tree_says_what_is_held(json: Json)
    ensures
        match json {
            Json::Null => json.tree() == Tree::Null,
            Json::Bool(b) => json.tree() == Tree::Bool(b),
            Json::Number(text) => json.tree() == Tree::Number(text@),
            Json::Text(text) => json.tree() == Tree::Text(text@),
            Json::Array(items) => json.tree() matches Tree::Array(trees) && trees.len()
                == items@.len() && forall|i: int|
                0 <= i < items@.len() ==> #[trigger] trees[i] == items@[i].tree(),
            Json::Object(fields) => json.tree() matches Tree::Object(trees) && trees.len()
                == fields@.len() && forall|i: int|
                0 <= i < fields@.len() ==> (#[trigger] trees[i]).0 == fields@[i].0@ && trees[i].1
                    == fields@[i].1.tree(),
        },
{
}

/// A layer of a value says what the value in it says.
pub proof fn law_layer_says_what_is_held(layer: Layer)
    ensures
        match layer {
            Layer::Null => layer.tree() == Tree::Null,
            Layer::Bool(b) => layer.tree() == Tree::Bool(b),
            Layer::Number(text) => layer.tree() == Tree::Number(text@),
            Layer::Text(text) => layer.tree() == Tree::Text(text@),
            Layer::Array(items) => layer.tree() matches Tree::Array(trees) && trees.len()
                == items@.len() && forall|i: int|
                0 <= i < items@.len() ==> #[trigger] trees[i] == value_tree(items@[i]),
            Layer::Object(fields) => layer.tree() matches Tree::Object(trees) && trees.len()
                == fields@.len() && forall|i: int|
                0 <= i < fields@.len() ==> (#[trigger] trees[i]).0 == fields@[i].0@ && trees[i].1
                    == value_tree(fields@[i].1),
        },
{
}

/// The field of a name is the first with that name, and only an object has
/// fields.
pub proof fn law_field_is_the_first_of_its_name(tree: Tree, name: Seq<char>)
    ensures
        match tree.field(name) {
            Some(value) => tree matches Tree::Object(fields) && exists|i: int|
                {
                    &&& 0 <= i < fields.len()
                    &&& #[trigger] fields[i] == (name, value)
                    &&& forall|j: int| 0 <= j < i ==> (#[trigger] fields[j]).0 != name
                },
            None => tree matches Tree::Object(fields) ==> forall|i: int|
                0 <= i < fields.len() ==> (#[trigger] fields[i]).0 != name,
        },
{
    if let Tree::Object(fields) = tree {
        lemma_field_index_finds(fields, name);
        let i = field_index(fields, name) as int;
        if i < fields.len() {
            assert(fields[i] == (name, fields[i].1));
        }
    }
}

proof fn lemma_field_index_finds(fields: Seq<(Seq<char>, Tree)>, name: Seq<char>)
    ensures
        field_index(fields, name) <= fields.len(),
        field_index(fields, name) < fields.len() ==> fields[field_index(fields, name) as int].0
            == name,
        forall|j: int|
            0 <= j < field_index(fields, name) ==> (#[trigger] fields[j]).0 != name,
    decreases fields.len(),
{
    if fields.len() > 0 {
        let init = fields.drop_last();
        lemma_field_index_finds(init, name);
        assert forall|j: int| 0 <= j < field_index(fields, name) implies (#[trigger] fields[j]).0
            != name by {
            if j < init.len() {
                assert(init[j] == fields[j]);
            }
        }
    }
}

} // verus!
