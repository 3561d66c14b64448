//! JSON documents: reading them from bytes, and looking into them.

use vstd::prelude::*;

use crate::text::same_text;

verus! {

/// A JSON document in memory.
pub enum Json {
    Null,
    Bool(bool),
    Number(JsonNumber),
    Text(String),
    List(Vec<Json>),
    Object(Vec<(String, Json)>),
}

/// A JSON number, as the readings that exist of it.
#[derive(Debug, Clone, Copy, PartialEq, Eq)]
pub struct JsonNumber {
    /// The value, where it is an integer that fits in a `u64`.
    pub unsigned: Option<u64>,
    /// The value, where it is an integer that fits in an `i64`.
    pub signed: Option<i64>,
    /// The bits of the value as a binary64 number.
    pub double: Option<u64>,
}

/// The content of a document.
pub ghost enum JsonTree {
    Null,
    Bool(bool),
    Number(JsonNumber),
    Text(Seq<char>),
    List(Seq<JsonTree>),
    Object(Seq<(Seq<char>, JsonTree)>),
}

/// The value of the first of `pairs` whose key is `key`.
pub open spec fn lookup(pairs: Seq<(Seq<char>, JsonTree)>, key: Seq<char>) -> Option<JsonTree>
    decreases pairs.len(),
{
    if pairs.len() == 0 {
        None
    } else if pairs[0].0 == key {
        Some(pairs[0].1)
    } else {
        lookup(pairs.drop_first(), key)
    }
}

impl JsonTree {
    /// The member named `key`, where this is an object that has one.
    pub open spec fn field(self, key: Seq<char>) -> Option<JsonTree> {
        match self {
            JsonTree::Object(pairs) => lookup(pairs, key),
            _ => None,
        }
    }

    /// The text, where this is one.
    pub open spec fn text(self) -> Option<Seq<char>> {
        match self {
            JsonTree::Text(s) => Some(s),
            _ => None,
        }
    }

    /// The number, where this is one that is a `u64`.
    pub open spec fn unsigned(self) -> Option<u64> {
        match self {
            JsonTree::Number(n) => n.unsigned,
            _ => None,
        }
    }

    /// The number, where this is one that is an `i64`.
    pub open spec fn signed(self) -> Option<i64> {
        match self {
            JsonTree::Number(n) => n.signed,
            _ => None,
        }
    }

    /// The bits of the number, where this is one.
    pub open spec fn double(self) -> Option<u64> {
        match self {
            JsonTree::Number(n) => n.double,
            _ => None,
        }
    }

    /// The items, where this is a list, and none otherwise.
    pub open spec fn items(self) -> Seq<JsonTree> {
        match self {
            JsonTree::List(items) => items,
            _ => Seq::empty(),
        }
    }
}

/// The text of the member named `key`.
pub open spec fn text_field(t: JsonTree, key: Seq<char>) -> Option<Seq<char>> {
    match t.field(key) {
        Some(v) => v.text(),
        None => None,
    }
}

/// The member named `key` as a `u64`.
pub open spec fn unsigned_field(t: JsonTree, key: Seq<char>) -> Option<u64> {
    match t.field(key) {
        Some(v) => v.unsigned(),
        None => None,
    }
}

/// The member named `key` as an `i64`.
pub open spec fn signed_field(t: JsonTree, key: Seq<char>) -> Option<i64> {
    match t.field(key) {
        Some(v) => v.signed(),
        None => None,
    }
}

/// The bits of the member named `key` as a binary64 number.
pub open spec fn double_field(t: JsonTree, key: Seq<char>) -> Option<u64> {
    match t.field(key) {
        Some(v) => v.double(),
        None => None,
    }
}

/// The contents of a list of documents.
pub open spec fn trees(items: Seq<Json>) -> Seq<JsonTree> {
    items.map_values(|j: Json| j.tree())
}

/// The contents of the members of an object.
pub open spec fn members(pairs: Seq<(String, Json)>) -> Seq<(Seq<char>, JsonTree)> {
    pairs.map_values(|p: (String, Json)| (p.0@, p.1.tree()))
}

impl Json {
    /// The content of this document.
    pub open spec fn tree(self) -> JsonTree
        decreases self,
    {
        match self {
            Json::Null => JsonTree::Null,
            Json::Bool(b) => JsonTree::Bool(b),
            Json::Number(n) => JsonTree::Number(n),
            Json::Text(s) => JsonTree::Text(s@),
            Json::List(items) => JsonTree::List(
                Seq::new(
                    items@.len(),
                    |i: int|
                        if 0 <= i < items@.len() {
                            items@[i].tree()
                        } else {
                            JsonTree::Null
                        },
                ),
            ),
            Json::Object(pairs) => JsonTree::Object(
                Seq::new(
                    pairs@.len(),
                    |i: int|
                        if 0 <= i < pairs@.len() {
                            (pairs@[i].0@, pairs@[i].1.tree())
                        } else {
                            (Seq::empty(), JsonTree::Null)
                        },
                ),
            ),
        }
    }

    pub proof fn lemma_tree_of_list(items: Vec<Json>)
        ensures
            Json::List(items).tree() == JsonTree::List(trees(items@)),
    {
        assert(Json::List(items).tree()->List_0 =~= trees(items@));
    }

    pub proof fn lemma_tree_of_object(pairs: Vec<(String, Json)>)
        ensures
            Json::Object(pairs).tree() == JsonTree::Object(members(pairs@)),
    {
        assert(Json::Object(pairs).tree()->Object_0 =~= members(pairs@));
    }

    /// The member named `key`.
    pub fn get(&self, key: &str) -> (r: Option<&Json>)
        ensures
            match r {
                Some(v) => self.tree().field(key@) == Some(v.tree()),
                None => self.tree().field(key@) is None,
            },
    {
        match self {
            Json::Object(pairs) => {
                proof {
                    Json::lemma_tree_of_object(*pairs);
                }
                let ghost all = members(pairs@);
                let mut i: usize = 0;
                assert(all.skip(0) =~= all);
                while i < pairs.len()
                    invariant
                        i <= pairs@.len(),
                        all == members(pairs@),
                        lookup(all, key@) == lookup(all.skip(i as int), key@),
                        self.tree() == JsonTree::Object(all),
                    decreases pairs@.len() - i,
                {
                    let pair = &pairs[i];
                    assert(all.skip(i as int)[0] == (pair.0@, pair.1.tree()));
                    if same_text(pair.0.as_str(), key) {
                        return Some(&pair.1);
                    }
                    assert(all.skip(i as int).drop_first() =~= all.skip(i + 1));
                    i += 1;
                }
                None
            },
            _ => None,
        }
    }

    /// The text of this document, where it is one.
    pub fn as_text(&self) -> (r: Option<&String>)
        ensures
            match r {
                Some(s) => self.tree().text() == Some(s@),
                None => self.tree().text() is None,
            },
    {
        match self {
            Json::Text(s) => Some(s),
            _ => None,
        }
    }

    /// The text of the member named `key`.
    pub fn text_of(&self, key: &str) -> (r: Option<&String>)
        ensures
            match r {
                Some(s) => text_field(self.tree(), key@) == Some(s@),
                None => text_field(self.tree(), key@) is None,
            },
    {
        match self.get(key) {
            Some(v) => v.as_text(),
            None => None,
        }
    }

    /// The member named `key` as a `u64`.
    pub fn unsigned_of(&self, key: &str) -> (r: Option<u64>)
        ensures
            r == unsigned_field(self.tree(), key@),
    {
        match self.get(key) {
            Some(Json::Number(n)) => n.unsigned,
            _ => None,
        }
    }

    /// The member named `key` as an `i64`.
    pub fn signed_of(&self, key: &str) -> (r: Option<i64>)
        ensures
            r == signed_field(self.tree(), key@),
    {
        match self.get(key) {
            Some(Json::Number(n)) => n.signed,
            _ => None,
        }
    }

    /// The bits of the member named `key` as a binary64 number.
    pub fn double_of(&self, key: &str) -> (r: Option<u64>)
        ensures
            r == double_field(self.tree(), key@),
    {
        match self.get(key) {
            Some(Json::Number(n)) => n.double,
            _ => None,
        }
    }

    /// The items of the member named `key`, where it is a list.
    pub fn list_of(&self, key: &str) -> (r: Option<&Vec<Json>>)
        ensures
            match r {
                Some(items) => self.tree().field(key@) == Some(JsonTree::List(trees(items@))),
                None => match self.tree().field(key@) {
                    Some(JsonTree::List(_)) => false,
                    _ => true,
                },
            },
    {
        match self.get(key) {
            Some(Json::List(items)) => {
                proof {
                    Json::lemma_tree_of_list(*items);
                }
                Some(items)
            },
            _ => None,
        }
    }
}

// ---------------------------------------------------------------------------
// Reading a document
// ---------------------------------------------------------------------------

/// A document of `serde_json`.
#[verifier::external_type_specification]
#[verifier::external_body]
pub struct ExJsonValue(serde_json::Value);

/// What `serde_json` reports of bytes that it cannot read.
#[verifier::external_type_specification]
#[verifier::external_body]
pub struct ExJsonError(serde_json::Error);

/// What a `serde_json` document holds: its members in the order in which it hands
/// them out, and of each number what `as_u64`, `as_i64` and `as_f64` give.
pub uninterp spec fn json_tree(v: serde_json::Value) -> JsonTree;

/// What `serde_json::from_slice` reads bytes as; `None` where it reports an error.
pub uninterp spec fn json_text(bytes: Seq<u8>) -> Option<JsonTree>;

/// `serde_json::from_slice`. Whether bytes are a document, and which one, depends
/// on the bytes alone.
#[verifier::external_body]
fn from_slice(bytes: &[u8]) -> (r: Result<serde_json::Value, serde_json::Error>)
    ensures
        match r {
            Ok(v) => json_text(bytes@) == Some(json_tree(v)),
            Err(_) => json_text(bytes@) is None,
        },
{
    serde_json::from_slice(bytes)
}

/// The outermost layer of a `serde_json` document.
enum Node {
    Null,
    Bool(bool),
    Number(JsonNumber),
    Text(String),
    List(Vec<serde_json::Value>),
    Object(Vec<(String, serde_json::Value)>),
}

/// The variants of `serde_json::Value`, with a number taken through `as_u64`,
/// `as_i64` and the bits of `as_f64`, and an object through its members.
#[verifier::external_body]
fn open_value(value: serde_json::Value) -> (r: Node)
    ensures
        match r {
            Node::Null => json_tree(value) == JsonTree::Null,
            Node::Bool(b) => json_tree(value) == JsonTree::Bool(b),
            Node::Number(n) => json_tree(value) == JsonTree::Number(n),
            Node::Text(s) => json_tree(value) == JsonTree::Text(s@),
            Node::List(items) => json_tree(value) == JsonTree::List(
                items@.map_values(|v: serde_json::Value| json_tree(v)),
            ),
            Node::Object(pairs) => json_tree(value) == JsonTree::Object(
                pairs@.map_values(|p: (String, serde_json::Value)| (p.0@, json_tree(p.1))),
            ),
        },
{
    match value {
        serde_json::Value::Null => Node::Null,
        serde_json::Value::Bool(b) => Node::Bool(b),
        serde_json::Value::Number(n) => Node::Number(JsonNumber {
            unsigned: n.as_u64(),
            signed: n.as_i64(),
            double: n.as_f64().map(|x| x.to_bits()),
        }),
        serde_json::Value::String(s) => Node::Text(s),
        serde_json::Value::Array(items) => Node::List(items),
        serde_json::Value::Object(map) => Node::Object(map.into_iter().collect()),
    }
}

fn read_list(values: Vec<serde_json::Value>, Ghost(whole): Ghost<JsonTree>) -> (r: Vec<Json>)
    requires
        whole == JsonTree::List(values@.map_values(|v: serde_json::Value| json_tree(v))),
    ensures
        JsonTree::List(trees(r@)) == whole,
    decreases whole, 0nat,
{
    let ghost all = values@;
    let mut out: Vec<Json> = Vec::new();
    for v in it: values
        invariant
            it.seq() == all,
            whole == JsonTree::List(all.map_values(|v: serde_json::Value| json_tree(v))),
            out@.len() == it.index(),
            forall|i: int|
                0 <= i < out@.len() ==> (#[trigger] out@[i]).tree() == json_tree(all[i]),
    {
        assert(whole->List_0[it.index() as int] == json_tree(v));
        out.push(from_value(v));
    }
    assert(trees(out@) =~= whole->List_0);
    out
}

fn read_members(pairs: Vec<(String, serde_json::Value)>, Ghost(whole): Ghost<JsonTree>) -> (r: Vec<
    (String, Json),
>)
    requires
        whole == JsonTree::Object(
            pairs@.map_values(|p: (String, serde_json::Value)| (p.0@, json_tree(p.1))),
        ),
    ensures
        JsonTree::Object(members(r@)) == whole,
    decreases whole, 0nat,
{
    let ghost all = pairs@;
    let mut out: Vec<(String, Json)> = Vec::new();
    for p in it: pairs
        invariant
            it.seq() == all,
            whole == JsonTree::Object(
                all.map_values(|p: (String, serde_json::Value)| (p.0@, json_tree(p.1))),
            ),
            out@.len() == it.index(),
            forall|i: int|
                0 <= i < out@.len() ==> (#[trigger] out@[i]).0@ == all[i].0@ && out@[i].1.tree()
                    == json_tree(all[i].1),
    {
        assert(whole->Object_0[it.index() as int].1 == json_tree(p.1));
        let (key, v) = p;
        out.push((key, from_value(v)));
    }
    assert(members(out@) =~= whole->Object_0);
    out
}

fn from_value(value: serde_json::Value) -> (r: Json)
    ensures
        r.tree() == json_tree(value),
    decreases json_tree(value), 1nat,
{
    let ghost whole = json_tree(value);
    match open_value(value) {
        Node::Null => Json::Null,
        Node::Bool(b) => Json::Bool(b),
        Node::Number(n) => Json::Number(n),
        Node::Text(s) => Json::Text(s),
        Node::List(values) => {
            let items = read_list(values, Ghost(whole));
            proof {
                Json::lemma_tree_of_list(items);
            }
            Json::List(items)
        },
        Node::Object(pairs) => {
            let entries = read_members(pairs, Ghost(whole));
            proof {
                Json::lemma_tree_of_object(entries);
            }
            Json::Object(entries)
        },
    }
}

/// Reads a document; `None` where the bytes are not JSON.
pub fn parse_json(bytes: &[u8]) -> (r: Option<Json>)
    ensures
        match r {
            Some(j) => json_text(bytes@) == Some(j.tree()),
            None => json_text(bytes@) is None,
        },
{
    match from_slice(bytes) {
        Ok(v) => Some(from_value(v)),
        Err(_) => None,
    }
}

// ---------------------------------------------------------------------------
// Laws
// ---------------------------------------------------------------------------


/// An object gives the first of its members that has the name asked for.
pub proof fn law_member_is_found(pairs: Seq<(Seq<char>, JsonTree)>, i: int)
    requires
        0 <= i < pairs.len(),
        forall|j: int| 0 <= j < i ==> (#[trigger] pairs[j]).0 != pairs[i].0,
    ensures
        JsonTree::Object(pairs).field(pairs[i].0) == Some(pairs[i].1),
    decreases pairs.len(),
{
    if i > 0 {
        let rest = pairs.drop_first();
        assert(pairs[0].0 != pairs[i].0);
        assert forall|j: int| 0 <= j < i - 1 implies (#[trigger] rest[j]).0 != rest[i - 1].0 by {
            assert(rest[j] == pairs[j + 1]);
        }
        law_member_is_found(rest, i - 1);
    }
}

/// A name that no member has gives nothing, and so does any name in a document that
/// is no object.
pub proof fn law_missing_member(t: JsonTree, key: Seq<char>)
    requires
        t matches JsonTree::Object(pairs) ==> forall|j: int|
            0 <= j < pairs.len() ==> (#[trigger] pairs[j]).0 != key,
    ensures
        t.field(key) is None,
{
    if let JsonTree::Object(pairs) = t {
        lemma_lookup_fails(pairs, key);
    }
}

proof fn lemma_lookup_fails(pairs: Seq<(Seq<char>, JsonTree)>, key: Seq<char>)
    requires
        forall|j: int| 0 <= j < pairs.len() ==> (#[trigger] pairs[j]).0 != key,
    ensures
        lookup(pairs, key) is None,
    decreases pairs.len(),
{
    if pairs.len() > 0 {
        let rest = pairs.drop_first();
        assert forall|j: int| 0 <= j < rest.len() implies (#[trigger] rest[j]).0 != key by {
            assert(rest[j] == pairs[j + 1]);
        }
        lemma_lookup_fails(rest, key);
    }
}

/// A member is read as a text where it is one, as a number where it is one, and as
/// nothing else.
pub proof fn law_members_are_read_as_they_are(t: JsonTree, key: Seq<char>)
    ensures
        text_field(t, key) == match t.field(key) {
            Some(JsonTree::Text(s)) => Some(s),
            _ => None,
        },
        unsigned_field(t, key) == match t.field(key) {
            Some(JsonTree::Number(n)) => n.unsigned,
            _ => None,
        },
        signed_field(t, key) == match t.field(key) {
            Some(JsonTree::Number(n)) => n.signed,
            _ => None,
        },
        double_field(t, key) == match t.field(key) {
            Some(JsonTree::Number(n)) => n.double,
            _ => None,
        },
{
}

/// A list holds all of its items, and nothing else has any; a text is itself, and
/// nothing else is one.
pub proof fn law_lists_and_texts(t: JsonTree)
    ensures
        t matches JsonTree::List(items) ==> t.items() == items,
        !(t is List) ==> t.items().len() == 0,
        t matches JsonTree::Text(s) ==> t.text() == Some(s),
        !(t is Text) ==> t.text() is None,
{
}

/// The content of a document has the parts of the document, one for one and in their
/// order.
pub proof fn law_content_has_every_part(j: Json, i: int)
    ensures
        j is Null ==> j.tree() is Null,
        j matches Json::Bool(b) ==> j.tree() == JsonTree::Bool(b),
        j matches Json::Number(n) ==> j.tree() == JsonTree::Number(n),
        j matches Json::Text(s) ==> j.tree() == JsonTree::Text(s@),
        j matches Json::List(list) ==> (j.tree() matches JsonTree::List(items) && items.len()
            == list@.len() && (0 <= i < list@.len() ==> items[i] == list@[i].tree())),
        j matches Json::Object(list) ==> (j.tree() matches JsonTree::Object(pairs) && pairs.len()
            == list@.len() && (0 <= i < list@.len() ==> pairs[i] == (
            list@[i].0@,
            list@[i].1.tree(),
        ))),
{
}

} // verus!
