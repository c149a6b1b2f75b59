//! Generic JSON documents, as the configuration reader sees them.
//!
//! [`Json`] is the tree that the program holds and [`JsonValue`] is its
//! mathematical model. Reading text is left to `serde_json`; everything that
//! the gateway decides about a document it decides on the tree.

use vstd::prelude::*;

verus! {

/// The model of a JSON document.
pub enum JsonValue {
    Null,
    Bool(bool),
    /// A number, by the text that writes it.
    Number(Seq<char>),
    Str(Seq<char>),
    Array(Seq<JsonValue>),
    /// The members in document order.
    Object(Seq<(Seq<char>, JsonValue)>),
}

/// A JSON document as a tree.
#[derive(Debug, PartialEq, Eq)]
pub enum Json {
    Null,
    Bool(bool),
    /// A number, by the text that writes it.
    Number(String),
    Str(String),
    Array(Vec<Json>),
    /// The members in document order.
    Object(Vec<(String, Json)>),
}

/// The text could not be read as JSON.
#[derive(Debug, Clone, PartialEq, Eq)]
pub struct SyntaxError {
    /// The reader's description of the fault.
    pub message: String,
}

/// The value of the member named `key`: the last one, where several members
/// share the name.
pub open spec fn find(members: Seq<(Seq<char>, JsonValue)>, key: Seq<char>) -> Option<JsonValue>
    decreases members.len(),
{
    if members.len() == 0 {
        None
    } else if members.last().0 == key {
        Some(members.last().1)
    } else {
        find(members.drop_last(), key)
    }
}

/// A member that is written last is the one that is found under its name.
pub proof fn lemma_find_push(
    members: Seq<(Seq<char>, JsonValue)>,
    key: Seq<char>,
    value: JsonValue,
)
    ensures
        forall|wanted: Seq<char>| #[trigger]
            find(members.push((key, value)), wanted) == (if key == wanted {
                Some(value)
            } else {
                find(members, wanted)
            }),
{
    assert(members.push((key, value)).drop_last() =~= members);
}

/// The model of a list of members.
pub open spec fn members_view(members: Seq<(String, Json)>) -> Seq<(Seq<char>, JsonValue)>
    decreases members,
{
    Seq::new(
        members.len(),
        |i: int|
            if 0 <= i < members.len() {
                (members[i].0@, members[i].1.view())
            } else {
                (Seq::empty(), JsonValue::Null)
            },
    )
}

/// The model of a list of documents.
pub open spec fn items_view(items: Seq<Json>) -> Seq<JsonValue>
    decreases items,
{
    Seq::new(
        items.len(),
        |i: int|
            if 0 <= i < items.len() {
                items[i].view()
            } else {
                JsonValue::Null
            },
    )
}

impl View for Json {
    type V = JsonValue;

    open spec fn view(&self) -> JsonValue
        decreases self,
    {
        match self {
            Json::Null => JsonValue::Null,
            Json::Bool(b) => JsonValue::Bool(*b),
            Json::Number(text) => JsonValue::Number(text@),
            Json::Str(s) => JsonValue::Str(s@),
            Json::Array(items) => JsonValue::Array(items_view(items@)),
            Json::Object(members) => JsonValue::Object(members_view(members@)),
        }
    }
}

/// A value of `serde_json`, as its reader returns it.
#[verifier::external_type_specification]
#[verifier::external_body]
pub struct ExValue(serde_json::Value);

/// The document that `serde_json` reads from a text, or `None` where it
/// refuses the text.
pub uninterp spec fn parsed_document(text: Seq<char>) -> Option<JsonValue>;

/// The document that a `serde_json::Value` holds.
pub uninterp spec fn value_document(value: serde_json::Value) -> JsonValue;

/// Calls `serde_json::from_str` for a `serde_json::Value`. The reader is a
/// function of the text alone, so its outcome has a name: the value holds the
/// document that [`parsed_document`] gives, and an error comes exactly where
/// there is none. The error is handed on as its `Display` text, of which
/// nothing is claimed.
#[verifier::external_body]
fn read_value(text: &str) -> (r: Result<serde_json::Value, String>)
    ensures
        match r {
            Ok(value) => parsed_document(text@) == Some(value_document(value)),
            Err(_) => parsed_document(text@) is None,
        },
{
    serde_json::from_str::<serde_json::Value>(text).map_err(|fault| fault.to_string())
}

/// Copies a `serde_json::Value` into a tree of this crate, variant by
/// variant: a number by its `Display` text, an object by its members in the
/// order in which `serde_json` walks them.
#[verifier::external_body]
fn tree_of(value: &serde_json::Value) -> (r: Json)
    ensures
        r@ == value_document(*value),
{
    match value {
        serde_json::Value::Null => Json::Null,
        serde_json::Value::Bool(b) => Json::Bool(*b),
        serde_json::Value::Number(n) => Json::Number(n.to_string()),
        serde_json::Value::String(s) => Json::Str(s.clone()),
        serde_json::Value::Array(a) => Json::Array(a.iter().map(tree_of).collect()),
        serde_json::Value::Object(m) => Json::Object(
            m.iter().map(|(k, v)| (k.clone(), tree_of(v))).collect(),
        ),
    }
}

impl Json {
    /// Reads a JSON text.
    ///
    /// The result is the tree of the document that `serde_json` reads from
    /// the text; the text is refused exactly where `serde_json` refuses it.
    pub fn parse(text: &str) -> (r: Result<Json, SyntaxError>)
        ensures
            match r {
                Ok(tree) => parsed_document(text@) == Some(tree@),
                Err(_) => parsed_document(text@) is None,
            },
    {
        match read_value(text) {
            Ok(value) => Ok(tree_of(&value)),
            Err(message) => Err(SyntaxError { message }),
        }
    }

    /// The value of the member named `key` of an object: the last one, where
    /// several members share the name. `None` for any other document.
    pub fn field(&self, key: &str) -> (r: Option<&Json>)
        ensures
            match self@ {
                JsonValue::Object(members) => match r {
                    Some(found) => find(members, key@) == Some(found@),
                    None => find(members, key@) is None,
                },
                _ => r is None,
            },
    {
        match self {
            Json::Object(members) => {
                let wanted = key.to_owned();
                let ghost all = members_view(members@);
                let mut i: usize = members.len();
                proof {
                    assert(all.take(i as int) =~= all);
                }
                while i > 0
                    invariant
                        i <= members.len(),
                        wanted@ == key@,
                        all == members_view(members@),
                        self@ == JsonValue::Object(all),
                        find(all, key@) == find(all.take(i as int), key@),
                    decreases i,
                {
                    i -= 1;
                    proof {
                        let upto = all.take(i + 1);
                        assert(upto.last() == all[i as int]);
                        assert(upto.drop_last() =~= all.take(i as int));
                        assert(all[i as int] == (members@[i as int].0@, members@[i as int].1@));
                    }
                    if members[i].0 == wanted {
                        proof {
                            let upto = all.take(i + 1);
                            assert(find(upto, key@) == Some(all[i as int].1));
                            assert(self@ == JsonValue::Object(all));
                        }
                        return Some(&members[i].1);
                    }
                }
                proof {
                    assert(all.take(0).len() == 0);
                }
                None
            },
            _ => None,
        }
    }
}

} // verus!
