//! What a reader found where it expected something else.

use crate::json::{Json, JsonValue};
use crate::orphan::Local;
use vstd::prelude::*;
use vstd::string::StringExecFns;
use vstd::std_specs::convert::FromSpecImpl;

verus! {

/// The kind of JSON value that stood where another kind was expected,
/// with the value itself where it is a scalar.
#[derive(Debug, PartialEq, Eq)]
pub enum Unexpected {
    Bool(bool),
    /// A number, by the text that writes it.
    Number(String),
    Str(String),
    Null,
    Array,
    Object,
}

/// The model of [`Unexpected`].
pub enum UnexpectedView {
    Bool(bool),
    Number(Seq<char>),
    Str(Seq<char>),
    Null,
    Array,
    Object,
}

impl View for Unexpected {
    type V = UnexpectedView;

    open spec fn view(&self) -> UnexpectedView {
        match self {
            Unexpected::Bool(b) => UnexpectedView::Bool(*b),
            Unexpected::Number(text) => UnexpectedView::Number(text@),
            Unexpected::Str(s) => UnexpectedView::Str(s@),
            Unexpected::Null => UnexpectedView::Null,
            Unexpected::Array => UnexpectedView::Array,
            Unexpected::Object => UnexpectedView::Object,
        }
    }
}

/// How a document is reported when its kind is not the expected one.
pub open spec fn unexpected_of(found: JsonValue) -> UnexpectedView {
    match found {
        JsonValue::Null => UnexpectedView::Null,
        JsonValue::Bool(b) => UnexpectedView::Bool(b),
        JsonValue::Number(text) => UnexpectedView::Number(text),
        JsonValue::Str(s) => UnexpectedView::Str(s),
        JsonValue::Array(_) => UnexpectedView::Array,
        JsonValue::Object(_) => UnexpectedView::Object,
    }
}

impl<'a> From<&'a Json> for Local<Unexpected> {
    /// Reports a document by its kind; a scalar keeps its value.
    fn from(value: &'a Json) -> (r: Self)
        ensures
            r.0@ == unexpected_of(value@),
    {
        Local(
            match value {
                Json::Null => Unexpected::Null,
                Json::Bool(b) => Unexpected::Bool(*b),
                Json::Number(text) => Unexpected::Number(text.clone()),
                Json::Str(s) => Unexpected::Str(s.clone()),
                Json::Array(_) => Unexpected::Array,
                Json::Object(_) => Unexpected::Object,
            },
        )
    }
}

impl<'a> FromSpecImpl<&'a Json> for Local<Unexpected> {
    open spec fn obeys_from_spec() -> bool {
        true
    }

    open spec fn from_spec(value: &'a Json) -> Self {
        Local(
            match value {
                Json::Null => Unexpected::Null,
                Json::Bool(b) => Unexpected::Bool(*b),
                Json::Number(text) => Unexpected::Number(*text),
                Json::Str(s) => Unexpected::Str(*s),
                Json::Array(_) => Unexpected::Array,
                Json::Object(_) => Unexpected::Object,
            },
        )
    }
}

/// The kind of `found`, as [`unexpected_of`] gives it.
pub fn kind_of(found: &Json) -> (r: Unexpected)
    ensures
        r@ == unexpected_of(found@),
{
    crate::orphan::into(found)
}

/// The words by which a fault report names what was found.
pub open spec fn describe(found: UnexpectedView) -> Seq<char> {
    match found {
        UnexpectedView::Bool(true) => "boolean `true`"@,
        UnexpectedView::Bool(false) => "boolean `false`"@,
        UnexpectedView::Number(text) => "number `"@ + text + "`"@,
        UnexpectedView::Str(s) => "string \""@ + s + "\""@,
        UnexpectedView::Null => "null"@,
        UnexpectedView::Array => "sequence"@,
        UnexpectedView::Object => "map"@,
    }
}

impl Unexpected {
    /// The words by which a fault report names what was found; see
    /// [`describe`].
    pub fn describe(&self) -> (r: String)
        ensures
            r@ == describe(self@),
    {
        match self {
            Unexpected::Bool(true) => "boolean `true`".to_owned(),
            Unexpected::Bool(false) => "boolean `false`".to_owned(),
            Unexpected::Number(text) => {
                let mut r = "number `".to_owned();
                r.append(text.as_str());
                r.append("`");
                r
            },
            Unexpected::Str(s) => {
                let mut r = "string \"".to_owned();
                r.append(s.as_str());
                r.append("\"");
                r
            },
            Unexpected::Null => "null".to_owned(),
            Unexpected::Array => "sequence".to_owned(),
            Unexpected::Object => "map".to_owned(),
        }
    }
}

} // verus!
