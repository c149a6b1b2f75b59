//! Reading the configuration from its JSON form.
//!
//! What a document means is said by the `decode_` functions; the program
//! reads a document as they say, fault for fault.

use crate::assoc::StrMap;
use crate::config::{
    env_view, text_view, texts_view, Config, McpServerConfig, McpSseConfig, McpStdioConfig,
    McpStreamableConfig, RemoteView, ServerView, StdioView,
};
use crate::json::{find, items_view, members_view, parsed_document, Json, JsonValue};
use crate::unexpected::{kind_of, unexpected_of, Unexpected, UnexpectedView};
use vstd::prelude::*;
use vstd::string::StringExecFns;

verus! {

/// The kind of value that a field has to hold.
#[derive(Debug, Clone, Copy, PartialEq, Eq, Structural)]
pub enum Expected {
    /// A JSON object.
    Object,
    /// A JSON string.
    Text,
    /// A JSON array.
    Array,
}

/// A field that a description cannot do without.
#[derive(Debug, Clone, Copy, PartialEq, Eq, Structural)]
pub enum Field {
    /// `mcpServers` (or `servers`) of the top-level object.
    McpServers,
    /// `url` of an SSE or streamable entry.
    Url,
    /// `command` of a stdio entry.
    Command,
    /// `args` of a stdio entry.
    Args,
}

/// Why a configuration was refused.
#[derive(Debug, PartialEq, Eq)]
pub enum ConfigError {
    /// The text is not JSON; the reader's words.
    Syntax(String),
    /// A value of the wrong kind stood where `expected` was required.
    InvalidType { found: Unexpected, expected: Expected },
    /// A required field is absent.
    MissingField(Field),
    /// A field was given under two of its names.
    DuplicateField(Field),
    /// The `type` of an entry names no known transport.
    UnknownVariant(String),
}

/// The model of [`ConfigError`].
pub enum ConfigErrorView {
    Syntax(Seq<char>),
    InvalidType { found: UnexpectedView, expected: Expected },
    MissingField(Field),
    DuplicateField(Field),
    UnknownVariant(Seq<char>),
}

impl View for ConfigError {
    type V = ConfigErrorView;

    open spec fn view(&self) -> ConfigErrorView {
        match self {
            ConfigError::Syntax(message) => ConfigErrorView::Syntax(message@),
            ConfigError::InvalidType { found, expected } => ConfigErrorView::InvalidType {
                found: found@,
                expected: *expected,
            },
            ConfigError::MissingField(field) => ConfigErrorView::MissingField(*field),
            ConfigError::DuplicateField(field) => ConfigErrorView::DuplicateField(*field),
            ConfigError::UnknownVariant(tag) => ConfigErrorView::UnknownVariant(tag@),
        }
    }
}

impl Expected {
    /// The words by which a fault report names what was expected.
    pub open spec fn words(self) -> Seq<char> {
        match self {
            Expected::Object => "map"@,
            Expected::Text => "a string"@,
            Expected::Array => "a sequence"@,
        }
    }

    /// The words by which a fault report names what was expected.
    pub fn describe(&self) -> (r: &'static str)
        ensures
            r@ == self.words(),
    {
        match self {
            Expected::Object => "map",
            Expected::Text => "a string",
            Expected::Array => "a sequence",
        }
    }
}

impl Field {
    /// The name of the field as it stands in a document.
    pub open spec fn words(self) -> Seq<char> {
        match self {
            Field::McpServers => "mcpServers"@,
            Field::Url => "url"@,
            Field::Command => "command"@,
            Field::Args => "args"@,
        }
    }

    /// The name of the field as it stands in a document.
    pub fn name(&self) -> (r: &'static str)
        ensures
            r@ == self.words(),
    {
        match self {
            Field::McpServers => "mcpServers",
            Field::Url => "url",
            Field::Command => "command",
            Field::Args => "args",
        }
    }
}

/// The text that reports a fault.
pub open spec fn fault_message(fault: ConfigErrorView) -> Seq<char> {
    match fault {
        ConfigErrorView::Syntax(message) => message,
        ConfigErrorView::InvalidType { found, expected } => "invalid type: "@
            + crate::unexpected::describe(found) + ", expected "@ + expected.words(),
        ConfigErrorView::MissingField(field) => "missing field `"@ + field.words() + "`"@,
        ConfigErrorView::DuplicateField(field) => "duplicate field `"@ + field.words() + "`"@,
        ConfigErrorView::UnknownVariant(tag) => "unknown variant `"@ + tag
            + "`, expected one of `sse`, `stdio`, `streamable`, `streamableHttp`"@,
    }
}

impl ConfigError {
    /// The text that reports the fault; see [`fault_message`]. An unknown
    /// transport tag is reported together with the tags that are known.
    pub fn message(&self) -> (r: String)
        ensures
            r@ == fault_message(self@),
    {
        match self {
            ConfigError::Syntax(message) => message.clone(),
            ConfigError::InvalidType { found, expected } => {
                let mut r = "invalid type: ".to_owned();
                r.append(found.describe().as_str());
                r.append(", expected ");
                r.append(expected.describe());
                r
            },
            ConfigError::MissingField(field) => {
                let mut r = "missing field `".to_owned();
                r.append(field.name());
                r.append("`");
                r
            },
            ConfigError::DuplicateField(field) => {
                let mut r = "duplicate field `".to_owned();
                r.append(field.name());
                r.append("`");
                r
            },
            ConfigError::UnknownVariant(tag) => {
                let mut r = "unknown variant `".to_owned();
                r.append(tag.as_str());
                r.append("`, expected one of `sse`, `stdio`, `streamable`, `streamableHttp`");
                r
            },
        }
    }
}

/// Whether an outcome of the program is the outcome that the model gives.
pub open spec fn agrees<T: View>(
    got: Result<T, ConfigError>,
    wanted: Result<T::V, ConfigErrorView>,
) -> bool {
    match got {
        Ok(value) => wanted == Ok::<T::V, ConfigErrorView>(value@),
        Err(fault) => wanted == Err::<T::V, ConfigErrorView>(fault@),
    }
}

/// A text that has to be there: the member `key` must exist and hold a
/// string.
pub open spec fn required_text(
    members: Seq<(Seq<char>, JsonValue)>,
    key: Seq<char>,
    field: Field,
) -> Result<Seq<char>, ConfigErrorView> {
    match find(members, key) {
        None => Err(ConfigErrorView::MissingField(field)),
        Some(JsonValue::Str(s)) => Ok(s),
        Some(other) => Err(
            ConfigErrorView::InvalidType { found: unexpected_of(other), expected: Expected::Text },
        ),
    }
}

/// A text that may be left out: an absent member and `null` both read as
/// none.
pub open spec fn optional_text(members: Seq<(Seq<char>, JsonValue)>, key: Seq<char>) -> Result<
    Option<Seq<char>>,
    ConfigErrorView,
> {
    match find(members, key) {
        None => Ok(None),
        Some(JsonValue::Null) => Ok(None),
        Some(JsonValue::Str(s)) => Ok(Some(s)),
        Some(other) => Err(
            ConfigErrorView::InvalidType { found: unexpected_of(other), expected: Expected::Text },
        ),
    }
}

/// The texts that a list of documents holds; the first document that is not
/// a string is the fault.
pub open spec fn texts_of(items: Seq<JsonValue>) -> Result<Seq<Seq<char>>, ConfigErrorView>
    decreases items.len(),
{
    if items.len() == 0 {
        Ok(Seq::empty())
    } else {
        match texts_of(items.drop_last()) {
            Err(fault) => Err(fault),
            Ok(texts) => match items.last() {
                JsonValue::Str(s) => Ok(texts.push(s)),
                other => Err(
                    ConfigErrorView::InvalidType {
                        found: unexpected_of(other),
                        expected: Expected::Text,
                    },
                ),
            },
        }
    }
}

/// The variables that a list of members sets, a later member overriding an
/// earlier one of the same name; the first value that is not a string is the
/// fault.
pub open spec fn variables_of(members: Seq<(Seq<char>, JsonValue)>) -> Result<
    Map<Seq<char>, Seq<char>>,
    ConfigErrorView,
>
    decreases members.len(),
{
    if members.len() == 0 {
        Ok(Map::empty())
    } else {
        match variables_of(members.drop_last()) {
            Err(fault) => Err(fault),
            Ok(variables) => match members.last().1 {
                JsonValue::Str(s) => Ok(variables.insert(members.last().0, s)),
                other => Err(
                    ConfigErrorView::InvalidType {
                        found: unexpected_of(other),
                        expected: Expected::Text,
                    },
                ),
            },
        }
    }
}

/// The `args` of a stdio entry: a required array of strings.
pub open spec fn args_of(members: Seq<(Seq<char>, JsonValue)>) -> Result<
    Seq<Seq<char>>,
    ConfigErrorView,
> {
    match find(members, "args"@) {
        None => Err(ConfigErrorView::MissingField(Field::Args)),
        Some(JsonValue::Array(items)) => texts_of(items),
        Some(other) => Err(
            ConfigErrorView::InvalidType { found: unexpected_of(other), expected: Expected::Array },
        ),
    }
}

/// The `env` of a stdio entry: an optional object of strings.
pub open spec fn env_of(members: Seq<(Seq<char>, JsonValue)>) -> Result<
    Option<Map<Seq<char>, Seq<char>>>,
    ConfigErrorView,
> {
    match find(members, "env"@) {
        None => Ok(None),
        Some(JsonValue::Null) => Ok(None),
        Some(JsonValue::Object(variables)) => match variables_of(variables) {
            Ok(env) => Ok(Some(env)),
            Err(fault) => Err(fault),
        },
        Some(other) => Err(
            ConfigErrorView::InvalidType {
                found: unexpected_of(other),
                expected: Expected::Object,
            },
        ),
    }
}

/// The payload of an entry that is reached by URL. The fields are read in
/// the order `name`, `description`, `url`; the first fault is reported.
pub open spec fn decode_remote(members: Seq<(Seq<char>, JsonValue)>) -> Result<
    RemoteView,
    ConfigErrorView,
> {
    match optional_text(members, "name"@) {
        Err(fault) => Err(fault),
        Ok(name) => match optional_text(members, "description"@) {
            Err(fault) => Err(fault),
            Ok(description) => match required_text(members, "url"@, Field::Url) {
                Err(fault) => Err(fault),
                Ok(url) => Ok(RemoteView { name, description, url }),
            },
        },
    }
}

/// The payload of a stdio entry. The fields are read in the order `name`,
/// `description`, `command`, `args`, `cwd`, `env`; the first fault is
/// reported.
pub open spec fn decode_stdio(members: Seq<(Seq<char>, JsonValue)>) -> Result<
    StdioView,
    ConfigErrorView,
> {
    match optional_text(members, "name"@) {
        Err(fault) => Err(fault),
        Ok(name) => match optional_text(members, "description"@) {
            Err(fault) => Err(fault),
            Ok(description) => match required_text(members, "command"@, Field::Command) {
                Err(fault) => Err(fault),
                Ok(command) => match args_of(members) {
                    Err(fault) => Err(fault),
                    Ok(args) => match optional_text(members, "cwd"@) {
                        Err(fault) => Err(fault),
                        Ok(cwd) => match env_of(members) {
                            Err(fault) => Err(fault),
                            Ok(env) => Ok(
                                StdioView { name, description, command, args, cwd, env },
                            ),
                        },
                    },
                },
            },
        }
    }
}

/// The transport tag of an entry: the string under `type`, and the empty
/// text where the member is absent or holds no string.
pub open spec fn tag_of(members: Seq<(Seq<char>, JsonValue)>) -> Seq<char> {
    match find(members, "type"@) {
        Some(JsonValue::Str(tag)) => tag,
        _ => Seq::empty(),
    }
}

/// What one entry of the configuration means.
///
/// The entry has to be an object. Its tag selects the variant: `sse`;
/// `streamable` or `streamableHttp`; `stdio`, or no tag at all. Any other
/// tag is an unknown variant. The tag is no field of the payload, so the
/// payload is read from the other members.
pub open spec fn decode_entry(content: JsonValue) -> Result<ServerView, ConfigErrorView> {
    match content {
        JsonValue::Object(members) => {
            let tag = tag_of(members);
            if tag == "sse"@ {
                match decode_remote(members) {
                    Ok(c) => Ok(ServerView::Sse(c)),
                    Err(fault) => Err(fault),
                }
            } else if tag == "streamable"@ || tag == "streamableHttp"@ {
                match decode_remote(members) {
                    Ok(c) => Ok(ServerView::Streamable(c)),
                    Err(fault) => Err(fault),
                }
            } else if tag == "stdio"@ || tag == Seq::<char>::empty() {
                match decode_stdio(members) {
                    Ok(c) => Ok(ServerView::Stdio(c)),
                    Err(fault) => Err(fault),
                }
            } else {
                Err(ConfigErrorView::UnknownVariant(tag))
            }
        },
        other => Err(
            ConfigErrorView::InvalidType {
                found: unexpected_of(other),
                expected: Expected::Object,
            },
        ),
    }
}

/// The members of an object; nothing for another document.
pub open spec fn members_of(content: JsonValue) -> Seq<(Seq<char>, JsonValue)> {
    match content {
        JsonValue::Object(members) => members,
        _ => Seq::empty(),
    }
}

/// The names of the members and the tags differ from one another: what
/// their lengths and first letters are.
pub(crate) proof fn lemma_names()
    ensures
        "type"@.len() == 4 && "type"@[0] == 't',
        "name"@.len() == 4 && "name"@[0] == 'n',
        "args"@.len() == 4 && "args"@[0] == 'a',
        "url"@.len() == 3 && "url"@[0] == 'u',
        "cwd"@.len() == 3 && "cwd"@[0] == 'c',
        "env"@.len() == 3 && "env"@[0] == 'e',
        "description"@.len() == 11,
        "command"@.len() == 7,
        "sse"@.len() == 3,
        "stdio"@.len() == 5,
        "streamable"@.len() == 10,
        "streamableHttp"@.len() == 14,
        "mcpServers"@.len() == 10,
        "servers"@.len() == 7,
{
    reveal_strlit("type");
    reveal_strlit("name");
    reveal_strlit("args");
    reveal_strlit("url");
    reveal_strlit("cwd");
    reveal_strlit("env");
    reveal_strlit("description");
    reveal_strlit("command");
    reveal_strlit("sse");
    reveal_strlit("stdio");
    reveal_strlit("streamable");
    reveal_strlit("streamableHttp");
    reveal_strlit("mcpServers");
    reveal_strlit("servers");
}

fn read_required_text(content: &Json, key: &str, field: Field) -> (r: Result<String, ConfigError>)
    requires
        content@ is Object,
    ensures
        agrees(r, required_text(members_of(content@), key@, field)),
{
    match content.field(key) {
        None => Err(ConfigError::MissingField(field)),
        Some(Json::Str(s)) => Ok(s.clone()),
        Some(other) => Err(
            ConfigError::InvalidType { found: kind_of(other), expected: Expected::Text },
        ),
    }
}

fn read_optional_text(content: &Json, key: &str) -> (r: Result<Option<String>, ConfigError>)
    requires
        content@ is Object,
    ensures
        match r {
            Ok(text) => optional_text(members_of(content@), key@) == Ok::<
                Option<Seq<char>>,
                ConfigErrorView,
            >(text_view(text)),
            Err(fault) => optional_text(members_of(content@), key@) == Err::<
                Option<Seq<char>>,
                ConfigErrorView,
            >(fault@),
        },
{
    match content.field(key) {
        None => Ok(None),
        Some(Json::Null) => Ok(None),
        Some(Json::Str(s)) => Ok(Some(s.clone())),
        Some(other) => Err(
            ConfigError::InvalidType { found: kind_of(other), expected: Expected::Text },
        ),
    }
}

/// A fault among the first items of a list is the fault of the whole list.
proof fn lemma_texts_fault(items: Seq<JsonValue>, k: int)
    requires
        0 <= k <= items.len(),
        texts_of(items.take(k)) is Err,
    ensures
        texts_of(items) == texts_of(items.take(k)),
    decreases items.len() - k,
{
    if k == items.len() {
        assert(items.take(k) =~= items);
    } else {
        let next = items.take(k + 1);
        assert(next.drop_last() =~= items.take(k));
        lemma_texts_fault(items, k + 1);
    }
}

/// A fault among the first members of an object is the fault of the whole.
proof fn lemma_variables_fault(members: Seq<(Seq<char>, JsonValue)>, k: int)
    requires
        0 <= k <= members.len(),
        variables_of(members.take(k)) is Err,
    ensures
        variables_of(members) == variables_of(members.take(k)),
    decreases members.len() - k,
{
    if k == members.len() {
        assert(members.take(k) =~= members);
    } else {
        let next = members.take(k + 1);
        assert(next.drop_last() =~= members.take(k));
        lemma_variables_fault(members, k + 1);
    }
}

fn read_texts(items: &Vec<Json>) -> (r: Result<Vec<String>, ConfigError>)
    ensures
        match r {
            Ok(texts) => texts_of(items_view(items@)) == Ok::<
                Seq<Seq<char>>,
                ConfigErrorView,
            >(texts_view(texts@)),
            Err(fault) => texts_of(items_view(items@)) == Err::<
                Seq<Seq<char>>,
                ConfigErrorView,
            >(fault@),
        },
{
    let ghost all = items_view(items@);
    let mut texts: Vec<String> = Vec::new();
    let mut i: usize = 0;
    proof {
        assert(all.take(0) =~= Seq::<JsonValue>::empty());
        assert(texts_view(texts@) =~= Seq::<Seq<char>>::empty());
    }
    while i < items.len()
        invariant
            i <= items.len(),
            all == items_view(items@),
            texts_of(all.take(i as int)) == Ok::<Seq<Seq<char>>, ConfigErrorView>(
                texts_view(texts@),
            ),
        decreases items.len() - i,
    {
        proof {
            let next = all.take(i + 1);
            assert(next.drop_last() =~= all.take(i as int));
            assert(next.last() == items@[i as int]@);
        }
        let ghost before = texts_view(texts@);
        match &items[i] {
            Json::Str(s) => {
                texts.push(s.clone());
                proof {
                    assert(texts_view(texts@) =~= before.push(s@));
                }
            },
            other => {
                proof {
                    lemma_texts_fault(all, i + 1);
                }
                return Err(
                    ConfigError::InvalidType { found: kind_of(other), expected: Expected::Text },
                );
            },
        }
        i += 1;
    }
    proof {
        assert(all.take(i as int) =~= all);
    }
    Ok(texts)
}

fn read_variables(members: &Vec<(String, Json)>) -> (r: Result<StrMap<String>, ConfigError>)
    ensures
        match r {
            Ok(env) => variables_of(members_view(members@)) == Ok::<
                Map<Seq<char>, Seq<char>>,
                ConfigErrorView,
            >(env@),
            Err(fault) => variables_of(members_view(members@)) == Err::<
                Map<Seq<char>, Seq<char>>,
                ConfigErrorView,
            >(fault@),
        },
{
    let ghost all = members_view(members@);
    let mut env: StrMap<String> = StrMap::new();
    let mut i: usize = 0;
    proof {
        assert(all.take(0) =~= Seq::<(Seq<char>, JsonValue)>::empty());
        assert(env@ =~= Map::<Seq<char>, Seq<char>>::empty());
    }
    while i < members.len()
        invariant
            i <= members.len(),
            all == members_view(members@),
            variables_of(all.take(i as int)) == Ok::<Map<Seq<char>, Seq<char>>, ConfigErrorView>(
                env@,
            ),
        decreases members.len() - i,
    {
        proof {
            let next = all.take(i + 1);
            assert(next.drop_last() =~= all.take(i as int));
            assert(next.last() == (members@[i as int].0@, members@[i as int].1@));
        }
        let ghost before = env;
        match &members[i].1 {
            Json::Str(s) => {
                let value = s.clone();
                env.insert(members[i].0.clone(), value);
                proof {
                    assert(env@ =~= before@.insert(members@[i as int].0@, s@));
                }
            },
            other => {
                proof {
                    lemma_variables_fault(all, i + 1);
                }
                return Err(
                    ConfigError::InvalidType { found: kind_of(other), expected: Expected::Text },
                );
            },
        }
        i += 1;
    }
    proof {
        assert(all.take(i as int) =~= all);
    }
    Ok(env)
}

fn read_args(content: &Json) -> (r: Result<Vec<String>, ConfigError>)
    requires
        content@ is Object,
    ensures
        match r {
            Ok(texts) => args_of(members_of(content@)) == Ok::<Seq<Seq<char>>, ConfigErrorView>(
                texts_view(texts@),
            ),
            Err(fault) => args_of(members_of(content@)) == Err::<Seq<Seq<char>>, ConfigErrorView>(
                fault@,
            ),
        },
{
    match content.field("args") {
        None => Err(ConfigError::MissingField(Field::Args)),
        Some(Json::Array(items)) => read_texts(items),
        Some(other) => Err(
            ConfigError::InvalidType { found: kind_of(other), expected: Expected::Array },
        ),
    }
}

fn read_env(content: &Json) -> (r: Result<Option<StrMap<String>>, ConfigError>)
    requires
        content@ is Object,
    ensures
        match r {
            Ok(env) => env_of(members_of(content@)) == Ok::<
                Option<Map<Seq<char>, Seq<char>>>,
                ConfigErrorView,
            >(env_view(env)),
            Err(fault) => env_of(members_of(content@)) == Err::<
                Option<Map<Seq<char>, Seq<char>>>,
                ConfigErrorView,
            >(fault@),
        },
{
    match content.field("env") {
        None => Ok(None),
        Some(Json::Null) => Ok(None),
        Some(Json::Object(variables)) => match read_variables(variables) {
            Ok(env) => Ok(Some(env)),
            Err(fault) => Err(fault),
        },
        Some(other) => Err(
            ConfigError::InvalidType { found: kind_of(other), expected: Expected::Object },
        ),
    }
}

/// Whether `text` is the text `wanted`.
fn is_text(text: &String, wanted: &str) -> (r: bool)
    ensures
        r == (text@ == wanted@),
{
    let other = wanted.to_owned();
    *text == other
}

impl McpSseConfig {
    fn read(content: &Json) -> (r: Result<McpSseConfig, ConfigError>)
        requires
            content@ is Object,
        ensures
            agrees(r, decode_remote(members_of(content@))),
    {
        let name = match read_optional_text(content, "name") {
            Ok(name) => name,
            Err(fault) => return Err(fault),
        };
        let description = match read_optional_text(content, "description") {
            Ok(description) => description,
            Err(fault) => return Err(fault),
        };
        let url = match read_required_text(content, "url", Field::Url) {
            Ok(url) => url,
            Err(fault) => return Err(fault),
        };
        Ok(McpSseConfig::from_parts(name, description, url))
    }
}

impl McpStreamableConfig {
    fn read(content: &Json) -> (r: Result<McpStreamableConfig, ConfigError>)
        requires
            content@ is Object,
        ensures
            agrees(r, decode_remote(members_of(content@))),
    {
        let name = match read_optional_text(content, "name") {
            Ok(name) => name,
            Err(fault) => return Err(fault),
        };
        let description = match read_optional_text(content, "description") {
            Ok(description) => description,
            Err(fault) => return Err(fault),
        };
        let url = match read_required_text(content, "url", Field::Url) {
            Ok(url) => url,
            Err(fault) => return Err(fault),
        };
        Ok(McpStreamableConfig::from_parts(name, description, url))
    }
}

impl McpStdioConfig {
    fn read(content: &Json) -> (r: Result<McpStdioConfig, ConfigError>)
        requires
            content@ is Object,
        ensures
            agrees(r, decode_stdio(members_of(content@))),
    {
        let name = match read_optional_text(content, "name") {
            Ok(name) => name,
            Err(fault) => return Err(fault),
        };
        let description = match read_optional_text(content, "description") {
            Ok(description) => description,
            Err(fault) => return Err(fault),
        };
        let command = match read_required_text(content, "command", Field::Command) {
            Ok(command) => command,
            Err(fault) => return Err(fault),
        };
        let args = match read_args(content) {
            Ok(args) => args,
            Err(fault) => return Err(fault),
        };
        let cwd = match read_optional_text(content, "cwd") {
            Ok(cwd) => cwd,
            Err(fault) => return Err(fault),
        };
        let env = match read_env(content) {
            Ok(env) => env,
            Err(fault) => return Err(fault),
        };
        Ok(McpStdioConfig::from_parts(name, description, command, args, cwd, env))
    }
}

impl McpServerConfig {
    /// Reads one entry of the configuration from its JSON form.
    ///
    /// The entry and its tag share one flat object, so the tag is taken out
    /// first and selects the variant whose payload the other members are
    /// then read as; see [`decode_entry`].
    pub fn deserialize(content: &Json) -> (r: Result<McpServerConfig, ConfigError>)
        ensures
            agrees(r, decode_entry(content@)),
    {
        match content {
            Json::Object(_) => {},
            other => {
                return Err(
                    ConfigError::InvalidType {
                        found: kind_of(other),
                        expected: Expected::Object,
                    },
                );
            },
        }
        let tag: String = match content.field("type") {
            Some(Json::Str(tag)) => tag.clone(),
            _ => String::new(),
        };
        proof {
            reveal_strlit("");
            assert(""@ =~= Seq::<char>::empty());
            assert(tag@ == tag_of(members_of(content@)));
        }
        if is_text(&tag, "sse") {
            match McpSseConfig::read(content) {
                Ok(c) => Ok(McpServerConfig::Sse(c)),
                Err(fault) => Err(fault),
            }
        } else if is_text(&tag, "streamable") || is_text(&tag, "streamableHttp") {
            match McpStreamableConfig::read(content) {
                Ok(c) => Ok(McpServerConfig::Streamable(c)),
                Err(fault) => Err(fault),
            }
        } else if is_text(&tag, "stdio") || is_text(&tag, "") {
            match McpStdioConfig::read(content) {
                Ok(c) => Ok(McpServerConfig::Stdio(c)),
                Err(fault) => Err(fault),
            }
        } else {
            Err(ConfigError::UnknownVariant(tag))
        }
    }
}

/// The servers that the members of the service table describe, a later
/// member overriding an earlier one of the same name; the first entry that
/// cannot be read is the fault.
pub open spec fn decode_servers(members: Seq<(Seq<char>, JsonValue)>) -> Result<
    Map<Seq<char>, ServerView>,
    ConfigErrorView,
>
    decreases members.len(),
{
    if members.len() == 0 {
        Ok(Map::empty())
    } else {
        match decode_servers(members.drop_last()) {
            Err(fault) => Err(fault),
            Ok(servers) => match decode_entry(members.last().1) {
                Ok(entry) => Ok(servers.insert(members.last().0, entry)),
                Err(fault) => Err(fault),
            },
        }
    }
}

/// The service table of a configuration: an object whose members are the
/// entries.
pub open spec fn decode_table(table: JsonValue) -> Result<
    Map<Seq<char>, ServerView>,
    ConfigErrorView,
> {
    match table {
        JsonValue::Object(entries) => decode_servers(entries),
        other => Err(
            ConfigErrorView::InvalidType {
                found: unexpected_of(other),
                expected: Expected::Object,
            },
        ),
    }
}

/// What a configuration document means.
///
/// The document has to be an object that carries the service table under
/// `mcpServers` or under `servers`, and not under both.
pub open spec fn decode_config(content: JsonValue) -> Result<
    Map<Seq<char>, ServerView>,
    ConfigErrorView,
> {
    match content {
        JsonValue::Object(members) => match (
            find(members, "mcpServers"@),
            find(members, "servers"@),
        ) {
            (Some(_), Some(_)) => Err(ConfigErrorView::DuplicateField(Field::McpServers)),
            (Some(table), None) => decode_table(table),
            (None, Some(table)) => decode_table(table),
            (None, None) => Err(ConfigErrorView::MissingField(Field::McpServers)),
        },
        other => Err(
            ConfigErrorView::InvalidType {
                found: unexpected_of(other),
                expected: Expected::Object,
            },
        ),
    }
}

/// A fault among the first entries of a table is the fault of the whole.
proof fn lemma_servers_fault(members: Seq<(Seq<char>, JsonValue)>, k: int)
    requires
        0 <= k <= members.len(),
        decode_servers(members.take(k)) is Err,
    ensures
        decode_servers(members) == decode_servers(members.take(k)),
    decreases members.len() - k,
{
    if k == members.len() {
        assert(members.take(k) =~= members);
    } else {
        let next = members.take(k + 1);
        assert(next.drop_last() =~= members.take(k));
        lemma_servers_fault(members, k + 1);
    }
}

fn read_servers(members: &Vec<(String, Json)>) -> (r: Result<Config, ConfigError>)
    ensures
        agrees(r, decode_servers(members_view(members@))),
{
    let ghost all = members_view(members@);
    let mut servers: StrMap<McpServerConfig> = StrMap::new();
    let mut i: usize = 0;
    proof {
        assert(all.take(0) =~= Seq::<(Seq<char>, JsonValue)>::empty());
        assert(servers@ =~= Map::<Seq<char>, ServerView>::empty());
    }
    while i < members.len()
        invariant
            i <= members.len(),
            all == members_view(members@),
            decode_servers(all.take(i as int)) == Ok::<Map<Seq<char>, ServerView>, ConfigErrorView>(
                servers@,
            ),
        decreases members.len() - i,
    {
        proof {
            let next = all.take(i + 1);
            assert(next.drop_last() =~= all.take(i as int));
            assert(next.last() == (members@[i as int].0@, members@[i as int].1@));
        }
        let ghost before = servers;
        match McpServerConfig::deserialize(&members[i].1) {
            Ok(entry) => {
                let ghost entry_view = entry@;
                servers.insert(members[i].0.clone(), entry);
                proof {
                    assert(servers@ =~= before@.insert(members@[i as int].0@, entry_view));
                }
            },
            Err(fault) => {
                proof {
                    lemma_servers_fault(all, i + 1);
                }
                return Err(fault);
            },
        }
        i += 1;
    }
    proof {
        assert(all.take(i as int) =~= all);
    }
    Ok(Config { servers })
}

fn read_table(table: &Json) -> (r: Result<Config, ConfigError>)
    ensures
        agrees(r, decode_table(table@)),
{
    match table {
        Json::Object(entries) => read_servers(entries),
        other => Err(
            ConfigError::InvalidType { found: kind_of(other), expected: Expected::Object },
        ),
    }
}

impl McpServerConfig {
    /// Reads one entry of the configuration from JSON text.
    ///
    /// A text that `serde_json` refuses is a syntax fault. Any other text is
    /// read as [`decode_entry`] says of the document that it holds.
    pub fn parse(text: &str) -> (r: Result<McpServerConfig, ConfigError>)
        ensures
            match parsed_document(text@) {
                None => r matches Err(ConfigError::Syntax(_)),
                Some(document) => agrees(r, decode_entry(document)),
            },
    {
        match Json::parse(text) {
            Ok(content) => McpServerConfig::deserialize(&content),
            Err(fault) => Err(ConfigError::Syntax(fault.message)),
        }
    }
}

impl Config {
    /// Reads a configuration from its JSON form; see [`decode_config`].
    pub fn deserialize(content: &Json) -> (r: Result<Config, ConfigError>)
        ensures
            agrees(r, decode_config(content@)),
    {
        match content {
            Json::Object(_) => {},
            other => {
                return Err(
                    ConfigError::InvalidType { found: kind_of(other), expected: Expected::Object },
                );
            },
        }
        match (content.field("mcpServers"), content.field("servers")) {
            (Some(_), Some(_)) => Err(ConfigError::DuplicateField(Field::McpServers)),
            (Some(table), None) => read_table(table),
            (None, Some(table)) => read_table(table),
            (None, None) => Err(ConfigError::MissingField(Field::McpServers)),
        }
    }

    /// Reads a configuration from JSON text.
    ///
    /// A text that `serde_json` refuses is a syntax fault. Any other text is
    /// read as [`decode_config`] says of the document that it holds.
    pub fn parse(text: &str) -> (r: Result<Config, ConfigError>)
        ensures
            match parsed_document(text@) {
                None => r matches Err(ConfigError::Syntax(_)),
                Some(document) => agrees(r, decode_config(document)),
            },
    {
        match Json::parse(text) {
            Ok(content) => Config::deserialize(&content),
            Err(fault) => Err(ConfigError::Syntax(fault.message)),
        }
    }
}

/// An entry without a tag is a stdio entry: it is read as the stdio payload
/// of its members.
pub proof fn law_tag_defaults_to_stdio(members: Seq<(Seq<char>, JsonValue)>)
    requires
        find(members, "type"@) is None,
    ensures
        decode_entry(JsonValue::Object(members)) == (match decode_stdio(members) {
            Ok(c) => Ok::<ServerView, ConfigErrorView>(ServerView::Stdio(c)),
            Err(fault) => Err(fault),
        }),
{
    lemma_names();
}

/// The tags `streamable` and `streamableHttp` mean the same: two entries that
/// differ in nothing but which of the two they carry are read alike, and
/// where they can be read they are streamable entries.
pub proof fn law_streamable_alias(
    short: Seq<(Seq<char>, JsonValue)>,
    long: Seq<(Seq<char>, JsonValue)>,
)
    requires
        tag_of(short) == "streamable"@,
        tag_of(long) == "streamableHttp"@,
        forall|key: Seq<char>| key != "type"@ ==> find(short, key) == find(long, key),
    ensures
        decode_entry(JsonValue::Object(short)) == decode_entry(JsonValue::Object(long)),
        decode_entry(JsonValue::Object(short)) matches Ok(entry) ==> entry is Streamable,
{
    lemma_names();
    assert(find(short, "name"@) == find(long, "name"@));
    assert(find(short, "description"@) == find(long, "description"@));
    assert(find(short, "url"@) == find(long, "url"@));
    assert(decode_remote(short) == decode_remote(long));
}

/// A tag that names no transport is refused as an unknown variant, whatever
/// else the entry holds.
pub proof fn law_unknown_tag(members: Seq<(Seq<char>, JsonValue)>)
    requires
        tag_of(members) != "sse"@,
        tag_of(members) != "streamable"@,
        tag_of(members) != "streamableHttp"@,
        tag_of(members) != "stdio"@,
        tag_of(members) != Seq::<char>::empty(),
    ensures
        decode_entry(JsonValue::Object(members)) == Err::<ServerView, ConfigErrorView>(
            ConfigErrorView::UnknownVariant(tag_of(members)),
        ),
{
}

} // verus!
