//! Writing the configuration in its JSON form, and the proof that what is
//! written is read back as it was.

use crate::assoc::StrMap;
use crate::config::{
    order_of, texts_view, Config, McpServerConfig, McpSseConfig, McpStdioConfig,
    McpStreamableConfig, RemoteView, ServerView, StdioView,
};
use crate::json::{find, items_view, lemma_find_push, members_view, Json, JsonValue};
use crate::read::{
    args_of, decode_config, decode_entry, decode_remote, decode_servers, decode_stdio, env_of,
    lemma_names, members_of, optional_text, tag_of, texts_of, variables_of, ConfigErrorView,
};
use vstd::prelude::*;

verus! {

/// Whether `order` lists the variables of `env` one by one, none twice.
pub open spec fn lists(order: Seq<(Seq<char>, Seq<char>)>, env: Map<Seq<char>, Seq<char>>) -> bool {
    &&& forall|i: int, j: int| 0 <= i < j < order.len() ==> order[i].0 != order[j].0
    &&& forall|i: int|
        0 <= i < order.len() ==> env.contains_key(#[trigger] order[i].0) && env[order[i].0]
            == order[i].1
    &&& forall|k: Seq<char>| #[trigger]
        env.contains_key(k) ==> exists|i: int| 0 <= i < order.len() && order[i].0 == k
}

/// `members`, and after them the member `key` where `text` is given.
pub open spec fn with_text(
    members: Seq<(Seq<char>, JsonValue)>,
    key: Seq<char>,
    text: Option<Seq<char>>,
) -> Seq<(Seq<char>, JsonValue)> {
    match text {
        Some(t) => members.push((key, JsonValue::Str(t))),
        None => members,
    }
}

/// A list of texts as a list of JSON strings.
pub open spec fn encode_texts(texts: Seq<Seq<char>>) -> Seq<JsonValue> {
    Seq::new(texts.len(), |i: int| JsonValue::Str(texts[i]))
}

/// A list of variables as the members of a JSON object.
pub open spec fn encode_variables(order: Seq<(Seq<char>, Seq<char>)>) -> Seq<
    (Seq<char>, JsonValue),
> {
    Seq::new(order.len(), |i: int| (order[i].0, JsonValue::Str(order[i].1)))
}

/// The JSON form of an entry that is reached by URL: the tag, the optional
/// fields that are present, and the URL.
pub open spec fn encode_remote(tag: Seq<char>, c: RemoteView) -> JsonValue {
    JsonValue::Object(
        with_text(
            with_text(seq![("type"@, JsonValue::Str(tag))], "name"@, c.name),
            "description"@,
            c.description,
        ).push(("url"@, JsonValue::Str(c.url))),
    )
}

/// The JSON form of a stdio entry; `order` is the order in which the
/// variables of its environment are written.
pub open spec fn encode_stdio(c: StdioView, order: Seq<(Seq<char>, Seq<char>)>) -> JsonValue {
    let head = with_text(
        with_text(seq![("type"@, JsonValue::Str("stdio"@))], "name"@, c.name),
        "description"@,
        c.description,
    ).push(("command"@, JsonValue::Str(c.command))).push(
        ("args"@, JsonValue::Array(encode_texts(c.args))),
    );
    let body = with_text(head, "cwd"@, c.cwd);
    JsonValue::Object(
        match c.env {
            Some(_) => body.push(("env"@, JsonValue::Object(encode_variables(order)))),
            None => body,
        },
    )
}

/// The JSON form of an entry: one flat object that holds the tag (`sse`,
/// `stdio` or `streamableHttp`) beside the payload. Optional fields that are
/// absent are left out.
pub open spec fn encode_entry(entry: ServerView, order: Seq<(Seq<char>, Seq<char>)>) -> JsonValue {
    match entry {
        ServerView::Sse(c) => encode_remote("sse"@, c),
        ServerView::Stdio(c) => encode_stdio(c, order),
        ServerView::Streamable(c) => encode_remote("streamableHttp"@, c),
    }
}

/// The members of the service table: each service in the order of `names`,
/// with the JSON form of its entry.
pub open spec fn encode_table(names: Seq<Seq<char>>, entries: Seq<McpServerConfig>) -> Seq<
    (Seq<char>, JsonValue),
> {
    Seq::new(
        names.len(),
        |i: int| (names[i], encode_entry(entries[i]@, entries[i].env_order())),
    )
}

/// The JSON form of a configuration: an object that holds the service table
/// under `mcpServers`.
pub open spec fn encode_config(names: Seq<Seq<char>>, entries: Seq<McpServerConfig>) -> JsonValue {
    JsonValue::Object(seq![("mcpServers"@, JsonValue::Object(encode_table(names, entries)))])
}

fn push_member(members: &mut Vec<(String, Json)>, key: &str, value: Json)
    ensures
        members_view(final(members)@) == members_view(
            old(members)@,
        ).push((key@, value@)),
{
    let ghost before = members_view(members@);
    let ghost value_view = value@;
    members.push((key.to_owned(), value));
    proof {
        assert(members_view(members@) =~= before.push((key@, value_view)));
    }
}

fn push_text(members: &mut Vec<(String, Json)>, key: &str, text: Option<&str>)
    ensures
        members_view(final(members)@) == with_text(
            members_view(old(members)@),
            key@,
            match text {
                Some(t) => Some(t@),
                None => None,
            },
        ),
{
    match text {
        Some(t) => push_member(members, key, Json::Str(t.to_owned())),
        None => {},
    }
}

fn texts_json(texts: &Vec<String>) -> (r: Json)
    ensures
        r@ == JsonValue::Array(encode_texts(texts_view(texts@))),
{
    let mut items: Vec<Json> = Vec::new();
    let mut i: usize = 0;
    while i < texts.len()
        invariant
            i <= texts.len(),
            items_view(items@) == encode_texts(texts_view(texts@)).take(i as int),
        decreases texts.len() - i,
    {
        let ghost before = items_view(items@);
        items.push(Json::Str(texts[i].clone()));
        proof {
            assert(items_view(items@) =~= before.push(JsonValue::Str(texts@[i as int]@)));
            assert(items_view(items@) =~= encode_texts(texts_view(texts@)).take(
                i + 1,
            ));
        }
        i += 1;
    }
    proof {
        assert(encode_texts(texts_view(texts@)).take(i as int) =~= encode_texts(
            texts_view(texts@),
        ));
    }
    Json::Array(items)
}

fn variables_json(env: &StrMap<String>) -> (r: Json)
    ensures
        r@ == JsonValue::Object(encode_variables(order_of(*env))),
        lists(order_of(*env), env@),
{
    let n = env.len();
    let ghost wanted = encode_variables(order_of(*env));
    let mut members: Vec<(String, Json)> = Vec::new();
    let mut i: usize = 0;
    while i < n
        invariant
            i <= n,
            n == env.key_seq().len(),
            n == env.value_seq().len(),
            wanted == encode_variables(order_of(*env)),
            members_view(members@) == wanted.take(i as int),
        decreases n - i,
    {
        let ghost before = members_view(members@);
        let key = env.key_at(i);
        let value = env.value_at(i);
        members.push((key.clone(), Json::Str(value.clone())));
        proof {
            assert(members_view(members@) =~= before.push(
                (key@, JsonValue::Str(value@)),
            ));
            assert(members_view(members@) =~= wanted.take(i + 1));
        }
        i += 1;
    }
    proof {
        assert(wanted.take(i as int) =~= wanted);
        let order = order_of(*env);
        assert forall|k: Seq<char>| #[trigger] env@.contains_key(k) implies exists|i: int|
            0 <= i < order.len() && order[i].0 == k by {
            assert(env.key_seq().to_set().contains(k));
            let j = choose|j: int| 0 <= j < env.key_seq().len() && env.key_seq()[j] == k;
            assert(order[j].0 == k);
        }
    }
    Json::Object(members)
}

impl McpSseConfig {
    /// The JSON form of the entry.
    pub fn serialize(&self) -> (r: Json)
        ensures
            r@ == encode_remote("sse"@, self@),
    {
        let mut members: Vec<(String, Json)> = Vec::new();
        proof {
            assert(members_view(members@) =~= Seq::empty());
        }
        push_member(&mut members, "type", Json::Str("sse".to_owned()));
        proof {
            assert(members_view(members@) =~= seq![
                ("type"@, JsonValue::Str("sse"@)),
            ]);
        }
        push_text(&mut members, "name", self.name());
        push_text(&mut members, "description", self.description());
        push_member(&mut members, "url", Json::Str(self.url().to_owned()));
        Json::Object(members)
    }
}

impl McpStreamableConfig {
    /// The JSON form of the entry.
    pub fn serialize(&self) -> (r: Json)
        ensures
            r@ == encode_remote("streamableHttp"@, self@),
    {
        let mut members: Vec<(String, Json)> = Vec::new();
        proof {
            assert(members_view(members@) =~= Seq::empty());
        }
        push_member(&mut members, "type", Json::Str("streamableHttp".to_owned()));
        proof {
            assert(members_view(members@) =~= seq![
                ("type"@, JsonValue::Str("streamableHttp"@)),
            ]);
        }
        push_text(&mut members, "name", self.name());
        push_text(&mut members, "description", self.description());
        push_member(&mut members, "url", Json::Str(self.url().to_owned()));
        Json::Object(members)
    }
}

impl McpStdioConfig {
    /// The JSON form of the entry.
    pub fn serialize(&self) -> (r: Json)
        ensures
            r@ == encode_stdio(self@, self.env_order()),
            self@.env matches Some(env) ==> lists(self.env_order(), env),
    {
        let mut members: Vec<(String, Json)> = Vec::new();
        proof {
            assert(members_view(members@) =~= Seq::empty());
        }
        push_member(&mut members, "type", Json::Str("stdio".to_owned()));
        proof {
            assert(members_view(members@) =~= seq![
                ("type"@, JsonValue::Str("stdio"@)),
            ]);
        }
        push_text(&mut members, "name", self.name());
        push_text(&mut members, "description", self.description());
        push_member(&mut members, "command", Json::Str(self.command().to_owned()));
        push_member(&mut members, "args", texts_json(self.args()));
        push_text(&mut members, "cwd", self.cwd());
        match self.env() {
            Some(env) => push_member(&mut members, "env", variables_json(env)),
            None => {},
        }
        Json::Object(members)
    }
}

impl McpServerConfig {
    /// The JSON form of the entry; see [`encode_entry`].
    pub fn serialize(&self) -> (r: Json)
        ensures
            r@ == encode_entry(self@, self.env_order()),
            self@ matches ServerView::Stdio(c) ==> (c.env matches Some(env) ==> lists(
                self.env_order(),
                env,
            )),
    {
        match self {
            McpServerConfig::Sse(c) => c.serialize(),
            McpServerConfig::Stdio(c) => c.serialize(),
            McpServerConfig::Streamable(c) => c.serialize(),
        }
    }
}

impl Config {
    /// The JSON form of the configuration; see [`encode_config`]. The
    /// services stand in the order in which the configuration holds them,
    /// and reading the document gives the configuration back.
    pub fn serialize(&self) -> (r: Json)
        ensures
            r@ == encode_config(self.servers.key_seq(), self.servers.value_seq()),
            decode_config(r@) == Ok::<Map<Seq<char>, ServerView>, ConfigErrorView>(self@),
    {
        let count = self.servers.len();
        let ghost names = self.servers.key_seq();
        let ghost entries = self.servers.value_seq();
        let ghost table = encode_table(names, entries);
        let ghost mut read: Map<Seq<char>, ServerView> = Map::empty();
        let mut members: Vec<(String, Json)> = Vec::new();
        let mut i: usize = 0;
        proof {
            assert(table.take(0) =~= Seq::<(Seq<char>, JsonValue)>::empty());
            assert(members_view(members@) =~= table.take(0));
        }
        while i < count
            invariant
                i <= count,
                count == names.len(),
                names == self.servers.key_seq(),
                entries == self.servers.value_seq(),
                self.servers.well_formed(),
                table == encode_table(names, entries),
                members_view(members@) == table.take(i as int),
                decode_servers(table.take(i as int)) == Ok::<
                    Map<Seq<char>, ServerView>,
                    ConfigErrorView,
                >(read),
                forall|j: int|
                    0 <= j < i ==> read.contains_key(#[trigger] names[j]) && read[names[j]]
                        == entries[j]@,
                forall|k: Seq<char>| #[trigger]
                    read.contains_key(k) ==> exists|j: int| 0 <= j < i && names[j] == k,
            decreases count - i,
        {
            let name = self.servers.key_at(i);
            let entry = self.servers.value_at(i);
            let document = entry.serialize();
            let ghost before = members_view(members@);
            let ghost earlier = read;
            proof {
                law_entry_round_trip(entry@, entry.env_order());
                let next = table.take(i + 1);
                assert(next.drop_last() =~= table.take(i as int));
                assert(next.last() == (names[i as int], document@));
                read = read.insert(names[i as int], entry@);
                assert forall|j: int| 0 <= j < i + 1 implies read.contains_key(
                    #[trigger] names[j],
                ) && read[names[j]] == entries[j]@ by {
                    if j < i {
                        assert(earlier.contains_key(names[j]));
                        assert(names[j] != names[i as int]);
                    }
                }
                assert forall|k: Seq<char>| #[trigger] read.contains_key(k) implies exists|j: int|
                    0 <= j < i + 1 && names[j] == k by {
                    if k == names[i as int] {
                        assert(names[i as int] == k);
                    } else {
                        let j = choose|j: int| 0 <= j < i && names[j] == k;
                        assert(0 <= j < i + 1 && names[j] == k);
                    }
                }
            }
            members.push((name.clone(), document));
            proof {
                assert(members_view(members@) =~= before.push(
                    (names[i as int], encode_entry(entry@, entry.env_order())),
                ));
                assert(members_view(members@) =~= table.take(i + 1));
            }
            i += 1;
        }
        let mut top: Vec<(String, Json)> = Vec::new();
        proof {
            assert(table.take(i as int) =~= table);
            assert(members_view(top@) =~= Seq::<(Seq<char>, JsonValue)>::empty());
            assert forall|k: Seq<char>| self@.contains_key(k) implies #[trigger] read.contains_key(
                k,
            ) && read[k] == self@[k] by {
                assert(names.to_set().contains(k));
                let j = choose|j: int| 0 <= j < names.len() && names[j] == k;
                assert(read.contains_key(names[j]));
            }
            assert forall|k: Seq<char>| #[trigger] read.contains_key(k) implies self@.contains_key(
                k,
            ) by {
                let j = choose|j: int| 0 <= j < i && names[j] == k;
                assert(self.servers.map().contains_key(names[j]));
            }
            assert(read =~= self@);
        }
        push_member(&mut top, "mcpServers", Json::Object(members));
        proof {
            lemma_names();
            let whole = seq![("mcpServers"@, JsonValue::Object(table))];
            assert(members_view(top@) =~= whole);
            assert(whole =~= Seq::<(Seq<char>, JsonValue)>::empty().push(
                ("mcpServers"@, JsonValue::Object(table)),
            ));
            lemma_find_push(Seq::empty(), "mcpServers"@, JsonValue::Object(table));
            assert(find(whole, "mcpServers"@) == Some(JsonValue::Object(table)));
            assert(find(whole, "servers"@) is None);
        }
        Json::Object(top)
    }
}

proof fn lemma_find_with_text(
    members: Seq<(Seq<char>, JsonValue)>,
    key: Seq<char>,
    text: Option<Seq<char>>,
)
    ensures
        forall|wanted: Seq<char>| #[trigger]
            find(with_text(members, key, text), wanted) == (if text is Some && key == wanted {
                Some(JsonValue::Str(text->0))
            } else {
                find(members, wanted)
            }),
{
    if text is Some {
        lemma_find_push(members, key, JsonValue::Str(text->0));
    }
}

/// Strings that were written as JSON strings are read back as they were.
proof fn lemma_texts_round_trip(texts: Seq<Seq<char>>)
    ensures
        texts_of(encode_texts(texts)) == Ok::<Seq<Seq<char>>, ConfigErrorView>(texts),
    decreases texts.len(),
{
    if texts.len() == 0 {
        assert(texts =~= Seq::<Seq<char>>::empty());
    } else {
        lemma_texts_round_trip(texts.drop_last());
        assert(encode_texts(texts).drop_last() =~= encode_texts(texts.drop_last()));
        assert(texts.drop_last().push(texts.last()) =~= texts);
    }
}

/// The map of the first `count` variables of a list.
spec fn listed(order: Seq<(Seq<char>, Seq<char>)>, count: int) -> Map<
    Seq<char>,
    Seq<char>,
> {
    Map::new(
        |k: Seq<char>| exists|i: int| 0 <= i < count && #[trigger] order[i].0 == k,
        |k: Seq<char>| order[choose|i: int| 0 <= i < count && #[trigger] order[i].0 == k].1,
    )
}

proof fn lemma_variables_prefix(order: Seq<(Seq<char>, Seq<char>)>, count: int)
    requires
        0 <= count <= order.len(),
        forall|i: int, j: int| 0 <= i < j < order.len() ==> order[i].0 != order[j].0,
    ensures
        variables_of(encode_variables(order).take(count)) == Ok::<
            Map<Seq<char>, Seq<char>>,
            ConfigErrorView,
        >(listed(order, count)),
    decreases count,
{
    let written = encode_variables(order);
    if count == 0 {
        assert(listed(order, 0) =~= Map::<Seq<char>, Seq<char>>::empty());
    } else {
        lemma_variables_prefix(order, count - 1);
        assert(written.take(count).drop_last() =~= written.take(count - 1));
        let last = order[count - 1];
        assert(written.take(count).last() == (last.0, JsonValue::Str(last.1)));
        let grown = listed(order, count - 1).insert(last.0, last.1);
        assert forall|k: Seq<char>| grown.contains_key(k) implies #[trigger] listed(
            order,
            count,
        ).contains_key(k) && listed(order, count)[k] == grown[k] by {
            if k == last.0 {
                assert(order[count - 1].0 == k);
            } else {
                let i = choose|i: int| 0 <= i < count - 1 && #[trigger] order[i].0 == k;
                assert(order[i].0 == k);
            }
            let chosen = choose|i: int| 0 <= i < count && #[trigger] order[i].0 == k;
            if k != last.0 {
                let earlier = choose|i: int| 0 <= i < count - 1 && #[trigger] order[i].0 == k;
                assert(chosen == earlier);
            }
        }
        assert forall|k: Seq<char>| #[trigger]
            listed(order, count).contains_key(k) implies grown.contains_key(k) by {
            let i = choose|i: int| 0 <= i < count && #[trigger] order[i].0 == k;
            if i < count - 1 {
                assert(order[i].0 == k);
            }
        }
        assert(listed(order, count) =~= grown);
    }
}

/// Variables that were written as the members of an object are read back
/// as the table that they were listed from.
proof fn lemma_variables_round_trip(
    order: Seq<(Seq<char>, Seq<char>)>,
    env: Map<Seq<char>, Seq<char>>,
)
    requires
        lists(order, env),
    ensures
        variables_of(encode_variables(order)) == Ok::<Map<Seq<char>, Seq<char>>, ConfigErrorView>(
            env,
        ),
{
    lemma_variables_prefix(order, order.len() as int);
    assert(encode_variables(order).take(order.len() as int) =~= encode_variables(order));
    let all = listed(order, order.len() as int);
    assert forall|k: Seq<char>| env.contains_key(k) implies #[trigger] all.contains_key(k)
        && all[k] == env[k] by {
        let i = choose|i: int| 0 <= i < order.len() && order[i].0 == k;
        assert(order[i].0 == k);
        let chosen = choose|i: int| 0 <= i < order.len() && #[trigger] order[i].0 == k;
        assert(chosen == i);
    }
    assert forall|k: Seq<char>| #[trigger] all.contains_key(k) implies env.contains_key(k) by {
        let i = choose|i: int| 0 <= i < order.len() && #[trigger] order[i].0 == k;
        assert(env.contains_key(order[i].0));
    }
    assert(all =~= env);
}

proof fn lemma_remote_round_trip(tag: Seq<char>, c: RemoteView)
    ensures
        tag_of(members_of(encode_remote(tag, c))) == tag,
        decode_remote(members_of(encode_remote(tag, c))) == Ok::<RemoteView, ConfigErrorView>(c),
{
    lemma_names();
    let m0 = seq![("type"@, JsonValue::Str(tag))];
    let m1 = with_text(m0, "name"@, c.name);
    let m2 = with_text(m1, "description"@, c.description);
    let m3 = m2.push(("url"@, JsonValue::Str(c.url)));
    assert(m0 =~= Seq::<(Seq<char>, JsonValue)>::empty().push(("type"@, JsonValue::Str(tag))));
    lemma_find_push(Seq::empty(), "type"@, JsonValue::Str(tag));
    lemma_find_with_text(m0, "name"@, c.name);
    lemma_find_with_text(m1, "description"@, c.description);
    lemma_find_push(m2, "url"@, JsonValue::Str(c.url));
    assert(find(m3, "type"@) == Some(JsonValue::Str(tag)));
    assert(find(m3, "url"@) == Some(JsonValue::Str(c.url)));
    assert(optional_text(m3, "name"@) == Ok::<Option<Seq<char>>, ConfigErrorView>(c.name));
    assert(optional_text(m3, "description"@) == Ok::<Option<Seq<char>>, ConfigErrorView>(
        c.description,
    ));
}

proof fn lemma_stdio_round_trip(c: StdioView, order: Seq<(Seq<char>, Seq<char>)>)
    requires
        c.env matches Some(env) ==> lists(order, env),
    ensures
        tag_of(members_of(encode_stdio(c, order))) == "stdio"@,
        decode_stdio(members_of(encode_stdio(c, order))) == Ok::<StdioView, ConfigErrorView>(c),
{
    lemma_names();
    let m0 = seq![("type"@, JsonValue::Str("stdio"@))];
    let m1 = with_text(m0, "name"@, c.name);
    let m2 = with_text(m1, "description"@, c.description);
    let m3 = m2.push(("command"@, JsonValue::Str(c.command)));
    let m4 = m3.push(("args"@, JsonValue::Array(encode_texts(c.args))));
    let m5 = with_text(m4, "cwd"@, c.cwd);
    let m6 = match c.env {
        Some(_) => m5.push(("env"@, JsonValue::Object(encode_variables(order)))),
        None => m5,
    };
    assert(m0 =~= Seq::<(Seq<char>, JsonValue)>::empty().push(
        ("type"@, JsonValue::Str("stdio"@)),
    ));
    lemma_find_push(Seq::empty(), "type"@, JsonValue::Str("stdio"@));
    lemma_find_with_text(m0, "name"@, c.name);
    lemma_find_with_text(m1, "description"@, c.description);
    lemma_find_push(m2, "command"@, JsonValue::Str(c.command));
    lemma_find_push(m3, "args"@, JsonValue::Array(encode_texts(c.args)));
    lemma_find_with_text(m4, "cwd"@, c.cwd);
    if c.env is Some {
        lemma_find_push(m5, "env"@, JsonValue::Object(encode_variables(order)));
        lemma_variables_round_trip(order, c.env->0);
    }
    lemma_texts_round_trip(c.args);
    assert(find(m6, "type"@) == Some(JsonValue::Str("stdio"@)));
    assert(optional_text(m6, "name"@) == Ok::<Option<Seq<char>>, ConfigErrorView>(c.name));
    assert(optional_text(m6, "description"@) == Ok::<Option<Seq<char>>, ConfigErrorView>(
        c.description,
    ));
    assert(find(m6, "command"@) == Some(JsonValue::Str(c.command)));
    assert(args_of(m6) == Ok::<Seq<Seq<char>>, ConfigErrorView>(c.args));
    assert(optional_text(m6, "cwd"@) == Ok::<Option<Seq<char>>, ConfigErrorView>(c.cwd));
    assert(env_of(m6) == Ok::<Option<Map<Seq<char>, Seq<char>>>, ConfigErrorView>(c.env));
}

/// Reading the JSON form of an entry gives the entry back: whatever entry is
/// written, with the variables of its environment in any order, the reader
/// accepts the document and finds the same entry in it.
pub proof fn law_entry_round_trip(entry: ServerView, order: Seq<(Seq<char>, Seq<char>)>)
    requires
        entry matches ServerView::Stdio(c) ==> (c.env matches Some(env) ==> lists(order, env)),
    ensures
        decode_entry(encode_entry(entry, order)) == Ok::<ServerView, ConfigErrorView>(entry),
{
    lemma_names();
    match entry {
        ServerView::Sse(c) => {
            lemma_remote_round_trip("sse"@, c);
        },
        ServerView::Streamable(c) => {
            lemma_remote_round_trip("streamableHttp"@, c);
        },
        ServerView::Stdio(c) => {
            lemma_stdio_round_trip(c, order);
        },
    }
}

/// A document in the form that entries are written in is written again as it
/// was: reading it and writing the entry that was read, with the variables
/// in the same order, gives the document.
pub proof fn law_canonical_round_trip(
    document: JsonValue,
    entry: ServerView,
    order: Seq<(Seq<char>, Seq<char>)>,
)
    requires
        document == encode_entry(entry, order),
        entry matches ServerView::Stdio(c) ==> (c.env matches Some(env) ==> lists(order, env)),
    ensures
        decode_entry(document) matches Ok(read) && encode_entry(read, order) == document,
{
    law_entry_round_trip(entry, order);
}

} // verus!
