//! The configuration model: which upstream servers exist and how each is
//! reached.

use crate::assoc::StrMap;
use vstd::prelude::*;
use vstd::std_specs::cmp::PartialEqSpecImpl;
use vstd::std_specs::convert::FromSpecImpl;

verus! {

/// The model of an entry that is reached by URL.
pub struct RemoteView {
    pub name: Option<Seq<char>>,
    pub description: Option<Seq<char>>,
    pub url: Seq<char>,
}

/// The model of an entry that is run as a child process.
pub struct StdioView {
    pub name: Option<Seq<char>>,
    pub description: Option<Seq<char>>,
    pub command: Seq<char>,
    pub args: Seq<Seq<char>>,
    pub cwd: Option<Seq<char>>,
    pub env: Option<Map<Seq<char>, Seq<char>>>,
}

/// The model of one upstream server's description.
pub enum ServerView {
    Sse(RemoteView),
    Stdio(StdioView),
    Streamable(RemoteView),
}

impl ServerView {
    /// The display name, where one is given.
    pub open spec fn name(self) -> Option<Seq<char>> {
        match self {
            ServerView::Sse(c) => c.name,
            ServerView::Stdio(c) => c.name,
            ServerView::Streamable(c) => c.name,
        }
    }

    /// The description, where one is given.
    pub open spec fn description(self) -> Option<Seq<char>> {
        match self {
            ServerView::Sse(c) => c.description,
            ServerView::Stdio(c) => c.description,
            ServerView::Streamable(c) => c.description,
        }
    }
}

/// An upstream server reached over Server-Sent Events.
#[derive(Debug)]
pub struct McpSseConfig {
    name: Option<String>,
    description: Option<String>,
    url: String,
}

/// An upstream server run as a child process that speaks on its standard
/// input and output.
#[derive(Debug)]
pub struct McpStdioConfig {
    name: Option<String>,
    description: Option<String>,
    command: String,
    args: Vec<String>,
    cwd: Option<String>,
    env: Option<StrMap<String>>,
}

/// An upstream server reached over streamable HTTP.
#[derive(Debug)]
pub struct McpStreamableConfig {
    name: Option<String>,
    description: Option<String>,
    url: String,
}

/// One upstream server's description.
#[derive(Debug)]
pub enum McpServerConfig {
    Sse(McpSseConfig),
    Stdio(McpStdioConfig),
    Streamable(McpStreamableConfig),
}

/// The set of upstream servers, by service name.
#[derive(Debug)]
pub struct Config {
    pub servers: StrMap<McpServerConfig>,
}

/// The model of an optional text.
pub open spec fn text_view(text: Option<String>) -> Option<Seq<char>> {
    match text {
        Some(s) => Some(s@),
        None => None,
    }
}

/// The model of a list of texts.
pub open spec fn texts_view(texts: Seq<String>) -> Seq<Seq<char>> {
    Seq::new(texts.len(), |i: int| texts[i]@)
}

/// The model of an optional table of variables.
pub open spec fn env_view(env: Option<StrMap<String>>) -> Option<Map<Seq<char>, Seq<char>>> {
    match env {
        Some(table) => Some(table@),
        None => None,
    }
}

/// The variables of a table in the order in which the table holds them.
pub open spec fn order_of(env: StrMap<String>) -> Seq<(Seq<char>, Seq<char>)> {
    Seq::new(env.key_seq().len(), |i: int| (env.key_seq()[i], env.value_seq()[i]@))
}

impl View for McpSseConfig {
    type V = RemoteView;

    closed spec fn view(&self) -> RemoteView {
        RemoteView {
            name: text_view(self.name),
            description: text_view(self.description),
            url: self.url@,
        }
    }
}

impl View for McpStreamableConfig {
    type V = RemoteView;

    closed spec fn view(&self) -> RemoteView {
        RemoteView {
            name: text_view(self.name),
            description: text_view(self.description),
            url: self.url@,
        }
    }
}

impl View for McpStdioConfig {
    type V = StdioView;

    closed spec fn view(&self) -> StdioView {
        StdioView {
            name: text_view(self.name),
            description: text_view(self.description),
            command: self.command@,
            args: texts_view(self.args@),
            cwd: text_view(self.cwd),
            env: match self.env {
                Some(env) => Some(env@),
                None => None,
            },
        }
    }
}

impl View for McpServerConfig {
    type V = ServerView;

    open spec fn view(&self) -> ServerView {
        match self {
            McpServerConfig::Sse(c) => ServerView::Sse(c@),
            McpServerConfig::Stdio(c) => ServerView::Stdio(c@),
            McpServerConfig::Streamable(c) => ServerView::Streamable(c@),
        }
    }
}

impl View for Config {
    type V = Map<Seq<char>, ServerView>;

    open spec fn view(&self) -> Map<Seq<char>, ServerView> {
        self.servers@
    }
}

fn text_ref(text: &Option<String>) -> (r: Option<&str>)
    ensures
        match r {
            Some(s) => text_view(*text) == Some(s@),
            None => text_view(*text) is None,
        },
{
    match text {
        Some(s) => Some(s.as_str()),
        None => None,
    }
}

fn copy_text(text: Option<&str>) -> (r: Option<String>)
    ensures
        match text {
            Some(s) => text_view(r) == Some(s@),
            None => r is None,
        },
{
    match text {
        Some(s) => Some(s.to_owned()),
        None => None,
    }
}

fn same_text(a: &Option<String>, b: &Option<String>) -> (r: bool)
    ensures
        r == (text_view(*a) == text_view(*b)),
{
    match (a, b) {
        (Some(x), Some(y)) => *x == *y,
        (None, None) => true,
        _ => false,
    }
}

fn same_texts(a: &Vec<String>, b: &Vec<String>) -> (r: bool)
    ensures
        r == (texts_view(a@) == texts_view(b@)),
{
    if a.len() != b.len() {
        proof {
            assert(texts_view(a@).len() != texts_view(b@).len());
        }
        return false;
    }
    let mut i: usize = 0;
    while i < a.len()
        invariant
            i <= a.len(),
            a.len() == b.len(),
            forall|j: int| 0 <= j < i ==> a@[j]@ == b@[j]@,
        decreases a.len() - i,
    {
        if a[i] != b[i] {
            proof {
                assert(texts_view(a@)[i as int] != texts_view(b@)[i as int]);
            }
            return false;
        }
        i += 1;
    }
    proof {
        assert(texts_view(a@) =~= texts_view(b@));
    }
    true
}

fn same_variables(a: &StrMap<String>, b: &StrMap<String>) -> (r: bool)
    ensures
        r == (a@ == b@),
{
    let n = a.len();
    let m = b.len();
    proof {
        assert(a@.dom() =~= a.map().dom());
        assert(b@.dom() =~= b.map().dom());
    }
    if n != m {
        return false;
    }
    let mut i: usize = 0;
    while i < n
        invariant
            i <= n,
            n == a.key_seq().len(),
            a.well_formed(),
            forall|j: int|
                0 <= j < i ==> b.map().contains_key(#[trigger] a.key_seq()[j]) && b.map()[a.key_seq()[j]]@
                    == a.value_seq()[j]@,
        decreases n - i,
    {
        let key = a.key_at(i);
        let value = a.value_at(i);
        match b.get(key.as_str()) {
            Some(other) => {
                if *other != *value {
                    proof {
                        assert(a@[key@] == value@);
                        assert(b@[key@] == other@);
                    }
                    return false;
                }
            },
            None => {
                proof {
                    assert(a@.contains_key(key@));
                    assert(!b@.contains_key(key@));
                }
                return false;
            },
        }
        i += 1;
    }
    proof {
        assert forall|k: Seq<char>| a.map().dom().contains(k) implies b.map().dom().contains(
            k,
        ) by {
            assert(a.key_seq().to_set().contains(k));
            let j = choose|j: int| 0 <= j < a.key_seq().len() && a.key_seq()[j] == k;
            assert(b.map().contains_key(a.key_seq()[j]));
        }
        vstd::set_lib::lemma_subset_equality(a.map().dom(), b.map().dom());
        assert forall|k: Seq<char>| a@.contains_key(k) implies a@[k] == b@[k] by {
            assert(a.key_seq().to_set().contains(k));
            let j = choose|j: int| 0 <= j < a.key_seq().len() && a.key_seq()[j] == k;
            assert(b.map().contains_key(a.key_seq()[j]));
        }
        assert(a@ =~= b@);
    }
    true
}

fn same_env(a: &Option<StrMap<String>>, b: &Option<StrMap<String>>) -> (r: bool)
    ensures
        r == (env_view(*a) == env_view(*b)),
{
    match (a, b) {
        (Some(x), Some(y)) => same_variables(x, y),
        (None, None) => true,
        _ => false,
    }
}

fn copy_texts(texts: &Vec<String>) -> (r: Vec<String>)
    ensures
        texts_view(r@) == texts_view(texts@),
{
    let r = texts.clone();
    proof {
        assert(r.deep_view() =~= texts_view(r@));
        assert(texts.deep_view() =~= texts_view(texts@));
    }
    r
}

impl McpSseConfig {
    /// The SSE entry with these fields.
    pub fn from_parts(name: Option<String>, description: Option<String>, url: String) -> (r:
        McpSseConfig)
        ensures
            r@ == (RemoteView {
                name: text_view(name),
                description: text_view(description),
                url: url@,
            }),
    {
        McpSseConfig { name, description, url }
    }

    /// The display name, where one is given.
    pub fn name(&self) -> (r: Option<&str>)
        ensures
            match r {
                Some(s) => self@.name == Some(s@),
                None => self@.name is None,
            },
    {
        text_ref(&self.name)
    }

    /// The description, where one is given.
    pub fn description(&self) -> (r: Option<&str>)
        ensures
            match r {
                Some(s) => self@.description == Some(s@),
                None => self@.description is None,
            },
    {
        text_ref(&self.description)
    }

    /// The address of the event stream.
    pub fn url(&self) -> (r: &str)
        ensures
            r@ == self@.url,
    {
        self.url.as_str()
    }
}

impl McpStreamableConfig {
    /// The streamable entry with these fields.
    pub fn from_parts(name: Option<String>, description: Option<String>, url: String) -> (r:
        McpStreamableConfig)
        ensures
            r@ == (RemoteView {
                name: text_view(name),
                description: text_view(description),
                url: url@,
            }),
    {
        McpStreamableConfig { name, description, url }
    }

    /// The display name, where one is given.
    pub fn name(&self) -> (r: Option<&str>)
        ensures
            match r {
                Some(s) => self@.name == Some(s@),
                None => self@.name is None,
            },
    {
        text_ref(&self.name)
    }

    /// The description, where one is given.
    pub fn description(&self) -> (r: Option<&str>)
        ensures
            match r {
                Some(s) => self@.description == Some(s@),
                None => self@.description is None,
            },
    {
        text_ref(&self.description)
    }

    /// The address of the endpoint.
    pub fn url(&self) -> (r: &str)
        ensures
            r@ == self@.url,
    {
        self.url.as_str()
    }
}

impl McpStdioConfig {
    /// The order in which the table of the environment holds its variables;
    /// empty where there is no table.
    pub closed spec fn env_order(&self) -> Seq<(Seq<char>, Seq<char>)> {
        match self.env {
            Some(env) => order_of(env),
            None => Seq::empty(),
        }
    }

    /// The stdio entry with these fields.
    pub fn from_parts(
        name: Option<String>,
        description: Option<String>,
        command: String,
        args: Vec<String>,
        cwd: Option<String>,
        env: Option<StrMap<String>>,
    ) -> (r: McpStdioConfig)
        ensures
            r@ == (StdioView {
                name: text_view(name),
                description: text_view(description),
                command: command@,
                args: texts_view(args@),
                cwd: text_view(cwd),
                env: env_view(env),
            }),
    {
        McpStdioConfig { name, description, command, args, cwd, env }
    }

    /// A stdio entry that runs `command` with `args` in the gateway's own
    /// directory and environment, without a name or a description.
    pub fn new(command: String, args: Vec<String>) -> (r: McpStdioConfig)
        ensures
            r@ == (StdioView {
                name: None,
                description: None,
                command: command@,
                args: texts_view(args@),
                cwd: None,
                env: None,
            }),
    {
        McpStdioConfig { name: None, description: None, command, args, cwd: None, env: None }
    }

    /// The entry with its display name set to `name`.
    pub fn with_name(self, name: String) -> (r: McpStdioConfig)
        ensures
            r@ == (StdioView { name: Some(name@), ..self@ }),
    {
        McpStdioConfig { name: Some(name), ..self }
    }

    /// The entry with its description set to `description`.
    pub fn with_description(self, description: String) -> (r: McpStdioConfig)
        ensures
            r@ == (StdioView { description: Some(description@), ..self@ }),
    {
        McpStdioConfig { description: Some(description), ..self }
    }

    /// The entry with its working directory set to `cwd`.
    pub fn with_cwd(self, cwd: String) -> (r: McpStdioConfig)
        ensures
            r@ == (StdioView { cwd: Some(cwd@), ..self@ }),
    {
        McpStdioConfig { cwd: Some(cwd), ..self }
    }

    /// The entry with `env` as the variables that are added to the child's
    /// environment.
    pub fn with_env(self, env: StrMap<String>) -> (r: McpStdioConfig)
        ensures
            r@ == (StdioView { env: Some(env@), ..self@ }),
    {
        McpStdioConfig { env: Some(env), ..self }
    }

    /// The display name, where one is given.
    pub fn name(&self) -> (r: Option<&str>)
        ensures
            match r {
                Some(s) => self@.name == Some(s@),
                None => self@.name is None,
            },
    {
        text_ref(&self.name)
    }

    /// The description, where one is given.
    pub fn description(&self) -> (r: Option<&str>)
        ensures
            match r {
                Some(s) => self@.description == Some(s@),
                None => self@.description is None,
            },
    {
        text_ref(&self.description)
    }

    /// The program to run.
    pub fn command(&self) -> (r: &str)
        ensures
            r@ == self@.command,
    {
        self.command.as_str()
    }

    /// The arguments of the program, in order.
    pub fn args(&self) -> (r: &Vec<String>)
        ensures
            texts_view(r@) == self@.args,
    {
        &self.args
    }

    /// The working directory of the child, where one is given.
    pub fn cwd(&self) -> (r: Option<&str>)
        ensures
            match r {
                Some(s) => self@.cwd == Some(s@),
                None => self@.cwd is None,
            },
    {
        text_ref(&self.cwd)
    }

    /// The variables that are added to the child's environment, where any
    /// are given.
    pub fn env(&self) -> (r: Option<&StrMap<String>>)
        ensures
            match r {
                Some(env) => self@.env == Some(env@) && self.env_order() == order_of(*env),
                None => self@.env is None,
            },
    {
        match &self.env {
            Some(env) => Some(env),
            None => None,
        }
    }
}

impl From<String> for McpSseConfig {
    /// The entry that reaches `value`, without a name or a description.
    fn from(value: String) -> (r: Self)
        ensures
            r@ == (RemoteView { name: None, description: None, url: value@ }),
    {
        McpSseConfig { url: value, name: None, description: None }
    }
}

impl FromSpecImpl<String> for McpSseConfig {
    open spec fn obeys_from_spec() -> bool {
        true
    }

    closed spec fn from_spec(value: String) -> Self {
        McpSseConfig { url: value, name: None, description: None }
    }
}

impl From<String> for McpStreamableConfig {
    /// The entry that reaches `value`, without a name or a description.
    fn from(value: String) -> (r: Self)
        ensures
            r@ == (RemoteView { name: None, description: None, url: value@ }),
    {
        McpStreamableConfig { url: value, name: None, description: None }
    }
}

impl FromSpecImpl<String> for McpStreamableConfig {
    open spec fn obeys_from_spec() -> bool {
        true
    }

    closed spec fn from_spec(value: String) -> Self {
        McpStreamableConfig { url: value, name: None, description: None }
    }
}

impl From<McpSseConfig> for McpServerConfig {
    fn from(value: McpSseConfig) -> (r: Self)
        ensures
            r == McpServerConfig::Sse(value),
    {
        McpServerConfig::Sse(value)
    }
}

impl FromSpecImpl<McpSseConfig> for McpServerConfig {
    open spec fn obeys_from_spec() -> bool {
        true
    }

    open spec fn from_spec(value: McpSseConfig) -> Self {
        McpServerConfig::Sse(value)
    }
}

impl From<McpStdioConfig> for McpServerConfig {
    fn from(value: McpStdioConfig) -> (r: Self)
        ensures
            r == McpServerConfig::Stdio(value),
    {
        McpServerConfig::Stdio(value)
    }
}

impl FromSpecImpl<McpStdioConfig> for McpServerConfig {
    open spec fn obeys_from_spec() -> bool {
        true
    }

    open spec fn from_spec(value: McpStdioConfig) -> Self {
        McpServerConfig::Stdio(value)
    }
}

impl From<McpStreamableConfig> for McpServerConfig {
    fn from(value: McpStreamableConfig) -> (r: Self)
        ensures
            r == McpServerConfig::Streamable(value),
    {
        McpServerConfig::Streamable(value)
    }
}

impl FromSpecImpl<McpStreamableConfig> for McpServerConfig {
    open spec fn obeys_from_spec() -> bool {
        true
    }

    open spec fn from_spec(value: McpStreamableConfig) -> Self {
        McpServerConfig::Streamable(value)
    }
}

impl McpServerConfig {
    /// The order in which a stdio entry holds the variables of its
    /// environment; empty for the other entries.
    pub open spec fn env_order(&self) -> Seq<(Seq<char>, Seq<char>)> {
        match self {
            McpServerConfig::Stdio(c) => c.env_order(),
            _ => Seq::empty(),
        }
    }

    /// The display name, where one is given.
    pub fn name(&self) -> (r: Option<&str>)
        ensures
            match r {
                Some(s) => self@.name() == Some(s@),
                None => self@.name() is None,
            },
    {
        match self {
            McpServerConfig::Sse(c) => c.name(),
            McpServerConfig::Stdio(c) => c.name(),
            McpServerConfig::Streamable(c) => c.name(),
        }
    }

    /// The description, where one is given.
    pub fn description(&self) -> (r: Option<&str>)
        ensures
            match r {
                Some(s) => self@.description() == Some(s@),
                None => self@.description() is None,
            },
    {
        match self {
            McpServerConfig::Sse(c) => c.description(),
            McpServerConfig::Stdio(c) => c.description(),
            McpServerConfig::Streamable(c) => c.description(),
        }
    }

    /// An SSE entry that points at `url` and keeps the name and the
    /// description of this entry.
    pub fn to_sse(&self, url: String) -> (r: Self)
        ensures
            r@ == ServerView::Sse(
                RemoteView { name: self@.name(), description: self@.description(), url: url@ },
            ),
    {
        McpServerConfig::Sse(
            McpSseConfig {
                name: copy_text(self.name()),
                description: copy_text(self.description()),
                url,
            },
        )
    }

    /// A streamable entry that points at `url` and keeps the name and the
    /// description of this entry.
    pub fn to_streamable(&self, url: String) -> (r: Self)
        ensures
            r@ == ServerView::Streamable(
                RemoteView { name: self@.name(), description: self@.description(), url: url@ },
            ),
    {
        McpServerConfig::Streamable(
            McpStreamableConfig {
                name: copy_text(self.name()),
                description: copy_text(self.description()),
                url,
            },
        )
    }
}

impl PartialEq for McpSseConfig {
    fn eq(&self, other: &Self) -> (r: bool) {
        same_text(&self.name, &other.name) && same_text(&self.description, &other.description)
            && self.url == other.url
    }
}

impl PartialEqSpecImpl for McpSseConfig {
    open spec fn obeys_eq_spec() -> bool {
        true
    }

    open spec fn eq_spec(&self, other: &Self) -> bool {
        self@ == other@
    }
}

impl PartialEq for McpStreamableConfig {
    fn eq(&self, other: &Self) -> (r: bool) {
        same_text(&self.name, &other.name) && same_text(&self.description, &other.description)
            && self.url == other.url
    }
}

impl PartialEqSpecImpl for McpStreamableConfig {
    open spec fn obeys_eq_spec() -> bool {
        true
    }

    open spec fn eq_spec(&self, other: &Self) -> bool {
        self@ == other@
    }
}

impl PartialEq for McpStdioConfig {
    fn eq(&self, other: &Self) -> (r: bool) {
        same_text(&self.name, &other.name) && same_text(&self.description, &other.description)
            && self.command == other.command && same_texts(&self.args, &other.args) && same_text(
            &self.cwd,
            &other.cwd,
        ) && same_env(&self.env, &other.env)
    }
}

impl PartialEqSpecImpl for McpStdioConfig {
    open spec fn obeys_eq_spec() -> bool {
        true
    }

    open spec fn eq_spec(&self, other: &Self) -> bool {
        self@ == other@
    }
}

impl PartialEq for McpServerConfig {
    fn eq(&self, other: &Self) -> (r: bool) {
        match (self, other) {
            (McpServerConfig::Sse(a), McpServerConfig::Sse(b)) => a == b,
            (McpServerConfig::Stdio(a), McpServerConfig::Stdio(b)) => a == b,
            (McpServerConfig::Streamable(a), McpServerConfig::Streamable(b)) => a == b,
            _ => false,
        }
    }
}

impl PartialEqSpecImpl for McpServerConfig {
    open spec fn obeys_eq_spec() -> bool {
        true
    }

    open spec fn eq_spec(&self, other: &Self) -> bool {
        self@ == other@
    }
}

impl Eq for McpSseConfig {

}

impl Eq for McpStreamableConfig {

}

impl Eq for McpStdioConfig {

}

impl Eq for McpServerConfig {

}

impl Clone for McpSseConfig {
    fn clone(&self) -> (r: Self)
        ensures
            r@ == self@,
    {
        McpSseConfig {
            name: self.name.clone(),
            description: self.description.clone(),
            url: self.url.clone(),
        }
    }
}

impl Clone for McpStreamableConfig {
    fn clone(&self) -> (r: Self)
        ensures
            r@ == self@,
    {
        McpStreamableConfig {
            name: self.name.clone(),
            description: self.description.clone(),
            url: self.url.clone(),
        }
    }
}

impl Clone for McpStdioConfig {
    fn clone(&self) -> (r: Self)
        ensures
            r@ == self@,
    {
        McpStdioConfig {
            name: self.name.clone(),
            description: self.description.clone(),
            command: self.command.clone(),
            args: copy_texts(&self.args),
            cwd: self.cwd.clone(),
            env: match &self.env {
                Some(env) => Some(env.duplicate()),
                None => None,
            },
        }
    }
}

impl Clone for McpServerConfig {
    fn clone(&self) -> (r: Self)
        ensures
            r@ == self@,
    {
        match self {
            McpServerConfig::Sse(c) => McpServerConfig::Sse(c.clone()),
            McpServerConfig::Stdio(c) => McpServerConfig::Stdio(c.clone()),
            McpServerConfig::Streamable(c) => McpServerConfig::Streamable(c.clone()),
        }
    }
}

impl Config {
    /// A configuration without services.
    pub fn new() -> (r: Config)
        ensures
            r@ == Map::<Seq<char>, ServerView>::empty(),
    {
        let servers: StrMap<McpServerConfig> = StrMap::new();
        proof {
            assert(servers@ =~= Map::<Seq<char>, ServerView>::empty());
        }
        Config { servers }
    }
}

/// The identity that a client presents to an upstream server.
#[derive(Debug, Clone, PartialEq, Eq)]
pub struct ClientIdentity {
    pub name: String,
    pub version: String,
}

/// The identity under which an upstream is addressed: the one that the
/// inbound client gave, or the gateway's own where it gave none.
pub fn client_identity(given: Option<ClientIdentity>) -> (r: ClientIdentity)
    ensures
        match given {
            Some(identity) => r == identity,
            None => r.name@ == "test sse client"@ && r.version@ == "0.0.1"@,
        },
{
    match given {
        Some(identity) => identity,
        None => ClientIdentity { name: "test sse client".to_owned(), version: "0.0.1".to_owned() },
    }
}

} // verus!
