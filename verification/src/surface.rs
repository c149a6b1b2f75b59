//! The view of the configuration that the gateway hands out: every service
//! of the configuration, described as an endpoint of the gateway itself.

use crate::assoc::StrMap;
use crate::config::{text_view, Config, McpServerConfig, RemoteView, ServerView};
use vstd::prelude::*;
use vstd::string::StringExecFns;

verus! {

/// What a request for the view asks for.
#[derive(Debug, Clone, PartialEq, Eq)]
pub struct Query {
    /// Describe the services as SSE endpoints rather than streamable ones.
    pub sse: bool,
    /// Write the addresses with `https` rather than `http`.
    pub https: bool,
    /// The host to write into the addresses, where the request names one.
    pub host: Option<String>,
}

/// Whether one of the parameters is named `key`.
pub open spec fn has_key(pairs: Seq<(String, String)>, key: Seq<char>) -> bool {
    exists|i: int| 0 <= i < pairs.len() && #[trigger] pairs[i].0@ == key
}

/// The value of the last parameter that is named `key`.
pub open spec fn last_value(pairs: Seq<(String, String)>, key: Seq<char>) -> Option<Seq<char>>
    decreases pairs.len(),
{
    if pairs.len() == 0 {
        None
    } else if pairs.last().0@ == key {
        Some(pairs.last().1@)
    } else {
        last_value(pairs.drop_last(), key)
    }
}

/// The host that is written into the addresses: the one that the request
/// names as a parameter, else the one of its `Host` header, else none.
pub open spec fn effective_host(named: Option<Seq<char>>, header: Option<Seq<char>>) -> Seq<char> {
    match named {
        Some(host) => host,
        None => match header {
            Some(host) => host,
            None => Seq::empty(),
        },
    }
}

/// The address of `service` on the gateway.
pub open spec fn public_url(sse: bool, https: bool, host: Seq<char>, service: Seq<char>) -> Seq<
    char,
> {
    let base = (if https {
        "https"@
    } else {
        "http"@
    }) + "://"@ + host + "/"@ + service;
    if sse {
        base + "/sse"@
    } else {
        base
    }
}

/// The entry that describes `service` as an endpoint of the gateway: it
/// keeps the name and the description of `entry` and points at the gateway.
pub open spec fn public_entry(
    entry: ServerView,
    sse: bool,
    https: bool,
    host: Seq<char>,
    service: Seq<char>,
) -> ServerView {
    let remote = RemoteView {
        name: entry.name(),
        description: entry.description(),
        url: public_url(sse, https, host, service),
    };
    if sse {
        ServerView::Sse(remote)
    } else {
        ServerView::Streamable(remote)
    }
}

fn is_named(pair: &(String, String), key: &str) -> (r: bool)
    ensures
        r == (pair.0@ == key@),
{
    let wanted = key.to_owned();
    pair.0 == wanted
}

impl Query {
    /// Reads the query from the parameters of the request: `sse` and `https`
    /// count by their presence, `host` by its value, the last one where it is
    /// given more than once.
    pub fn from_pairs(pairs: &Vec<(String, String)>) -> (r: Query)
        ensures
            r.sse == has_key(pairs@, "sse"@),
            r.https == has_key(pairs@, "https"@),
            text_view(r.host) == last_value(pairs@, "host"@),
    {
        let mut sse = false;
        let mut https = false;
        let mut host: Option<String> = None;
        let mut i: usize = 0;
        proof {
            assert(pairs@.take(0) =~= Seq::<(String, String)>::empty());
        }
        while i < pairs.len()
            invariant
                i <= pairs.len(),
                sse == has_key(pairs@.take(i as int), "sse"@),
                https == has_key(pairs@.take(i as int), "https"@),
                text_view(host) == last_value(pairs@.take(i as int), "host"@),
            decreases pairs.len() - i,
        {
            let ghost seen = pairs@.take(i as int);
            let ghost next = pairs@.take(i + 1);
            proof {
                assert(next.drop_last() =~= seen);
                assert(next.last() == pairs@[i as int]);
                lemma_has_key_push(seen, pairs@[i as int], "sse"@);
                lemma_has_key_push(seen, pairs@[i as int], "https"@);
                assert(next =~= seen.push(pairs@[i as int]));
            }
            if is_named(&pairs[i], "sse") {
                sse = true;
            }
            if is_named(&pairs[i], "https") {
                https = true;
            }
            if is_named(&pairs[i], "host") {
                host = Some(pairs[i].1.clone());
            }
            i += 1;
        }
        proof {
            assert(pairs@.take(i as int) =~= pairs@);
        }
        Query { sse, https, host }
    }
}

proof fn lemma_has_key_push(pairs: Seq<(String, String)>, pair: (String, String), key: Seq<char>)
    ensures
        has_key(pairs.push(pair), key) == (has_key(pairs, key) || pair.0@ == key),
{
    let grown = pairs.push(pair);
    if has_key(pairs, key) {
        let i = choose|i: int| 0 <= i < pairs.len() && #[trigger] pairs[i].0@ == key;
        assert(grown[i].0@ == key);
    }
    if pair.0@ == key {
        assert(grown[pairs.len() as int].0@ == key);
    }
    if has_key(grown, key) {
        let i = choose|i: int| 0 <= i < grown.len() && #[trigger] grown[i].0@ == key;
        if i < pairs.len() {
            assert(pairs[i].0@ == key);
        }
    }
}

fn address(sse: bool, https: bool, host: &str, service: &str) -> (r: String)
    ensures
        r@ == public_url(sse, https, host@, service@),
{
    let mut r = if https {
        "https".to_owned()
    } else {
        "http".to_owned()
    };
    r.append("://");
    r.append(host);
    r.append("/");
    r.append(service);
    if sse {
        r.append("/sse");
    }
    r
}

/// The view of `config` that is handed out: the same services in the same
/// order, each described as an endpoint of the gateway; see
/// [`public_entry`]. `host_header` is the `Host` header of the request.
pub fn list_servers(config: &Config, query: &Query, host_header: Option<&str>) -> (r: Config)
    ensures
        r.servers.key_seq() == config.servers.key_seq(),
        forall|service: Seq<char>| r@.contains_key(service) <==> config@.contains_key(service),
        forall|service: Seq<char>| #[trigger]
            config@.contains_key(service) ==> r@[service] == public_entry(
                config@[service],
                query.sse,
                query.https,
                effective_host(
                    text_view(query.host),
                    match host_header {
                        Some(host) => Some(host@),
                        None => None,
                    },
                ),
                service,
            ),
{
    let host: &str = match &query.host {
        Some(named) => named.as_str(),
        None => match host_header {
            Some(header) => header,
            None => "",
        },
    };
    proof {
        reveal_strlit("");
        assert(""@ =~= Seq::<char>::empty());
    }
    let ghost host_view = host@;
    let count = config.servers.len();
    let ghost names = config.servers.key_seq();
    let ghost entries = config.servers.value_seq();
    let mut servers: StrMap<McpServerConfig> = StrMap::new();
    let mut i: usize = 0;
    proof {
        assert(names.take(0) =~= Seq::<Seq<char>>::empty());
    }
    while i < count
        invariant
            i <= count,
            count == names.len(),
            names == config.servers.key_seq(),
            entries == config.servers.value_seq(),
            config.servers.well_formed(),
            host@ == host_view,
            servers.key_seq() == names.take(i as int),
            forall|j: int|
                0 <= j < i ==> servers.map().contains_key(#[trigger] names[j])
                    && servers.map()[names[j]]@ == public_entry(
                    entries[j]@,
                    query.sse,
                    query.https,
                    host_view,
                    names[j],
                ),
        decreases count - i,
    {
        let held = servers.len();
        let name = config.servers.key_at(i);
        let entry = config.servers.value_at(i);
        let url = address(query.sse, query.https, host, name.as_str());
        let public = if query.sse {
            entry.to_sse(url)
        } else {
            entry.to_streamable(url)
        };
        let ghost before = servers.map();
        proof {
            if before.contains_key(name@) {
                assert(servers.key_seq().to_set().contains(name@));
                let j = choose|j: int| 0 <= j < i && names.take(i as int)[j] == name@;
                assert(names[j] == names[i as int]);
            }
        }
        servers.insert(name.clone(), public);
        proof {
            assert(names.take(i as int).push(names[i as int]) =~= names.take(i + 1));
            assert forall|j: int| 0 <= j < i + 1 implies servers.map().contains_key(
                #[trigger] names[j],
            ) && servers.map()[names[j]]@ == public_entry(
                entries[j]@,
                query.sse,
                query.https,
                host_view,
                names[j],
            ) by {
                if j < i {
                    assert(before.contains_key(names[j]));
                    assert(names[j] != names[i as int]);
                }
            }
        }
        i += 1;
    }
    let total = servers.len();
    proof {
        assert(names.take(i as int) =~= names);
        assert forall|service: Seq<char>| servers@.contains_key(service) <==> config@.contains_key(
            service,
        ) by {
            assert(servers.map().contains_key(service) <==> names.to_set().contains(service));
            assert(config.servers.map().contains_key(service) <==> names.to_set().contains(
                service,
            ));
        }
        assert forall|service: Seq<char>| #[trigger]
            config@.contains_key(service) implies servers@[service] == public_entry(
            config@[service],
            query.sse,
            query.https,
            host_view,
            service,
        ) by {
            assert(names.to_set().contains(service));
            let j = choose|j: int| 0 <= j < names.len() && names[j] == service;
            assert(servers.map().contains_key(names[j]));
            assert(config.servers.map()[names[j]] == entries[j]);
        }
    }
    Config { servers }
}

} // verus!
