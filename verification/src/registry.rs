//! The registry: the current configuration together with the routers that
//! were built from it.
//!
//! A router is built for a service on its first request and kept until a
//! reload finds the service gone or changed. The registry never holds a
//! router whose description differs from what the configuration says of
//! that service.

use crate::assoc::StrMap;
use crate::config::{Config, McpServerConfig, ServerView};
use crate::gate::{Gate, GateState};
use crate::json::parsed_document;
use crate::read::{decode_config, ConfigError, ConfigErrorView};
use std::sync::Arc;
use vstd::prelude::*;

verus! {

/// The router of one service, with the description that it was built from.
/// Every session that the router accepts gets a gate for that description.
#[derive(Debug)]
pub struct ServiceRouter<R> {
    config: Arc<McpServerConfig>,
    router: R,
}

/// `Arc::clone` of the standard library: another handle to the value that
/// `handle` points to.
#[verifier::external_body]
fn share<T>(handle: &Arc<T>) -> (r: Arc<T>)
    ensures
        r == *handle,
{
    Arc::clone(handle)
}

impl<R> ServiceRouter<R> {
    /// The description that the router was built from.
    pub closed spec fn config_spec(&self) -> McpServerConfig {
        *self.config
    }

    /// The router itself.
    pub closed spec fn router_spec(&self) -> R {
        self.router
    }

    /// Puts `router` together with the description that it was built from.
    pub fn new(config: Arc<McpServerConfig>, router: R) -> (r: Self)
        ensures
            r.config_spec() == *config,
            r.router_spec() == router,
    {
        ServiceRouter { config, router }
    }

    /// The description that the router was built from.
    pub fn config(&self) -> (r: &McpServerConfig)
        ensures
            *r == self.config_spec(),
    {
        &self.config
    }

    /// The router itself.
    pub fn router(&self) -> (r: &R)
        ensures
            *r == self.router_spec(),
    {
        &self.router
    }

    /// A gate for a new session of this service: unbound, and sharing the
    /// description that the router was built from.
    pub fn new_gate(&self) -> (r: Gate)
        ensures
            r.state_spec() == GateState::Unbound,
            r.config_spec() == self.config_spec(),
    {
        Gate::new(share(&self.config))
    }
}

/// What the registry knows of a service.
#[derive(Debug)]
pub enum Lookup<'a, R> {
    /// A router is cached.
    Hit(&'a ServiceRouter<R>),
    /// No router is cached, and this is the description to build one from.
    Miss(&'a McpServerConfig),
    /// The configuration has no such service.
    NotFound,
}

/// The configuration and the routers built from it.
#[derive(Debug)]
pub struct Registry<R> {
    config: Config,
    routers: StrMap<ServiceRouter<R>>,
}

/// Whether every router of `cached` was built from what `config` says of its
/// service.
pub open spec fn consistent<R>(
    config: Map<Seq<char>, ServerView>,
    cached: Map<Seq<char>, ServiceRouter<R>>,
) -> bool {
    forall|service: Seq<char>| #[trigger]
        cached.contains_key(service) ==> config.contains_key(service) && config[service]
            == cached[service].config_spec()@
}

/// Whether the router of `service` outlives a reload from `before` to
/// `after`: the service is still there and described as it was.
pub open spec fn survives(
    before: Map<Seq<char>, ServerView>,
    after: Map<Seq<char>, ServerView>,
    service: Seq<char>,
) -> bool {
    after.contains_key(service) && before.contains_key(service) && after[service]
        == before[service]
}

/// What a reload from `before` to `after` makes of the routers in `cached`:
/// `kept` holds those that survive, each as it was, and `evicted` names the
/// others, none twice.
pub open spec fn reloaded<R>(
    before: Map<Seq<char>, ServerView>,
    after: Map<Seq<char>, ServerView>,
    cached: Map<Seq<char>, ServiceRouter<R>>,
    kept: Map<Seq<char>, ServiceRouter<R>>,
    evicted: Seq<Seq<char>>,
) -> bool {
    &&& forall|service: Seq<char>| #[trigger]
        kept.contains_key(service) <==> cached.contains_key(service) && survives(
            before,
            after,
            service,
        )
    &&& forall|service: Seq<char>| #[trigger]
        kept.contains_key(service) ==> kept[service] == cached[service]
    &&& forall|service: Seq<char>|
        evicted.contains(service) <==> cached.contains_key(service) && !survives(
            before,
            after,
            service,
        )
    &&& evicted.no_duplicates()
}

impl<R> Registry<R> {
    #[verifier::type_invariant]
    spec fn matches_config(self) -> bool {
        consistent(self.config@, self.routers.map())
    }

    /// The current configuration.
    pub closed spec fn config_view(&self) -> Map<Seq<char>, ServerView> {
        self.config@
    }

    /// The routers that are cached, by service.
    pub closed spec fn cached(&self) -> Map<Seq<char>, ServiceRouter<R>> {
        self.routers.map()
    }

    /// A registry for `config`, with no router built yet.
    pub fn new(config: Config) -> (r: Self)
        ensures
            r.config_view() == config@,
            r.cached() == Map::<Seq<char>, ServiceRouter<R>>::empty(),
    {
        Registry { config, routers: StrMap::new() }
    }

    /// The current configuration.
    pub fn config(&self) -> (r: &Config)
        ensures
            r@ == self.config_view(),
            consistent(self.config_view(), self.cached()),
    {
        proof {
            use_type_invariant(self);
        }
        &self.config
    }

    /// The number of routers that are cached.
    pub fn cached_len(&self) -> (n: usize)
        ensures
            n == self.cached().len(),
            self.cached().dom().finite(),
    {
        self.routers.len()
    }

    /// Whether a router is cached for `service`.
    pub fn is_cached(&self, service: &str) -> (r: bool)
        ensures
            r == self.cached().contains_key(service@),
    {
        self.routers.contains_key(service)
    }

    /// What the registry knows of `service`: the cached router, or else the
    /// description to build one from, or else nothing.
    pub fn lookup(&self, service: &str) -> (r: Lookup<'_, R>)
        ensures
            match r {
                Lookup::Hit(router) => self.cached().contains_key(service@) && *router
                    == self.cached()[service@],
                Lookup::Miss(entry) => !self.cached().contains_key(service@)
                    && self.config_view().contains_key(service@) && entry@
                    == self.config_view()[service@],
                Lookup::NotFound => !self.cached().contains_key(service@)
                    && !self.config_view().contains_key(service@),
            },
    {
        match self.routers.get(service) {
            Some(router) => Lookup::Hit(router),
            None => match self.config.servers.get(service) {
                Some(entry) => Lookup::Miss(entry),
                None => Lookup::NotFound,
            },
        }
    }

    /// Caches `router` for `service`, in place of any router that is cached
    /// for it already, where the router was built from what the
    /// configuration now says of the service. Otherwise the router is dropped
    /// and the registry is left as it is. Returns whether the router was
    /// cached.
    pub fn install(&mut self, service: String, router: ServiceRouter<R>) -> (done: bool)
        ensures
            final(self).config_view() == old(self).config_view(),
            done == (old(self).config_view().contains_key(service@) && old(
                self
            ).config_view()[service@] == router.config_spec()@),
            done ==> final(self).cached() == old(self).cached().insert(service@, router),
            !done ==> final(self).cached() == old(self).cached(),
            consistent(final(self).config_view(), final(self).cached()),
    {
        proof {
            use_type_invariant(&*self);
        }
        let fits = match self.config.servers.get(service.as_str()) {
            Some(entry) => *entry == *router.config(),
            None => false,
        };
        if !fits {
            return false;
        }
        let mut routers: StrMap<ServiceRouter<R>> = StrMap::new();
        core::mem::swap(&mut self.routers, &mut routers);
        routers.insert(service, router);
        core::mem::swap(&mut self.routers, &mut routers);
        true
    }

    /// Puts `config` in the place of the current configuration and drops the
    /// routers that it makes stale: those of services that are gone and
    /// those of services that are described otherwise than before. The other
    /// routers stay as they are. Returns the names of the services whose
    /// routers were dropped.
    pub fn reload(&mut self, config: Config) -> (evicted: Vec<String>)
        ensures
            final(self).config_view() == config@,
            reloaded(
                old(self).config_view(),
                config@,
                old(self).cached(),
                final(self).cached(),
                evicted.deep_view(),
            ),
            consistent(final(self).config_view(), final(self).cached()),
    {
        proof {
            use_type_invariant(&*self);
        }
        let ghost before = self.config@;
        let ghost after = config@;
        let mut routers: StrMap<ServiceRouter<R>> = StrMap::new();
        core::mem::swap(&mut self.routers, &mut routers);
        let ghost cached = routers.map();
        let count = routers.len();
        let mut evicted: Vec<String> = Vec::new();
        let mut i: usize = 0;
        while i < count
            invariant
                i <= count,
                count == routers.key_seq().len(),
                routers.well_formed(),
                routers.map() == cached,
                after == config@,
                consistent(before, cached),
                forall|j: int|
                    0 <= j < i ==> (evicted.deep_view().contains(#[trigger] routers.key_seq()[j])
                        <==> !survives(before, after, routers.key_seq()[j])),
                forall|service: Seq<char>|
                    evicted.deep_view().contains(service) ==> cached.contains_key(service)
                        && !survives(before, after, service),
                forall|at: int|
                    0 <= at < evicted.deep_view().len() ==> exists|j: int|
                        0 <= j < i && routers.key_seq()[j] == #[trigger] evicted.deep_view()[at],
                evicted.deep_view().no_duplicates(),
            decreases count - i,
        {
            let service = routers.key_at(i);
            let router = routers.value_at(i);
            let stays = match config.servers.get(service.as_str()) {
                Some(entry) => *entry == *router.config(),
                None => false,
            };
            proof {
                assert(cached.contains_key(service@));
                assert(stays == survives(before, after, service@));
            }
            if !stays {
                let ghost listed = evicted.deep_view();
                evicted.push(service.clone());
                proof {
                    assert(evicted.deep_view() =~= listed.push(service@));
                    assert(evicted.deep_view()[listed.len() as int] == service@);
                    assert forall|at: int| 0 <= at < evicted.deep_view().len() implies exists|
                        j: int,
                    | 0 <= j < i + 1 && routers.key_seq()[j] == #[trigger] evicted.deep_view()[at] by {
                        if at < listed.len() {
                            let j = choose|j: int|
                                0 <= j < i && routers.key_seq()[j] == listed[at];
                            assert(0 <= j < i + 1 && routers.key_seq()[j] == evicted.deep_view()[at]);
                        } else {
                            assert(routers.key_seq()[i as int] == evicted.deep_view()[at]);
                        }
                    }
                    assert forall|a: int, b: int|
                        0 <= a < evicted.deep_view().len() && 0 <= b < evicted.deep_view().len()
                            && a != b implies evicted.deep_view()[a] != evicted.deep_view()[b] by {
                        if a < listed.len() && b < listed.len() {
                            assert(listed[a] != listed[b]);
                        } else if a < listed.len() {
                            let j = choose|j: int|
                                0 <= j < i && routers.key_seq()[j] == listed[a];
                            assert(routers.key_seq()[j] != routers.key_seq()[i as int]);
                        } else if b < listed.len() {
                            let j = choose|j: int|
                                0 <= j < i && routers.key_seq()[j] == listed[b];
                            assert(routers.key_seq()[j] != routers.key_seq()[i as int]);
                        }
                    }
                    assert forall|j: int| 0 <= j < i implies (evicted.deep_view().contains(
                        #[trigger] routers.key_seq()[j],
                    ) <==> !survives(before, after, routers.key_seq()[j])) by {
                        let k = routers.key_seq()[j];
                        if listed.contains(k) {
                            let at = choose|at: int| 0 <= at < listed.len() && listed[at] == k;
                            assert(evicted.deep_view()[at] == k);
                        }
                    }
                    assert forall|k: Seq<char>| evicted.deep_view().contains(k) implies cached.contains_key(
                        k,
                    ) && !survives(before, after, k) by {
                        let at = choose|at: int|
                            0 <= at < evicted.deep_view().len() && evicted.deep_view()[at] == k;
                        if at < listed.len() {
                            assert(listed[at] == k);
                            assert(listed.contains(k));
                        } else {
                            assert(k == service@);
                        }
                    }
                }
            } else {
                proof {
                    assert(!evicted.deep_view().contains(service@));
                }
            }
            i += 1;
        }
        proof {
            assert forall|k: Seq<char>|
                cached.contains_key(k) && !survives(before, after, k) implies evicted.deep_view().contains(
                k,
            ) by {
                assert(routers.key_seq().to_set().contains(k));
                let j = choose|j: int| 0 <= j < routers.key_seq().len() && routers.key_seq()[j] == k;
                assert(evicted.deep_view().contains(routers.key_seq()[j]));
            }
        }
        let mut j: usize = 0;
        while j < evicted.len()
            invariant
                j <= evicted.len(),
                evicted.deep_view().no_duplicates(),
                forall|k: Seq<char>| #[trigger]
                    routers.map().contains_key(k) <==> cached.contains_key(k) && !(exists|at: int|
                        0 <= at < j && evicted.deep_view()[at] == k),
                forall|k: Seq<char>| #[trigger]
                    routers.map().contains_key(k) ==> routers.map()[k] == cached[k],
            decreases evicted.len() - j,
        {
            let ghost held = routers.map();
            proof {
                assert(evicted.deep_view()[j as int] == evicted@[j as int]@);
            }
            routers.remove(evicted[j].as_str());
            proof {
                let gone = evicted.deep_view()[j as int];
                assert forall|k: Seq<char>| #[trigger]
                    routers.map().contains_key(k) <==> cached.contains_key(k) && !(exists|at: int|
                        0 <= at < j + 1 && evicted.deep_view()[at] == k) by {
                    if k == gone {
                        assert(evicted.deep_view()[j as int] == k);
                    } else if held.contains_key(k) {
                        assert(routers.map().contains_key(k));
                    } else if cached.contains_key(k) {
                        let at = choose|at: int| 0 <= at < j && evicted.deep_view()[at] == k;
                        assert(0 <= at < j + 1 && evicted.deep_view()[at] == k);
                    }
                }
            }
            j += 1;
        }
        proof {
            assert forall|k: Seq<char>| #[trigger]
                routers.map().contains_key(k) <==> cached.contains_key(k) && survives(
                    before,
                    after,
                    k,
                ) by {
                if cached.contains_key(k) {
                    if survives(before, after, k) {
                        if exists|at: int| 0 <= at < j && evicted.deep_view()[at] == k {
                            let at = choose|at: int| 0 <= at < j && evicted.deep_view()[at] == k;
                            assert(evicted.deep_view().contains(k));
                        }
                    } else {
                        assert(evicted.deep_view().contains(k));
                        let at = choose|at: int|
                            0 <= at < evicted.deep_view().len() && evicted.deep_view()[at] == k;
                        assert(0 <= at < j && evicted.deep_view()[at] == k);
                    }
                }
            }
            assert(consistent(after, routers.map()));
        }
        self.config = config;
        core::mem::swap(&mut self.routers, &mut routers);
        evicted
    }
}

impl<R> Registry<R> {
    /// Reads `text` as a configuration and reloads to it. A text that cannot
    /// be read leaves the configuration and every router as they are, and its
    /// fault is returned.
    pub fn reload_text(&mut self, text: &str) -> (r: Result<Vec<String>, ConfigError>)
        ensures
            match r {
                Ok(evicted) => {
                    &&& parsed_document(text@) matches Some(document)
                    &&& decode_config(document) == Ok::<Map<Seq<char>, ServerView>, ConfigErrorView>(
                        final(self).config_view(),
                    )
                    &&& reloaded(
                        old(self).config_view(),
                        final(self).config_view(),
                        old(self).cached(),
                        final(self).cached(),
                        evicted.deep_view(),
                    )
                },
                Err(fault) => {
                    &&& final(self).config_view() == old(self).config_view()
                    &&& final(self).cached() == old(self).cached()
                    &&& match parsed_document(text@) {
                        Some(document) => decode_config(document) == Err::<
                            Map<Seq<char>, ServerView>,
                            ConfigErrorView,
                        >(fault@),
                        None => fault is Syntax,
                    }
                },
            },
            consistent(final(self).config_view(), final(self).cached()),
    {
        proof {
            use_type_invariant(&*self);
        }
        match Config::parse(text) {
            Ok(config) => Ok(self.reload(config)),
            Err(fault) => Err(fault),
        }
    }
}

/// After a reload, every router that is cached belongs to a service that the
/// new configuration holds, described as it was before. A reload to an equal
/// configuration keeps every router, and a reload to an empty one keeps none.
pub proof fn law_reload_eviction<R>(
    before: Map<Seq<char>, ServerView>,
    after: Map<Seq<char>, ServerView>,
    cached: Map<Seq<char>, ServiceRouter<R>>,
    kept: Map<Seq<char>, ServiceRouter<R>>,
    evicted: Seq<Seq<char>>,
)
    requires
        consistent(before, cached),
        reloaded(before, after, cached, kept, evicted),
    ensures
        consistent(after, kept),
        forall|service: Seq<char>| #[trigger]
            kept.contains_key(service) ==> after.contains_key(service) && before.contains_key(
                service,
            ) && after[service] == before[service],
        after == before ==> kept == cached && evicted.len() == 0,
        after == Map::<Seq<char>, ServerView>::empty() ==> kept == Map::<
            Seq<char>,
            ServiceRouter<R>,
        >::empty(),
{
    if after == before {
        assert(kept =~= cached);
        if evicted.len() > 0 {
            assert(evicted.contains(evicted[0]));
        }
    }
    if after == Map::<Seq<char>, ServerView>::empty() {
        assert(kept =~= Map::<Seq<char>, ServiceRouter<R>>::empty());
    }
}

} // verus!
