use vstd::prelude::*;

use crate::errors::Error;
use crate::rng;
use crate::server::{captures, Handler, Server};
use crate::table::Table;

verus! {

/// An RPC envelope: one in-flight request.  Immutable once accepted; the
/// reply path back to the caller is whatever channel the surrounding shell
/// pairs with it.
pub struct Rpc {
    /// The originating endpoint.
    pub end_name: String,
    /// The routing key, `"service.method"`.
    pub fq_name: String,
    /// The serialized request.
    pub req: Vec<u8>,
}

/// A caller-side handle, created by `Network::create_end`.
pub struct ClientEnd {
    end_name: String,
}

/// What one request decides against: the endpoint's state and the policy
/// flags, captured atomically.  Outcomes are decided against a snapshot,
/// never against live state.
pub struct EndInfo<H> {
    pub enabled: bool,
    pub reliable: bool,
    pub long_reordering: bool,
    pub server: Option<Server<H>>,
}

/// The per-request state machine after the outcome decision.
///
/// `Timeout` reports failure to the caller after the given delay, without
/// ever dispatching.  `Dispatch` pays the optional short delay, runs the
/// captured server's handler, and then lets `Network::finish_dispatch`
/// judge the reply.
pub enum ProcessState<H> {
    Timeout { delay: u64 },
    Dispatch {
        delay: Option<u64>,
        server: Server<H>,
        drop_reply: bool,
        long_reordering: Option<u64>,
    },
}

/// The verdict on a dispatched request: answer the caller now, or hold the
/// reply back for a while first (long reordering).
pub enum ReplyAction {
    Send { reply: Result<Vec<u8>, Error> },
    SendAfter { delay: u64, reply: Vec<u8> },
}

/// The three registry tables, all guarded together.
struct Endpoints<H> {
    /// Endpoint name to its enabled flag; endpoints start disabled.
    enabled: Table<bool>,
    /// Server name to the mounted server, or to a tombstone (`None`) once
    /// deleted.
    servers: Table<Option<Server<H>>>,
    /// Endpoint name to the server name it is connected to.
    connections: Table<Option<String>>,
}

/// The network fabric: policy flags, the endpoint registry, the accepted-
/// envelope counter, and the monotonic server-identifier allocator.
pub struct Network<H> {
    reliable: bool,
    long_delays: bool,
    long_reordering: bool,
    endpoints: Endpoints<H>,
    count: u64,
    next_id: u64,
}

impl ClientEnd {
    pub closed spec fn spec_end_name(self) -> Seq<char> {
        self.end_name@
    }

    pub fn end_name(&self) -> (r: &str)
        ensures
            r@ == self.spec_end_name(),
    {
        self.end_name.as_str()
    }
}

impl<H> Network<H> {
    /// Endpoint name to enabled flag.
    pub closed spec fn spec_enabled(self) -> Map<Seq<char>, bool> {
        self.endpoints.enabled@
    }

    /// Server name to mounted server or tombstone.
    pub closed spec fn spec_servers(self) -> Map<Seq<char>, Option<Server<H>>> {
        self.endpoints.servers@
    }

    /// Endpoint name to the server name it is connected to.
    pub closed spec fn spec_connections(self) -> Map<Seq<char>, Option<String>> {
        self.endpoints.connections@
    }

    pub closed spec fn spec_reliable(self) -> bool {
        self.reliable
    }

    pub closed spec fn spec_long_delays(self) -> bool {
        self.long_delays
    }

    pub closed spec fn spec_long_reordering(self) -> bool {
        self.long_reordering
    }

    /// How many envelopes the fabric has accepted.
    pub closed spec fn spec_total(self) -> u64 {
        self.count
    }

    /// The next server identifier to be handed out.
    pub closed spec fn spec_next_id(self) -> u64 {
        self.next_id
    }

    /// The registry's well-formedness: each mounted server sits under its
    /// own name and carries an identifier the allocator has already passed.
    pub closed spec fn wf(self) -> bool {
        &&& self.endpoints.enabled.wf()
        &&& self.endpoints.servers.wf()
        &&& self.endpoints.connections.wf()
        &&& 1 <= self.spec_next_id()
        &&& forall|n: Seq<char>| #[trigger] self.spec_servers().contains_key(n)
            ==> server_slot_ok(self.spec_servers()[n], n, self.spec_next_id())
    }

    /// The endpoint is known to the registry and enabled.
    pub open spec fn end_enabled(self, e: Seq<char>) -> bool {
        self.spec_enabled().contains_key(e) && self.spec_enabled()[e]
    }

    /// The server currently reachable from endpoint `e`: the one mounted
    /// under the name `e` is connected to, if any.
    pub open spec fn lookup_server(self, e: Seq<char>) -> Option<Server<H>> {
        if self.spec_connections().contains_key(e) && self.spec_connections()[e] is Some {
            let n = self.spec_connections()[e].unwrap()@;
            if self.spec_servers().contains_key(n) {
                self.spec_servers()[n]
            } else {
                None
            }
        } else {
            None
        }
    }

    /// What a request processed for endpoint `e` may touch without failing:
    /// the endpoint is registered, and a connection, if set, names a known
    /// server slot.
    pub open spec fn end_registered(self, e: Seq<char>) -> bool {
        &&& self.spec_enabled().contains_key(e)
        &&& self.spec_connections().contains_key(e) && self.spec_connections()[e] is Some
            ==> self.spec_servers().contains_key(self.spec_connections()[e].unwrap()@)
    }

    /// The liveness check for a reply: the request is dead if its endpoint
    /// has been disabled, or the captured server's slot no longer holds a
    /// server with the captured identity.
    pub open spec fn spec_is_dead(self, e: Seq<char>, n: Seq<char>, id: u64) -> bool {
        ||| !self.end_enabled(e)
        ||| !self.spec_servers().contains_key(n)
        ||| self.spec_servers()[n] is None
        ||| self.spec_servers()[n].unwrap().spec_id() != id
    }

    /// Every mounted server still has room in its dispatch counter.
    pub open spec fn counts_ok(self) -> bool {
        forall|n: Seq<char>| #[trigger] self.spec_servers().contains_key(n)
            ==> (self.spec_servers()[n] matches Some(s) ==> s.spec_count() < u64::MAX)
    }

    /// No mounted server has absorbed more dispatches than the fabric has
    /// accepted envelopes.
    pub open spec fn counts_dominated(self) -> bool {
        forall|n: Seq<char>| #[trigger] self.spec_servers().contains_key(n)
            ==> (self.spec_servers()[n] matches Some(s) ==> s.spec_count() <= self.spec_total())
    }

    /// Well-formedness does not involve the policy flags: two fabrics with
    /// the same registry, allocator and counter agree on it.
    proof fn lemma_flags_only(a: Network<H>, b: Network<H>)
        requires
            b.endpoints == a.endpoints,
            b.spec_next_id() == a.spec_next_id(),
            b.spec_total() == a.spec_total(),
        ensures
            b.wf() == a.wf(),
            b.counts_ok() == a.counts_ok(),
            b.counts_dominated() == a.counts_dominated(),
    {
        if a.wf() {
            assert forall|n: Seq<char>| #[trigger] b.spec_servers().contains_key(n)
                implies server_slot_ok(b.spec_servers()[n], n, b.spec_next_id()) by {
                assert(a.spec_servers().contains_key(n));
            }
        }
        if b.wf() {
            assert forall|n: Seq<char>| #[trigger] a.spec_servers().contains_key(n)
                implies server_slot_ok(a.spec_servers()[n], n, a.spec_next_id()) by {
                assert(b.spec_servers().contains_key(n));
            }
        }
        if a.counts_ok() {
            assert forall|n: Seq<char>| #[trigger] b.spec_servers().contains_key(n)
                implies (b.spec_servers()[n] matches Some(s) ==> s.spec_count() < u64::MAX) by {
                assert(a.spec_servers().contains_key(n));
            }
        }
        if b.counts_ok() {
            assert forall|n: Seq<char>| #[trigger] a.spec_servers().contains_key(n)
                implies (a.spec_servers()[n] matches Some(s) ==> s.spec_count() < u64::MAX) by {
                assert(b.spec_servers().contains_key(n));
            }
        }
        if a.counts_dominated() {
            assert forall|n: Seq<char>| #[trigger] b.spec_servers().contains_key(n)
                implies (b.spec_servers()[n] matches Some(s) ==> s.spec_count()
                    <= b.spec_total()) by {
                assert(a.spec_servers().contains_key(n));
            }
        }
        if b.counts_dominated() {
            assert forall|n: Seq<char>| #[trigger] a.spec_servers().contains_key(n)
                implies (a.spec_servers()[n] matches Some(s) ==> s.spec_count()
                    <= a.spec_total()) by {
                assert(b.spec_servers().contains_key(n));
            }
        }
    }

    /// An operation that leaves the server table, the allocator and the
    /// counter alone preserves the registry's well-formedness, provided the
    /// endpoint tables it did touch stay well-formed.
    proof fn lemma_servers_untouched(a: Network<H>, b: Network<H>)
        requires
            a.wf(),
            b.endpoints.servers == a.endpoints.servers,
            b.endpoints.enabled.wf(),
            b.endpoints.connections.wf(),
            b.spec_next_id() == a.spec_next_id(),
        ensures
            b.wf(),
    {
        assert forall|n: Seq<char>| #[trigger] b.spec_servers().contains_key(n)
            implies server_slot_ok(b.spec_servers()[n], n, b.spec_next_id()) by {
            assert(a.spec_servers().contains_key(n));
        }
    }

    /// Every mounted server's dispatch count is strictly below the number
    /// of accepted envelopes; this is what holds while one envelope is in
    /// flight between acceptance and its dispatch being recorded.
    pub open spec fn counts_strictly_dominated(self) -> bool {
        forall|n: Seq<char>| #[trigger] self.spec_servers().contains_key(n)
            ==> (self.spec_servers()[n] matches Some(s) ==> s.spec_count() < self.spec_total())
    }

    /// The dispatch-counter predicates only read the server table and the
    /// acceptance counter: operations that touch neither preserve them.
    proof fn lemma_counts_transfer(a: Network<H>, b: Network<H>)
        requires
            b.spec_servers() == a.spec_servers(),
            b.spec_total() == a.spec_total(),
        ensures
            b.counts_ok() == a.counts_ok(),
            b.counts_dominated() == a.counts_dominated(),
            b.counts_strictly_dominated() == a.counts_strictly_dominated(),
    {
        if a.counts_ok() {
            assert forall|n: Seq<char>| #[trigger] b.spec_servers().contains_key(n)
                implies (b.spec_servers()[n] matches Some(s) ==> s.spec_count() < u64::MAX) by {
                assert(a.spec_servers().contains_key(n));
            }
        }
        if b.counts_ok() {
            assert forall|n: Seq<char>| #[trigger] a.spec_servers().contains_key(n)
                implies (a.spec_servers()[n] matches Some(s) ==> s.spec_count() < u64::MAX) by {
                assert(b.spec_servers().contains_key(n));
            }
        }
        if a.counts_dominated() {
            assert forall|n: Seq<char>| #[trigger] b.spec_servers().contains_key(n)
                implies (b.spec_servers()[n] matches Some(s) ==> s.spec_count()
                    <= b.spec_total()) by {
                assert(a.spec_servers().contains_key(n));
            }
        }
        if b.counts_dominated() {
            assert forall|n: Seq<char>| #[trigger] a.spec_servers().contains_key(n)
                implies (a.spec_servers()[n] matches Some(s) ==> s.spec_count()
                    <= a.spec_total()) by {
                assert(b.spec_servers().contains_key(n));
            }
        }
        if a.counts_strictly_dominated() {
            assert forall|n: Seq<char>| #[trigger] b.spec_servers().contains_key(n)
                implies (b.spec_servers()[n] matches Some(s) ==> s.spec_count()
                    < b.spec_total()) by {
                assert(a.spec_servers().contains_key(n));
            }
        }
        if b.counts_strictly_dominated() {
            assert forall|n: Seq<char>| #[trigger] a.spec_servers().contains_key(n)
                implies (a.spec_servers()[n] matches Some(s) ==> s.spec_count()
                    < a.spec_total()) by {
                assert(b.spec_servers().contains_key(n));
            }
        }
    }

    /// The summed dispatch counts of every mounted server.
    pub closed spec fn spec_count_sum(self) -> int {
        sum_counts(self.endpoints.servers.kvs())
    }

    /// The fabric has accepted at least as many envelopes as all of its
    /// servers together have absorbed dispatches.
    pub open spec fn sum_dominated(self) -> bool {
        self.spec_count_sum() <= self.spec_total()
    }

    /// The strict form of `sum_dominated`: what holds while one accepted
    /// envelope is in flight, between its acceptance and the recording of
    /// its dispatch.
    pub open spec fn sum_strictly_dominated(self) -> bool {
        self.spec_count_sum() < self.spec_total()
    }

    /// A fresh fabric: empty registry, reliable, no long delays and no long
    /// reordering, nothing accepted yet.
    pub fn new() -> (net: Network<H>)
        ensures
            net.wf(),
            net.spec_enabled() == Map::<Seq<char>, bool>::empty(),
            net.spec_servers() == Map::<Seq<char>, Option<Server<H>>>::empty(),
            net.spec_connections() == Map::<Seq<char>, Option<String>>::empty(),
            net.spec_reliable(),
            !net.spec_long_delays(),
            !net.spec_long_reordering(),
            net.spec_total() == 0,
            net.spec_next_id() == 1,
            net.counts_ok(),
            net.counts_dominated(),
            net.spec_count_sum() == 0,
    {
        Network {
            reliable: true,
            long_delays: false,
            long_reordering: false,
            endpoints: Endpoints {
                enabled: Table::new(),
                servers: Table::new(),
                connections: Table::new(),
            },
            count: 0,
            next_id: 1,
        }
    }

    /// Mounts `server`, replacing whatever sat under its name (a previous
    /// server or a tombstone) and assigning a fresh identifier that exceeds
    /// every identifier handed out before.
    pub fn add_server(&mut self, server: Server<H>)
        requires
            old(self).wf(),
            server.wf(),
            old(self).spec_next_id() < u64::MAX,
        ensures
            final(self).wf(),
            final(self).spec_next_id() == old(self).spec_next_id() + 1,
            final(self).spec_servers().contains_key(server.spec_name()),
            final(self).spec_servers()[server.spec_name()] matches Some(s2) && s2.spec_name()
                == server.spec_name() && s2.spec_id() == old(self).spec_next_id()
                && s2.spec_count() == server.spec_count() && s2.spec_handlers()
                == server.spec_handlers() && s2.wf(),
            final(self).spec_servers().dom() == old(self).spec_servers().dom().insert(
                server.spec_name(),
            ),
            forall|n: Seq<char>|
                n != server.spec_name() && old(self).spec_servers().contains_key(n)
                    ==> final(self).spec_servers()[n] == #[trigger] old(self).spec_servers()[n],
            forall|n: Seq<char>|
                #[trigger] old(self).spec_servers().contains_key(n)
                    ==> (old(self).spec_servers()[n] matches Some(t) ==> t.spec_id() < old(
                    self,
                ).spec_next_id()),
            final(self).spec_enabled() == old(self).spec_enabled(),
            final(self).spec_connections() == old(self).spec_connections(),
            final(self).spec_reliable() == old(self).spec_reliable(),
            final(self).spec_long_delays() == old(self).spec_long_delays(),
            final(self).spec_long_reordering() == old(self).spec_long_reordering(),
            final(self).spec_total() == old(self).spec_total(),
            old(self).counts_dominated() && server.spec_count() <= old(self).spec_total()
                ==> final(self).counts_dominated(),
            old(self).counts_ok() && server.spec_count() < u64::MAX ==> final(self).counts_ok(),
            final(self).spec_count_sum() <= old(self).spec_count_sum() + server.spec_count(),
            old(self).sum_dominated() && server.spec_count() == 0 ==> final(self).sum_dominated(),
    {
        let mut server = server;
        server.set_id(self.next_id);
        self.next_id = self.next_id + 1;
        let name = String::clone(server.name_owned());
        self.endpoints.servers.put(name, Some(server));
        proof {
            assert forall|n: Seq<char>| #[trigger] self.spec_servers().contains_key(n)
                implies server_slot_ok(self.spec_servers()[n], n, self.spec_next_id()) by {
                if n != name@ {
                    assert(old(self).spec_servers().contains_key(n));
                    assert(server_slot_ok(
                        old(self).spec_servers()[n],
                        n,
                        old(self).spec_next_id(),
                    ));
                }
            }
            let pre = old(self).endpoints.servers;
            if old(self).spec_servers().contains_key(name@) {
                let i = choose|i: int|
                    0 <= i < pre.kvs().len() && #[trigger] pre.kvs()[i].0@ == name@
                        && self.endpoints.servers.kvs() == pre.kvs().update(
                        i,
                        (name, Some(server)),
                    );
                lemma_sum_counts_update(pre.kvs(), i, (name, Some(server)));
            } else {
                lemma_sum_counts_push(pre.kvs(), (name, Some(server)));
            }
        }
    }

    /// Unmounts the named server by installing a tombstone; the key remains,
    /// and any in-flight request that captured the old server will find it
    /// dead.
    pub fn delete_server(&mut self, name: String)
        requires
            old(self).wf(),
        ensures
            final(self).wf(),
            final(self).spec_servers() == old(self).spec_servers().insert(name@, None::<
                Server<H>,
            >),
            final(self).spec_enabled() == old(self).spec_enabled(),
            final(self).spec_connections() == old(self).spec_connections(),
            final(self).spec_reliable() == old(self).spec_reliable(),
            final(self).spec_long_delays() == old(self).spec_long_delays(),
            final(self).spec_long_reordering() == old(self).spec_long_reordering(),
            final(self).spec_total() == old(self).spec_total(),
            final(self).spec_next_id() == old(self).spec_next_id(),
            old(self).counts_dominated() ==> final(self).counts_dominated(),
            old(self).counts_ok() ==> final(self).counts_ok(),
            final(self).spec_count_sum() <= old(self).spec_count_sum(),
            old(self).sum_dominated() ==> final(self).sum_dominated(),
    {
        self.endpoints.servers.put(name, None);
        proof {
            let pre = old(self).endpoints.servers;
            if old(self).spec_servers().contains_key(name@) {
                let i = choose|i: int|
                    0 <= i < pre.kvs().len() && #[trigger] pre.kvs()[i].0@ == name@
                        && self.endpoints.servers.kvs() == pre.kvs().update(
                        i,
                        (name, None::<Server<H>>),
                    );
                lemma_sum_counts_update(pre.kvs(), i, (name, None::<Server<H>>));
            } else {
                lemma_sum_counts_push(pre.kvs(), (name, None::<Server<H>>));
            }
            assert forall|n: Seq<char>| #[trigger] self.spec_servers().contains_key(n)
                implies server_slot_ok(self.spec_servers()[n], n, self.spec_next_id()) by {
                if n != name@ {
                    assert(old(self).spec_servers().contains_key(n));
                    assert(server_slot_ok(
                        old(self).spec_servers()[n],
                        n,
                        old(self).spec_next_id(),
                    ));
                }
            }
        }
    }

    /// Registers a fresh endpoint: disabled and unconnected, overwriting any
    /// prior endpoint of the same name.  Returns the caller-side handle.
    pub fn create_end(&mut self, end_name: String) -> (end: ClientEnd)
        requires
            old(self).wf(),
        ensures
            final(self).wf(),
            end.spec_end_name() == end_name@,
            final(self).spec_enabled() == old(self).spec_enabled().insert(end_name@, false),
            final(self).spec_connections() == old(self).spec_connections().insert(
                end_name@,
                None::<String>,
            ),
            final(self).spec_servers() == old(self).spec_servers(),
            final(self).spec_reliable() == old(self).spec_reliable(),
            final(self).spec_long_delays() == old(self).spec_long_delays(),
            final(self).spec_long_reordering() == old(self).spec_long_reordering(),
            final(self).spec_total() == old(self).spec_total(),
            final(self).spec_next_id() == old(self).spec_next_id(),
            final(self).counts_ok() == old(self).counts_ok(),
            final(self).counts_dominated() == old(self).counts_dominated(),
            final(self).spec_count_sum() == old(self).spec_count_sum(),
    {
        let handle_name = String::clone(&end_name);
        let conn_name = String::clone(&end_name);
        self.endpoints.enabled.put(end_name, false);
        self.endpoints.connections.put(conn_name, None);
        proof {
            Self::lemma_servers_untouched(*old(self), *self);
            Self::lemma_counts_transfer(*old(self), *self);
        }
        ClientEnd { end_name: handle_name }
    }

    /// Connects an endpoint to a server name.  Later `connect`s overwrite;
    /// the connection is followed at dispatch time, so a server mounted
    /// afterwards under that name is reached too.
    pub fn connect(&mut self, end_name: String, server_name: String)
        requires
            old(self).wf(),
        ensures
            final(self).wf(),
            final(self).spec_connections() == old(self).spec_connections().insert(
                end_name@,
                Some(server_name),
            ),
            final(self).spec_enabled() == old(self).spec_enabled(),
            final(self).spec_servers() == old(self).spec_servers(),
            final(self).spec_reliable() == old(self).spec_reliable(),
            final(self).spec_long_delays() == old(self).spec_long_delays(),
            final(self).spec_long_reordering() == old(self).spec_long_reordering(),
            final(self).spec_total() == old(self).spec_total(),
            final(self).spec_next_id() == old(self).spec_next_id(),
            final(self).counts_ok() == old(self).counts_ok(),
            final(self).counts_dominated() == old(self).counts_dominated(),
            final(self).spec_count_sum() == old(self).spec_count_sum(),
    {
        self.endpoints.connections.put(end_name, Some(server_name));
        proof {
            Self::lemma_servers_untouched(*old(self), *self);
            Self::lemma_counts_transfer(*old(self), *self);
        }
    }

    /// Enables or disables an endpoint.
    pub fn enable(&mut self, end_name: String, enabled: bool)
        requires
            old(self).wf(),
        ensures
            final(self).wf(),
            final(self).spec_enabled() == old(self).spec_enabled().insert(end_name@, enabled),
            final(self).spec_connections() == old(self).spec_connections(),
            final(self).spec_servers() == old(self).spec_servers(),
            final(self).spec_reliable() == old(self).spec_reliable(),
            final(self).spec_long_delays() == old(self).spec_long_delays(),
            final(self).spec_long_reordering() == old(self).spec_long_reordering(),
            final(self).spec_total() == old(self).spec_total(),
            final(self).spec_next_id() == old(self).spec_next_id(),
            final(self).counts_ok() == old(self).counts_ok(),
            final(self).counts_dominated() == old(self).counts_dominated(),
            final(self).spec_count_sum() == old(self).spec_count_sum(),
    {
        self.endpoints.enabled.put(end_name, enabled);
        proof {
            Self::lemma_servers_untouched(*old(self), *self);
            Self::lemma_counts_transfer(*old(self), *self);
        }
    }

    pub fn set_reliable(&mut self, yes: bool)
        ensures
            final(self).spec_reliable() == yes,
            unchanged_but_reliable(*old(self), *final(self)),
            final(self).counts_ok() == old(self).counts_ok(),
            final(self).counts_dominated() == old(self).counts_dominated(),
            final(self).spec_count_sum() == old(self).spec_count_sum(),
    {
        self.reliable = yes;
        proof {
            Self::lemma_flags_only(*old(self), *self);
        }
    }

    pub fn set_long_reordering(&mut self, yes: bool)
        ensures
            final(self).spec_long_reordering() == yes,
            unchanged_but_long_reordering(*old(self), *final(self)),
            final(self).counts_ok() == old(self).counts_ok(),
            final(self).counts_dominated() == old(self).counts_dominated(),
            final(self).spec_count_sum() == old(self).spec_count_sum(),
    {
        self.long_reordering = yes;
        proof {
            Self::lemma_flags_only(*old(self), *self);
        }
    }

    pub fn set_long_delays(&mut self, yes: bool)
        ensures
            final(self).spec_long_delays() == yes,
            unchanged_but_long_delays(*old(self), *final(self)),
            final(self).counts_ok() == old(self).counts_ok(),
            final(self).counts_dominated() == old(self).counts_dominated(),
            final(self).spec_count_sum() == old(self).spec_count_sum(),
    {
        self.long_delays = yes;
        proof {
            Self::lemma_flags_only(*old(self), *self);
        }
    }

    /// The dispatch count of the server mounted under `server_name`, which
    /// must exist and not be a tombstone.
    pub fn count(&self, server_name: &String) -> (r: u64)
        requires
            self.wf(),
            self.spec_servers().contains_key(server_name@),
            self.spec_servers()[server_name@] is Some,
        ensures
            r == self.spec_servers()[server_name@].unwrap().spec_count(),
    {
        match self.endpoints.servers.get(server_name) {
            Some(slot) => match slot {
                Some(server) => server.count(),
                None => 0,
            },
            None => 0,
        }
    }

    /// Whether a server with identifier `id` is still mounted under
    /// `name`: the query a shell makes before recording a dispatch.
    pub fn has_live_server(&self, name: &String, id: u64) -> (r: bool)
        requires
            self.wf(),
        ensures
            r == live_capture(*self, name@, id),
    {
        match self.endpoints.servers.get(name) {
            Some(slot) => match slot {
                Some(s) => s.id() == id,
                None => false,
            },
            None => false,
        }
    }

    /// Whether a server (not a tombstone) is mounted under `name`: the
    /// query a shell makes before reading `count`.
    pub fn server_mounted(&self, name: &String) -> (r: bool)
        requires
            self.wf(),
        ensures
            r == (self.spec_servers().contains_key(name@) && self.spec_servers()[name@] is Some),
    {
        match self.endpoints.servers.get(name) {
            Some(slot) => match slot {
                Some(_) => true,
                None => false,
            },
            None => false,
        }
    }

    /// How many envelopes the fabric has accepted so far.
    pub fn total_count(&self) -> (r: u64)
        ensures
            r == self.spec_total(),
    {
        self.count
    }

    /// Whether `end_name` names a registered endpoint whose connection, if
    /// any, points at a known server slot: exactly what `process_rpc`
    /// needs of an envelope.
    pub fn end_registered_check(&self, end_name: &String) -> (r: bool)
        requires
            self.wf(),
        ensures
            r == self.end_registered(end_name@),
    {
        if !self.endpoints.enabled.contains(end_name) {
            return false;
        }
        match self.endpoints.connections.get(end_name) {
            Some(conn) => match conn {
                Some(server_name) => self.endpoints.servers.contains(server_name),
                None => true,
            },
            None => true,
        }
    }
}

/// One uniform roll for each decision the outcome sampler may take, in the
/// order the sampler makes them.  Rolls for decisions a given snapshot never
/// reaches are left at zero and do not influence the plan.
pub struct OutcomeDraws {
    /// Scales the timeout of a disabled or serverless endpoint.
    pub timeout_roll: u64,
    /// Scales the short delay paid on an unreliable network.
    pub short_roll: u64,
    /// Decides the request drop on an unreliable network.
    pub drop_req_roll: u64,
    /// Decides the reply drop on an unreliable network.
    pub drop_reply_roll: u64,
    /// Gates long reordering; drawn below 900.
    pub reorder_gate: u64,
    /// Upper bound for the reordering delay; drawn below 2000.
    pub reorder_upper: u64,
    /// The reordering delay above the floor; drawn below `reorder_upper + 1`.
    pub reorder_extra: u64,
}

impl OutcomeDraws {
    /// The ranges the sampler draws from.
    pub open spec fn wf(self) -> bool {
        &&& self.reorder_gate < 900
        &&& self.reorder_upper < 2000
        &&& self.reorder_extra <= self.reorder_upper
    }
}

/// The outcome decision table of the fabric, deterministic in the rolls.
///
/// A disabled or serverless endpoint times out after up to 7000 ms under
/// long delays, otherwise up to 100 ms.  Otherwise, on an unreliable
/// network the request pays a short delay below 27 ms and is dropped with
/// probability 100/1000; a surviving request is dispatched, its reply
/// dropped with probability 100/1000; under long reordering the reply is
/// held back 200 ms plus a two-stage uniform extra with probability
/// 600/900.
pub open spec fn spec_plan<H>(info: EndInfo<H>, long_delays: bool, d: OutcomeDraws) -> ProcessState<
    H,
> {
    if !(info.enabled && info.server is Some) {
        ProcessState::Timeout {
            delay: (d.timeout_roll % (if long_delays {
                7000
            } else {
                100
            })) as u64,
        }
    } else if !info.reliable && d.drop_req_roll % 1000 < 100 {
        ProcessState::Timeout { delay: (d.short_roll % 27) as u64 }
    } else {
        ProcessState::Dispatch {
            delay: if !info.reliable {
                Some((d.short_roll % 27) as u64)
            } else {
                None
            },
            server: info.server.unwrap(),
            drop_reply: !info.reliable && d.drop_reply_roll % 1000 < 100,
            long_reordering: if info.long_reordering && d.reorder_gate < 600 {
                Some((200 + d.reorder_extra) as u64)
            } else {
                None
            },
        }
    }
}

/// Computes the outcome of one request from its snapshot and the rolls:
/// exactly the decision table above.
pub fn plan_from_draws<H>(info: EndInfo<H>, long_delays: bool, draws: &OutcomeDraws) -> (st:
    ProcessState<H>)
    requires
        draws.wf(),
    ensures
        st == spec_plan(info, long_delays, *draws),
{
    let enabled = info.enabled;
    let reliable = info.reliable;
    let reordering_on = info.long_reordering;
    let timeout_delay = if long_delays {
        draws.timeout_roll % 7000
    } else {
        draws.timeout_roll % 100
    };
    match info.server {
        Some(server) => {
            if !enabled {
                return ProcessState::Timeout { delay: timeout_delay };
            }
            if !reliable && draws.drop_req_roll % 1000 < 100 {
                return ProcessState::Timeout { delay: draws.short_roll % 27 };
            }
            let delay = if !reliable {
                Some(draws.short_roll % 27)
            } else {
                None
            };
            let drop_reply = !reliable && draws.drop_reply_roll % 1000 < 100;
            let reorder = if reordering_on && draws.reorder_gate < 600 {
                Some(200 + draws.reorder_extra)
            } else {
                None
            };
            ProcessState::Dispatch { delay, server, drop_reply, long_reordering: reorder }
        },
        None => ProcessState::Timeout { delay: timeout_delay },
    }
}

/// What the sampled plan of a request says about the snapshot it was
/// decided against -- everything about the outcome short of the rolls
/// themselves.
pub open spec fn plan_ok<H>(pre: Network<H>, e: Seq<char>, st: ProcessState<H>) -> bool {
    if !pre.end_enabled(e) || pre.lookup_server(e) is None {
        st matches ProcessState::Timeout { delay } && delay < (if pre.spec_long_delays() {
            7000u64
        } else {
            100u64
        })
    } else {
        match st {
            ProcessState::Timeout { delay } => !pre.spec_reliable() && delay < 27,
            ProcessState::Dispatch { delay, server, drop_reply, long_reordering } => {
                &&& server.wf()
                &&& captures(server, pre.lookup_server(e).unwrap())
                &&& delay is Some <==> !pre.spec_reliable()
                &&& (delay matches Some(ms) ==> ms < 27)
                &&& (drop_reply ==> !pre.spec_reliable())
                &&& (long_reordering matches Some(ms) ==> pre.spec_long_reordering() && 200 <= ms
                    < 2200)
                &&& (!pre.spec_long_reordering() ==> long_reordering is None)
            },
        }
    }
}

impl<H: Clone> Network<H> {
    /// The atomic snapshot a request is decided against: the endpoint's
    /// enabled flag, the live policy flags, and a capture of the server its
    /// connection currently reaches.
    pub fn end_info(&self, end_name: &String) -> (info: EndInfo<H>)
        requires
            self.wf(),
            self.end_registered(end_name@),
        ensures
            info.enabled == self.end_enabled(end_name@),
            info.reliable == self.spec_reliable(),
            info.long_reordering == self.spec_long_reordering(),
            match info.server {
                Some(c) => {
                    &&& self.lookup_server(end_name@) matches Some(s) && captures(c, s)
                    &&& c.wf()
                },
                None => self.lookup_server(end_name@) is None,
            },
    {
        let mut server: Option<Server<H>> = None;
        match self.endpoints.connections.get(end_name) {
            Some(conn) => match conn {
                Some(server_name) => {
                    proof {
                        assert(self.spec_servers().contains_key(server_name@));
                    }
                    match self.endpoints.servers.get(server_name) {
                        Some(slot) => match slot {
                            Some(s) => {
                                server = Some(s.capture());
                            },
                            None => {},
                        },
                        None => {},
                    }
                },
                None => {},
            },
            None => {},
        }
        let enabled = match self.endpoints.enabled.get(end_name) {
            Some(flag) => *flag,
            None => false,
        };
        EndInfo {
            enabled,
            reliable: self.reliable,
            long_reordering: self.long_reordering,
            server,
        }
    }

    /// Accepts one envelope: counts it, snapshots the endpoint, and samples
    /// the outcome in the fixed roll order.  The registry itself does not
    /// change.
    pub fn process_rpc(&mut self, rpc: &Rpc) -> (st: ProcessState<H>)
        requires
            old(self).wf(),
            old(self).end_registered(rpc.end_name@),
            old(self).spec_total() < u64::MAX,
        ensures
            final(self).wf(),
            final(self).spec_enabled() == old(self).spec_enabled(),
            final(self).spec_servers() == old(self).spec_servers(),
            final(self).spec_connections() == old(self).spec_connections(),
            final(self).spec_reliable() == old(self).spec_reliable(),
            final(self).spec_long_delays() == old(self).spec_long_delays(),
            final(self).spec_long_reordering() == old(self).spec_long_reordering(),
            final(self).spec_next_id() == old(self).spec_next_id(),
            final(self).spec_total() == old(self).spec_total() + 1,
            old(self).counts_ok() ==> final(self).counts_ok(),
            old(self).counts_dominated() ==> final(self).counts_dominated(),
            old(self).counts_dominated() ==> final(self).counts_strictly_dominated(),
            final(self).spec_count_sum() == old(self).spec_count_sum(),
            old(self).sum_dominated() ==> final(self).sum_strictly_dominated(),
            plan_ok(*old(self), rpc.end_name@, st),
            st is Timeout || st is Dispatch,
    {
        self.process_rpc_inner(&rpc.end_name)
    }

    /// As `process_rpc`, for callers that hold only the endpoint name.
    pub(crate) fn process_rpc_inner(&mut self, end_name: &String) -> (st: ProcessState<H>)
        requires
            old(self).wf(),
            old(self).end_registered(end_name@),
            old(self).spec_total() < u64::MAX,
        ensures
            final(self).wf(),
            final(self).spec_enabled() == old(self).spec_enabled(),
            final(self).spec_servers() == old(self).spec_servers(),
            final(self).spec_connections() == old(self).spec_connections(),
            final(self).spec_reliable() == old(self).spec_reliable(),
            final(self).spec_long_delays() == old(self).spec_long_delays(),
            final(self).spec_long_reordering() == old(self).spec_long_reordering(),
            final(self).spec_next_id() == old(self).spec_next_id(),
            final(self).spec_total() == old(self).spec_total() + 1,
            old(self).counts_ok() ==> final(self).counts_ok(),
            old(self).counts_dominated() ==> final(self).counts_dominated(),
            old(self).counts_dominated() ==> final(self).counts_strictly_dominated(),
            final(self).spec_count_sum() == old(self).spec_count_sum(),
            old(self).sum_dominated() ==> final(self).sum_strictly_dominated(),
            plan_ok(*old(self), end_name@, st),
            st is Timeout || st is Dispatch,
    {
        self.count = self.count + 1;
        proof {
            Self::lemma_servers_untouched(*old(self), *self);
        }
        let info = self.end_info(end_name);
        let mut draws = OutcomeDraws {
            timeout_roll: 0,
            short_roll: 0,
            drop_req_roll: 0,
            drop_reply_roll: 0,
            reorder_gate: 0,
            reorder_upper: 0,
            reorder_extra: 0,
        };
        if !(info.enabled && info.server.is_some()) {
            draws.timeout_roll = rng::rand_u64();
        } else {
            if !info.reliable {
                draws.short_roll = rng::rand_u64();
                draws.drop_req_roll = rng::rand_u64();
            }
            if !(!info.reliable && draws.drop_req_roll % 1000 < 100) {
                if !info.reliable {
                    draws.drop_reply_roll = rng::rand_u64();
                }
                if info.long_reordering {
                    draws.reorder_gate = rng::rand_below(900);
                    if draws.reorder_gate < 600 {
                        draws.reorder_upper = rng::rand_below(2000);
                        draws.reorder_extra = rng::rand_below(draws.reorder_upper + 1);
                    }
                }
            }
        }
        plan_from_draws(info, self.long_delays, &draws)
    }
}

/// The slot under `n` still holds a mounted server with identifier `id`:
/// the captured identity is live.
pub open spec fn live_capture<H>(net: Network<H>, n: Seq<char>, id: u64) -> bool {
    &&& net.spec_servers().contains_key(n)
    &&& net.spec_servers()[n] is Some
    &&& net.spec_servers()[n].unwrap().spec_id() == id
}

/// The reply owed for a dispatch that returned `Ok`: a timeout if the
/// captured server is dead or the reply is dropped; otherwise the reply
/// bytes, held back by the reordering delay if one was sampled.
pub open spec fn spec_verdict(
    dead: bool,
    drop_reply: bool,
    long_reordering: Option<u64>,
    rsp: Vec<u8>,
) -> ReplyAction {
    if dead || drop_reply {
        ReplyAction::Send { reply: Err(Error::Timeout) }
    } else {
        match long_reordering {
            Some(d) => ReplyAction::SendAfter { delay: d, reply: rsp },
            None => ReplyAction::Send { reply: Ok(rsp) },
        }
    }
}

/// `post`'s registry is `pre`'s with one more dispatch attempt recorded
/// against the mounted server that `s` captured; nothing else moved.
pub open spec fn dispatched_to<H>(pre: Network<H>, post: Network<H>, s: Server<H>) -> bool {
    &&& post.spec_servers().dom() == pre.spec_servers().dom()
    &&& forall|n: Seq<char>|
        n != s.spec_name() && #[trigger] pre.spec_servers().contains_key(n)
            ==> post.spec_servers()[n] == pre.spec_servers()[n]
    &&& post.spec_servers().contains_key(s.spec_name())
    &&& post.spec_servers()[s.spec_name()] matches Some(s2) && s2.spec_name() == s.spec_name()
        && s2.spec_id() == s.spec_id() && s2.spec_handlers() == s.spec_handlers()
        && s2.spec_count() == s.spec_count() + 1
}

impl<H> Network<H> {
    /// Whether the request that captured `(server_name, server_id)` for
    /// `end_name` must be answered with a timeout: its endpoint was
    /// disabled, or its server was deleted or rebound, while it was in
    /// flight.
    pub fn is_server_dead(&self, end_name: &String, server_name: &String, server_id: u64) -> (r:
        bool)
        requires
            self.wf(),
            self.spec_enabled().contains_key(end_name@),
        ensures
            r == self.spec_is_dead(end_name@, server_name@, server_id),
    {
        let enabled = match self.endpoints.enabled.get(end_name) {
            Some(flag) => *flag,
            None => false,
        };
        if !enabled {
            return true;
        }
        match self.endpoints.servers.get(server_name) {
            Some(slot) => match slot {
                Some(s) => s.id() != server_id,
                None => true,
            },
            None => true,
        }
    }

    /// Judges a dispatched request.  The attempt is recorded against the
    /// registry's server if the captured identity is still mounted; then
    /// the caller's reply is decided in the fixed order: a handler error
    /// verbatim, a timeout for a dead server or a dropped reply, and
    /// otherwise the reply bytes, possibly held back for reordering.
    pub fn finish_dispatch(
        &mut self,
        end_name: &String,
        server_name: &String,
        server_id: u64,
        dispatch_result: Result<(), Error>,
        rsp: Vec<u8>,
        drop_reply: bool,
        long_reordering: Option<u64>,
    ) -> (act: ReplyAction)
        requires
            old(self).wf(),
            old(self).spec_enabled().contains_key(end_name@),
            live_capture(*old(self), server_name@, server_id) ==> old(self).spec_servers()[
                server_name@].unwrap().spec_count() < u64::MAX,
        ensures
            final(self).wf(),
            final(self).spec_enabled() == old(self).spec_enabled(),
            final(self).spec_connections() == old(self).spec_connections(),
            final(self).spec_reliable() == old(self).spec_reliable(),
            final(self).spec_long_delays() == old(self).spec_long_delays(),
            final(self).spec_long_reordering() == old(self).spec_long_reordering(),
            final(self).spec_total() == old(self).spec_total(),
            final(self).spec_next_id() == old(self).spec_next_id(),
            live_capture(*old(self), server_name@, server_id) ==> dispatched_to(
                *old(self),
                *final(self),
                old(self).spec_servers()[server_name@].unwrap(),
            ),
            !live_capture(*old(self), server_name@, server_id) ==> final(self).spec_servers()
                == old(self).spec_servers(),
            old(self).counts_strictly_dominated() ==> final(self).counts_dominated(),
            final(self).spec_count_sum() <= old(self).spec_count_sum() + 1,
            old(self).sum_strictly_dominated() ==> final(self).sum_dominated(),
            dispatch_result matches Err(e) ==> act == (ReplyAction::Send { reply: Err(e) }),
            dispatch_result is Ok ==> act == spec_verdict(
                old(self).spec_is_dead(end_name@, server_name@, server_id),
                drop_reply,
                long_reordering,
                rsp,
            ),
    {
        let live_same = match self.endpoints.servers.get(server_name) {
            Some(slot) => match slot {
                Some(s) => s.id() == server_id,
                None => false,
            },
            None => false,
        };
        if live_same {
            proof {
                assert(old(self).spec_servers().contains_key(server_name@));
            }
            let slot = self.endpoints.servers.get_mut_existing(server_name);
            match slot {
                Some(s) => {
                    s.record_attempt();
                },
                None => {},
            }
            proof {
                assert forall|n: Seq<char>| #[trigger] self.spec_servers().contains_key(n)
                    implies server_slot_ok(self.spec_servers()[n], n, self.spec_next_id()) by {
                    assert(old(self).spec_servers().contains_key(n));
                }
                assert(self.spec_servers().dom() =~= old(self).spec_servers().dom());
                let pre = old(self).endpoints.servers;
                let i = choose|i: int|
                    0 <= i < pre.kvs().len() && #[trigger] pre.kvs()[i].0@ == server_name@
                        && self.endpoints.servers.kvs() == pre.kvs().update(
                        i,
                        (pre.kvs()[i].0, self.endpoints.servers@[server_name@]),
                    );
                pre.lemma_kvs_index(i);
                lemma_sum_counts_update(
                    pre.kvs(),
                    i,
                    (pre.kvs()[i].0, self.endpoints.servers@[server_name@]),
                );
            }
        }
        let dead = self.is_server_dead(end_name, server_name, server_id);
        proof {
            assert(dead == old(self).spec_is_dead(end_name@, server_name@, server_id));
        }
        match dispatch_result {
            Err(e) => ReplyAction::Send { reply: Err(e) },
            Ok(unit) => {
                if dead {
                    ReplyAction::Send { reply: Err(Error::Timeout) }
                } else if drop_reply {
                    ReplyAction::Send { reply: Err(Error::Timeout) }
                } else {
                    match long_reordering {
                        Some(delay) => ReplyAction::SendAfter { delay, reply: rsp },
                        None => ReplyAction::Send { reply: Ok(rsp) },
                    }
                }
            },
        }
    }
}

/// What one completed call did, given that its snapshot found the endpoint
/// enabled and the mounted server `s` reachable.  Either the request was
/// dropped on an unreliable network and nothing was dispatched, or the
/// attempt was recorded against `s` and the reply follows the handler:
/// an unknown routing key surfaces as `Unimplemented`, a handler error
/// passes verbatim, and a timeout can only have been injected on an
/// unreliable network.
pub open spec fn call_outcome_ok<H>(
    pre: Network<H>,
    post: Network<H>,
    s: Server<H>,
    fq: Seq<char>,
    r: Result<Vec<u8>, Error>,
) -> bool {
    ||| {
        &&& !pre.spec_reliable()
        &&& r == Err::<Vec<u8>, Error>(Error::Timeout)
        &&& post.spec_servers() == pre.spec_servers()
    }
    ||| {
        &&& dispatched_to(pre, post, s)
        &&& (!s.spec_handlers().contains_key(fq) ==> {
            &&& r matches Err(e) && e matches Error::Unimplemented(m) && m@ == fq
        })
        &&& (r matches Err(e) ==> !(e is Recv || e is Stopped))
        &&& (r == Err::<Vec<u8>, Error>(Error::Timeout) ==> !pre.spec_reliable())
    }
}

impl ClientEnd {
    /// Issues one RPC and waits for its result: the envelope is accepted,
    /// its outcome sampled, and -- if it survives -- the request dispatched
    /// to the captured server and the reply judged, all in one sitting.
    /// The delays the fabric samples are how long the surrounding shell
    /// would wait at each step; the result here is the same.
    ///
    /// A disabled or unconnected endpoint gets `Timeout` and the handler is
    /// never reached.  On a reliable network nothing is injected: the
    /// reply is the handler's own verdict and exactly one dispatch is
    /// recorded.
    pub fn call<H: Handler + Clone>(
        &self,
        net: &mut Network<H>,
        fq_name: &String,
        req: &Vec<u8>,
    ) -> (r: Result<Vec<u8>, Error>)
        requires
            old(net).wf(),
            old(net).end_registered(self.spec_end_name()),
            old(net).spec_total() < u64::MAX,
            old(net).counts_ok(),
        ensures
            final(net).wf(),
            final(net).spec_enabled() == old(net).spec_enabled(),
            final(net).spec_connections() == old(net).spec_connections(),
            final(net).spec_reliable() == old(net).spec_reliable(),
            final(net).spec_long_delays() == old(net).spec_long_delays(),
            final(net).spec_long_reordering() == old(net).spec_long_reordering(),
            final(net).spec_next_id() == old(net).spec_next_id(),
            final(net).spec_total() == old(net).spec_total() + 1,
            old(net).counts_dominated() ==> final(net).counts_dominated(),
            old(net).counts_dominated() && old(net).spec_total() + 1 < u64::MAX ==> final(net).counts_ok(),
            final(net).spec_count_sum() <= old(net).spec_count_sum() + 1,
            old(net).sum_dominated() ==> final(net).sum_dominated(),
            (!old(net).end_enabled(self.spec_end_name()) || old(net).lookup_server(
                self.spec_end_name(),
            ) is None) ==> r == Err::<Vec<u8>, Error>(Error::Timeout) && final(net).spec_servers()
                == old(net).spec_servers(),
            old(net).end_enabled(self.spec_end_name()) && old(net).lookup_server(
                self.spec_end_name(),
            ) is Some ==> call_outcome_ok(
                *old(net),
                *final(net),
                old(net).lookup_server(self.spec_end_name()).unwrap(),
                fq_name@,
                r,
            ),
    {
        let ghost e = self.spec_end_name();
        let st = net.process_rpc_inner(&self.end_name);
        match st {
            ProcessState::Timeout { delay: _ } => Err(Error::Timeout),
            ProcessState::Dispatch { delay: _, server, drop_reply, long_reordering } => {
                let mut server = server;
                let ghost s = old(net).lookup_server(e).unwrap();
                proof {
                    assert(old(net).spec_servers().contains_key(
                        old(net).spec_connections()[e].unwrap()@,
                    ));
                }
                let mut rsp: Vec<u8> = Vec::new();
                let res = server.dispatch(fq_name, req, &mut rsp);
                let act = net.finish_dispatch(
                    &self.end_name,
                    server.name_owned(),
                    server.id(),
                    res,
                    rsp,
                    drop_reply,
                    long_reordering,
                );
                proof {
                    assert(dispatched_to(*old(net), *net, s));
                }
                match act {
                    ReplyAction::Send { reply } => reply,
                    ReplyAction::SendAfter { delay: _, reply } => Ok(reply),
                }
            },
        }
    }
}

/// Every call is answered in bounded time: whatever plan the fabric
/// samples, the delays it can ask the caller to sit through are bounded --
/// below 7000 ms before a synthesized timeout, below 27 ms before a
/// dispatch and below 2200 ms before a reordered reply -- so a call
/// returns after at most their sum plus the handler's own running time.
pub proof fn lemma_plan_delays_bounded<H>(pre: Network<H>, e: Seq<char>, st: ProcessState<H>)
    requires
        plan_ok(pre, e, st),
    ensures
        st matches ProcessState::Timeout { delay } ==> delay < 7000,
        st matches ProcessState::Dispatch { delay, long_reordering, .. } ==> {
            &&& (delay matches Some(d) ==> d < 27)
            &&& (long_reordering matches Some(d) ==> d < 2200)
        },
{
}

/// Idempotence of registry writes: a repeated `enable` is equivalent to a
/// single one.  `pre` to `mid` and `mid` to `post` are each one
/// `Network::enable(e, f)` step, as its contract describes it; `post`'s
/// registry is then what a single step reaches.
pub proof fn lemma_enable_idempotent<H>(
    pre: Network<H>,
    mid: Network<H>,
    post: Network<H>,
    e: Seq<char>,
    f: bool,
)
    requires
        mid.spec_enabled() == pre.spec_enabled().insert(e, f),
        post.spec_enabled() == mid.spec_enabled().insert(e, f),
    ensures
        post.spec_enabled() == pre.spec_enabled().insert(e, f),
{
    assert(pre.spec_enabled().insert(e, f).insert(e, f) =~= pre.spec_enabled().insert(e, f));
}

/// Server rebind, first half: every identifier already mounted is below the
/// allocator's next one, so the identifier `add_server` assigns next
/// strictly exceeds that of any server it replaces.
pub proof fn lemma_rebind_exceeds<H>(net: Network<H>, n: Seq<char>)
    requires
        net.wf(),
        net.spec_servers().contains_key(n),
        net.spec_servers()[n] is Some,
    ensures
        net.spec_servers()[n].unwrap().spec_id() < net.spec_next_id(),
{
}

/// Server rebind, second half: a request that captured an identity the
/// registry no longer mounts under that name is dead, so
/// `finish_dispatch` answers it with `Timeout` whatever the handler did.
pub proof fn lemma_stale_capture_is_dead<H>(net: Network<H>, e: Seq<char>, n: Seq<char>, id: u64)
    requires
        !net.spec_servers().contains_key(n) || net.spec_servers()[n] is None
            || net.spec_servers()[n].unwrap().spec_id() != id,
    ensures
        net.spec_is_dead(e, n, id),
{
}

/// The dispatch count a registry slot contributes: a tombstone contributes
/// nothing.
pub open spec fn slot_count<H>(slot: Option<Server<H>>) -> int {
    match slot {
        Some(s) => s.spec_count() as int,
        None => 0,
    }
}

/// The summed dispatch counts of the server table's entries.
pub open spec fn sum_counts<H>(s: Seq<(String, Option<Server<H>>)>) -> int
    decreases s.len(),
{
    if s.len() == 0 {
        0
    } else {
        sum_counts(s.drop_last()) + slot_count(s.last().1)
    }
}

proof fn lemma_sum_counts_update<H>(s: Seq<(String, Option<Server<H>>)>, i: int, e: (String, Option<Server<H>>))
    requires
        0 <= i < s.len(),
    ensures
        sum_counts(s.update(i, e)) == sum_counts(s) - slot_count(s[i].1) + slot_count(e.1),
    decreases s.len(),
{
    let t = s.update(i, e);
    if i == s.len() - 1 {
        assert(t.drop_last() =~= s.drop_last());
    } else {
        lemma_sum_counts_update(s.drop_last(), i, e);
        assert(t.drop_last() =~= s.drop_last().update(i, e));
        assert(t.last() == s.last());
    }
}

proof fn lemma_sum_counts_push<H>(s: Seq<(String, Option<Server<H>>)>, e: (String, Option<Server<H>>))
    ensures
        sum_counts(s.push(e)) == sum_counts(s) + slot_count(e.1),
{
    assert(s.push(e).drop_last() =~= s);
    assert(s.push(e).last() == e);
}

/// A registry slot is sound: a mounted server is well-formed, sits under
/// its own name, and carries an already-allocated identifier.
pub open spec fn server_slot_ok<H>(slot: Option<Server<H>>, n: Seq<char>, next_id: u64) -> bool {
    slot matches Some(s) ==> s.wf() && s.spec_name() == n && 1 <= s.spec_id() < next_id
}

/// Everything of the fabric but the `reliable` flag agrees between `a` and
/// `b`.
pub open spec fn unchanged_but_reliable<H>(a: Network<H>, b: Network<H>) -> bool {
    &&& b.spec_enabled() == a.spec_enabled()
    &&& b.spec_servers() == a.spec_servers()
    &&& b.spec_connections() == a.spec_connections()
    &&& b.spec_long_delays() == a.spec_long_delays()
    &&& b.spec_long_reordering() == a.spec_long_reordering()
    &&& b.spec_total() == a.spec_total()
    &&& b.spec_next_id() == a.spec_next_id()
    &&& b.wf() == a.wf()
}

/// Everything of the fabric but the `long_reordering` flag agrees between
/// `a` and `b`.
pub open spec fn unchanged_but_long_reordering<H>(a: Network<H>, b: Network<H>) -> bool {
    &&& b.spec_enabled() == a.spec_enabled()
    &&& b.spec_servers() == a.spec_servers()
    &&& b.spec_connections() == a.spec_connections()
    &&& b.spec_reliable() == a.spec_reliable()
    &&& b.spec_long_delays() == a.spec_long_delays()
    &&& b.spec_total() == a.spec_total()
    &&& b.spec_next_id() == a.spec_next_id()
    &&& b.wf() == a.wf()
}

/// Everything of the fabric but the `long_delays` flag agrees between `a`
/// and `b`.
pub open spec fn unchanged_but_long_delays<H>(a: Network<H>, b: Network<H>) -> bool {
    &&& b.spec_enabled() == a.spec_enabled()
    &&& b.spec_servers() == a.spec_servers()
    &&& b.spec_connections() == a.spec_connections()
    &&& b.spec_reliable() == a.spec_reliable()
    &&& b.spec_long_reordering() == a.spec_long_reordering()
    &&& b.spec_total() == a.spec_total()
    &&& b.spec_next_id() == a.spec_next_id()
    &&& b.wf() == a.wf()
}

} // verus!
