use vstd::prelude::*;

use crate::errors::Error;
use crate::table::Table;

verus! {

/// A service handler: serves one request by reading `req` and, on success,
/// filling `rsp` with the reply bytes.
///
/// The harness supplies the implementations; they must be safe to invoke
/// concurrently, and they report their own failures (`Decode`, `Encode`,
/// `Unimplemented`).  The kinds that stand for injected network failures are
/// reserved to the fabric, which is all a handler promises.
pub trait Handler {
    fn handle(&self, req: &Vec<u8>, rsp: &mut Vec<u8>) -> (r: Result<(), Error>)
        ensures
            r matches Err(e) ==> !e.is_fabric_injected(),
    ;
}

/// Accumulates handlers for a server under construction.
pub struct ServerBuilder<H> {
    name: String,
    services: Table<H>,
}

/// A named collection of handlers mounted on the network.
///
/// The identifier is assigned by `Network::add_server`; together with the
/// name it is the server's identity for liveness checks.  The counter
/// records dispatch attempts, unknown methods included.
pub struct Server<H> {
    name: String,
    id: u64,
    handlers: Table<H>,
    count: u64,
}

impl<H> ServerBuilder<H> {
    pub closed spec fn wf(self) -> bool {
        self.services.wf()
    }

    pub closed spec fn spec_name(self) -> Seq<char> {
        self.name@
    }

    pub closed spec fn spec_services(self) -> Map<Seq<char>, H> {
        self.services@
    }

    pub fn new(name: String) -> (b: ServerBuilder<H>)
        ensures
            b.wf(),
            b.spec_name() == name@,
            b.spec_services() == Map::<Seq<char>, H>::empty(),
    {
        ServerBuilder { name, services: Table::new() }
    }

    /// Registers `handler` under the routing key `fq_name`
    /// (`"service.method"`), overwriting any prior handler for that key.
    pub fn add_handler(&mut self, fq_name: String, handler: H) -> (r: Result<(), Error>)
        requires
            old(self).wf(),
        ensures
            final(self).wf(),
            final(self).spec_name() == old(self).spec_name(),
            final(self).spec_services() == old(self).spec_services().insert(fq_name@, handler),
            r is Ok,
    {
        self.services.put(fq_name, handler);
        Ok(())
    }

    /// Seals the builder.  The server starts with no dispatches counted and
    /// with the placeholder identifier `0`; mounting it on a network assigns
    /// the real one.
    pub fn build(self) -> (s: Server<H>)
        requires
            self.wf(),
        ensures
            s.wf(),
            s.spec_name() == self.spec_name(),
            s.spec_handlers() == self.spec_services(),
            s.spec_id() == 0,
            s.spec_count() == 0,
    {
        Server { name: self.name, id: 0, handlers: self.services, count: 0 }
    }
}

impl<H> Server<H> {
    pub closed spec fn wf(self) -> bool {
        self.handlers.wf()
    }

    pub closed spec fn spec_name(self) -> Seq<char> {
        self.name@
    }

    pub closed spec fn spec_id(self) -> u64 {
        self.id
    }

    pub closed spec fn spec_count(self) -> u64 {
        self.count
    }

    pub closed spec fn spec_handlers(self) -> Map<Seq<char>, H> {
        self.handlers@
    }

    pub fn name(&self) -> (r: &str)
        ensures
            r@ == self.spec_name(),
    {
        self.name.as_str()
    }

    pub fn name_owned(&self) -> (r: &String)
        ensures
            r@ == self.spec_name(),
    {
        &self.name
    }

    pub fn id(&self) -> (r: u64)
        ensures
            r == self.spec_id(),
    {
        self.id
    }

    /// How many dispatch attempts this server has absorbed.
    pub fn count(&self) -> (r: u64)
        ensures
            r == self.spec_count(),
    {
        self.count
    }

    /// Used by `Network::add_server` when mounting: the network hands out
    /// identifiers from its monotonic allocator.
    pub(crate) fn set_id(&mut self, id: u64)
        ensures
            final(self).spec_id() == id,
            final(self).spec_name() == old(self).spec_name(),
            final(self).spec_count() == old(self).spec_count(),
            final(self).spec_handlers() == old(self).spec_handlers(),
            final(self).wf() == old(self).wf(),
    {
        self.id = id;
    }

    /// Counts one dispatch attempt against this server.  Used when syncing
    /// the registry's copy with a capture that was dispatched to.
    pub(crate) fn record_attempt(&mut self)
        requires
            old(self).spec_count() < u64::MAX,
        ensures
            final(self).spec_count() == old(self).spec_count() + 1,
            final(self).spec_name() == old(self).spec_name(),
            final(self).spec_id() == old(self).spec_id(),
            final(self).spec_handlers() == old(self).spec_handlers(),
            final(self).wf() == old(self).wf(),
    {
        self.count = self.count + 1;
    }

    /// A capture of this server for an in-flight request: same name,
    /// identifier, count and routing keys, with each handler cloned.
    pub fn capture(&self) -> (s: Server<H>) where H: Clone
        requires
            self.wf(),
        ensures
            s.wf(),
            captures(s, *self),
    {
        Server {
            name: self.name.clone(),
            id: self.id,
            handlers: self.handlers.duplicate(),
            count: self.count,
        }
    }
}

impl<H: Handler> Server<H> {
    /// Serves one request: counts the attempt, then routes `fq_name` to its
    /// handler.  An unknown key fails with `Unimplemented` and leaves `rsp`
    /// alone; a known key hands `req` to the handler, whose verdict is
    /// propagated verbatim.
    pub fn dispatch(&mut self, fq_name: &String, req: &Vec<u8>, rsp: &mut Vec<u8>) -> (r: Result<
        (),
        Error,
    >)
        requires
            old(self).wf(),
            old(self).spec_count() < u64::MAX,
        ensures
            final(self).wf(),
            final(self).spec_name() == old(self).spec_name(),
            final(self).spec_id() == old(self).spec_id(),
            final(self).spec_handlers() == old(self).spec_handlers(),
            final(self).spec_count() == old(self).spec_count() + 1,
            !old(self).spec_handlers().contains_key(fq_name@) ==> {
                &&& r matches Err(e) && e matches Error::Unimplemented(m) && m@ == fq_name@
                &&& final(rsp)@ == old(rsp)@
            },
            r matches Err(e) ==> !(e is Timeout || e is Recv || e is Stopped),
    {
        self.count = self.count + 1;
        match self.handlers.get(fq_name) {
            Some(handler) => handler.handle(req, rsp),
            None => Err(Error::Unimplemented(fq_name.clone())),
        }
    }
}

/// `s` stands in for `t` inside an in-flight request: everything the fabric
/// reads agrees, and the routing keys agree, so `s` serves or rejects exactly
/// the keys that `t` would.  Handler values themselves are clones and may
/// not compare equal.
pub open spec fn captures<H>(s: Server<H>, t: Server<H>) -> bool {
    &&& s.spec_name() == t.spec_name()
    &&& s.spec_id() == t.spec_id()
    &&& s.spec_count() == t.spec_count()
    &&& s.spec_handlers().dom() == t.spec_handlers().dom()
}

} // verus!
