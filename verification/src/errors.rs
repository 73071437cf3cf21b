use vstd::prelude::*;

verus! {

/// Error kinds surfaced to the caller of `ClientEnd::call`.
///
/// `Encode`, `Decode` and `Unimplemented` originate in handlers or in the
/// caller; `Timeout` is synthesized by the fabric for every injected failure
/// (disabled endpoint, missing or retired server, request drop, reply drop);
/// `Recv` and `Stopped` concern the reply channel and the ingress queue that
/// an unverified shell may place around the library.
#[derive(Debug, PartialEq, Eq)]
pub enum Error {
    /// A request could not be serialized by the caller.
    Encode(String),
    /// A reply could not be deserialized, or a handler rejected the request
    /// bytes.
    Decode(String),
    /// No handler is registered under the routing key.
    Unimplemented(String),
    /// Synthesized by the fabric; the caller must not learn which injected
    /// failure produced it.
    Timeout,
    /// The reply channel was closed without a value.
    Recv,
    /// The ingress queue is closed: the network is shutting down.
    Stopped,
}

impl Error {
    /// True of the kinds that only the fabric or its surrounding shell may
    /// produce; a service handler never returns them.
    pub open spec fn is_fabric_injected(self) -> bool {
        self is Timeout || self is Recv || self is Stopped
    }
}

} // verus!
