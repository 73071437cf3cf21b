use vstd::prelude::*;

use crate::codec::{decode_pair, encode_pair, spec_encode_pair};
use crate::network::{ClientEnd, Network};
use crate::server::Handler;

verus! {

/// A command handed up from a peer to the service once it is committed.
pub struct ApplyMsg {
    pub command_valid: bool,
    pub command: Vec<u8>,
    pub command_index: u64,
}

/// State of a peer as its service sees it.
pub struct State {
    term: u64,
    is_leader: bool,
}

impl State {
    /// The current term of this peer.
    pub closed spec fn spec_term(self) -> u64 {
        self.term
    }

    /// Whether this peer believes it is the leader.
    pub closed spec fn spec_is_leader(self) -> bool {
        self.is_leader
    }

    pub fn term(&self) -> (r: u64)
        ensures
            r == self.spec_term(),
    {
        self.term
    }

    pub fn is_leader(&self) -> (r: bool)
        ensures
            r == self.spec_is_leader(),
    {
        self.is_leader
    }
}

impl Default for State {
    /// A fresh peer: term zero, not a leader.
    fn default() -> (r: State)
        ensures
            r.spec_term() == 0,
            !r.spec_is_leader(),
    {
        State { term: 0, is_leader: false }
    }
}

/// Stable storage for a peer's persisted state.  The harness supplies the
/// implementation; nothing is promised of it beyond its signatures.
pub trait Persister {
    /// The most recently saved state, or empty if none was ever saved.
    fn raft_state(&self) -> Vec<u8>;

    /// Replaces the saved state.
    fn save_raft_state(&mut self, data: Vec<u8>);
}

/// An in-memory `Persister`.
pub struct MemPersister {
    state: Vec<u8>,
}

impl MemPersister {
    pub closed spec fn spec_state(self) -> Seq<u8> {
        self.state@
    }

    pub fn new() -> (p: MemPersister)
        ensures
            p.spec_state() == Seq::<u8>::empty(),
    {
        MemPersister { state: Vec::new() }
    }
}

impl Persister for MemPersister {
    fn raft_state(&self) -> Vec<u8> {
        vstd::slice::slice_to_vec(self.state.as_slice())
    }

    fn save_raft_state(&mut self, data: Vec<u8>) {
        self.state = data;
    }
}

/// Arguments of the request-vote RPC.
pub struct RequestVoteArgs {
    pub term: u64,
    pub candidate_id: u64,
}

/// Reply of the request-vote RPC.
#[derive(Debug)]
pub struct RequestVoteReply {
    pub term: u64,
    pub vote_granted: bool,
}

/// The error kinds a peer's operations surface.
#[derive(Debug)]
pub enum Error {
    /// A message could not be serialized.
    Encode,
    /// A message could not be deserialized.
    Decode,
    /// This peer is not the leader.
    NotLeader,
    /// The fabric failed the call; the inner error says how it surfaced.
    Rpc(crate::errors::Error),
}

/// A caller-side stub for the request-vote RPC of one peer.
pub struct RaftClient {
    end: ClientEnd,
}

impl RaftClient {
    pub closed spec fn spec_end_name(self) -> Seq<char> {
        self.end.spec_end_name()
    }

    pub fn new(end: ClientEnd) -> (c: RaftClient)
        ensures
            c.spec_end_name() == end.spec_end_name(),
    {
        RaftClient { end }
    }

    /// Sends one request-vote over the fabric: the arguments travel as an
    /// encoded pair, and a reply that comes back is decoded as one, a vote
    /// granted being any word but zero.  A fabric failure surfaces as
    /// `Rpc`, an unreadable reply as `Decode`.
    pub fn request_vote<H: Handler + Clone>(
        &self,
        net: &mut Network<H>,
        fq_name: &String,
        args: &RequestVoteArgs,
    ) -> (r: Result<RequestVoteReply, Error>)
        requires
            old(net).wf(),
            old(net).end_registered(self.spec_end_name()),
            old(net).spec_total() < u64::MAX,
            old(net).counts_ok(),
        ensures
            final(net).wf(),
            final(net).spec_total() == old(net).spec_total() + 1,
            old(net).counts_dominated() ==> final(net).counts_dominated(),
            !old(net).end_enabled(self.spec_end_name()) || old(net).lookup_server(
                self.spec_end_name(),
            ) is None ==> {
                &&& r matches Err(e) && e matches Error::Rpc(inner) && inner
                    == crate::errors::Error::Timeout
            },
            old(net).end_enabled(self.spec_end_name()) && old(net).lookup_server(
                self.spec_end_name(),
            ) is Some && old(net).spec_reliable() ==> !(r matches Err(e) && e matches Error::Rpc(
                inner,
            ) && inner == crate::errors::Error::Timeout),
    {
        let req = encode_pair(args.term, args.candidate_id);
        match self.end.call(net, fq_name, &req) {
            Ok(bytes) => match decode_pair(&bytes) {
                Some(pair) => Ok(
                    RequestVoteReply { term: pair.0, vote_granted: pair.1 != 0 },
                ),
                None => Err(Error::Decode),
            },
            Err(e) => Err(Error::Rpc(e)),
        }
    }
}

/// A single peer.
pub struct Raft<P> {
    /// Stubs for every peer of the group, this one included.
    pub peers: Vec<RaftClient>,
    /// This peer's stable storage.
    pub persister: P,
    /// This peer's index into `peers`.
    pub me: usize,
    /// What the service sees of this peer.
    pub state: State,
}

impl<P: Persister> Raft<P> {
    /// Creates a peer over its stubs and storage, restoring whatever state
    /// the storage holds.
    pub fn new(peers: Vec<RaftClient>, me: usize, persister: P, state: State) -> (rf: Raft<P>)
        ensures
            rf.peers@ == peers@,
            rf.me == me,
    {
        let raft_state = persister.raft_state();
        let mut rf = Raft { peers, persister, me, state };
        rf.restore(raft_state.as_slice());
        rf
    }

    /// Saves this peer's persistent state to stable storage.  The peer has
    /// no persistent state yet, so nothing is written.
    pub fn persist(&mut self)
        ensures
            *final(self) == *old(self),
    {
    }

    /// Restores previously persisted state; empty data means a fresh boot
    /// and there is no other state yet, so nothing changes.
    pub fn restore(&mut self, data: &[u8])
        ensures
            *final(self) == *old(self),
    {
        if data.len() == 0 {
            return ;
        }
    }

    /// Sends a request-vote to the peer at index `server`, tagging a fabric
    /// failure as `Rpc`.
    pub fn send_request_vote<H: Handler + Clone>(
        &self,
        net: &mut Network<H>,
        server: usize,
        fq_name: &String,
        args: &RequestVoteArgs,
    ) -> (r: Result<RequestVoteReply, Error>)
        requires
            server < self.peers@.len(),
            old(net).wf(),
            old(net).end_registered(self.peers@[server as int].spec_end_name()),
            old(net).spec_total() < u64::MAX,
            old(net).counts_ok(),
        ensures
            final(net).wf(),
            final(net).spec_total() == old(net).spec_total() + 1,
            old(net).counts_dominated() ==> final(net).counts_dominated(),
            !old(net).end_enabled(self.peers@[server as int].spec_end_name()) || old(
                net,
            ).lookup_server(self.peers@[server as int].spec_end_name()) is None ==> {
                &&& r matches Err(e) && e matches Error::Rpc(inner) && inner
                    == crate::errors::Error::Timeout
            },
    {
        let peer = &self.peers[server];
        peer.request_vote(net, fq_name, args)
    }

    /// Starts agreement on a command.  This peer always believes it is the
    /// leader for now and no log exists yet, so every command is accepted
    /// at index zero of term zero.
    pub fn start(&mut self, _command: &Vec<u8>) -> (r: Result<(u64, u64), Error>)
        ensures
            final(self).peers@ == old(self).peers@,
            final(self).me == old(self).me,
            r matches Ok(p) && p == (0u64, 0u64),
    {
        let index: u64 = 0;
        let term: u64 = 0;
        let is_leader = true;
        if is_leader {
            Ok((index, term))
        } else {
            Err(Error::NotLeader)
        }
    }
}

/// The service-facing handle of a peer.
pub struct Node {}

impl Node {
    /// Creates the service handle over a peer; the peer itself is owned by
    /// the handle's surroundings for now.
    pub fn new<P: Persister>(_raft: Raft<P>) -> (n: Node) {
        Node {}
    }

    /// Retires the peer.  Nothing holds resources, so nothing is done.
    pub fn kill(&self) {
    }
}

} // verus!
