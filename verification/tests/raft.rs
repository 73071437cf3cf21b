use labrpc::codec::{decode_pair, encode_pair};
use labrpc::raft::{
    ApplyMsg, MemPersister, Node, Persister, Raft, RaftClient, RequestVoteArgs, State,
};
use labrpc::{Error, Network, ServerBuilder};

#[derive(Clone)]
struct VoteService;

impl labrpc::Handler for VoteService {
    fn handle(&self, req: &Vec<u8>, rsp: &mut Vec<u8>) -> Result<(), Error> {
        match decode_pair(req) {
            Some((term, _candidate)) => {
                let reply = encode_pair(term + 1, 1);
                rsp.extend_from_slice(&reply[..]);
                Ok(())
            }
            None => Err(Error::Decode("malformed request-vote".to_string())),
        }
    }
}

#[test]
fn pair_codec_round_trips() {
    let bytes = encode_pair(7, 77);
    assert_eq!(bytes.len(), 16);
    assert_eq!(decode_pair(&bytes), Some((7, 77)));
    assert_eq!(decode_pair(&bytes[..15].to_vec()), None);
    assert_eq!(decode_pair(&Vec::new()), None);
    let big = encode_pair(u64::MAX, 0);
    assert_eq!(decode_pair(&big), Some((u64::MAX, 0)));
}

#[test]
fn fresh_state_is_follower_at_term_zero() {
    let state = State::default();
    assert_eq!(state.term(), 0);
    assert!(!state.is_leader());
}

#[test]
fn persister_round_trips_saved_state() {
    let mut p = MemPersister::new();
    assert!(p.raft_state().is_empty());
    p.save_raft_state(vec![1, 2, 3]);
    assert_eq!(p.raft_state(), vec![1, 2, 3]);
}

#[test]
fn start_accepts_commands_at_the_origin() {
    let persister = MemPersister::new();
    let mut raft = Raft::new(Vec::new(), 0, persister, State::default());
    let (index, term) = raft.start(&vec![9, 9]).unwrap();
    assert_eq!((index, term), (0, 0));
    raft.persist();
}

#[test]
fn node_wraps_a_peer() {
    let persister = MemPersister::new();
    let raft = Raft::new(Vec::new(), 0, persister, State::default());
    let node = Node::new(raft);
    node.kill();
}

#[test]
fn request_vote_travels_the_fabric() {
    let mut net: Network<VoteService> = Network::new();
    let mut builder = ServerBuilder::new("peer0".to_string());
    builder
        .add_handler("raft.request_vote".to_string(), VoteService)
        .unwrap();
    net.add_server(builder.build());

    let end = net.create_end("caller".to_string());
    net.connect("caller".to_string(), "peer0".to_string());
    net.enable("caller".to_string(), true);

    let client = RaftClient::new(end);
    let raft = Raft::new(
        vec![client],
        0,
        MemPersister::new(),
        State::default(),
    );

    let args = RequestVoteArgs {
        term: 4,
        candidate_id: 2,
    };
    let reply = raft
        .send_request_vote(&mut net, 0, &"raft.request_vote".to_string(), &args)
        .unwrap();
    assert_eq!(reply.term, 5);
    assert!(reply.vote_granted);
}

#[test]
fn request_vote_times_out_when_disabled() {
    let mut net: Network<VoteService> = Network::new();
    let mut builder = ServerBuilder::new("peer0".to_string());
    builder
        .add_handler("raft.request_vote".to_string(), VoteService)
        .unwrap();
    net.add_server(builder.build());

    let end = net.create_end("caller".to_string());
    net.connect("caller".to_string(), "peer0".to_string());

    let client = RaftClient::new(end);
    let err = client
        .request_vote(
            &mut net,
            &"raft.request_vote".to_string(),
            &RequestVoteArgs {
                term: 1,
                candidate_id: 0,
            },
        )
        .unwrap_err();
    match err {
        labrpc::raft::Error::Rpc(inner) => assert_eq!(inner, Error::Timeout),
        _ => panic!("a disabled endpoint surfaces as an RPC timeout"),
    }
}

#[derive(Clone)]
struct MuteVoteService;

impl labrpc::Handler for MuteVoteService {
    fn handle(&self, _req: &Vec<u8>, rsp: &mut Vec<u8>) -> Result<(), Error> {
        rsp.extend_from_slice(b"???");
        Ok(())
    }
}

#[test]
fn unreadable_reply_surfaces_as_decode() {
    let mut net: Network<MuteVoteService> = Network::new();
    let mut builder = ServerBuilder::new("peer0".to_string());
    builder
        .add_handler("raft.request_vote".to_string(), MuteVoteService)
        .unwrap();
    net.add_server(builder.build());

    let end = net.create_end("caller".to_string());
    net.connect("caller".to_string(), "peer0".to_string());
    net.enable("caller".to_string(), true);

    let client = RaftClient::new(end);
    let err = client
        .request_vote(
            &mut net,
            &"raft.request_vote".to_string(),
            &RequestVoteArgs {
                term: 1,
                candidate_id: 0,
            },
        )
        .unwrap_err();
    assert!(matches!(err, labrpc::raft::Error::Decode));
}

#[test]
fn apply_msg_carries_its_command() {
    let msg = ApplyMsg {
        command_valid: true,
        command: vec![1, 2],
        command_index: 3,
    };
    assert!(msg.command_valid);
    assert_eq!(msg.command, vec![1, 2]);
    assert_eq!(msg.command_index, 3);
}
