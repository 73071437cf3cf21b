use std::sync::{Arc, Mutex};

use labrpc::{
    EndInfo, Error, Network, OutcomeDraws, ProcessState, ReplyAction, Rpc, ServerBuilder,
};

#[derive(Clone)]
enum Junk {
    Handler2(Arc<Mutex<Vec<i64>>>),
    Handler4,
}

impl labrpc::Handler for Junk {
    fn handle(&self, req: &Vec<u8>, rsp: &mut Vec<u8>) -> Result<(), Error> {
        match self {
            Junk::Handler2(log) => {
                let x = decode_args(req)?;
                log.lock().unwrap().push(x);
                rsp.extend_from_slice(format!("handler2-{}", x).as_bytes());
                Ok(())
            }
            Junk::Handler4 => {
                decode_args(req)?;
                rsp.extend_from_slice(b"pointer");
                Ok(())
            }
        }
    }
}

fn decode_args(req: &Vec<u8>) -> Result<i64, Error> {
    if req.is_empty() {
        return Ok(0);
    }
    if req.len() != 8 {
        return Err(Error::Decode("malformed arguments".to_string()));
    }
    let mut raw = [0u8; 8];
    raw.copy_from_slice(&req[..]);
    Ok(i64::from_le_bytes(raw))
}

fn junk_suit() -> (Network<Junk>, Arc<Mutex<Vec<i64>>>) {
    let mut net = Network::new();
    let log = Arc::new(Mutex::new(Vec::new()));
    let mut builder = ServerBuilder::new("test_server".to_string());
    builder
        .add_handler("junk.handler2".to_string(), Junk::Handler2(log.clone()))
        .unwrap();
    builder
        .add_handler("junk.handler4".to_string(), Junk::Handler4)
        .unwrap();
    net.add_server(builder.build());
    (net, log)
}

fn sample_server() -> labrpc::Server<Junk> {
    let mut builder = ServerBuilder::new("s".to_string());
    builder
        .add_handler("junk.handler4".to_string(), Junk::Handler4)
        .unwrap();
    builder.build()
}

fn zero_draws() -> OutcomeDraws {
    OutcomeDraws {
        timeout_roll: 0,
        short_roll: 0,
        drop_req_roll: 0,
        drop_reply_roll: 0,
        reorder_gate: 0,
        reorder_upper: 0,
        reorder_extra: 0,
    }
}

fn rpc_for(end_name: &str) -> Rpc {
    Rpc {
        end_name: end_name.to_string(),
        fq_name: "junk.handler4".to_string(),
        req: Vec::new(),
    }
}

#[test]
fn disabled_endpoint_plans_short_timeout() {
    let info: EndInfo<Junk> = EndInfo {
        enabled: false,
        reliable: true,
        long_reordering: false,
        server: Some(sample_server()),
    };
    let mut draws = zero_draws();
    draws.timeout_roll = 7777;
    match labrpc::plan_from_draws(info, false, &draws) {
        ProcessState::Timeout { delay } => assert_eq!(delay, 77),
        _ => panic!("expected a timeout plan"),
    }
}

#[test]
fn long_delays_stretch_the_timeout() {
    let info: EndInfo<Junk> = EndInfo {
        enabled: true,
        reliable: true,
        long_reordering: false,
        server: None,
    };
    let mut draws = zero_draws();
    draws.timeout_roll = 7777;
    match labrpc::plan_from_draws(info, true, &draws) {
        ProcessState::Timeout { delay } => assert_eq!(delay, 777),
        _ => panic!("expected a timeout plan"),
    }
}

#[test]
fn reliable_path_dispatches_cleanly() {
    let info = EndInfo {
        enabled: true,
        reliable: true,
        long_reordering: false,
        server: Some(sample_server()),
    };
    match labrpc::plan_from_draws(info, false, &zero_draws()) {
        ProcessState::Dispatch {
            delay,
            server,
            drop_reply,
            long_reordering,
        } => {
            assert!(delay.is_none());
            assert_eq!(server.name(), "s");
            assert!(!drop_reply);
            assert!(long_reordering.is_none());
        }
        _ => panic!("expected a dispatch plan"),
    }
}

#[test]
fn request_drop_threshold_is_one_tenth() {
    let mut draws = zero_draws();
    draws.short_roll = 53;
    draws.drop_req_roll = 1099;
    let info = EndInfo {
        enabled: true,
        reliable: false,
        long_reordering: false,
        server: Some(sample_server()),
    };
    match labrpc::plan_from_draws(info, false, &draws) {
        ProcessState::Timeout { delay } => assert_eq!(delay, 26),
        _ => panic!("a roll of 99 out of 1000 drops the request"),
    }

    draws.drop_req_roll = 1100;
    let info = EndInfo {
        enabled: true,
        reliable: false,
        long_reordering: false,
        server: Some(sample_server()),
    };
    match labrpc::plan_from_draws(info, false, &draws) {
        ProcessState::Dispatch { delay, .. } => assert_eq!(delay, Some(26)),
        _ => panic!("a roll of 100 out of 1000 keeps the request"),
    }
}

#[test]
fn reply_drop_threshold_is_one_tenth() {
    let mut draws = zero_draws();
    draws.drop_req_roll = 500;
    draws.drop_reply_roll = 99;
    let info = EndInfo {
        enabled: true,
        reliable: false,
        long_reordering: false,
        server: Some(sample_server()),
    };
    match labrpc::plan_from_draws(info, false, &draws) {
        ProcessState::Dispatch { drop_reply, .. } => assert!(drop_reply),
        _ => panic!("expected a dispatch plan"),
    }

    draws.drop_reply_roll = 100;
    let info = EndInfo {
        enabled: true,
        reliable: false,
        long_reordering: false,
        server: Some(sample_server()),
    };
    match labrpc::plan_from_draws(info, false, &draws) {
        ProcessState::Dispatch { drop_reply, .. } => assert!(!drop_reply),
        _ => panic!("expected a dispatch plan"),
    }
}

#[test]
fn reordering_gate_and_floor() {
    let mut draws = zero_draws();
    draws.reorder_gate = 599;
    draws.reorder_upper = 1999;
    draws.reorder_extra = 1999;
    let info = EndInfo {
        enabled: true,
        reliable: true,
        long_reordering: true,
        server: Some(sample_server()),
    };
    match labrpc::plan_from_draws(info, false, &draws) {
        ProcessState::Dispatch {
            long_reordering, ..
        } => assert_eq!(long_reordering, Some(2199)),
        _ => panic!("expected a dispatch plan"),
    }

    draws.reorder_gate = 600;
    let info = EndInfo {
        enabled: true,
        reliable: true,
        long_reordering: true,
        server: Some(sample_server()),
    };
    match labrpc::plan_from_draws(info, false, &draws) {
        ProcessState::Dispatch {
            long_reordering, ..
        } => assert_eq!(long_reordering, None),
        _ => panic!("expected a dispatch plan"),
    }
}

#[test]
fn sampled_timeouts_respect_their_ranges() {
    let (mut net, _log) = junk_suit();
    let _client = net.create_end("c".to_string());
    net.connect("c".to_string(), "test_server".to_string());

    let rpc = rpc_for("c");
    for _ in 0..100 {
        match net.process_rpc(&rpc) {
            ProcessState::Timeout { delay } => assert!(delay < 100),
            _ => panic!("a disabled endpoint never dispatches"),
        }
    }

    net.set_long_delays(true);
    let mut seen_long = false;
    for _ in 0..200 {
        match net.process_rpc(&rpc) {
            ProcessState::Timeout { delay } => {
                assert!(delay < 7000);
                if delay >= 100 {
                    seen_long = true;
                }
            }
            _ => panic!("a disabled endpoint never dispatches"),
        }
    }
    assert!(seen_long, "long delays never exceeded the short range");
}

#[test]
fn sampled_reordering_respects_its_range() {
    let (mut net, _log) = junk_suit();
    let _client = net.create_end("c".to_string());
    net.connect("c".to_string(), "test_server".to_string());
    net.enable("c".to_string(), true);
    net.set_long_reordering(true);

    let rpc = rpc_for("c");
    let mut seen_some = false;
    let mut seen_none = false;
    for _ in 0..200 {
        match net.process_rpc(&rpc) {
            ProcessState::Dispatch {
                long_reordering, ..
            } => match long_reordering {
                Some(d) => {
                    assert!((200..2200).contains(&d));
                    seen_some = true;
                }
                None => seen_none = true,
            },
            _ => panic!("a reliable live endpoint always dispatches"),
        }
    }
    assert!(seen_some, "reordering never fired at a two-thirds rate");
    assert!(seen_none, "reordering always fired at a two-thirds rate");
}

#[test]
fn unreliable_delays_stay_short() {
    let (mut net, _log) = junk_suit();
    let _client = net.create_end("c".to_string());
    net.connect("c".to_string(), "test_server".to_string());
    net.enable("c".to_string(), true);
    net.set_reliable(false);

    let rpc = rpc_for("c");
    for _ in 0..200 {
        match net.process_rpc(&rpc) {
            ProcessState::Timeout { delay } => assert!(delay < 27),
            ProcessState::Dispatch { delay, .. } => match delay {
                Some(d) => assert!(d < 27),
                None => panic!("an unreliable network always pays a short delay"),
            },
        }
    }
}

#[test]
fn dropped_reply_still_reaches_the_handler() {
    let (mut net, log) = junk_suit();
    let _client = net.create_end("c".to_string());
    net.connect("c".to_string(), "test_server".to_string());
    net.enable("c".to_string(), true);

    let rpc = Rpc {
        end_name: "c".to_string(),
        fq_name: "junk.handler2".to_string(),
        req: 42i64.to_le_bytes().to_vec(),
    };
    let mut server = match net.process_rpc(&rpc) {
        ProcessState::Dispatch { server, .. } => server,
        _ => panic!("a reliable live endpoint always dispatches"),
    };
    let mut rsp = Vec::new();
    let res = server.dispatch(&rpc.fq_name, &rpc.req, &mut rsp);
    assert!(res.is_ok());

    let server_name = "test_server".to_string();
    let act = net.finish_dispatch(
        &rpc.end_name,
        &server_name,
        server.id(),
        res,
        rsp,
        true,
        None,
    );
    match act {
        ReplyAction::Send { reply } => assert_eq!(reply, Err(Error::Timeout)),
        _ => panic!("a dropped reply is answered now, not reordered"),
    }
    assert_eq!(log.lock().unwrap().clone(), vec![42i64]);
    assert_eq!(net.count(&server_name), 1);
}

#[test]
fn rebind_allocates_a_larger_id() {
    let (mut net, _log) = junk_suit();
    let _client = net.create_end("c".to_string());
    net.connect("c".to_string(), "test_server".to_string());
    net.enable("c".to_string(), true);

    let rpc = rpc_for("c");
    let first = match net.process_rpc(&rpc) {
        ProcessState::Dispatch { server, .. } => server.id(),
        _ => panic!("expected a dispatch plan"),
    };

    let mut builder = ServerBuilder::new("test_server".to_string());
    builder
        .add_handler("junk.handler4".to_string(), Junk::Handler4)
        .unwrap();
    net.add_server(builder.build());

    let second = match net.process_rpc(&rpc) {
        ProcessState::Dispatch { server, .. } => server.id(),
        _ => panic!("expected a dispatch plan"),
    };
    assert!(second > first);
}

#[test]
fn stale_capture_is_answered_with_timeout() {
    let (mut net, _log) = junk_suit();
    let _client = net.create_end("c".to_string());
    net.connect("c".to_string(), "test_server".to_string());
    net.enable("c".to_string(), true);

    let rpc = rpc_for("c");
    let mut server = match net.process_rpc(&rpc) {
        ProcessState::Dispatch { server, .. } => server,
        _ => panic!("expected a dispatch plan"),
    };

    let mut builder = ServerBuilder::new("test_server".to_string());
    builder
        .add_handler("junk.handler4".to_string(), Junk::Handler4)
        .unwrap();
    net.add_server(builder.build());

    let mut rsp = Vec::new();
    let res = server.dispatch(&rpc.fq_name, &rpc.req, &mut rsp);
    assert!(res.is_ok());

    let server_name = "test_server".to_string();
    let act = net.finish_dispatch(
        &rpc.end_name,
        &server_name,
        server.id(),
        res,
        rsp,
        false,
        None,
    );
    match act {
        ReplyAction::Send { reply } => assert_eq!(reply, Err(Error::Timeout)),
        _ => panic!("a stale capture is answered now, not reordered"),
    }
    assert_eq!(net.count(&server_name), 0, "the rebound server saw nothing");
}

#[test]
fn reordered_reply_carries_the_bytes() {
    let (mut net, _log) = junk_suit();
    let _client = net.create_end("c".to_string());
    net.connect("c".to_string(), "test_server".to_string());
    net.enable("c".to_string(), true);

    let rpc = rpc_for("c");
    let mut server = match net.process_rpc(&rpc) {
        ProcessState::Dispatch { server, .. } => server,
        _ => panic!("expected a dispatch plan"),
    };
    let mut rsp = Vec::new();
    let res = server.dispatch(&rpc.fq_name, &rpc.req, &mut rsp);
    assert!(res.is_ok());

    let server_name = "test_server".to_string();
    let act = net.finish_dispatch(
        &rpc.end_name,
        &server_name,
        server.id(),
        res,
        rsp,
        false,
        Some(321),
    );
    match act {
        ReplyAction::SendAfter { delay, reply } => {
            assert_eq!(delay, 321);
            assert_eq!(String::from_utf8(reply).unwrap(), "pointer");
        }
        _ => panic!("a reordered reply waits before delivery"),
    }
}
