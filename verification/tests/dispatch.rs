use std::sync::{Arc, Mutex};

use labrpc::{Error, ServerBuilder};

#[derive(Clone)]
enum Junk {
    Handler2(Arc<Mutex<Vec<i64>>>),
    Handler4,
}

impl labrpc::Handler for Junk {
    fn handle(&self, req: &Vec<u8>, rsp: &mut Vec<u8>) -> Result<(), Error> {
        match self {
            Junk::Handler2(log) => {
                let x = decode_args(req)?;
                log.lock().unwrap().push(x);
                rsp.extend_from_slice(format!("handler2-{}", x).as_bytes());
                Ok(())
            }
            Junk::Handler4 => {
                decode_args(req)?;
                rsp.extend_from_slice(b"pointer");
                Ok(())
            }
        }
    }
}

fn decode_args(req: &Vec<u8>) -> Result<i64, Error> {
    if req.is_empty() {
        return Ok(0);
    }
    if req.len() != 8 {
        return Err(Error::Decode("malformed arguments".to_string()));
    }
    let mut raw = [0u8; 8];
    raw.copy_from_slice(&req[..]);
    Ok(i64::from_le_bytes(raw))
}

fn junk_server(name: &str) -> (labrpc::Server<Junk>, Arc<Mutex<Vec<i64>>>) {
    let log = Arc::new(Mutex::new(Vec::new()));
    let mut builder = ServerBuilder::new(name.to_string());
    builder
        .add_handler("junk.handler2".to_string(), Junk::Handler2(log.clone()))
        .unwrap();
    builder
        .add_handler("junk.handler4".to_string(), Junk::Handler4)
        .unwrap();
    (builder.build(), log)
}

#[test]
fn test_service_dispatch() {
    let (mut server, _log) = junk_server("test");

    let mut buf = Vec::new();
    server
        .dispatch(&"junk.handler4".to_string(), &Vec::new(), &mut buf)
        .unwrap();
    assert_eq!(String::from_utf8(buf.clone()).unwrap(), "pointer");

    buf.clear();
    server
        .dispatch(&"junk.handler4".to_string(), &b"bad message".to_vec(), &mut buf)
        .unwrap_err();
    assert!(buf.is_empty());

    buf.clear();
    server
        .dispatch(&"badjunk.handler4".to_string(), &Vec::new(), &mut buf)
        .unwrap_err();
    assert!(buf.is_empty());

    buf.clear();
    server
        .dispatch(&"junk.badhandler".to_string(), &Vec::new(), &mut buf)
        .unwrap_err();
    assert!(buf.is_empty());
}

#[test]
fn dispatch_counts_every_attempt() {
    let (mut server, _log) = junk_server("test");
    assert_eq!(server.count(), 0);

    let mut buf = Vec::new();
    server
        .dispatch(&"junk.handler4".to_string(), &Vec::new(), &mut buf)
        .unwrap();
    assert_eq!(String::from_utf8(buf.clone()).unwrap(), "pointer");

    buf.clear();
    let decode_err = server
        .dispatch(&"junk.handler4".to_string(), &b"bad message".to_vec(), &mut buf)
        .unwrap_err();
    assert!(matches!(decode_err, Error::Decode(_)));
    assert!(buf.is_empty());

    buf.clear();
    let unknown_err = server
        .dispatch(&"unknown.x".to_string(), &Vec::new(), &mut buf)
        .unwrap_err();
    assert!(matches!(unknown_err, Error::Unimplemented(_)));

    assert_eq!(server.count(), 3);
}

#[test]
fn unknown_key_reports_its_name() {
    let (mut server, _log) = junk_server("test");
    let mut buf = Vec::new();
    let err = server
        .dispatch(&"nosuch.method".to_string(), &Vec::new(), &mut buf)
        .unwrap_err();
    match err {
        Error::Unimplemented(name) => assert_eq!(name, "nosuch.method"),
        other => panic!("expected Unimplemented, got {:?}", other),
    }
}

#[test]
fn builder_seals_name_and_handlers() {
    let (server, _log) = junk_server("alpha");
    assert_eq!(server.name(), "alpha");
    assert_eq!(server.count(), 0);
    assert_eq!(server.id(), 0);
}

#[test]
fn handler_side_effects_survive_failures() {
    let (mut server, log) = junk_server("test");
    let mut buf = Vec::new();
    server
        .dispatch(&"junk.handler2".to_string(), &7i64.to_le_bytes().to_vec(), &mut buf)
        .unwrap();
    assert_eq!(String::from_utf8(buf.clone()).unwrap(), "handler2-7");
    buf.clear();
    server
        .dispatch(&"junk.handler2".to_string(), &b"bad".to_vec(), &mut buf)
        .unwrap_err();
    assert_eq!(log.lock().unwrap().clone(), vec![7i64]);
}
