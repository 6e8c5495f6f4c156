use dces::cli::HostAddr;
use dces::msg::types::{ExternSym, Node};
use dces::msg::{
    ClusterPingMsg, ConnectReqMsg, ConnectRespMsg, KeepAliveMsg, Msg, MsgKind, SyncMsg, SyncReqMsg,
};
use dces::proto::{ProtoError, ProtoReader, ProtoWriter};

fn node(name: &str, addr: &str) -> Node {
    Node { name: name.to_string(), rebuilding_addr: HostAddr::new(addr.to_string()) }
}

fn encode(msg: &Msg) -> Vec<u8> {
    let mut w = ProtoWriter::new(Vec::new());
    w.write(msg).unwrap();
    w.into_bytes()
}

fn decode(bytes: Vec<u8>) -> (Result<Msg, ProtoError>, usize) {
    let mut r = ProtoReader::new(bytes);
    let m = r.read::<Msg>();
    (m, r.position())
}

#[test]
fn kind_bytes() {
    for (b, k) in [
        (1u8, MsgKind::ConnectReq),
        (2, MsgKind::ConnectResp),
        (3, MsgKind::ClusterPing),
        (4, MsgKind::KeepAlive),
        (5, MsgKind::Sync),
        (6, MsgKind::SyncReq),
    ] {
        assert_eq!(MsgKind::from_u8(b), Some(k));
        assert_eq!(k.as_u8(), b);
    }
    assert_eq!(MsgKind::from_u8(0), None);
    assert_eq!(MsgKind::from_u8(7), None);
    assert_eq!(MsgKind::from_u8(0xff), None);
}

#[test]
fn keep_alive_is_one_byte() {
    let bytes = encode(&Msg::KeepAlive(KeepAliveMsg));
    assert_eq!(bytes, vec![4]);
    let (m, n) = decode(bytes);
    assert!(matches!(m, Ok(Msg::KeepAlive(_))));
    assert_eq!(n, 1);
}

#[test]
fn sync_and_sync_req_layout() {
    assert_eq!(encode(&Msg::Sync(SyncMsg { index: 258 })), vec![5, 0, 0, 0, 0, 0, 0, 1, 2]);
    assert_eq!(encode(&Msg::SyncReq(SyncReqMsg(3))), vec![6, 0, 0, 0, 0, 0, 0, 0, 3]);
    match decode(vec![6, 0, 0, 0, 0, 0, 0, 0, 3]).0 {
        Ok(Msg::SyncReq(SyncReqMsg(i))) => assert_eq!(i, 3),
        _ => panic!("expected a sync request"),
    }
    match decode(vec![5, 0, 0, 0, 0, 0, 0, 1, 2]).0 {
        Ok(Msg::Sync(s)) => assert_eq!(s.index, 258),
        _ => panic!("expected a sync"),
    }
}

#[test]
fn connect_req_roundtrip() {
    let msg = Msg::ConnectReq(ConnectReqMsg {
        node_name: "n1".to_string(),
        rebuilding_addr: "localhost:5002".to_string(),
    });
    let bytes = encode(&msg);
    assert_eq!(&bytes[0..7], &[1, 0, 0, 0, 2, b'n', b'1']);
    let len = bytes.len();
    let (m, n) = decode(bytes);
    assert_eq!(n, len);
    match m {
        Ok(Msg::ConnectReq(r)) => {
            assert_eq!(r.node_name, "n1");
            assert_eq!(r.rebuilding_addr, "localhost:5002");
        }
        _ => panic!("expected a connect request"),
    }
}

#[test]
fn connect_resp_roundtrip() {
    let msg = Msg::ConnectResp(ConnectRespMsg {
        nodes: vec![node("a", "x:1"), node("b", "y:2")],
        current_log: 42,
    });
    let bytes = encode(&msg);
    let len = bytes.len();
    let (m, n) = decode(bytes);
    assert_eq!(n, len);
    match m {
        Ok(Msg::ConnectResp(r)) => {
            assert_eq!(r.current_log, 42);
            assert_eq!(r.nodes.len(), 2);
            assert_eq!(r.nodes[0].name, "a");
            assert_eq!(r.nodes[1].rebuilding_addr.as_str(), "y:2");
        }
        _ => panic!("expected a connect response"),
    }
}

#[test]
fn cluster_ping_roundtrip_and_trailing_bytes_stay() {
    let msg = Msg::ClusterPing(ClusterPingMsg { nodes: vec![node("only", "z:9")] });
    let mut bytes = encode(&msg);
    let len = bytes.len();
    bytes.extend_from_slice(&[4, 4]);
    let mut r = ProtoReader::new(bytes);
    match r.read::<Msg>() {
        Ok(Msg::ClusterPing(p)) => assert_eq!(p.nodes[0].name, "only"),
        _ => panic!("expected a ping"),
    }
    assert_eq!(r.position(), len);
    assert!(matches!(r.read::<Msg>(), Ok(Msg::KeepAlive(_))));
    assert!(matches!(r.read::<Msg>(), Ok(Msg::KeepAlive(_))));
    assert!(matches!(r.read::<Msg>(), Err(ProtoError::UnexpectedEof)));
}

#[test]
fn unknown_kind_is_invalid_message() {
    let (m, n) = decode(vec![0x09, 1, 2, 3]);
    assert!(matches!(m, Err(ProtoError::InvalidMessage)));
    assert_eq!(n, 1);
}

#[test]
fn empty_input_is_unexpected_eof() {
    let (m, n) = decode(vec![]);
    assert!(matches!(m, Err(ProtoError::UnexpectedEof)));
    assert_eq!(n, 0);
}

#[test]
fn truncated_sync_is_unexpected_eof() {
    let (m, n) = decode(vec![5, 0, 0, 0]);
    assert!(matches!(m, Err(ProtoError::UnexpectedEof)));
    assert_eq!(n, 1);
}

#[test]
fn kind_of_each_message() {
    assert_eq!(Msg::KeepAlive(KeepAliveMsg).kind(), MsgKind::KeepAlive);
    assert_eq!(Msg::SyncReq(SyncReqMsg(1)).kind(), MsgKind::SyncReq);
    assert_eq!(Msg::Sync(SyncMsg { index: 1 }).kind(), MsgKind::Sync);
    assert_eq!(
        Msg::ClusterPing(ClusterPingMsg { nodes: vec![] }).kind(),
        MsgKind::ClusterPing
    );
}

#[test]
fn extern_sym_layout_and_any_nonzero_tag_is_linker() {
    let mut w = ProtoWriter::new(Vec::new());
    w.write(&ExternSym::Caller { name: "f".to_string() }).unwrap();
    w.write(&ExternSym::Linker { module_name: "rt".to_string(), name: "g".to_string() }).unwrap();
    let bytes = w.into_bytes();
    assert_eq!(
        bytes,
        vec![0, 0, 0, 0, 1, b'f', 1, 0, 0, 0, 2, b'r', b't', 0, 0, 0, 1, b'g']
    );
    let mut r = ProtoReader::new(bytes);
    match r.read::<ExternSym>() {
        Ok(ExternSym::Caller { name }) => assert_eq!(name, "f"),
        _ => panic!("expected a caller symbol"),
    }
    match r.read::<ExternSym>() {
        Ok(ExternSym::Linker { module_name, name }) => {
            assert_eq!(module_name, "rt");
            assert_eq!(name, "g");
        }
        _ => panic!("expected a linker symbol"),
    }
    let mut r = ProtoReader::new(vec![7, 0, 0, 0, 0, 0, 0, 0, 0]);
    assert!(matches!(r.read::<ExternSym>(), Ok(ExternSym::Linker { .. })));
}

#[test]
fn node_roundtrip() {
    let mut w = ProtoWriter::new(Vec::new());
    w.write(&node("me", "127.0.0.1:7000")).unwrap();
    let mut r = ProtoReader::new(w.into_bytes());
    let n = r.read::<Node>().unwrap();
    assert_eq!(n.name, "me");
    assert_eq!(n.rebuilding_addr.to_string(), "127.0.0.1:7000");
}
