use dces::activity::{next_step, CallCursor, Observation, Step};
use dces::cli::HostAddr;
use dces::client::{connect_request, initial_state, ClientAction, ClientError, ClientRebuild, ClientState};
use dces::msg::types::{LogValue, Node};
use dces::proto::ProtoError;
use dces::msg::accept_resolved;
use dces::msg::{
    ClusterPingMsg, ConnectReqMsg, ConnectRespMsg, KeepAliveMsg, Msg, MsgKind, SyncMsg, SyncReqMsg,
};
use dces::replication_log::ReplicationLog;
use dces::server::{
    connect_response, node_from_connect, report_result, respond_to_member, ActiveNodes, ServerAction,
    ServerError,
};

fn node(name: &str, addr: &str) -> Node {
    Node { name: name.to_string(), rebuilding_addr: HostAddr::new(addr.to_string()) }
}

#[test]
fn log_get_after_set() {
    let mut log = ReplicationLog::new();
    assert_eq!(log.len(), 0);
    assert!(log.get(0).is_none());
    log.set(3, LogValue::empty());
    assert_eq!(log.len(), 4);
    assert!(log.get(3).is_some());
    assert!(log.get(0).is_none());
    assert!(log.get(2).is_none());
    assert!(log.get(4).is_none());
    log.set(1, LogValue::empty());
    assert_eq!(log.len(), 4);
    assert!(log.get(1).is_some());
    assert!(log.get(3).is_some());
    log.set(3, LogValue::empty());
    assert_eq!(log.len(), 4);
}

#[test]
fn populated_log_is_all_known() {
    let log = ReplicationLog::populated_with_empty(3);
    assert_eq!(log.len(), 3);
    for i in 0..3 {
        assert!(log.get(i).is_some());
    }
    assert!(log.get(3).is_none());
    assert_eq!(ReplicationLog::populated_with_empty(0).len(), 0);
}

#[test]
fn client_actions_become_messages() {
    assert!(matches!(ClientAction::KeepAlive.into_msg(), Msg::KeepAlive(_)));
    assert!(matches!(ClientAction::SyncRequest(7).into_msg(), Msg::SyncReq(SyncReqMsg(7))));
}

#[test]
fn connect_request_carries_name_and_address() {
    match connect_request("n".to_string(), &HostAddr::new("h:1".to_string())) {
        Msg::ConnectReq(r) => {
            assert_eq!(r.node_name, "n");
            assert_eq!(r.rebuilding_addr, "h:1");
        }
        _ => panic!("expected a connect request"),
    }
}

#[test]
fn initial_state_from_connect_response() {
    let resp = Msg::ConnectResp(ConnectRespMsg { nodes: vec![node("p", "h:1")], current_log: 2 });
    let (nodes, log) = initial_state(resp, None).unwrap();
    assert_eq!(nodes.len(), 1);
    assert_eq!(log.len(), 2);
    assert!(log.get(1).is_some());

    let mut kept = ReplicationLog::new();
    kept.set(5, LogValue::empty());
    let resp = Msg::ConnectResp(ConnectRespMsg { nodes: vec![], current_log: 2 });
    let (_, log) = initial_state(resp, Some(kept)).unwrap();
    assert_eq!(log.len(), 6);

    let err = initial_state(Msg::KeepAlive(KeepAliveMsg), None).err();
    assert_eq!(err, Some(ClientError::ExpectedConnectResp(MsgKind::KeepAlive)));
}

#[test]
fn client_takes_pings_and_syncs() {
    let mut st = ClientState::new(node("me", "h:1"), vec![], ReplicationLog::new());
    assert!(st.get_log_value(0).is_none());
    assert_eq!(
        st.on_server_msg(Msg::ClusterPing(ClusterPingMsg { nodes: vec![node("p", "h:0"), node("me", "h:1")] })),
        Ok(())
    );
    assert_eq!(st.on_server_msg(Msg::Sync(SyncMsg { index: 1 })), Ok(()));
    assert!(st.get_log_value(1).is_some());
    assert!(st.get_log_value(0).is_none());
    assert_eq!(
        st.on_server_msg(Msg::KeepAlive(KeepAliveMsg)),
        Err(ClientError::UnexpectedMsg(MsgKind::KeepAlive))
    );
    assert_eq!(st.this_node().name, "me");
    assert_eq!(st.into_log().len(), 2);
}

#[test]
fn rebuild_choice() {
    let mut st = ClientState::new(node("me", "h:1"), vec![node("p", "h:0")], ReplicationLog::new());
    assert!(matches!(st.should_rebuild(), ClientRebuild::NotNeeded));
    st.mark_server_unavailable();
    match st.should_rebuild() {
        ClientRebuild::Client(addr) => assert_eq!(addr.as_str(), "h:0"),
        _ => panic!("expected to reconnect"),
    }
    st.on_server_msg(Msg::ClusterPing(ClusterPingMsg { nodes: vec![node("me", "h:1"), node("o", "h:2")] }))
        .unwrap();
    assert!(matches!(st.should_rebuild(), ClientRebuild::Server));
    st.on_server_msg(Msg::ClusterPing(ClusterPingMsg { nodes: vec![] })).unwrap();
    assert!(matches!(st.should_rebuild(), ClientRebuild::Server));
}

#[test]
fn server_admits_connect_requests_only() {
    let req = Msg::ConnectReq(ConnectReqMsg { node_name: "n".to_string(), rebuilding_addr: "h:3".to_string() });
    let n = node_from_connect(req, true).unwrap();
    assert_eq!(n.name, "n");
    assert_eq!(n.rebuilding_addr.as_str(), "h:3");
    assert_eq!(
        node_from_connect(Msg::SyncReq(SyncReqMsg(0)), true).err(),
        Some(ServerError::ExpectedConnect(MsgKind::SyncReq))
    );
    let req = Msg::ConnectReq(ConnectReqMsg { node_name: "n".to_string(), rebuilding_addr: "x".to_string() });
    assert_eq!(node_from_connect(req, false).err(), Some(ServerError::InvalidAddress));
}

#[test]
fn active_nodes_register_and_remove() {
    let mut active: ActiveNodes<u32> = ActiveNodes::new();
    let ns = active.register(node("a", "h:1"), 1);
    assert_eq!(ns.len(), 1);
    active.register(node("b", "h:2"), 2);
    let ns = active.register(node("a", "h:3"), 3);
    assert_eq!(ns.len(), 3);
    assert_eq!(ns[2].rebuilding_addr.as_str(), "h:3");
    active.remove(&"a".to_string());
    let left = active.current_nodes();
    assert_eq!(left.len(), 1);
    assert_eq!(left[0].name, "b");
    assert_eq!(active.entries()[0].sender, 2);
    active.remove(&"zzz".to_string());
    assert_eq!(active.current_nodes().len(), 1);
}

#[test]
fn connect_response_lists_nodes_and_log_length() {
    match connect_response(vec![node("a", "h:1")], 9) {
        Msg::ConnectResp(r) => {
            assert_eq!(r.current_log, 9);
            assert_eq!(r.nodes[0].name, "a");
        }
        _ => panic!("expected a connect response"),
    }
}

#[test]
fn server_answers_members() {
    let mut log = ReplicationLog::new();
    assert!(matches!(respond_to_member(&log, &Msg::KeepAlive(KeepAliveMsg)), Ok(None)));
    assert!(matches!(respond_to_member(&log, &Msg::SyncReq(SyncReqMsg(0))), Ok(None)));
    match report_result(&mut log, 0) {
        ServerAction::SyncResp { index } => assert_eq!(index, 0),
        _ => panic!("expected a sync response"),
    }
    assert!(log.get(0).is_some());
    match respond_to_member(&log, &Msg::SyncReq(SyncReqMsg(0))) {
        Ok(Some(ServerAction::SyncResp { index })) => assert_eq!(index, 0),
        _ => panic!("expected a sync response"),
    }
    assert_eq!(
        respond_to_member(&log, &Msg::Sync(SyncMsg { index: 0 })).err(),
        Some(ServerError::UnexpectedMsg(MsgKind::Sync))
    );
}

#[test]
fn server_actions_become_messages() {
    assert!(matches!(ServerAction::SyncResp { index: 4 }.into_msg(), Msg::Sync(SyncMsg { index: 4 })));
    match ServerAction::Ping(vec![node("a", "h")]).into_msg() {
        Msg::ClusterPing(p) => assert_eq!(p.nodes.len(), 1),
        _ => panic!("expected a ping"),
    }
}

#[test]
fn activity_steps() {
    assert!(matches!(next_step(Observation::Server { has_value: false }), Step::ExecuteAndReport));
    assert!(matches!(next_step(Observation::Server { has_value: true }), Step::Proceed));
    assert!(matches!(
        next_step(Observation::Client { rebuild: ClientRebuild::NotNeeded, has_value: true }),
        Step::Proceed
    ));
    assert!(matches!(
        next_step(Observation::Client { rebuild: ClientRebuild::NotNeeded, has_value: false }),
        Step::RequestAndWait
    ));
    assert!(matches!(
        next_step(Observation::Client { rebuild: ClientRebuild::Server, has_value: true }),
        Step::BecomeServer
    ));
    match next_step(Observation::Client {
        rebuild: ClientRebuild::Client(HostAddr::new("h:5".to_string())),
        has_value: false,
    }) {
        Step::ReconnectTo(a) => assert_eq!(a.as_str(), "h:5"),
        _ => panic!("expected to reconnect"),
    }
}

#[test]
fn call_cursor_advances_by_one_per_finished_call() {
    let mut c = CallCursor::new();
    assert_eq!(c.log_index(), 0);
    c.finish_call(&Step::Proceed);
    assert_eq!(c.log_index(), 1);
    c.finish_call(&Step::ExecuteAndReport);
    assert_eq!(c.log_index(), 2);
}

#[test]
fn promoted_node_serves_at_its_rebuilding_address() {
    assert_eq!(node("n", "h:7").server_addr().as_str(), "h:7");
}

#[test]
fn carried_addresses_must_resolve() {
    let ping = Msg::ClusterPing(ClusterPingMsg { nodes: vec![node("a", "h:1"), node("b", "x")] });
    let addrs = ping.node_addresses();
    assert_eq!(addrs, vec!["h:1".to_string(), "x".to_string()]);
    assert!(matches!(accept_resolved(ping, &vec![true, false]), Err(ProtoError::InvalidAddress)));
    let ping = Msg::ClusterPing(ClusterPingMsg { nodes: vec![node("a", "h:1")] });
    match accept_resolved(ping, &vec![true]) {
        Ok(Msg::ClusterPing(p)) => assert_eq!(p.nodes[0].name, "a"),
        _ => panic!("expected the ping"),
    }
    let keep = Msg::KeepAlive(KeepAliveMsg);
    assert!(keep.node_addresses().is_empty());
    assert!(matches!(accept_resolved(keep, &vec![]), Ok(Msg::KeepAlive(_))));
}
