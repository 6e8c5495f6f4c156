//! The decisions of a member node: what it asks the primary node, what it
//! does with the answers, and whom it turns to when the primary is gone.
use vstd::prelude::*;

use crate::cli::HostAddr;
use crate::msg::types::{LogValue, Node};
use crate::msg::{ConnectReqMsg, KeepAliveMsg, Msg, MsgKind, MsgView, SyncReqMsg};
use crate::replication_log::{log_get, log_set, ReplicationLog};

verus! {

/// What a member's connection writer is asked to send.
#[derive(Debug)]
pub enum ClientAction {
    KeepAlive,
    SyncRequest(u64),
}

impl ClientAction {
    /// The message that carries the action.
    pub fn into_msg(self) -> (m: Msg)
        ensures
            m.deep_view() == match self {
                ClientAction::KeepAlive => MsgView::KeepAlive,
                ClientAction::SyncRequest(index) => MsgView::SyncReq(index),
            },
    {
        match self {
            ClientAction::KeepAlive => Msg::KeepAlive(KeepAliveMsg),
            ClientAction::SyncRequest(index) => Msg::SyncReq(SyncReqMsg(index)),
        }
    }
}

/// How a member goes on once the primary node is gone.
#[derive(Debug)]
pub enum ClientRebuild {
    /// The primary node is still there.
    NotNeeded,
    /// This node becomes the primary node.
    Server,
    /// This node connects to the new primary node at the address.
    Client(HostAddr),
}

/// A message a member cannot handle where it came.
#[derive(Debug, PartialEq, Eq, Clone, Copy, Structural)]
pub enum ClientError {
    /// The primary node did not answer a connect request with a connect response.
    ExpectedConnectResp(MsgKind),
    /// The primary node sent a message that it does not send to members.
    UnexpectedMsg(MsgKind),
}

/// The request a node joins the cluster with.
pub fn connect_request(node_name: String, rebuilding_addr: &HostAddr) -> (m: Msg)
    ensures
        m.deep_view() == (MsgView::ConnectReq {
            node_name: node_name@,
            rebuilding_addr: rebuilding_addr.deep_view(),
        }),
{
    Msg::ConnectReq(ConnectReqMsg { node_name, rebuilding_addr: rebuilding_addr.to_string() })
}

/// The members and the log a node starts with, from the primary node's
/// answer to its connect request: the log it already has, or else a log of
/// as many known empty entries as the primary node has.
pub fn initial_state(resp: Msg, log: Option<ReplicationLog>) -> (r: Result<(Vec<Node>, ReplicationLog), ClientError>)
    ensures
        match resp.deep_view() {
            MsgView::ConnectResp { nodes, current_log } => r matches Ok((ns, l)) && ns.deep_view()
                == nodes && match log {
                Some(given) => l@ == given@,
                None => l@.len() == current_log as usize && forall|i: int|
                    0 <= i < l@.len() ==> (#[trigger] l@[i] matches Some(v) && v.spec_is_empty()),
            },
            other => r == Err::<(Vec<Node>, ReplicationLog), ClientError>(
                ClientError::ExpectedConnectResp(crate::msg::kind_of(other)),
            ),
        },
{
    let kind = resp.kind();
    match resp {
        Msg::ConnectResp(resp) => {
            let log = match log {
                Some(l) => l,
                None => ReplicationLog::populated_with_empty(resp.current_log as usize),
            };
            Ok((resp.nodes, log))
        },
        _ => Err(ClientError::ExpectedConnectResp(kind)),
    }
}

/// What a member knows, shared between its connection threads: itself, the
/// members, whether the primary node is unreachable, and the log.
pub struct ClientState {
    this_node: Node,
    nodes: Vec<Node>,
    server_unavailable: bool,
    log: ReplicationLog,
}

/// How a member goes on, given whether the primary node is unreachable, the
/// members it last heard of, and itself: the first member listed becomes the
/// primary node.
pub open spec fn rebuild_choice(server_unavailable: bool, nodes: Seq<Node>, this_node: Node) -> ClientRebuild {
    if !server_unavailable {
        ClientRebuild::NotNeeded
    } else if nodes.len() == 0 || nodes[0].name@ == this_node.name@ {
        ClientRebuild::Server
    } else {
        ClientRebuild::Client(nodes[0].rebuilding_addr)
    }
}

/// Once the primary node is unreachable, a member never decides that no
/// rebuild is needed, whatever members it last heard of.
pub proof fn lemma_unreachable_means_rebuild(nodes: Seq<Node>, this_node: Node)
    ensures
        !(rebuild_choice(true, nodes, this_node) is NotNeeded),
{
}

/// With the primary node unreachable, a member becomes the primary node
/// exactly when it is the first member listed; otherwise it reconnects to
/// the first member listed, at that member's rebuilding address.
pub proof fn lemma_first_member_takes_over(nodes: Seq<Node>, this_node: Node)
    requires
        nodes.len() > 0,
    ensures
        (rebuild_choice(true, nodes, this_node) is Server) <==> nodes[0].name@ == this_node.name@,
        nodes[0].name@ != this_node.name@ ==> rebuild_choice(true, nodes, this_node)
            == ClientRebuild::Client(nodes[0].rebuilding_addr),
{
}

/// A member that can reach the primary node needs no rebuild, and one that
/// knows of no member becomes the primary node itself.
pub proof fn lemma_rebuild_when_needed(nodes: Seq<Node>, this_node: Node)
    ensures
        rebuild_choice(false, nodes, this_node) is NotNeeded,
        nodes.len() == 0 ==> rebuild_choice(true, nodes, this_node) is Server,
{
}

/// With the primary node unreachable, only the first member listed matters:
/// two member lists with the same first member lead to the same choice.
pub proof fn lemma_only_first_member_matters(ns1: Seq<Node>, ns2: Seq<Node>, this_node: Node)
    requires
        ns1.len() > 0,
        ns2.len() > 0,
        ns1[0] == ns2[0],
    ensures
        rebuild_choice(true, ns1, this_node) == rebuild_choice(true, ns2, this_node),
{
}

impl ClientState {
    pub closed spec fn spec_this_node(&self) -> Node {
        self.this_node
    }

    pub closed spec fn spec_nodes(&self) -> Seq<Node> {
        self.nodes@
    }

    pub closed spec fn spec_server_unavailable(&self) -> bool {
        self.server_unavailable
    }

    pub closed spec fn spec_log(&self) -> Seq<Option<LogValue>> {
        self.log@
    }

    /// A member that can reach the primary node.
    pub fn new(this_node: Node, nodes: Vec<Node>, log: ReplicationLog) -> (r: Self)
        ensures
            r.spec_this_node() == this_node,
            r.spec_nodes() == nodes@,
            !r.spec_server_unavailable(),
            r.spec_log() == log@,
    {
        ClientState { this_node, nodes, server_unavailable: false, log }
    }

    pub fn this_node(&self) -> (r: Node)
        ensures
            r == self.spec_this_node(),
    {
        self.this_node.clone()
    }

    /// Takes in a message from the primary node: a ping replaces the
    /// members, a sync records an empty known entry at its index; members
    /// receive no other message.
    pub fn on_server_msg(&mut self, msg: Msg) -> (r: Result<(), ClientError>)
        requires
            msg.deep_view() matches MsgView::Sync { index } ==> (index as usize) < usize::MAX,
        ensures
            final(self).spec_this_node() == old(self).spec_this_node(),
            final(self).spec_server_unavailable() == old(self).spec_server_unavailable(),
            match msg.deep_view() {
                MsgView::ClusterPing { nodes } => {
                    &&& r is Ok
                    &&& final(self).spec_nodes().map_values(|n: Node| n.deep_view()) == nodes
                    &&& final(self).spec_log() == old(self).spec_log()
                },
                MsgView::Sync { index } => {
                    &&& r is Ok
                    &&& final(self).spec_nodes() == old(self).spec_nodes()
                    &&& exists|v: LogValue|
                        v.spec_is_empty() && final(self).spec_log() == log_set(
                            old(self).spec_log(),
                            index as usize as nat,
                            v,
                        )
                },
                other => {
                    &&& r == Err::<(), ClientError>(
                        ClientError::UnexpectedMsg(crate::msg::kind_of(other)),
                    )
                    &&& final(self).spec_nodes() == old(self).spec_nodes()
                    &&& final(self).spec_log() == old(self).spec_log()
                },
            },
    {
        let kind = msg.kind();
        match msg {
            Msg::ClusterPing(ping) => {
                self.nodes = ping.nodes;
                assert(self.nodes@.map_values(|n: Node| n.deep_view()) =~= self.nodes.deep_view());
                Ok(())
            },
            Msg::Sync(sync) => {
                let v = LogValue::empty();
                let ghost gv = v;
                self.log.set(sync.index as usize, v);
                assert(gv.spec_is_empty() && self.log@ == log_set(
                    old(self).spec_log(),
                    sync.index as usize as nat,
                    gv,
                ));
                Ok(())
            },
            _ => Err(ClientError::UnexpectedMsg(kind)),
        }
    }

    /// The primary node could not be reached.
    pub fn mark_server_unavailable(&mut self)
        ensures
            final(self).spec_server_unavailable(),
            final(self).spec_this_node() == old(self).spec_this_node(),
            final(self).spec_nodes() == old(self).spec_nodes(),
            final(self).spec_log() == old(self).spec_log(),
    {
        self.server_unavailable = true;
    }

    pub fn should_rebuild(&self) -> (r: ClientRebuild)
        ensures
            r == rebuild_choice(self.spec_server_unavailable(), self.spec_nodes(), self.spec_this_node()),
    {
        if !self.server_unavailable {
            ClientRebuild::NotNeeded
        } else if self.nodes.len() == 0 {
            ClientRebuild::Server
        } else {
            let first = &self.nodes[0];
            if first.name == self.this_node.name {
                ClientRebuild::Server
            } else {
                ClientRebuild::Client(first.rebuilding_addr.clone())
            }
        }
    }

    /// The known entry at `index`, if any.
    pub fn get_log_value(&self, index: u64) -> (r: Option<&LogValue>)
        ensures
            match log_get(self.spec_log(), index as usize as int) {
                Some(v) => r == Some(&v),
                None => r is None,
            },
    {
        self.log.get(index as usize)
    }

    /// The log, once the member stops.
    pub fn into_log(self) -> (r: ReplicationLog)
        ensures
            r@ == self.spec_log(),
    {
        self.log
    }
}

} // verus!
