//! The decisions of the primary node: whom it admits, what it answers, and
//! whom it tells about recorded results.
use vstd::prelude::*;

use crate::cli::HostAddr;
use crate::msg::types::{LogValue, Node};
use crate::msg::{
    ClusterPingMsg, ConnectRespMsg, Msg, MsgKind, MsgView, SyncMsg,
};
use crate::replication_log::{log_get, log_set, ReplicationLog};

verus! {

/// What the primary node sends one member.
#[derive(Debug)]
pub enum ServerAction {
    Ping(Vec<Node>),
    SyncResp { index: u64 },
}

/// A message the primary node cannot handle where it came.
#[derive(Debug, PartialEq, Eq, Clone, Copy, Structural)]
pub enum ServerError {
    /// A connection did not start with a connect request.
    ExpectedConnect(MsgKind),
    /// A member sent a message that members do not send.
    UnexpectedMsg(MsgKind),
    /// A connecting node's rebuilding address does not resolve.
    InvalidAddress,
}

impl ServerAction {
    /// The message that carries the action.
    pub fn into_msg(self) -> (m: Msg)
        ensures
            m.deep_view() == match self {
                ServerAction::Ping(nodes) => MsgView::ClusterPing { nodes: nodes.deep_view() },
                ServerAction::SyncResp { index } => MsgView::Sync { index },
            },
    {
        match self {
            ServerAction::Ping(nodes) => Msg::ClusterPing(ClusterPingMsg { nodes }),
            ServerAction::SyncResp { index } => Msg::Sync(SyncMsg { index }),
        }
    }
}

/// A connected member and the way to reach its connection.
pub struct ActiveClientNode<S> {
    pub node: Node,
    pub sender: S,
}

/// The members connected to the primary node, in the order they connected.
pub struct ActiveNodes<S> {
    entries: Vec<ActiveClientNode<S>>,
}

/// The nodes of the entries, in order.
pub open spec fn nodes_of<S>(entries: Seq<ActiveClientNode<S>>) -> Seq<Node> {
    entries.map_values(|e: ActiveClientNode<S>| e.node)
}

/// The entries that do not belong to the node named `name`.
pub open spec fn not_named<S>(name: Seq<char>) -> spec_fn(ActiveClientNode<S>) -> bool {
    |e: ActiveClientNode<S>| e.node.name@ != name
}

impl<S> View for ActiveNodes<S> {
    type V = Seq<ActiveClientNode<S>>;

    closed spec fn view(&self) -> Seq<ActiveClientNode<S>> {
        self.entries@
    }
}

impl<S> ActiveNodes<S> {
    pub fn new() -> (r: Self)
        ensures
            r@ == Seq::<ActiveClientNode<S>>::empty(),
    {
        ActiveNodes { entries: Vec::new() }
    }

    /// Adds a member; returns the nodes of all members, the new one last.
    pub fn register(&mut self, node: Node, sender: S) -> (nodes: Vec<Node>)
        ensures
            final(self)@ == old(self)@.push(ActiveClientNode { node, sender }),
            nodes@ == nodes_of(final(self)@),
    {
        self.entries.push(ActiveClientNode { node, sender });
        self.current_nodes()
    }

    /// The nodes of all members, in the order they connected.
    pub fn current_nodes(&self) -> (nodes: Vec<Node>)
        ensures
            nodes@ == nodes_of(self@),
    {
        let mut nodes: Vec<Node> = Vec::new();
        let mut i: usize = 0;
        while i < self.entries.len()
            invariant
                i <= self.entries@.len(),
                nodes@ == nodes_of(self.entries@.take(i as int)),
            decreases self.entries@.len() - i,
        {
            nodes.push(self.entries[i].node.clone());
            i = i + 1;
            assert(nodes@ =~= nodes_of(self.entries@.take(i as int)));
        }
        assert(self.entries@.take(i as int) =~= self.entries@);
        nodes
    }

    /// The members, in the order they connected.
    pub fn entries(&self) -> (r: &Vec<ActiveClientNode<S>>)
        ensures
            r@ == self@,
    {
        &self.entries
    }

    /// Forgets every member named `name`; the others keep their order.
    pub fn remove(&mut self, name: &String)
        ensures
            final(self)@ == old(self)@.filter(not_named::<S>(name@)),
    {
        let ghost original = self.entries@;
        let mut rest: Vec<ActiveClientNode<S>> = Vec::new();
        std::mem::swap(&mut rest, &mut self.entries);
        let mut k: usize = 0;
        let total = rest.len();
        let ghost n = total as nat;
        reveal(Seq::filter);
        assert(original.take(0).filter(not_named::<S>(name@)) =~= Seq::<ActiveClientNode<S>>::empty());
        assert(rest@ =~= original.skip(0));
        while rest.len() > 0
            invariant
                k <= n,
                n == original.len(),
                n <= usize::MAX,
                rest@ == original.skip(k as int),
                self.entries@ == original.take(k as int).filter(not_named::<S>(name@)),
            decreases rest@.len(),
        {
            reveal(Seq::filter);
            let e = rest.remove(0);
            assert(e == original[k as int]);
            assert(original.take(k + 1).drop_last() =~= original.take(k as int));
            if e.node.name != *name {
                self.entries.push(e);
            }
            k = k + 1;
            assert(rest@ =~= original.skip(k as int));
        }
        assert(original.take(k as int) =~= original);
    }
}

/// The node that a connection's first message asks to admit.
pub open spec fn connect_node(msg: MsgView) -> Option<(Seq<char>, Seq<char>)> {
    match msg {
        MsgView::ConnectReq { node_name, rebuilding_addr } => Some((node_name, rebuilding_addr)),
        _ => None,
    }
}

/// The node a connection asks to admit, given whether the rebuilding
/// address it asks with resolves; a connection must start with a connect
/// request.
pub fn node_from_connect(first_msg: Msg, addr_resolves: bool) -> (r: Result<Node, ServerError>)
    ensures
        match connect_node(first_msg.deep_view()) {
            Some((name, addr)) => if addr_resolves {
                r matches Ok(node) && node.name@ == name && node.rebuilding_addr.deep_view() == addr
            } else {
                r == Err::<Node, ServerError>(ServerError::InvalidAddress)
            },
            None => r == Err::<Node, ServerError>(
                ServerError::ExpectedConnect(crate::msg::kind_of(first_msg.deep_view())),
            ),
        },
{
    let kind = first_msg.kind();
    match first_msg {
        Msg::ConnectReq(req) => if addr_resolves {
            Ok(Node { name: req.node_name, rebuilding_addr: HostAddr::new(req.rebuilding_addr) })
        } else {
            Err(ServerError::InvalidAddress)
        },
        _ => Err(ServerError::ExpectedConnect(kind)),
    }
}

/// The answer to an admitted node: all members and the length of the log.
pub fn connect_response(nodes: Vec<Node>, log_len: usize) -> (m: Msg)
    ensures
        m.deep_view() == (MsgView::ConnectResp {
            nodes: nodes.deep_view(),
            current_log: log_len as u64,
        }),
{
    Msg::ConnectResp(ConnectRespMsg { nodes, current_log: log_len as u64 })
}

/// What the primary node does with a message from a member: a keep-alive
/// needs nothing, a request for a known log entry is answered, a request for
/// an unknown one is not.
pub fn respond_to_member(log: &ReplicationLog, msg: &Msg) -> (r: Result<Option<ServerAction>, ServerError>)
    ensures
        match msg.deep_view() {
            MsgView::KeepAlive => r matches Ok(None),
            MsgView::SyncReq(index) => if log_get(log@, index as usize as int) is Some {
                r matches Ok(Some(ServerAction::SyncResp { index: i })) && i == index
            } else {
                r matches Ok(None)
            },
            other => r == Err::<Option<ServerAction>, ServerError>(
                ServerError::UnexpectedMsg(crate::msg::kind_of(other)),
            ),
        },
{
    match msg {
        Msg::KeepAlive(_) => Ok(None),
        Msg::SyncReq(req) => {
            if log.get(req.0 as usize).is_some() {
                Ok(Some(ServerAction::SyncResp { index: req.0 }))
            } else {
                Ok(None)
            }
        },
        _ => Err(ServerError::UnexpectedMsg(msg.kind())),
    }
}

/// Records the result of the external call at `log_index`; returns what
/// every member is then told.
pub fn report_result(log: &mut ReplicationLog, log_index: u64) -> (action: ServerAction)
    requires
        (log_index as usize) < usize::MAX,
    ensures
        exists|v: LogValue| v.spec_is_empty() && final(log)@ == log_set(old(log)@, log_index as usize as nat, v),
        action matches ServerAction::SyncResp { index } && index == log_index,
{
    let v = LogValue::empty();
    let ghost gv = v;
    log.set(log_index as usize, v);
    assert(gv.spec_is_empty() && log@ == log_set(old(log)@, log_index as usize as nat, gv));
    ServerAction::SyncResp { index: log_index }
}

} // verus!
