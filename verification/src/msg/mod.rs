//! The messages exchanged between the nodes of a cluster, and their layout
//! on the wire: a kind byte, then the fields of that kind of message.
use vstd::prelude::*;

pub mod types;

use crate::proto::model::Size4Vec;
use crate::proto::{
    decode_byte, decode_size8, lemma_byte_roundtrip, lemma_size8_roundtrip, u64_to_be, Decoded,
    ProtoAsProxy, ProtoError, ProtoReader, ProtoType, ProtoWriter,
};
use self::types::{
    decode_two_strings, encode_two_strings, lemma_two_strings_roundtrip, read_two_strings,
    two_strings_error, write_two_strings, Node, NodeView,
};

verus! {

/// A node asks to join the cluster.
#[derive(Debug)]
pub struct ConnectReqMsg {
    pub node_name: String,
    pub rebuilding_addr: String,
}

/// The primary node accepts a node: the members of the cluster and the
/// length of the replication log.
#[derive(Debug)]
pub struct ConnectRespMsg {
    pub nodes: Vec<Node>,
    pub current_log: u64,
}

/// The primary node tells a member who the members are.
#[derive(Debug)]
pub struct ClusterPingMsg {
    pub nodes: Vec<Node>,
}

/// A member tells the primary node it is alive.
#[derive(Debug)]
pub struct KeepAliveMsg;

/// The primary node tells a member that a log entry has been recorded.
#[derive(Debug)]
pub struct SyncMsg {
    pub index: u64,
}

/// A member asks the primary node for a log entry.
#[derive(Debug, Clone, Copy)]
pub struct SyncReqMsg(pub u64);

#[non_exhaustive]
#[derive(Debug)]
pub enum Msg {
    ConnectReq(ConnectReqMsg),
    ConnectResp(ConnectRespMsg),
    ClusterPing(ClusterPingMsg),
    KeepAlive(KeepAliveMsg),
    Sync(SyncMsg),
    SyncReq(SyncReqMsg),
}

#[derive(Debug, PartialEq, Eq, Hash, Clone, Copy, Structural)]
pub enum MsgKind {
    ConnectReq,
    ConnectResp,
    ClusterPing,
    KeepAlive,
    Sync,
    SyncReq,
}

/// What a message says, its text and nodes by their views.
pub enum MsgView {
    ConnectReq { node_name: Seq<char>, rebuilding_addr: Seq<char> },
    ConnectResp { nodes: Seq<NodeView>, current_log: u64 },
    ClusterPing { nodes: Seq<NodeView> },
    KeepAlive,
    Sync { index: u64 },
    SyncReq(u64),
}

impl DeepView for Msg {
    type V = MsgView;

    open spec fn deep_view(&self) -> MsgView {
        match self {
            Msg::ConnectReq(m) => MsgView::ConnectReq {
                node_name: m.node_name@,
                rebuilding_addr: m.rebuilding_addr@,
            },
            Msg::ConnectResp(m) => MsgView::ConnectResp {
                nodes: m.nodes.deep_view(),
                current_log: m.current_log,
            },
            Msg::ClusterPing(m) => MsgView::ClusterPing { nodes: m.nodes.deep_view() },
            Msg::KeepAlive(_) => MsgView::KeepAlive,
            Msg::Sync(m) => MsgView::Sync { index: m.index },
            Msg::SyncReq(m) => MsgView::SyncReq(m.0),
        }
    }
}

/// The byte that starts a message of each kind.
pub open spec fn kind_byte(k: MsgKind) -> u8 {
    match k {
        MsgKind::ConnectReq => 0x01,
        MsgKind::ConnectResp => 0x02,
        MsgKind::ClusterPing => 0x03,
        MsgKind::KeepAlive => 0x04,
        MsgKind::Sync => 0x05,
        MsgKind::SyncReq => 0x06,
    }
}

/// The kind of message a byte starts, if any.
pub open spec fn kind_of_byte(b: u8) -> Option<MsgKind> {
    if 0x01 <= b <= 0x06 {
        Some(
            if b == 0x01 {
                MsgKind::ConnectReq
            } else if b == 0x02 {
                MsgKind::ConnectResp
            } else if b == 0x03 {
                MsgKind::ClusterPing
            } else if b == 0x04 {
                MsgKind::KeepAlive
            } else if b == 0x05 {
                MsgKind::Sync
            } else {
                MsgKind::SyncReq
            },
        )
    } else {
        None
    }
}

/// The kind of a message.
pub open spec fn kind_of(m: MsgView) -> MsgKind {
    match m {
        MsgView::ConnectReq { .. } => MsgKind::ConnectReq,
        MsgView::ConnectResp { .. } => MsgKind::ConnectResp,
        MsgView::ClusterPing { .. } => MsgKind::ClusterPing,
        MsgView::KeepAlive => MsgKind::KeepAlive,
        MsgView::Sync { .. } => MsgKind::Sync,
        MsgView::SyncReq(_) => MsgKind::SyncReq,
    }
}

/// Each kind has its own byte, and that byte gives the kind back.
pub proof fn lemma_kind_byte_roundtrip(k: MsgKind)
    ensures
        kind_of_byte(kind_byte(k)) == Some(k),
{
}

impl MsgKind {
    pub fn from_u8(data: u8) -> (r: Option<Self>)
        ensures
            r == kind_of_byte(data),
    {
        match data {
            0x01 => Some(MsgKind::ConnectReq),
            0x02 => Some(MsgKind::ConnectResp),
            0x03 => Some(MsgKind::ClusterPing),
            0x04 => Some(MsgKind::KeepAlive),
            0x05 => Some(MsgKind::Sync),
            0x06 => Some(MsgKind::SyncReq),
            _ => None,
        }
    }

    /// The byte that starts a message of this kind.
    pub fn as_u8(&self) -> (r: u8)
        ensures
            r == kind_byte(*self),
    {
        match self {
            MsgKind::ConnectReq => 0x01,
            MsgKind::ConnectResp => 0x02,
            MsgKind::ClusterPing => 0x03,
            MsgKind::KeepAlive => 0x04,
            MsgKind::Sync => 0x05,
            MsgKind::SyncReq => 0x06,
        }
    }
}

impl Msg {
    pub fn kind(&self) -> (r: MsgKind)
        ensures
            r == kind_of(self.deep_view()),
    {
        match self {
            Msg::ConnectReq(_) => MsgKind::ConnectReq,
            Msg::ConnectResp(_) => MsgKind::ConnectResp,
            Msg::ClusterPing(_) => MsgKind::ClusterPing,
            Msg::KeepAlive(_) => MsgKind::KeepAlive,
            Msg::Sync(_) => MsgKind::Sync,
            Msg::SyncReq(_) => MsgKind::SyncReq,
        }
    }
}

/// The rebuilding addresses of the nodes a message carries, in order.
pub open spec fn node_addresses(m: MsgView) -> Seq<Seq<char>> {
    match m {
        MsgView::ConnectResp { nodes, .. } => nodes.map_values(|n: NodeView| n.rebuilding_addr),
        MsgView::ClusterPing { nodes } => nodes.map_values(|n: NodeView| n.rebuilding_addr),
        _ => Seq::empty(),
    }
}

/// Every node a response or a ping carries has its address checked: the
/// list holds one address per node, the address of that node.
pub proof fn lemma_every_carried_address_listed(nodes: Seq<NodeView>, current_log: u64)
    ensures
        ({
            let a = node_addresses(MsgView::ConnectResp { nodes, current_log });
            &&& a.len() == nodes.len()
            &&& forall|i: int| 0 <= i < nodes.len() ==> #[trigger] a[i] == nodes[i].rebuilding_addr
        }),
        ({
            let a = node_addresses(MsgView::ClusterPing { nodes });
            &&& a.len() == nodes.len()
            &&& forall|i: int| 0 <= i < nodes.len() ==> #[trigger] a[i] == nodes[i].rebuilding_addr
        }),
{
}

/// The rebuilding addresses of `nodes`, in order.
fn addresses_of(nodes: &Vec<Node>) -> (r: Vec<String>)
    ensures
        r@.map_values(|s: String| s@) == nodes.deep_view().map_values(|n: NodeView| n.rebuilding_addr),
{
    let mut r: Vec<String> = Vec::new();
    let mut i: usize = 0;
    while i < nodes.len()
        invariant
            i <= nodes@.len(),
            r@.len() == i,
            forall|j: int| 0 <= j < i ==> (#[trigger] r@[j])@ == nodes@[j].rebuilding_addr.deep_view(),
        decreases nodes@.len() - i,
    {
        r.push(nodes[i].rebuilding_addr.to_string());
        i = i + 1;
    }
    assert(r@.map_values(|s: String| s@) =~= nodes.deep_view().map_values(
        |n: NodeView| n.rebuilding_addr,
    ));
    r
}

impl Msg {
    /// The rebuilding addresses of the nodes the message carries, in order.
    pub fn node_addresses(&self) -> (r: Vec<String>)
        ensures
            r@.map_values(|s: String| s@) == node_addresses(self.deep_view()),
    {
        match self {
            Msg::ConnectResp(resp) => addresses_of(&resp.nodes),
            Msg::ClusterPing(ping) => addresses_of(&ping.nodes),
            _ => {
                let r: Vec<String> = Vec::new();
                assert(r@.map_values(|s: String| s@) =~= node_addresses(self.deep_view()));
                r
            },
        }
    }
}

/// A message read from a peer, once it is known, for each address of
/// `node_addresses`, whether it resolves: the message when every one does,
/// an invalid-address error otherwise.
pub fn accept_resolved(msg: Msg, resolves: &Vec<bool>) -> (r: Result<Msg, ProtoError>)
    requires
        resolves@.len() == node_addresses(msg.deep_view()).len(),
    ensures
        (forall|i: int| 0 <= i < resolves@.len() ==> resolves@[i]) ==> (r matches Ok(m)
            && m.deep_view() == msg.deep_view()),
        !(forall|i: int| 0 <= i < resolves@.len() ==> resolves@[i]) ==> r == Err::<
            Msg,
            ProtoError,
        >(ProtoError::InvalidAddress),
{
    let mut i: usize = 0;
    while i < resolves.len()
        invariant
            i <= resolves@.len(),
            forall|j: int| 0 <= j < i ==> resolves@[j],
        decreases resolves@.len() - i,
    {
        if !resolves[i] {
            return Err(ProtoError::InvalidAddress);
        }
        i = i + 1;
    }
    Ok(msg)
}

/// Decoding of the fields of a message of kind `k` from the front of `b`.
pub open spec fn decode_fields(k: MsgKind, b: Seq<u8>) -> Decoded<MsgView> {
    match k {
        MsgKind::ConnectReq => match decode_two_strings(b) {
            Ok(((node_name, rebuilding_addr), n)) => Ok(
                (MsgView::ConnectReq { node_name, rebuilding_addr }, n),
            ),
            Err(e) => Err(e),
        },
        MsgKind::ConnectResp => match <Size4Vec<Node> as ProtoAsProxy>::spec_decode(b) {
            Err(e) => Err(e),
            Ok((nodes, n)) => match decode_size8(b.skip(n as int)) {
                Ok((current_log, m)) => Ok((MsgView::ConnectResp { nodes, current_log }, n + m)),
                Err((e, m)) => Err((e, n + m)),
            },
        },
        MsgKind::ClusterPing => match <Size4Vec<Node> as ProtoAsProxy>::spec_decode(b) {
            Ok((nodes, n)) => Ok((MsgView::ClusterPing { nodes }, n)),
            Err(e) => Err(e),
        },
        MsgKind::KeepAlive => Ok((MsgView::KeepAlive, 0)),
        MsgKind::Sync => match decode_size8(b) {
            Ok((index, n)) => Ok((MsgView::Sync { index }, n)),
            Err(e) => Err(e),
        },
        MsgKind::SyncReq => match decode_size8(b) {
            Ok((index, n)) => Ok((MsgView::SyncReq(index), n)),
            Err(e) => Err(e),
        },
    }
}

/// The bytes written for the fields of a message, up to the first failure.
pub open spec fn encode_fields(m: MsgView) -> Seq<u8> {
    match m {
        MsgView::ConnectReq { node_name, rebuilding_addr } => encode_two_strings(
            node_name,
            rebuilding_addr,
        ),
        MsgView::ConnectResp { nodes, current_log } => if <Size4Vec<
            Node,
        > as ProtoAsProxy>::spec_encode_error(nodes) is None {
            <Size4Vec<Node> as ProtoAsProxy>::spec_encode(nodes) + u64_to_be(current_log)
        } else {
            <Size4Vec<Node> as ProtoAsProxy>::spec_encode(nodes)
        },
        MsgView::ClusterPing { nodes } => <Size4Vec<Node> as ProtoAsProxy>::spec_encode(nodes),
        MsgView::KeepAlive => Seq::empty(),
        MsgView::Sync { index } => u64_to_be(index),
        MsgView::SyncReq(index) => u64_to_be(index),
    }
}

/// The error writing the fields of a message fails with, if any.
pub open spec fn fields_error(m: MsgView) -> Option<ProtoError> {
    match m {
        MsgView::ConnectReq { node_name, rebuilding_addr } => two_strings_error(
            node_name,
            rebuilding_addr,
        ),
        MsgView::ConnectResp { nodes, .. } => <Size4Vec<
            Node,
        > as ProtoAsProxy>::spec_encode_error(nodes),
        MsgView::ClusterPing { nodes } => <Size4Vec<Node> as ProtoAsProxy>::spec_encode_error(
            nodes,
        ),
        _ => None,
    }
}

/// Writes the fields of a message, stopping at the first failure.
fn write_fields(msg: &Msg, writer: &mut ProtoWriter) -> (r: Result<(), ProtoError>)
    ensures
        final(writer)@ == old(writer)@ + encode_fields(msg.deep_view()),
        r == crate::proto::write_outcome(fields_error(msg.deep_view())),
{
    let ghost out = crate::proto::write_outcome(fields_error(msg.deep_view()));
    let r = match msg {
        Msg::ConnectReq(req) => write_two_strings(
            writer,
            req.node_name.as_str(),
            req.rebuilding_addr.as_str(),
        ),
        Msg::ConnectResp(resp) => {
            match writer.write_as::<Size4Vec<Node>>(&resp.nodes) {
                Ok(()) => {
                    let r = writer.write_size8(resp.current_log);
                    assert(writer@ =~= old(writer)@ + encode_fields(msg.deep_view()));
                    r
                },
                Err(e) => Err(e),
            }
        },
        Msg::ClusterPing(ping) => writer.write_as::<Size4Vec<Node>>(&ping.nodes),
        Msg::KeepAlive(_) => {
            assert(writer@ =~= old(writer)@ + encode_fields(msg.deep_view()));
            Ok(())
        },
        Msg::Sync(sync) => writer.write_size8(sync.index),
        Msg::SyncReq(sync_req) => writer.write_size8(sync_req.0),
    };
    match r {
        Ok(()) => {
            assert(out is Ok);
            Ok(())
        },
        Err(e) => {
            assert(out == Err::<(), ProtoError>(e));
            Err(e)
        },
    }
}

impl ProtoType for Msg {
    open spec fn spec_decode(bytes: Seq<u8>) -> Decoded<MsgView> {
        match decode_byte(bytes) {
            Err(e) => Err(e),
            Ok((id, n)) => match kind_of_byte(id) {
                None => Err((ProtoError::InvalidMessage, n)),
                Some(k) => match decode_fields(k, bytes.skip(1)) {
                    Ok((m, f)) => Ok((m, n + f)),
                    Err((e, f)) => Err((e, n + f)),
                },
            },
        }
    }

    open spec fn spec_encode(m: MsgView) -> Seq<u8> {
        seq![kind_byte(kind_of(m))] + encode_fields(m)
    }

    open spec fn spec_encode_error(m: MsgView) -> Option<ProtoError> {
        fields_error(m)
    }

    fn read(reader: &mut ProtoReader) -> (r: Result<Self, ProtoError>) {
        let ghost rest = old(reader).rest();
        let id = match reader.read_byte() {
            Ok(b) => b,
            Err(e) => return Err(e),
        };
        assert(reader.rest() =~= rest.skip(1));
        let kind = match MsgKind::from_u8(id) {
            Some(k) => k,
            None => return Err(ProtoError::InvalidMessage),
        };
        let ghost fields = rest.skip(1);
        match kind {
            MsgKind::ConnectReq => match read_two_strings(reader) {
                Ok((node_name, rebuilding_addr)) => Ok(
                    Msg::ConnectReq(ConnectReqMsg { node_name, rebuilding_addr }),
                ),
                Err(e) => Err(e),
            },
            MsgKind::ConnectResp => {
                let nodes = match reader.read_as::<Size4Vec<Node>>() {
                    Ok(v) => v,
                    Err(e) => return Err(e),
                };
                let ghost n = reader.spec_position() - old(reader).spec_position() - 1;
                assert(reader.rest() =~= fields.skip(n));
                let current_log = match reader.read_size8() {
                    Ok(v) => v,
                    Err(e) => return Err(e),
                };
                Ok(Msg::ConnectResp(ConnectRespMsg { nodes, current_log }))
            },
            MsgKind::ClusterPing => match reader.read_as::<Size4Vec<Node>>() {
                Ok(nodes) => Ok(Msg::ClusterPing(ClusterPingMsg { nodes })),
                Err(e) => Err(e),
            },
            MsgKind::KeepAlive => Ok(Msg::KeepAlive(KeepAliveMsg)),
            MsgKind::Sync => match reader.read_size8() {
                Ok(index) => Ok(Msg::Sync(SyncMsg { index })),
                Err(e) => Err(e),
            },
            MsgKind::SyncReq => match reader.read_size8() {
                Ok(index) => Ok(Msg::SyncReq(SyncReqMsg(index))),
                Err(e) => Err(e),
            },
        }
    }

    fn write(&self, writer: &mut ProtoWriter) -> (r: Result<(), ProtoError>) {
        let id = self.kind().as_u8();
        let _ = writer.write_byte(id);
        let r = write_fields(self, writer);
        assert(writer@ =~= old(writer)@ + Self::spec_encode(self.deep_view()));
        r
    }

    proof fn lemma_roundtrip(m: MsgView, rest: Seq<u8>) {
        let k = kind_of(m);
        let f = encode_fields(m);
        let b = Self::spec_encode(m) + rest;
        lemma_byte_roundtrip(kind_byte(k), f + rest);
        assert(b =~= seq![kind_byte(k)] + (f + rest));
        assert(b.skip(1) =~= f + rest);
        lemma_kind_byte_roundtrip(k);
        lemma_fields_roundtrip(m, rest);
    }
}

/// Messages written one after the other, each without error, are read back
/// one after the other, in the order they were written.
pub proof fn lemma_messages_in_order(m1: MsgView, m2: MsgView, rest: Seq<u8>)
    requires
        fields_error(m1) is None,
        fields_error(m2) is None,
    ensures
        ({
            let e1 = <Msg as ProtoType>::spec_encode(m1);
            let e2 = <Msg as ProtoType>::spec_encode(m2);
            let stream = e1 + e2 + rest;
            &&& <Msg as ProtoType>::spec_decode(stream) == Ok::<(MsgView, nat), (ProtoError, nat)>(
                (m1, e1.len()),
            )
            &&& <Msg as ProtoType>::spec_decode(stream.skip(e1.len() as int)) == Ok::<
                (MsgView, nat),
                (ProtoError, nat),
            >((m2, e2.len()))
        }),
{
    let e1 = <Msg as ProtoType>::spec_encode(m1);
    let e2 = <Msg as ProtoType>::spec_encode(m2);
    let stream = e1 + e2 + rest;
    assert(stream =~= e1 + (e2 + rest));
    <Msg as ProtoType>::lemma_roundtrip(m1, e2 + rest);
    assert(stream.skip(e1.len() as int) =~= e2 + rest);
    <Msg as ProtoType>::lemma_roundtrip(m2, rest);
}

/// The fields of a message written without error read back as written.
#[verifier::rlimit(50)]
proof fn lemma_fields_roundtrip(m: MsgView, rest: Seq<u8>)
    requires
        fields_error(m) is None,
    ensures
        decode_fields(kind_of(m), encode_fields(m) + rest) == Ok::<(MsgView, nat), (ProtoError, nat)>(
            (m, encode_fields(m).len()),
        ),
{
    match m {
        MsgView::ConnectReq { node_name, rebuilding_addr } => {
            lemma_two_strings_roundtrip(node_name, rebuilding_addr, rest);
        },
        MsgView::ConnectResp { nodes, current_log } => {
            lemma_connect_resp_roundtrip(nodes, current_log, rest);
        },
        MsgView::ClusterPing { nodes } => {
            <Size4Vec<Node> as ProtoAsProxy>::lemma_roundtrip(nodes, rest);
        },
        MsgView::KeepAlive => {},
        MsgView::Sync { index } => {
            lemma_size8_roundtrip(index, rest);
        },
        MsgView::SyncReq(index) => {
            lemma_size8_roundtrip(index, rest);
        },
    }
}

#[verifier::rlimit(50)]
proof fn lemma_connect_resp_roundtrip(nodes: Seq<NodeView>, current_log: u64, rest: Seq<u8>)
    requires
        <Size4Vec<Node> as ProtoAsProxy>::spec_encode_error(nodes) is None,
    ensures
        ({
            let m = MsgView::ConnectResp { nodes, current_log };
            decode_fields(MsgKind::ConnectResp, encode_fields(m) + rest) == Ok::<
                (MsgView, nat),
                (ProtoError, nat),
            >((m, encode_fields(m).len()))
        }),
{
    let m = MsgView::ConnectResp { nodes, current_log };
    let e = <Size4Vec<Node> as ProtoAsProxy>::spec_encode(nodes);
    let c = u64_to_be(current_log);
    let b = e + (c + rest);
    assert(encode_fields(m) == e + c);
    assert(encode_fields(m) + rest =~= b);
    <Size4Vec<Node> as ProtoAsProxy>::lemma_roundtrip(nodes, c + rest);
    assert(b.skip(e.len() as int) =~= c + rest);
    lemma_size8_roundtrip(current_log, rest);
    assert(decode_size8(b.skip(e.len() as int)) == Ok::<(u64, nat), (ProtoError, nat)>(
        (current_log, 8),
    ));
}

} // verus!
