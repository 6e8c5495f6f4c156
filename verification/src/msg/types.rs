//! Values carried by messages: cluster nodes and replicated results.
use vstd::prelude::*;

use crate::cli::HostAddr;
use crate::proto::{
    decode_byte, decode_size4_string, encode_size4_string, lemma_byte_roundtrip,
    lemma_size4_string_roundtrip, size4_string_fits, Decoded, ProtoError, ProtoReader, ProtoType,
    ProtoWriter,
};

verus! {

/// A member of the cluster: its name and the address it serves at when it
/// becomes the primary node. On the wire a node is its name, then its
/// address, as length-prefixed strings; reading one keeps the address as
/// text. Whether it resolves is looked up where it is read from the
/// network, and `accept_resolved` rejects a message with an address that
/// does not.
#[derive(Debug)]
pub struct Node {
    pub name: String,
    pub rebuilding_addr: HostAddr,
}

/// What a node is: its name and its rebuilding address, as text.
pub struct NodeView {
    pub name: Seq<char>,
    pub rebuilding_addr: Seq<char>,
}

impl DeepView for Node {
    type V = NodeView;

    open spec fn deep_view(&self) -> NodeView {
        NodeView { name: self.name@, rebuilding_addr: self.rebuilding_addr.deep_view() }
    }
}

impl Node {
    /// The address a node serves at once it becomes the primary node: its
    /// rebuilding address.
    pub fn server_addr(&self) -> (r: HostAddr)
        ensures
            r == self.rebuilding_addr,
    {
        self.rebuilding_addr.clone()
    }
}

impl Clone for Node {
    fn clone(&self) -> (r: Self)
        ensures
            r == *self,
    {
        Node { name: self.name.clone(), rebuilding_addr: self.rebuilding_addr.clone() }
    }
}

/// Two length-prefixed strings, one after the other.
pub open spec fn decode_two_strings(b: Seq<u8>) -> Decoded<(Seq<char>, Seq<char>)> {
    match decode_size4_string(b) {
        Err(e) => Err(e),
        Ok((first, n)) => match decode_size4_string(b.skip(n as int)) {
            Err((e, m)) => Err((e, n + m)),
            Ok((second, m)) => Ok(((first, second), n + m)),
        },
    }
}

/// The bytes written for two strings, one after the other; nothing after
/// the first when it does not fit.
pub open spec fn encode_two_strings(first: Seq<char>, second: Seq<char>) -> Seq<u8> {
    if size4_string_fits(first) {
        encode_size4_string(first) + encode_size4_string(second)
    } else {
        Seq::empty()
    }
}

pub open spec fn two_strings_error(first: Seq<char>, second: Seq<char>) -> Option<ProtoError> {
    if size4_string_fits(first) && size4_string_fits(second) {
        None
    } else {
        Some(ProtoError::StringTooLarge)
    }
}

pub proof fn lemma_two_strings_roundtrip(first: Seq<char>, second: Seq<char>, rest: Seq<u8>)
    requires
        two_strings_error(first, second) is None,
    ensures
        decode_two_strings(encode_two_strings(first, second) + rest) == Ok::<
            ((Seq<char>, Seq<char>), nat),
            (ProtoError, nat),
        >(((first, second), encode_two_strings(first, second).len())),
{
    let a = encode_size4_string(first);
    let b = encode_size4_string(second);
    assert(encode_two_strings(first, second) + rest =~= a + (b + rest));
    lemma_size4_string_roundtrip(first, b + rest);
    assert((a + (b + rest)).skip(a.len() as int) =~= b + rest);
    lemma_size4_string_roundtrip(second, rest);
}

/// Reads two length-prefixed strings.
pub(crate) fn read_two_strings(reader: &mut ProtoReader) -> (r: Result<(String, String), ProtoError>)
    ensures
        final(reader).advanced_by(*old(reader), decode_two_strings(old(reader).rest())),
        match decode_two_strings(old(reader).rest()) {
            Ok(((a, b), _)) => r matches Ok((x, y)) && x@ == a && y@ == b,
            Err((e, _)) => r == Err::<(String, String), ProtoError>(e),
        },
{
    let ghost rest = old(reader).rest();
    let first = match reader.read_size4_string() {
        Ok(s) => s,
        Err(e) => return Err(e),
    };
    let ghost n = reader.spec_position() - old(reader).spec_position();
    assert(reader.rest() =~= rest.skip(n as int));
    let second = match reader.read_size4_string() {
        Ok(s) => s,
        Err(e) => return Err(e),
    };
    Ok((first, second))
}

/// Writes two length-prefixed strings, stopping at the first that does not fit.
pub(crate) fn write_two_strings(writer: &mut ProtoWriter, first: &str, second: &str) -> (r: Result<(), ProtoError>)
    ensures
        final(writer)@ == old(writer)@ + encode_two_strings(first@, second@),
        r == crate::proto::write_outcome(two_strings_error(first@, second@)),
{
    match writer.write_size4_string(first) {
        Ok(()) => {},
        Err(e) => {
            assert(writer@ =~= old(writer)@ + encode_two_strings(first@, second@));
            return Err(e);
        },
    }
    let r = writer.write_size4_string(second);
    assert(writer@ =~= old(writer)@ + encode_two_strings(first@, second@));
    r
}

impl ProtoType for Node {
    open spec fn spec_decode(bytes: Seq<u8>) -> Decoded<NodeView> {
        match decode_two_strings(bytes) {
            Ok(((name, addr), n)) => Ok((NodeView { name, rebuilding_addr: addr }, n)),
            Err(e) => Err(e),
        }
    }

    open spec fn spec_encode(v: NodeView) -> Seq<u8> {
        encode_two_strings(v.name, v.rebuilding_addr)
    }

    open spec fn spec_encode_error(v: NodeView) -> Option<ProtoError> {
        two_strings_error(v.name, v.rebuilding_addr)
    }

    fn read(reader: &mut ProtoReader) -> (r: Result<Self, ProtoError>) {
        match read_two_strings(reader) {
            Ok((name, addr)) => Ok(Node { name, rebuilding_addr: HostAddr::new(addr) }),
            Err(e) => Err(e),
        }
    }

    fn write(&self, writer: &mut ProtoWriter) -> (r: Result<(), ProtoError>) {
        let addr_string = self.rebuilding_addr.to_string();
        write_two_strings(writer, self.name.as_str(), addr_string.as_str())
    }

    proof fn lemma_roundtrip(v: NodeView, rest: Seq<u8>) {
        lemma_two_strings_roundtrip(v.name, v.rebuilding_addr, rest);
    }
}

/// A symbol of a WebAssembly module seen from outside: one the calling
/// module defines, or one a linker supplies from a named module.
#[derive(Debug, Clone)]
pub enum ExternSym {
    Caller { name: String },
    Linker { module_name: String, name: String },
}

/// What a symbol is, its names as text.
pub enum ExternSymView {
    Caller { name: Seq<char> },
    Linker { module_name: Seq<char>, name: Seq<char> },
}

impl DeepView for ExternSym {
    type V = ExternSymView;

    open spec fn deep_view(&self) -> ExternSymView {
        match self {
            ExternSym::Caller { name } => ExternSymView::Caller { name: name@ },
            ExternSym::Linker { module_name, name } => ExternSymView::Linker {
                module_name: module_name@,
                name: name@,
            },
        }
    }
}

impl ProtoType for ExternSym {
    /// A tag byte, then the name for tag 0, or the module name and the name
    /// for any other tag.
    open spec fn spec_decode(bytes: Seq<u8>) -> Decoded<ExternSymView> {
        match decode_byte(bytes) {
            Err(e) => Err(e),
            Ok((tag, n)) => if tag == 0 {
                match decode_size4_string(bytes.skip(1)) {
                    Ok((name, m)) => Ok((ExternSymView::Caller { name }, n + m)),
                    Err((e, m)) => Err((e, n + m)),
                }
            } else {
                match decode_two_strings(bytes.skip(1)) {
                    Ok(((module_name, name), m)) => Ok(
                        (ExternSymView::Linker { module_name, name }, n + m),
                    ),
                    Err((e, m)) => Err((e, n + m)),
                }
            },
        }
    }

    open spec fn spec_encode(v: ExternSymView) -> Seq<u8> {
        match v {
            ExternSymView::Caller { name } => seq![0u8] + encode_size4_string(name),
            ExternSymView::Linker { module_name, name } => seq![1u8] + encode_two_strings(
                module_name,
                name,
            ),
        }
    }

    open spec fn spec_encode_error(v: ExternSymView) -> Option<ProtoError> {
        match v {
            ExternSymView::Caller { name } => if size4_string_fits(name) {
                None
            } else {
                Some(ProtoError::StringTooLarge)
            },
            ExternSymView::Linker { module_name, name } => two_strings_error(module_name, name),
        }
    }

    fn read(reader: &mut ProtoReader) -> (r: Result<Self, ProtoError>) {
        let ghost rest = old(reader).rest();
        let tag = match reader.read_byte() {
            Ok(b) => b,
            Err(e) => return Err(e),
        };
        assert(reader.rest() =~= rest.skip(1));
        if tag == 0 {
            match reader.read_size4_string() {
                Ok(name) => Ok(ExternSym::Caller { name }),
                Err(e) => Err(e),
            }
        } else {
            match read_two_strings(reader) {
                Ok((module_name, name)) => Ok(ExternSym::Linker { module_name, name }),
                Err(e) => Err(e),
            }
        }
    }

    fn write(&self, writer: &mut ProtoWriter) -> (r: Result<(), ProtoError>) {
        match self {
            ExternSym::Caller { name } => {
                let _ = writer.write_byte(0x00);
                let r = writer.write_size4_string(name.as_str());
                assert(writer@ =~= old(writer)@ + Self::spec_encode(self.deep_view()));
                r
            },
            ExternSym::Linker { module_name, name } => {
                let _ = writer.write_byte(0x01);
                let r = write_two_strings(writer, module_name.as_str(), name.as_str());
                assert(writer@ =~= old(writer)@ + Self::spec_encode(self.deep_view()));
                r
            },
        }
    }

    #[verifier::rlimit(40)]
    proof fn lemma_roundtrip(v: ExternSymView, rest: Seq<u8>) {
        let b = Self::spec_encode(v) + rest;
        match v {
            ExternSymView::Caller { name } => {
                lemma_byte_roundtrip(0u8, encode_size4_string(name) + rest);
                assert(b =~= seq![0u8] + (encode_size4_string(name) + rest));
                assert(b.skip(1) =~= encode_size4_string(name) + rest);
                lemma_size4_string_roundtrip(name, rest);
            },
            ExternSymView::Linker { module_name, name } => {
                lemma_byte_roundtrip(1u8, encode_two_strings(module_name, name) + rest);
                assert(b =~= seq![1u8] + (encode_two_strings(module_name, name) + rest));
                assert(b.skip(1) =~= encode_two_strings(module_name, name) + rest);
                lemma_two_strings_roundtrip(module_name, name, rest);
            },
        }
    }
}

/// A WebAssembly value. Floating-point values are kept as their IEEE 754
/// bit patterns.
#[derive(Debug, Clone)]
pub enum Val {
    I32(i32),
    I64(i64),
    F32(u32),
    F64(u64),
    V128(u128),
    FuncRef(ExternSym),
    ExternRef,
}

#[derive(Debug, Clone)]
pub struct MemoryChange {
    offset: u32,
    value: Vec<u8>,
}

#[derive(Debug, Clone)]
pub struct TableChange {
    offset: u32,
    values: Vec<Val>,
}

#[derive(Debug, Clone)]
pub struct GlobalChange {
    new_value: Val,
}

#[derive(Debug, Clone)]
pub enum SymChange {
    Memory(MemoryChange),
    Table(TableChange),
    Global(GlobalChange),
}

/// A change an external call made to a symbol of the module.
#[derive(Debug, Clone)]
pub struct Change {
    symbol: ExternSym,
    new_value: SymChange,
}

#[derive(Debug, Clone)]
pub enum ExternalTrap {
    I32(i32),
    String(String),
}

/// How an external call ended: with its results, or with a trap.
#[derive(Debug, Clone)]
pub enum ExternalResult {
    Success(Vec<Val>),
    Trap(ExternalTrap),
}

/// The recorded outcome of one external call: its result and the changes it
/// made.
#[derive(Debug, Clone)]
pub struct LogValue {
    result: ExternalResult,
    changes: Vec<Change>,
}

impl LogValue {
    /// The value has no results and no changes.
    pub closed spec fn spec_is_empty(&self) -> bool {
        &&& self.result matches ExternalResult::Success(vals) && vals@.len() == 0
        &&& self.changes@.len() == 0
    }

    /// An outcome with no results and no changes.
    pub fn empty() -> (r: LogValue)
        ensures
            r.spec_is_empty(),
    {
        LogValue { result: ExternalResult::Success(Vec::new()), changes: Vec::new() }
    }
}

} // verus!
