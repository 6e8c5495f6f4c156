//! Configuration of a node: host addresses and the parsed command line.
use vstd::prelude::*;
use vstd::string::StrSliceExecFns;

verus! {

/// A host address as `<HOSTNAME>:<PORT>`, kept as written. Resolving it
/// into socket addresses is left to whoever connects to it or binds it.
#[derive(Debug)]
pub struct HostAddr {
    string_value: String,
}

impl DeepView for HostAddr {
    type V = Seq<char>;

    closed spec fn deep_view(&self) -> Seq<char> {
        self.string_value@
    }
}

impl Clone for HostAddr {
    fn clone(&self) -> (r: Self)
        ensures
            r == *self,
    {
        HostAddr { string_value: self.string_value.clone() }
    }
}

impl HostAddr {
    /// The address written as `s`.
    pub fn new(s: String) -> (r: Self)
        ensures
            r.deep_view() == s@,
    {
        HostAddr { string_value: s }
    }

    /// The address as written.
    pub fn as_str(&self) -> (r: &str)
        ensures
            r@ == self.deep_view(),
    {
        self.string_value.as_str()
    }

    /// The address as written.
    pub fn to_string(&self) -> (r: String)
        ensures
            r@ == self.deep_view(),
    {
        self.string_value.clone()
    }
}

/// `true` when `s` is exactly `word`.
fn is_word(s: &str, word: &str) -> (r: bool)
    ensures
        r == (s@ == word@),
{
    let n = s.unicode_len();
    if n != word.unicode_len() {
        return false;
    }
    let mut i: usize = 0;
    while i < n
        invariant
            n == s@.len(),
            n == word@.len(),
            i <= n,
            forall|j: int| 0 <= j < i ==> s@[j] == word@[j],
        decreases n - i,
    {
        if s.get_char(i) != word.get_char(i) {
            return false;
        }
        i = i + 1;
    }
    assert(s@ =~= word@);
    true
}

pub open spec fn is_digit(c: char) -> bool {
    '0' <= c <= '9'
}

/// The number the decimal digits `d` write.
pub open spec fn decimal_value(d: Seq<char>) -> nat
    decreases d.len(),
{
    if d.len() == 0 {
        0
    } else {
        decimal_value(d.drop_last()) * 10 + (d.last() as int - '0' as int) as nat
    }
}

/// The digits of an unsigned number: the text without a leading `+`.
pub open spec fn unsigned_digits(s: Seq<char>) -> Seq<char> {
    if s.len() > 0 && s[0] == '+' {
        s.drop_first()
    } else {
        s
    }
}

/// The non-zero 32-bit number that `s` writes in decimal, with an optional
/// leading `+`, if it writes one.
pub open spec fn nonzero_u32_value(s: Seq<char>) -> Option<u32> {
    let d = unsigned_digits(s);
    if d.len() > 0 && (forall|i: int| 0 <= i < d.len() ==> is_digit(#[trigger] d[i]))
        && 0 < decimal_value(d) <= u32::MAX {
        Some(decimal_value(d) as u32)
    } else {
        None
    }
}

/// Decimal digits are positional: one more digit multiplies the number by
/// ten and adds the digit, whatever the digit, zero included.
pub proof fn lemma_decimal_value_push(d: Seq<char>, c: char)
    requires
        is_digit(c),
    ensures
        decimal_value(d.push(c)) == 10 * decimal_value(d) + (c as int - '0' as int),
{
    assert(d.push(c).drop_last() =~= d);
}

/// A single digit writes its own value.
pub proof fn lemma_decimal_value_digit(c: char)
    requires
        is_digit(c),
    ensures
        decimal_value(seq![c]) == c as int - '0' as int,
{
    lemma_decimal_value_push(Seq::empty(), c);
    assert(Seq::<char>::empty().push(c) =~= seq![c]);
}

/// Plain digits writing a number in range parse to that number, and a
/// leading `+` changes nothing.
pub proof fn lemma_threshold_of_digits(d: Seq<char>)
    requires
        d.len() > 0,
        forall|i: int| 0 <= i < d.len() ==> is_digit(#[trigger] d[i]),
        0 < decimal_value(d) <= u32::MAX,
    ensures
        nonzero_u32_value(d) == Some(decimal_value(d) as u32),
        nonzero_u32_value(seq!['+'] + d) == Some(decimal_value(d) as u32),
{
    assert(is_digit(d[0]));
    assert((seq!['+'] + d).drop_first() =~= d);
}

/// A threshold is rejected when a character after the optional `+` is not
/// a digit, when there are no digits, or when the number is zero or does
/// not fit in 32 bits.
pub proof fn lemma_threshold_rejects(s: Seq<char>)
    ensures
        (exists|i: int| 0 <= i < unsigned_digits(s).len() && !is_digit(#[trigger] unsigned_digits(s)[i]))
            ==> nonzero_u32_value(s) is None,
        unsigned_digits(s).len() == 0 ==> nonzero_u32_value(s) is None,
        (decimal_value(unsigned_digits(s)) == 0 || decimal_value(unsigned_digits(s)) > u32::MAX)
            ==> nonzero_u32_value(s) is None,
{
}

/// More digits never write a smaller number.
proof fn lemma_decimal_value_grows(d: Seq<char>, k: int)
    requires
        0 <= k <= d.len(),
        forall|i: int| 0 <= i < d.len() ==> is_digit(#[trigger] d[i]),
    ensures
        decimal_value(d.take(k)) <= decimal_value(d),
    decreases d.len() - k,
{
    if k < d.len() {
        lemma_decimal_value_grows(d, k + 1);
        assert(d.take(k + 1).drop_last() =~= d.take(k));
    }
    else {
        assert(d.take(k) =~= d);
    }
}

/// Parses a start threshold: a non-zero decimal number with an optional
/// leading `+`.
pub fn parse_threshold(s: &str) -> (r: Option<u32>)
    ensures
        r == nonzero_u32_value(s@),
{
    let n = s.unicode_len();
    let start: usize = if n > 0 && s.get_char(0) == '+' {
        1
    } else {
        0
    };
    let ghost d = unsigned_digits(s@);
    assert(d =~= s@.skip(start as int));
    if start == n {
        return None;
    }
    let mut value: u64 = 0;
    let mut i: usize = start;
    assert(d.take(0) =~= Seq::<char>::empty());
    while i < n
        invariant
            n == s@.len(),
            start <= i <= n,
            d == s@.skip(start as int),
            d == unsigned_digits(s@),
            value == decimal_value(d.take(i - start)),
            value <= u32::MAX,
            forall|j: int| 0 <= j < i - start ==> is_digit(#[trigger] d[j]),
        decreases n - i,
    {
        let c = s.get_char(i);
        assert(c == d[i - start]);
        if !('0' <= c && c <= '9') {
            assert(!is_digit(d[i - start]));
            return None;
        }
        assert(d.take(i + 1 - start).drop_last() =~= d.take(i - start));
        value = value * 10 + ((c as u32) - ('0' as u32)) as u64;
        i = i + 1;
        assert(value == decimal_value(d.take(i - start)));
        if value > 0xffff_ffff {
            proof {
                if forall|j: int| 0 <= j < d.len() ==> is_digit(#[trigger] d[j]) {
                    lemma_decimal_value_grows(d, i - start);
                }
            }
            return None;
        }
    }
    assert(d.take(n - start) =~= d);
    if value == 0 {
        None
    } else {
        Some(value as u32)
    }
}

/// Starting the primary node of a cluster.
#[derive(Debug)]
pub struct CliStart {
    pub addr: HostAddr,
    pub entry_point: String,
    /// Number of connected nodes to wait for before running; never zero.
    pub start_threshold: Option<u32>,
    pub node_name: String,
}

/// Joining a cluster.
#[derive(Debug)]
pub struct CliConnect {
    pub server_addr: HostAddr,
    pub entry_point: String,
    pub node_name: String,
    pub client_rebuilding_addr: HostAddr,
}

#[derive(Debug)]
pub enum CliCommand {
    Start(CliStart),
    Connect(CliConnect),
}

#[derive(Debug)]
pub struct Cli {
    pub command: CliCommand,
}

/// The values the command line gave for the arguments of the chosen
/// subcommand, as text; `None` for an argument it did not give.
#[derive(Debug)]
pub struct SubcommandValues {
    pub name: String,
    pub entry_point: Option<String>,
    pub node_name: Option<String>,
    pub address: Option<String>,
    pub start_threshold: Option<String>,
    pub rebuild: Option<String>,
    /// Whether the `address` value resolves to socket addresses.
    pub address_resolves: bool,
    /// Whether the `rebuild` value resolves to socket addresses.
    pub rebuild_resolves: bool,
}

/// Why the command line does not describe a command.
#[derive(Debug, PartialEq, Eq, Clone, Copy, Structural)]
pub enum CliError {
    /// A required argument is missing.
    ArgumentNotFound(CliArg),
    /// An argument's value is not valid.
    ValueValidation(CliArg),
    UnrecognizedSubcommand,
    MissingSubcommand,
}

/// The arguments of the subcommands.
#[derive(Debug, PartialEq, Eq, Clone, Copy, Structural)]
pub enum CliArg {
    EntryPoint,
    NodeName,
    Address,
    StartThreshold,
    Rebuild,
}

/// The command a subcommand's values describe, or why they describe none:
/// arguments are taken in order, and the first one missing or invalid
/// decides the error; a host address that does not resolve is invalid.
pub open spec fn command_for(sub: Option<SubcommandValues>) -> Result<CliCommandView, CliError> {
    match sub {
        None => Err(CliError::MissingSubcommand),
        Some(v) => if v.name@ == "start"@ {
            if v.address is None {
                Err(CliError::ArgumentNotFound(CliArg::Address))
            } else if !v.address_resolves {
                Err(CliError::ValueValidation(CliArg::Address))
            } else if v.entry_point is None {
                Err(CliError::ArgumentNotFound(CliArg::EntryPoint))
            } else if v.start_threshold matches Some(t) && nonzero_u32_value(t@) is None {
                Err(CliError::ValueValidation(CliArg::StartThreshold))
            } else if v.node_name is None {
                Err(CliError::ArgumentNotFound(CliArg::NodeName))
            } else {
                Ok(CliCommandView::Start {
                    addr: v.address->0@,
                    entry_point: v.entry_point->0@,
                    start_threshold: match v.start_threshold {
                        Some(t) => nonzero_u32_value(t@),
                        None => None,
                    },
                    node_name: v.node_name->0@,
                })
            }
        } else if v.name@ == "connect"@ {
            if v.address is None {
                Err(CliError::ArgumentNotFound(CliArg::Address))
            } else if !v.address_resolves {
                Err(CliError::ValueValidation(CliArg::Address))
            } else if v.entry_point is None {
                Err(CliError::ArgumentNotFound(CliArg::EntryPoint))
            } else if v.node_name is None {
                Err(CliError::ArgumentNotFound(CliArg::NodeName))
            } else if v.rebuild is None {
                Err(CliError::ArgumentNotFound(CliArg::Rebuild))
            } else if !v.rebuild_resolves {
                Err(CliError::ValueValidation(CliArg::Rebuild))
            } else {
                Ok(CliCommandView::Connect {
                    server_addr: v.address->0@,
                    entry_point: v.entry_point->0@,
                    node_name: v.node_name->0@,
                    client_rebuilding_addr: v.rebuild->0@,
                })
            }
        } else {
            Err(CliError::UnrecognizedSubcommand)
        },
    }
}

/// Each field of a parsed command is the value given for the argument of
/// the same name.
pub proof fn lemma_fields_from_arguments(v: SubcommandValues)
    ensures
        command_for(Some(v)) matches Ok(CliCommandView::Start { addr, entry_point, start_threshold, node_name }) ==> {
            &&& v.address == Some(v.address->0) && addr == v.address->0@
            &&& v.entry_point is Some && entry_point == v.entry_point->0@
            &&& v.node_name is Some && node_name == v.node_name->0@
            &&& start_threshold == match v.start_threshold {
                Some(t) => nonzero_u32_value(t@),
                None => None,
            }
        },
        command_for(Some(v)) matches Ok(CliCommandView::Connect { server_addr, entry_point, node_name, client_rebuilding_addr }) ==> {
            &&& v.address is Some && server_addr == v.address->0@
            &&& v.entry_point is Some && entry_point == v.entry_point->0@
            &&& v.node_name is Some && node_name == v.node_name->0@
            &&& v.rebuild is Some && client_rebuilding_addr == v.rebuild->0@
        },
{
}

/// What a command says, its text as text.
pub enum CliCommandView {
    Start {
        addr: Seq<char>,
        entry_point: Seq<char>,
        start_threshold: Option<u32>,
        node_name: Seq<char>,
    },
    Connect {
        server_addr: Seq<char>,
        entry_point: Seq<char>,
        node_name: Seq<char>,
        client_rebuilding_addr: Seq<char>,
    },
}

impl DeepView for Cli {
    type V = CliCommandView;

    open spec fn deep_view(&self) -> CliCommandView {
        match self.command {
            CliCommand::Start(s) => CliCommandView::Start {
                addr: s.addr.deep_view(),
                entry_point: s.entry_point@,
                start_threshold: s.start_threshold,
                node_name: s.node_name@,
            },
            CliCommand::Connect(c) => CliCommandView::Connect {
                server_addr: c.server_addr.deep_view(),
                entry_point: c.entry_point@,
                node_name: c.node_name@,
                client_rebuilding_addr: c.client_rebuilding_addr.deep_view(),
            },
        }
    }
}

impl Cli {
    /// The command that the chosen subcommand and its values describe.
    pub fn from_arg_matches(sub: Option<SubcommandValues>) -> (r: Result<Cli, CliError>)
        ensures
            match command_for(sub) {
                Ok(c) => r matches Ok(cli) && cli.deep_view() == c,
                Err(e) => r == Err::<Cli, CliError>(e),
            },
    {
        let v = match sub {
            None => return Err(CliError::MissingSubcommand),
            Some(v) => v,
        };
        proof {
            reveal_strlit("start");
            reveal_strlit("connect");
        }
        if is_word(v.name.as_str(), "start") {
            let addr = match v.address {
                Some(a) => HostAddr::new(a),
                None => return Err(CliError::ArgumentNotFound(CliArg::Address)),
            };
            if !v.address_resolves {
                return Err(CliError::ValueValidation(CliArg::Address));
            }
            let entry_point = match v.entry_point {
                Some(e) => e,
                None => return Err(CliError::ArgumentNotFound(CliArg::EntryPoint)),
            };
            let start_threshold = match &v.start_threshold {
                Some(t) => match parse_threshold(t.as_str()) {
                    Some(n) => Some(n),
                    None => return Err(CliError::ValueValidation(CliArg::StartThreshold)),
                },
                None => None,
            };
            let node_name = match v.node_name {
                Some(n) => n,
                None => return Err(CliError::ArgumentNotFound(CliArg::NodeName)),
            };
            Ok(Cli { command: CliCommand::Start(CliStart { addr, entry_point, start_threshold, node_name }) })
        } else if is_word(v.name.as_str(), "connect") {
            let server_addr = match v.address {
                Some(a) => HostAddr::new(a),
                None => return Err(CliError::ArgumentNotFound(CliArg::Address)),
            };
            if !v.address_resolves {
                return Err(CliError::ValueValidation(CliArg::Address));
            }
            let entry_point = match v.entry_point {
                Some(e) => e,
                None => return Err(CliError::ArgumentNotFound(CliArg::EntryPoint)),
            };
            let node_name = match v.node_name {
                Some(n) => n,
                None => return Err(CliError::ArgumentNotFound(CliArg::NodeName)),
            };
            let client_rebuilding_addr = match v.rebuild {
                Some(r) => HostAddr::new(r),
                None => return Err(CliError::ArgumentNotFound(CliArg::Rebuild)),
            };
            if !v.rebuild_resolves {
                return Err(CliError::ValueValidation(CliArg::Rebuild));
            }
            Ok(
                Cli {
                    command: CliCommand::Connect(
                        CliConnect { server_addr, entry_point, node_name, client_rebuilding_addr },
                    ),
                },
            )
        } else {
            Err(CliError::UnrecognizedSubcommand)
        }
    }
}

} // verus!
