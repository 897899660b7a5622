//! Finding the calibre server: the client greets a few ports by broadcast and takes the address
//! from the answer.
use crate::bindings::{capture, captured, utf8_error, utf8_text};
use crate::decimal::{
    decimal_digits, decimal_number, law_written_number_is_read_back, read_decimal, NumberError,
};
use crate::text::optional_text;
use vstd::prelude::*;
use vstd::utf8::{decode_utf8, encode_utf8, valid_utf8};

verus! {

/// The ports on which calibre listens for a greeting.
pub const BROADCAST_PORTS: [u16; 5] = [54982, 48123, 39001, 44044, 59678];

/// The greeting: `hello`.
pub const BROADCAST_MSG: [u8; 5] = [104, 101, 108, 108, 111];

/// The form of calibre's answer: its name, and two ports.
pub const BROADCAST_REGEX: &'static str = r"calibre wireless device client \(on (.+)\);(\d+),(\d+)";

/// The part of the answer that is the port to connect to.
pub const PORT_GROUP: usize = 3;

/// An IP address as a number, the first byte highest.
#[derive(Debug, Clone, Copy, PartialEq, Eq, Structural)]
pub enum IpAddress {
    V4(u32),
    V6(u128),
}

/// Where a server is.
#[derive(Debug, Clone, Copy, PartialEq, Eq, Structural)]
pub enum ServerAddress {
    V4 { ip: u32, port: u16 },
    V6 { ip: u128, port: u16, flowinfo: u32, scope_id: u32 },
}

impl ServerAddress {
    /// The address with an IP address and a port.
    pub open spec fn at(ip: IpAddress, port: u16) -> ServerAddress {
        match ip {
            IpAddress::V4(ip) => ServerAddress::V4 { ip, port },
            IpAddress::V6(ip) => ServerAddress::V6 { ip, port, flowinfo: 0, scope_id: 0 },
        }
    }

    /// The address with an IP address and a port.
    pub fn new(ip: IpAddress, port: u16) -> (address: ServerAddress)
        ensures
            address == ServerAddress::at(ip, port),
    {
        match ip {
            IpAddress::V4(ip) => ServerAddress::V4 { ip, port },
            IpAddress::V6(ip) => ServerAddress::V6 { ip, port, flowinfo: 0, scope_id: 0 },
        }
    }
}

/// The next step of the search.
#[derive(Debug, Clone, Copy, PartialEq, Eq, Structural)]
pub enum Probe {
    /// Greet the port with this index in [`BROADCAST_PORTS`].
    Greet(usize),
    /// Wait for an answer.
    Listen,
    /// No port could be greeted.
    GiveUp,
}

/// The first step of the search.
pub fn first_probe() -> (probe: Probe)
    ensures
        probe == Probe::Greet(0),
{
    Probe::Greet(0)
}

/// The step after a port was greeted: a greeting that was sent is waited for, and only then no
/// other port is greeted.
pub fn after_greeting(index: usize, sent: bool) -> (probe: Probe)
    requires
        index < BROADCAST_PORTS@.len(),
    ensures
        sent ==> probe == Probe::Listen,
        !sent && index + 1 < BROADCAST_PORTS@.len() ==> probe == Probe::Greet((index + 1) as usize),
        !sent && index + 1 == BROADCAST_PORTS@.len() ==> probe == Probe::GiveUp,
{
    if sent {
        Probe::Listen
    } else if index + 1 < BROADCAST_PORTS.len() {
        Probe::Greet(index + 1)
    } else {
        Probe::GiveUp
    }
}

/// Why no address can be taken from an answer.
#[derive(Debug, PartialEq)]
pub enum DiscoveryError {
    /// The answer is not UTF-8; with the cause.
    Utf8(String),
    /// The form of the answer is not a regular expression; with the cause.
    Pattern(String),
    /// The port in the answer is not a port number.
    Port(NumberError),
}

/// [`DiscoveryError`] as a mathematical value.
pub enum DiscoveryErrorView {
    Utf8(Seq<char>),
    Pattern(Seq<char>),
    Port(NumberError),
}

impl View for DiscoveryError {
    type V = DiscoveryErrorView;

    open spec fn view(&self) -> DiscoveryErrorView {
        match self {
            DiscoveryError::Utf8(cause) => DiscoveryErrorView::Utf8(cause@),
            DiscoveryError::Pattern(cause) => DiscoveryErrorView::Pattern(cause@),
            DiscoveryError::Port(error) => DiscoveryErrorView::Port(*error),
        }
    }
}

/// The server at `from` with the port that was found in its answer, if one was.
pub open spec fn server_at(from: IpAddress, port: Option<Seq<char>>) -> Result<
    Option<ServerAddress>,
    DiscoveryErrorView,
> {
    match port {
        None => Ok(None),
        Some(text) => match decimal_number(encode_utf8(text), u16::MAX as nat) {
            Ok(number) => Ok(Some(ServerAddress::at(from, number as u16))),
            Err(error) => Err(DiscoveryErrorView::Port(error)),
        },
    }
}

/// The server that an answer from `from` announces.
pub open spec fn announced_server(answer: Seq<u8>, from: IpAddress) -> Result<
    Option<ServerAddress>,
    DiscoveryErrorView,
> {
    if !valid_utf8(answer) {
        Err(DiscoveryErrorView::Utf8(utf8_error(answer)))
    } else {
        match captured(BROADCAST_REGEX@, decode_utf8(answer), PORT_GROUP as nat) {
            Err(message) => Err(DiscoveryErrorView::Pattern(message)),
            Ok(port) => server_at(from, port),
        }
    }
}

/// Puts together the address of the server from where the answer came from and the port in it.
pub fn server_with_port(from: IpAddress, port: Option<String>) -> (result: Result<
    Option<ServerAddress>,
    DiscoveryError,
>)
    ensures
        match result {
            Ok(address) => server_at(from, optional_text(port)) is Ok && server_at(
                from,
                optional_text(port),
            )->Ok_0 == address,
            Err(error) => server_at(from, optional_text(port)) is Err && server_at(
                from,
                optional_text(port),
            )->Err_0 == error@,
        },
{
    match port {
        None => Ok(None),
        Some(text) => match read_decimal(text.as_str().as_bytes(), u16::MAX as u64) {
            Ok(number) => Ok(Some(ServerAddress::new(from, number as u16))),
            Err(error) => Err(DiscoveryError::Port(error)),
        },
    }
}

/// Takes the address of the server from its answer.
pub fn calibre_server(answer: &[u8], from: IpAddress) -> (result: Result<
    Option<ServerAddress>,
    DiscoveryError,
>)
    ensures
        match result {
            Ok(address) => announced_server(answer@, from) is Ok && announced_server(
                answer@,
                from,
            )->Ok_0 == address,
            Err(error) => announced_server(answer@, from) is Err && announced_server(
                answer@,
                from,
            )->Err_0 == error@,
        },
{
    match utf8_text(answer) {
        Err(message) => Err(DiscoveryError::Utf8(message)),
        Ok(text) => match capture(BROADCAST_REGEX, text, PORT_GROUP) {
            Err(message) => Err(DiscoveryError::Pattern(message)),
            Ok(port) => server_with_port(from, port),
        },
    }
}

/// The server is where the answer came from, at the port that the answer gives in decimal digits;
/// an answer without a port gives no server, and one that is no port number is refused.
pub proof fn law_server_has_the_announced_port(
    ip: u32,
    long_ip: u128,
    from: IpAddress,
    port: u16,
    text: Seq<char>,
)
    ensures
        encode_utf8(text) == decimal_digits(port as nat) ==> server_at(
            IpAddress::V4(ip),
            Some(text),
        ) == Ok::<Option<ServerAddress>, DiscoveryErrorView>(
            Some(ServerAddress::V4 { ip, port }),
        ),
        encode_utf8(text) == decimal_digits(port as nat) ==> server_at(
            IpAddress::V6(long_ip),
            Some(text),
        ) == Ok::<Option<ServerAddress>, DiscoveryErrorView>(
            Some(ServerAddress::V6 { ip: long_ip, port, flowinfo: 0, scope_id: 0 }),
        ),
        decimal_number(encode_utf8(text), 65535) is Err ==> server_at(from, Some(text)) == Err::<
            Option<ServerAddress>,
            DiscoveryErrorView,
        >(DiscoveryErrorView::Port(decimal_number(encode_utf8(text), 65535)->Err_0)),
        server_at(from, None) == Ok::<Option<ServerAddress>, DiscoveryErrorView>(None),
{
    law_written_number_is_read_back(port as nat, 65535);
}

/// The port is taken from the third part of the form that calibre's answers have, searched for in
/// the whole answer.
pub proof fn law_port_is_taken_from_the_answer(answer: Seq<u8>, from: IpAddress)
    ensures
        !valid_utf8(answer) ==> announced_server(answer, from) == Err::<
            Option<ServerAddress>,
            DiscoveryErrorView,
        >(DiscoveryErrorView::Utf8(utf8_error(answer))),
        valid_utf8(answer) ==> match captured(
            r"calibre wireless device client \(on (.+)\);(\d+),(\d+)"@,
            decode_utf8(answer),
            3,
        ) {
            Ok(port) => announced_server(answer, from) == server_at(from, port),
            Err(message) => announced_server(answer, from) == Err::<
                Option<ServerAddress>,
                DiscoveryErrorView,
            >(DiscoveryErrorView::Pattern(message)),
        },
{
}

} // verus!
