//! Transport-native peer addressing.

use crate::text::{
    ParseU16Error, append_decimal, decimal, decimal_is_read_as_u16, decimal_reads_back, is_digit,
    parse_u16, split_at_last_colon, split_joins_back, split_last_colon, split_of_joined, u16_of,
};
use vstd::prelude::*;

verus! {

/// `String::from` on a `&str`: the string holds the characters of the slice.
pub assume_specification<'a>[ <String as From<&'a str>>::from ](s: &str) -> (string: String)
    ensures
        string@ == s@,
;

/// `From` of a type for itself: the value comes back unchanged. With it, an address
/// made from an owned host name has that very name.
pub assume_specification<Anything>[ <Anything as From<Anything>>::from ](t: Anything) -> (same:
    Anything)
    ensures
        same == t,
;

/// Transport-native address of a tor peer: a `.onion` hostname and port,
/// obtained out of band, opaque to consumers. Shared by every Tor backend.
///
/// Its view is the pair of the hostname and the port.
#[derive(Debug, Clone, PartialEq, Eq)]
pub struct OnionAddr {
    host: String,
    port: u16,
}

impl View for OnionAddr {
    type V = (Seq<char>, u16);

    closed spec fn view(&self) -> (Seq<char>, u16) {
        (self.host@, self.port)
    }
}

/// Failure to parse an [`OnionAddr`] from its `host:port` text form.
#[derive(Debug, Clone, PartialEq, Eq)]
pub struct ParseOnionAddrError;

/// The `host:port` text form of an address.
pub open spec fn addr_text(addr: (Seq<char>, u16)) -> Seq<char> {
    addr.0 + seq![':'] + decimal(addr.1 as nat)
}

/// The address that a `host:port` text denotes, if it denotes one: the port is
/// what follows the last colon, the host is what precedes it and is not empty.
pub open spec fn addr_of(text: Seq<char>) -> Option<(Seq<char>, u16)> {
    match split_at_last_colon(text) {
        None => None,
        Some((host, port)) => match u16_of(port) {
            Ok(number) if host.len() > 0 => Some((host, number)),
            _ => None,
        },
    }
}

impl OnionAddr {
    /// An onion address from its hostname (`<56 chars>.onion`) and port.
    pub fn new<H: Into<String>>(host: H, port: u16) -> (addr: Self)
        ensures
            exists|name: String| #[trigger]
                call_ensures(<H as Into<String>>::into, (host,), name) && addr@ == (name@, port),
    {
        let name: String = host.into();
        let addr = Self { host: name, port };
        assert(call_ensures(<H as Into<String>>::into, (host,), addr.host));
        addr
    }

    /// The `.onion` hostname.
    pub fn host(&self) -> (host: &str)
        ensures
            host@ == self@.0,
    {
        self.host.as_str()
    }

    /// The virtual port on the onion service.
    pub fn port(&self) -> (port: u16)
        ensures
            port == self@.1,
    {
        self.port
    }

    /// The `host:port` text form.
    pub fn to_string(&self) -> (text: String)
        ensures
            text@ == addr_text(self@),
    {
        let mut text = self.host.clone();
        proof {
            reveal_strlit(":");
        }
        text.append(":");
        assert(text@ =~= self@.0 + seq![':']);
        append_decimal(&mut text, self.port as u64);
        text
    }

    /// Parses the `host:port` text form. The split takes the last colon, so the
    /// port is whatever follows the final `:`.
    pub fn parse(text: &str) -> (parsed: Result<Self, ParseOnionAddrError>)
        ensures
            parsed is Ok <==> addr_of(text@) is Some,
            parsed matches Ok(addr) ==> addr_of(text@) == Some(addr@),
    {
        match split_last_colon(text) {
            None => Err(ParseOnionAddrError),
            Some((host, port)) => {
                if host.is_empty() {
                    return Err(ParseOnionAddrError);
                }
                match parse_u16(port) {
                    Ok(number) => Ok(Self::new(host, number)),
                    Err(_) => Err(ParseOnionAddrError),
                }
            },
        }
    }
}

impl ParseOnionAddrError {
    /// The message for people.
    pub fn to_string(&self) -> (text: String)
        ensures
            text@ == "expected an onion address of the form host:port"@,
    {
        "expected an onion address of the form host:port".to_owned()
    }
}

impl std::str::FromStr for OnionAddr {
    type Err = ParseOnionAddrError;

    fn from_str(s: &str) -> (parsed: Result<Self, Self::Err>)
        ensures
            parsed is Ok <==> addr_of(s@) is Some,
            parsed matches Ok(addr) ==> addr_of(s@) == Some(addr@),
    {
        Self::parse(s)
    }
}

/// Parsing undoes printing: an address with a host survives a round trip across
/// a text boundary.
pub proof fn parse_undoes_to_string(addr: (Seq<char>, u16))
    requires
        addr.0.len() > 0,
    ensures
        addr_of(addr_text(addr)) == Some(addr),
{
    let port = decimal(addr.1 as nat);
    decimal_reads_back(addr.1 as nat);
    assert forall|j: int| 0 <= j < port.len() implies port[j] != ':' by {
        assert(is_digit(port[j]));
    }
    split_of_joined(addr.0, port);
    decimal_is_read_as_u16(addr.1);
}

/// Whatever is accepted has a host, and printing it gives a text that denotes
/// the same address.
pub proof fn to_string_of_parsed_is_parsed_alike(text: Seq<char>)
    requires
        addr_of(text) is Some,
    ensures
        addr_of(text) matches Some(addr) && addr.0.len() > 0 && addr_of(addr_text(addr)) == Some(
            addr,
        ),
{
    parse_undoes_to_string(addr_of(text)->0);
}

/// The text form is the host, a colon and the port in base ten, each as it is.
pub proof fn addr_text_is_host_colon_port(addr: (Seq<char>, u16))
    ensures
        addr_text(addr).take(addr.0.len() as int) == addr.0,
        addr_text(addr)[addr.0.len() as int] == ':',
        addr_text(addr).skip(addr.0.len() as int + 1) == decimal(addr.1 as nat),
{
    assert(addr_text(addr).take(addr.0.len() as int) =~= addr.0);
    assert(addr_text(addr).skip(addr.0.len() as int + 1) =~= decimal(addr.1 as nat));
}

/// A text denotes an address exactly if it is a host that is not empty, a colon and a
/// port without a colon in it that is read as a number; and the address is these.
pub proof fn addr_of_is_host_colon_port(text: Seq<char>)
    ensures
        addr_of(text) matches Some((host, number)) ==> host.len() > 0 && exists|port: Seq<char>|
            !port.contains(':') && #[trigger] u16_of(port) == Ok::<u16, ParseU16Error>(number)
                && text == host + seq![':'] + port,
        forall|host: Seq<char>, port: Seq<char>|
            host.len() > 0 && !port.contains(':') && u16_of(port) is Ok ==> #[trigger] addr_of(
                host + seq![':'] + port,
            ) == Some((host, u16_of(port)->Ok_0)),
{
    split_joins_back(text);
    if let Some((host, port)) = split_at_last_colon(text) {
        assert(u16_of(port) is Ok || u16_of(port) is Err);
    }
    assert forall|host: Seq<char>, port: Seq<char>|
        host.len() > 0 && !port.contains(':') && u16_of(port) is Ok implies #[trigger] addr_of(
        host + seq![':'] + port,
    ) == Some((host, u16_of(port)->Ok_0)) by {
        assert forall|j: int| 0 <= j < port.len() implies port[j] != ':' by {
            assert(port.contains(port[j]));
        }
        split_of_joined(host, port);
    }
}

} // verus!
