//! Multiaddresses: self-describing network addresses, held in their binary form.

use vstd::prelude::*;
use vstd::string::StringSliceAdditionalSpecFns;
use vstd::utf8::valid_utf8;
use crate::bytes::{bytes_copy, bytes_equal};

verus! {

/// The binary form that `multiaddr`'s `FromStr` implementation gives to the text
/// with the given UTF-8 bytes; `None` where that parser refuses the text.
pub uninterp spec fn multiaddr_encoding(text: Seq<u8>) -> Option<Seq<u8>>;

/// The text that `multiaddr`'s `Display` implementation prints for the address
/// with the given binary form; `None` where `TryFrom<Vec<u8>>` refuses the bytes.
pub uninterp spec fn multiaddr_text(bytes: Seq<u8>) -> Option<Seq<char>>;

/// Runs `std::str::from_utf8`, which by its documentation gives the bytes as a
/// string slice if they are valid UTF-8 and an error if they are not.
#[verifier::external_body]
pub(crate) fn utf8_text(bytes: &[u8]) -> (r: Option<&str>)
    ensures
        r is Some <==> valid_utf8(bytes@),
        r matches Some(s) ==> s.spec_bytes() == bytes@,
{
    std::str::from_utf8(bytes).ok()
}

/// Runs `<libp2p::Multiaddr as std::str::FromStr>::from_str` on the text and hands
/// back the bytes of the parsed address. Nothing is proved of the parser: its
/// answer is only given the name `multiaddr_encoding`.
#[verifier::external_body]
fn encode_text(text: &str) -> (r: Option<Vec<u8>>)
    ensures
        r is Some <==> multiaddr_encoding(text.spec_bytes()) is Some,
        r matches Some(b) ==> multiaddr_encoding(text.spec_bytes()) == Some(b@),
{
    match text.parse::<libp2p::Multiaddr>() {
        Ok(m) => Some(m.to_vec()),
        Err(_) => None,
    }
}

/// Runs `<libp2p::Multiaddr as TryFrom<Vec<u8>>>::try_from` on the bytes and prints
/// the address with its `Display` implementation. Nothing is proved of either: the
/// answer is only given the name `multiaddr_text`.
#[verifier::external_body]
fn render_bytes(bytes: &Vec<u8>) -> (r: Option<String>)
    ensures
        r is Some <==> multiaddr_text(bytes@) is Some,
        r matches Some(t) ==> multiaddr_text(bytes@) == Some(t@),
{
    match libp2p::Multiaddr::try_from(bytes.clone()) {
        Ok(m) => Some(m.to_string()),
        Err(_) => None,
    }
}

/// Code of the `ip4` protocol in a binary multiaddress.
pub const CODE_IP4: u8 = 4;

/// Code of the `ip6` protocol in a binary multiaddress.
pub const CODE_IP6: u8 = 41;

/// Code of the `tcp` protocol in a binary multiaddress.
pub const CODE_TCP: u8 = 6;

/// What parsing the bytes of a text yields: the parser's answer, except that
/// the empty text names no address, nor do bytes that are no UTF-8.
pub open spec fn parse_model(text: Seq<u8>) -> Option<Seq<u8>> {
    if text.len() == 0 || !valid_utf8(text) {
        None
    } else {
        multiaddr_encoding(text)
    }
}

/// Whether a binary multiaddress is a TCP port on an IPv4 or IPv6 host and
/// nothing else: the only protocol stack the engine can listen on.
pub open spec fn tcp_over_ip(bytes: Seq<u8>) -> bool {
    ||| bytes.len() == 8 && bytes[0] == CODE_IP4 && bytes[5] == CODE_TCP
    ||| bytes.len() == 20 && bytes[0] == CODE_IP6 && bytes[17] == CODE_TCP
}

/// A network address as a stack of protocols, in binary form.
#[derive(Debug, PartialEq, Eq)]
pub struct Multiaddr {
    bytes: Vec<u8>,
}

impl View for Multiaddr {
    type V = Seq<u8>;

    closed spec fn view(&self) -> Seq<u8> {
        self.bytes@
    }
}

impl Clone for Multiaddr {
    fn clone(&self) -> (r: Self)
        ensures
            r@ == self@,
    {
        Multiaddr { bytes: bytes_copy(self.bytes.as_slice()) }
    }
}

impl Multiaddr {
    /// Parses an address from text such as `/ip4/127.0.0.1/tcp/80`. One segment
    /// that the parser refuses makes the whole text unparseable.
    pub fn parse(text: &str) -> (r: Option<Multiaddr>)
        ensures
            r is Some <==> parse_model(text.spec_bytes()) is Some,
            r matches Some(m) ==> parse_model(text.spec_bytes()) == Some(m@),
    {
        Multiaddr::parse_utf8(text.as_bytes())
    }

    /// Parses an address from the bytes of its text. Bytes that are no UTF-8 are
    /// no address.
    pub fn parse_utf8(text: &[u8]) -> (r: Option<Multiaddr>)
        ensures
            r is Some <==> parse_model(text@) is Some,
            r matches Some(m) ==> parse_model(text@) == Some(m@),
    {
        if text.len() == 0 {
            return None;
        }
        match utf8_text(text) {
            Some(s) => match encode_text(s) {
                Some(bytes) => Some(Multiaddr { bytes }),
                None => None,
            },
            None => None,
        }
    }

    /// Takes an address in binary form, if the bytes are one. Like the empty
    /// text, no bytes are no address.
    pub fn from_bytes(bytes: Vec<u8>) -> (r: Option<Multiaddr>)
        ensures
            r is Some <==> bytes@.len() > 0 && multiaddr_text(bytes@) is Some,
            r matches Some(m) ==> m@ == bytes@,
    {
        if bytes.len() == 0 {
            return None;
        }
        match render_bytes(&bytes) {
            Some(_) => Some(Multiaddr { bytes }),
            None => None,
        }
    }

    /// The binary form.
    pub fn to_bytes(&self) -> (r: Vec<u8>)
        ensures
            r@ == self@,
    {
        bytes_copy(self.bytes.as_slice())
    }

    /// The address as text, or `None` if its bytes are no address.
    pub fn to_text(&self) -> (r: Option<String>)
        ensures
            r is Some <==> multiaddr_text(self@) is Some,
            r matches Some(t) ==> multiaddr_text(self@) == Some(t@),
    {
        render_bytes(&self.bytes)
    }

    /// Whether both are the same address.
    pub fn same(&self, other: &Multiaddr) -> (r: bool)
        ensures
            r == (self@ == other@),
    {
        bytes_equal(self.bytes.as_slice(), other.bytes.as_slice())
    }

    /// Whether the engine can listen on this address.
    pub fn is_tcp_over_ip(&self) -> (r: bool)
        ensures
            r == tcp_over_ip(self@),
    {
        let n = self.bytes.len();
        if n == 8 {
            self.bytes[0] == CODE_IP4 && self.bytes[5] == CODE_TCP
        } else if n == 20 {
            self.bytes[0] == CODE_IP6 && self.bytes[17] == CODE_TCP
        } else {
            false
        }
    }
}

} // verus!
