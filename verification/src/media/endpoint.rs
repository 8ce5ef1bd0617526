//! Where the servers are: the gateway behind its URL, and the addresses to try.

use crate::errors::{Error, ProtocolError};
use crate::text::same_text;
use crate::time::Duration;
use tokio_tungstenite::tungstenite::client::IntoClientRequest;
use vstd::prelude::*;

verus! {

/// The time between the first tries of two addresses of the gateway.
pub const WEBSOCKET_ADDRESS_STAGGER_MILLIS: u64 = 125;

/// How long one address of the gateway may take.
pub const WEBSOCKET_ADDRESS_CONNECT_TIMEOUT_SECS: u64 = 5;

/// The parts of a URL that a client request is made of.
pub struct RequestUri {
    pub host: Option<String>,
    pub port: Option<u16>,
    pub scheme: Option<String>,
}

/// The host, the port and the scheme of the client request that a URL makes, or the
/// words of what is wrong with the URL.
pub uninterp spec fn client_request_uri(url: Seq<char>) -> Result<
    (Option<Seq<char>>, Option<u16>, Option<Seq<char>>),
    Seq<char>,
>;

pub open spec fn text_of(text: Option<String>) -> Option<Seq<char>> {
    match text {
        Some(text) => Some(text@),
        None => None,
    }
}

/// `IntoClientRequest::into_client_request` of tungstenite on a URL, and the host, the
/// port and the scheme of the request's URI; where it refuses the URL, its words. What
/// comes out is a function of the URL.
#[verifier::external_body]
fn read_client_request(url: &str) -> (uri: Result<RequestUri, String>)
    ensures
        match uri {
            Ok(uri) => client_request_uri(url@) == Ok::<
                (Option<Seq<char>>, Option<u16>, Option<Seq<char>>),
                Seq<char>,
            >((text_of(uri.host), uri.port, text_of(uri.scheme))),
            Err(words) => client_request_uri(url@) == Err::<
                (Option<Seq<char>>, Option<u16>, Option<Seq<char>>),
                Seq<char>,
            >(words@),
        },
{
    let request = url.into_client_request().map_err(|error| error.to_string())?;
    let uri = request.uri();
    Ok(RequestUri {
        host: uri.host().map(String::from),
        port: uri.port_u16(),
        scheme: uri.scheme_str().map(String::from),
    })
}

/// The port that a scheme stands for.
pub open spec fn scheme_port(scheme: Option<Seq<char>>) -> Option<u16> {
    match scheme {
        Some(name) => if name == "wss"@ {
            Some(443u16)
        } else if name == "ws"@ {
            Some(80u16)
        } else {
            None
        },
        None => None,
    }
}

/// The port of a URI: its own, or the one of its scheme.
pub open spec fn uri_port(port: Option<u16>, scheme: Option<Seq<char>>) -> Option<u16> {
    match port {
        Some(port) => Some(port),
        None => scheme_port(scheme),
    }
}

/// The URL of a voice gateway.
#[derive(Clone, Copy, Debug)]
pub struct VoiceEndpoint<'a> {
    websocket_url: &'a str,
}

impl<'a> VoiceEndpoint<'a> {
    pub closed spec fn url(self) -> Seq<char> {
        self.websocket_url@
    }

    pub fn new(websocket_url: &'a str) -> (endpoint: Self)
        ensures
            endpoint.url() == websocket_url@,
    {
        VoiceEndpoint { websocket_url }
    }

    /// The host and the port to connect to. A URL is refused that makes no request, that
    /// names no host, or that names neither a port nor a WebSocket scheme.
    pub fn host_port(self) -> (result: Result<(String, u16), Error>)
        ensures
            match client_request_uri(self.url()) {
                Err(words) => result matches Err(Error::WebSocket(said)) && said@ == words,
                Ok((host, port, scheme)) => is_host_port(result, host, port, scheme),
            },
    {
        match read_client_request(self.websocket_url) {
            Ok(uri) => uri.host_port(),
            Err(words) => Err(Error::WebSocket(words)),
        }
    }
}

/// Whether that is the host and the port of a URI with those parts.
pub open spec fn is_host_port(
    result: Result<(String, u16), Error>,
    host: Option<Seq<char>>,
    port: Option<u16>,
    scheme: Option<Seq<char>>,
) -> bool {
    match host {
        None => result == Err::<(String, u16), Error>(
            Error::Protocol(ProtocolError::WebSocketUrlMissingHost),
        ),
        Some(host) => match uri_port(port, scheme) {
            None => result == Err::<(String, u16), Error>(
                Error::Protocol(ProtocolError::WebSocketUrlMissingUsableScheme),
            ),
            Some(port) => result matches Ok((named, number)) && named@ == host && number == port,
        },
    }
}

impl RequestUri {
    /// The host and the port of a URI with these parts.
    pub fn host_port(self) -> (result: Result<(String, u16), Error>)
        ensures
            is_host_port(result, text_of(self.host), self.port, text_of(self.scheme)),
    {
        let host = match self.host {
            Some(host) => host,
            None => {
                return Err(Error::Protocol(ProtocolError::WebSocketUrlMissingHost));
            },
        };
        let port: u16 = match self.port {
            Some(port) => port,
            None => match &self.scheme {
                Some(scheme) if same_text(scheme.as_str(), "wss") => 443,
                Some(scheme) if same_text(scheme.as_str(), "ws") => 80,
                _ => {
                    return Err(Error::Protocol(ProtocolError::WebSocketUrlMissingUsableScheme));
                },
            },
        };
        Ok((host, port))
    }
}

/// An IP address, as the number that its bytes are in network order.
#[derive(Clone, Copy, Debug, PartialEq, Eq, Structural)]
pub enum IpAddress {
    V4(u32),
    V6(u128),
}

/// An address to send to. The last two numbers are zero for an IPv4 address.
#[derive(Clone, Copy, Debug, PartialEq, Eq, Structural)]
pub struct SocketAddress {
    pub ip: IpAddress,
    pub port: u16,
    pub flowinfo: u32,
    pub scope_id: u32,
}

impl SocketAddress {
    pub fn is_ipv4(self) -> (answer: bool)
        ensures
            answer == (self.ip is V4),
    {
        match self.ip {
            IpAddress::V4(_) => true,
            IpAddress::V6(_) => false,
        }
    }
}

/// The addresses of one family, each where it first occurs.
pub open spec fn distinct_of_family(addresses: Seq<SocketAddress>, ipv4: bool) -> Seq<
    SocketAddress,
>
    decreases addresses.len(),
{
    if addresses.len() == 0 {
        seq![]
    } else {
        let before = distinct_of_family(addresses.drop_last(), ipv4);
        let address = addresses.last();
        if (address.ip is V4) == ipv4 && !before.contains(address) {
            before.push(address)
        } else {
            before
        }
    }
}

/// The addresses to try: IPv4 first, each once, in the order in which they came.
pub fn ordered_voice_socket_addrs(addresses: Vec<SocketAddress>) -> (ordered: Vec<SocketAddress>)
    ensures
        ordered@ == distinct_of_family(addresses@, true) + distinct_of_family(addresses@, false),
{
    let mut ipv4: Vec<SocketAddress> = Vec::new();
    let mut ipv6: Vec<SocketAddress> = Vec::new();
    let len = addresses.len();
    let mut i: usize = 0;
    while i < len
        invariant
            len == addresses@.len(),
            i <= len,
            ipv4@ == distinct_of_family(addresses@.take(i as int), true),
            ipv6@ == distinct_of_family(addresses@.take(i as int), false),
        decreases len - i,
    {
        let address = addresses[i];
        assert(addresses@.take(i + 1).drop_last() =~= addresses@.take(i as int));
        if address.is_ipv4() {
            if !contains_address(&ipv4, address) {
                ipv4.push(address);
            }
        } else if !contains_address(&ipv6, address) {
            ipv6.push(address);
        }
        i = i + 1;
    }
    assert(addresses@.take(i as int) =~= addresses@);
    ipv4.append(&mut ipv6);
    ipv4
}

fn contains_address(addresses: &Vec<SocketAddress>, address: SocketAddress) -> (answer: bool)
    ensures
        answer == addresses@.contains(address),
{
    let len = addresses.len();
    let mut i: usize = 0;
    while i < len
        invariant
            len == addresses@.len(),
            i <= len,
            forall|j: int| 0 <= j < i ==> #[trigger] addresses@[j] != address,
        decreases len - i,
    {
        if addresses[i] == address {
            return true;
        }
        i = i + 1;
    }
    false
}

/// An address is tried where it came at all, in its own family's part, and once.
pub proof fn law_addresses_are_tried_once(addresses: Seq<SocketAddress>, ipv4: bool)
    ensures
        distinct_of_family(addresses, ipv4).no_duplicates(),
        forall|address: SocketAddress| #[trigger]
            distinct_of_family(addresses, ipv4).contains(address) <==> addresses.contains(address)
                && (address.ip is V4) == ipv4,
    decreases addresses.len(),
{
    let ordered = distinct_of_family(addresses, ipv4);
    if addresses.len() > 0 {
        let before = addresses.drop_last();
        let kept = distinct_of_family(before, ipv4);
        let last = addresses.last();
        law_addresses_are_tried_once(before, ipv4);
        assert(addresses =~= before.push(last));
        assert forall|address: SocketAddress| #[trigger] ordered.contains(address) implies
            addresses.contains(address) && (address.ip is V4) == ipv4 by {
            let i = choose|i: int| 0 <= i < ordered.len() && ordered[i] == address;
            if i < kept.len() {
                assert(kept[i] == address);
                assert(kept.contains(address));
                let j = choose|j: int| 0 <= j < before.len() && before[j] == address;
                assert(addresses[j] == address);
            } else {
                assert(addresses[before.len() as int] == address);
            }
        }
        assert forall|address: SocketAddress|
            addresses.contains(address) && (address.ip is V4) == ipv4 implies
            #[trigger] ordered.contains(address) by {
            if kept.contains(address) {
                let i = choose|i: int| 0 <= i < kept.len() && kept[i] == address;
                assert(ordered[i] == address);
            } else {
                let j = choose|j: int| 0 <= j < addresses.len() && addresses[j] == address;
                if j < before.len() {
                    assert(before[j] == address);
                    assert(before.contains(address));
                }
                assert(ordered[kept.len() as int] == address);
            }
        }
        assert(ordered.no_duplicates()) by {
            if ordered.len() > kept.len() {
                assert(forall|i: int| 0 <= i < kept.len() ==> #[trigger] kept[i] != last) by {
                    if exists|i: int| 0 <= i < kept.len() && kept[i] == last {
                        assert(kept.contains(last));
                    }
                }
                assert(forall|i: int| 0 <= i < kept.len() ==> #[trigger] ordered[i] == kept[i]);
            }
        }
    } else {
        assert forall|address: SocketAddress| !(#[trigger] ordered.contains(address)) by {}
    }
}

/// How long after the first the address at `index` is tried.
pub fn websocket_attempt_delay(index: u32) -> (delay: Duration)
    ensures
        delay == Duration::millis((125 * index) as u64),
{
    Duration::from_millis(WEBSOCKET_ADDRESS_STAGGER_MILLIS * (index as u64))
}

/// The tries of the addresses of a gateway, and the words of those that failed.
pub struct AddressAttempts {
    pub host: String,
    pub port: u16,
    pub addresses: Vec<SocketAddress>,
    pub errors: Vec<String>,
}

impl AddressAttempts {
    /// Takes what the host was resolved to. There must be an address.
    pub fn new(host: String, port: u16, resolved: Vec<SocketAddress>) -> (attempts: Result<
        Self,
        Error,
    >)
        ensures
            if resolved@.len() == 0 {
                attempts == Err::<Self, Error>(
                    Error::Protocol(ProtocolError::WebSocketEndpointNoAddresses { host, port }),
                )
            } else {
                &&& attempts matches Ok(attempts)
                &&& attempts.host == host
                &&& attempts.port == port
                &&& attempts.addresses@ == distinct_of_family(resolved@, true)
                    + distinct_of_family(resolved@, false)
                &&& attempts.addresses@.len() > 0
                &&& attempts.errors@.len() == 0
            },
    {
        let ghost all = resolved@;
        let addresses = ordered_voice_socket_addrs(resolved);
        proof {
            if all.len() > 0 {
                let ipv4 = all[0].ip is V4;
                law_addresses_are_tried_once(all, ipv4);
                assert(all.contains(all[0]));
                assert(distinct_of_family(all, ipv4).contains(all[0]));
            }
        }
        if addresses.len() == 0 {
            return Err(Error::Protocol(ProtocolError::WebSocketEndpointNoAddresses { host, port }));
        }
        Ok(AddressAttempts { host, port, addresses, errors: Vec::new() })
    }

    pub fn time_limit() -> (limit: Duration)
        ensures
            limit == Duration::secs(WEBSOCKET_ADDRESS_CONNECT_TIMEOUT_SECS),
    {
        Duration::from_secs(WEBSOCKET_ADDRESS_CONNECT_TIMEOUT_SECS)
    }

    /// What comes of one try, which may have taken too long.
    pub fn outcome<T>(address: String, outcome: Option<Result<T, Error>>) -> (result: Result<
        T,
        Error,
    >)
        ensures
            result == (match outcome {
                Some(result) => result,
                None => Err::<T, Error>(
                    Error::Protocol(
                        ProtocolError::WebSocketAddressConnectTimeout {
                            address,
                            duration: Duration::secs(WEBSOCKET_ADDRESS_CONNECT_TIMEOUT_SECS),
                        },
                    ),
                ),
            }),
    {
        match outcome {
            Some(result) => result,
            None => Err(
                Error::Protocol(
                    ProtocolError::WebSocketAddressConnectTimeout {
                        address,
                        duration: Self::time_limit(),
                    },
                ),
            ),
        }
    }

    /// Keeps the words of a try that failed.
    pub fn failed(&mut self, error: &Error)
        ensures
            final(self).host == old(self).host,
            final(self).port == old(self).port,
            final(self).addresses == old(self).addresses,
            final(self).errors@.len() == old(self).errors@.len() + 1,
            final(self).errors@.drop_last() == old(self).errors@,
            final(self).errors@.last()@ == error.words(),
    {
        self.errors.push(error.message());
        assert(self.errors@.drop_last() =~= old(self).errors@);
    }

    /// The error where every try failed.
    pub fn all_failed(self) -> (error: Error)
        ensures
            error == Error::Protocol(
                ProtocolError::WebSocketAllAddressesFailed {
                    host: self.host,
                    port: self.port,
                    address_count: self.addresses@.len() as usize,
                    errors: self.errors,
                },
            ),
    {
        Error::Protocol(
            ProtocolError::WebSocketAllAddressesFailed {
                host: self.host,
                port: self.port,
                address_count: self.addresses.len(),
                errors: self.errors,
            },
        )
    }
}

/// The server that media is exchanged with.
#[derive(Clone, Copy, Debug, PartialEq, Eq, Structural)]
pub struct VoiceUdpRemote {
    pub ip: IpAddress,
}

impl VoiceUdpRemote {
    pub fn new(ip: IpAddress) -> (remote: Self)
        ensures
            remote.ip == ip,
    {
        VoiceUdpRemote { ip }
    }

    /// The local address to bind: any port of any address of the server's family.
    pub fn bind_addr(self) -> (address: SocketAddress)
        ensures
            address == (SocketAddress {
                ip: match self.ip {
                    IpAddress::V4(_) => IpAddress::V4(0),
                    IpAddress::V6(_) => IpAddress::V6(0),
                },
                port: 0,
                flowinfo: 0,
                scope_id: 0,
            }),
    {
        SocketAddress {
            ip: match self.ip {
                IpAddress::V4(_) => IpAddress::V4(0),
                IpAddress::V6(_) => IpAddress::V6(0),
            },
            port: 0,
            flowinfo: 0,
            scope_id: 0,
        }
    }
}

/// What came first is tried first: addresses that came later change nothing of the order of
/// those before them.
pub proof fn law_addresses_keep_their_order(
    first: Seq<SocketAddress>,
    more: Seq<SocketAddress>,
    ipv4: bool,
)
    ensures
        distinct_of_family(first, ipv4).is_prefix_of(distinct_of_family(first + more, ipv4)),
    decreases more.len(),
{
    if more.len() == 0 {
        assert(first + more =~= first);
    } else {
        law_addresses_keep_their_order(first, more.drop_last(), ipv4);
        assert((first + more).drop_last() =~= first + more.drop_last());
    }
}

/// A port that is named is taken, and the scheme stands in for one that is not.
pub proof fn law_ports_by_scheme(port: u16, scheme: Option<Seq<char>>, name: Seq<char>)
    ensures
        uri_port(Some(port), scheme) == Some(port),
        uri_port(None, Some(name)) == Some(443u16) <==> name == "wss"@,
        uri_port(None, Some(name)) == Some(80u16) <==> name == "ws"@,
        uri_port(None, Some(name)) is Some ==> name == "wss"@ || name == "ws"@,
        uri_port(None, None) is None,
{
    reveal_strlit("wss");
    reveal_strlit("ws");
    assert("wss"@.len() != "ws"@.len());
}

} // verus!
