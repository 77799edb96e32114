//! Discover one or multiple bridges on a local network with a variety of
//! protocols.
//!
//! Three interchangeable strategies stand behind one broker: local-multicast
//! lookup, the vendor's cloud discovery endpoint, and a manually entered
//! address. When in doubt, prioritize multicast, then the endpoint, then
//! manual; that fallback order is the caller's policy, not the broker's.
//! The endpoint carries an advisory rate limit — the caller must not invoke
//! it more than once per fifteen minutes; nothing here throttles.
//!
//! Each strategy's decision logic is verified over the data the caller
//! fetched: the multicast strategy consumes the first response batch and
//! extracts the first IPv4 address of its address records, the endpoint
//! strategy decodes the response body, and the manual strategy performs no
//! network exchange at all.

use crate::addr::Ipv4Addr;
use crate::error::Error;
use crate::resources::bridge::{sp_bridges_str, UnauthBridge, UnauthBridges};
use vstd::prelude::*;

verus! {

/// An address record of a multicast response, as far as discovery reads it:
/// an IPv4 address, an IPv6 address, or some other record. Only IPv4
/// addresses are actionable; IPv6 addresses are ignored rather than
/// miscoded.
#[derive(Debug, Clone, Copy, PartialEq, Eq, Structural)]
pub enum DnsRecord {
    A(Ipv4Addr),
    Aaaa,
    Other,
}

/// The first IPv4 address among the records, if any.
pub open spec fn first_v4(rs: Seq<DnsRecord>) -> Option<Ipv4Addr>
    decreases rs.len(),
{
    if rs.len() == 0 {
        None
    } else {
        match rs[0] {
            DnsRecord::A(ip) => Some(ip),
            _ => first_v4(rs.drop_first()),
        }
    }
}

/// Discovers bridges on the local network through multicast DNS, consuming
/// only the first received response batch. Devices that answer later are
/// missed: a caller wanting exhaustive local discovery repeats the call.
#[derive(Debug)]
pub struct Mdns;

impl Mdns {
    /// Decides discovery from the first response batch the caller received
    /// within the wait window: the batch's address records, an error of the
    /// multicast subsystem, or nothing at all. No response is no error — it
    /// yields an empty set. A found address yields one device with that
    /// address, port 443 and no id.
    #[verifier::loop_isolation(false)]
    pub fn discover(&self, first_response: Option<Result<Vec<DnsRecord>, Error>>) -> (r: Result<
        UnauthBridges,
        Error,
    >)
        ensures
            (match first_response {
                None => r matches Ok(bs) && bs.0@.len() == 0,
                Some(Err(e)) => r matches Err(e2) && e2 == e,
                Some(Ok(records)) => r matches Ok(bs) && (match first_v4(records@) {
                    Some(ip) => bs.0@.len() == 1 && bs.0@[0].id is None && bs.0@[0].ip == ip
                        && bs.0@[0].port == 443,
                    None => bs.0@.len() == 0,
                }),
            }),
    {
        match first_response {
            None => Ok(UnauthBridges(Vec::new())),
            Some(Err(e)) => Err(e),
            Some(Ok(records)) => {
                let mut bridges: Vec<UnauthBridge> = Vec::new();
                let n = records.len();
                let mut j: usize = 0;
                proof {
                    assert(records@.subrange(0, n as int) =~= records@);
                }
                while j < n
                    invariant
                        j <= n,
                        n == records@.len(),
                        bridges@.len() == 0,
                        first_v4(records@) == first_v4(records@.subrange(j as int, n as int)),
                    decreases n - j,
                {
                    proof {
                        assert(records@.subrange(j as int, n as int)[0] == records@[j as int]);
                        assert(records@.subrange(j as int, n as int).drop_first()
                            =~= records@.subrange(j + 1 as int, n as int));
                    }
                    match records[j] {
                        DnsRecord::A(ip) => {
                            proof {
                                assert(first_v4(records@.subrange(j as int, n as int)) == Some(
                                    ip,
                                ));
                            }
                            bridges.push(UnauthBridge { id: None, ip, port: 443 });
                            return Ok(UnauthBridges(bridges));
                        },
                        _ => {},
                    }
                    j += 1;
                }
                proof {
                    assert(records@.subrange(n as int, n as int).len() == 0);
                }
                Ok(UnauthBridges(bridges))
            },
        }
    }
}

/// Discovery through the vendor's cloud endpoint. Advisory rate limit: the
/// caller must not invoke it more than once per fifteen minutes.
#[derive(Debug)]
pub struct DiscoveryEndpoint;

impl DiscoveryEndpoint {
    /// Decides discovery from the endpoint's response: the body it
    /// returned, or the error the request ended in. A body that is no
    /// response array is a decode error; one that is yields its devices in
    /// response order.
    pub fn discover(&self, response: Result<String, Error>) -> (r: Result<UnauthBridges, Error>)
        ensures
            response matches Err(e) ==> r matches Err(e2) && e2 == e,
            response matches Ok(body) ==> (match sp_bridges_str(body@) {
                Some(q) => r matches Ok(bs) && bs.0@.len() == q.len() && (forall|k: int|
                    0 <= k < q.len() ==> (#[trigger] bs.0@[k])@ == q[k]),
                None => r matches Err(e2) && e2 matches Error::Decode(_),
            }),
    {
        match response {
            Err(e) => Err(e),
            Ok(body) => match UnauthBridges::decode(body.as_str()) {
                Some(bs) => Ok(bs),
                None => Err(
                    Error::Decode(String::from_str("the discovery response did not decode")),
                ),
            },
        }
    }
}

/// Manual discovery: a caller-supplied IPv4 address, no network exchange.
#[derive(Debug)]
pub struct Manual(pub Ipv4Addr);

impl Manual {
    /// Always succeeds immediately: one device at the given address, port
    /// 443, no id, deterministically and with no side effect.
    pub fn discover(&self) -> (r: Result<UnauthBridge, Error>)
        ensures
            r matches Ok(b) && b.id is None && b.ip == self.0 && b.port == 443,
    {
        Ok(UnauthBridge { id: None, ip: self.0, port: 443 })
    }
}

/// Broker binding exactly one discovery strategy, chosen at construction
/// and immutable thereafter, so that a caller selects a protocol once and
/// threads a single concrete type through its program. No retries, no
/// caching, no protocol fallback.
#[derive(Debug)]
pub struct DiscoveryBroker<D> {
    pub discoverer: D,
}

impl DiscoveryBroker<Mdns> {
    /// A broker using the multicast protocol.
    pub fn mdns() -> (r: Self)
        ensures
            r.discoverer == Mdns,
    {
        DiscoveryBroker { discoverer: Mdns }
    }

    /// Discovery by the bound multicast strategy.
    pub fn discover(&self, first_response: Option<Result<Vec<DnsRecord>, Error>>) -> (r: Result<
        UnauthBridges,
        Error,
    >)
        ensures
            (match first_response {
                None => r matches Ok(bs) && bs.0@.len() == 0,
                Some(Err(e)) => r matches Err(e2) && e2 == e,
                Some(Ok(records)) => r matches Ok(bs) && (match first_v4(records@) {
                    Some(ip) => bs.0@.len() == 1 && bs.0@[0].id is None && bs.0@[0].ip == ip
                        && bs.0@[0].port == 443,
                    None => bs.0@.len() == 0,
                }),
            }),
    {
        self.discoverer.discover(first_response)
    }
}

impl DiscoveryBroker<DiscoveryEndpoint> {
    /// A broker using the cloud discovery endpoint. Advisory rate limit:
    /// at most one request per fifteen minutes, on the caller.
    pub fn discovery_endpoint() -> (r: Self)
        ensures
            r.discoverer == DiscoveryEndpoint,
    {
        DiscoveryBroker { discoverer: DiscoveryEndpoint }
    }

    /// Discovery by the bound endpoint strategy.
    pub fn discover(&self, response: Result<String, Error>) -> (r: Result<UnauthBridges, Error>)
        ensures
            response matches Err(e) ==> r matches Err(e2) && e2 == e,
            response matches Ok(body) ==> (match sp_bridges_str(body@) {
                Some(q) => r matches Ok(bs) && bs.0@.len() == q.len() && (forall|k: int|
                    0 <= k < q.len() ==> (#[trigger] bs.0@[k])@ == q[k]),
                None => r matches Err(e2) && e2 matches Error::Decode(_),
            }),
    {
        self.discoverer.discover(response)
    }
}

impl DiscoveryBroker<Manual> {
    /// A broker connecting straight to the given address.
    pub fn manual(ip: Ipv4Addr) -> (r: Self)
        ensures
            r.discoverer == (Manual(ip)),
    {
        DiscoveryBroker { discoverer: Manual(ip) }
    }

    /// Discovery by the bound manual strategy: always the one device.
    pub fn discover(&self) -> (r: Result<UnauthBridge, Error>)
        ensures
            r matches Ok(b) && b.id is None && b.ip == self.discoverer.0 && b.port == 443,
    {
        self.discoverer.discover()
    }
}

impl From<Ipv4Addr> for DiscoveryBroker<Manual> {
    fn from(ip: Ipv4Addr) -> (r: Self)
        ensures
            r.discoverer == (Manual(ip)),
    {
        DiscoveryBroker { discoverer: Manual(ip) }
    }
}

impl vstd::std_specs::convert::FromSpecImpl<Ipv4Addr> for DiscoveryBroker<Manual> {
    open spec fn obeys_from_spec() -> bool {
        true
    }

    open spec fn from_spec(ip: Ipv4Addr) -> Self {
        DiscoveryBroker { discoverer: Manual(ip) }
    }
}

impl core::str::FromStr for DiscoveryBroker<Manual> {
    type Err = Error;

    /// Reads a dotted-quad address into a manual broker; anything else is
    /// an address-parse error.
    fn from_str(s: &str) -> (r: Result<Self, Error>) {
        match Ipv4Addr::parse(s) {
            Some(ip) => Ok(DiscoveryBroker { discoverer: Manual(ip) }),
            None => Err(Error::AddrParse),
        }
    }
}


} // verus!
