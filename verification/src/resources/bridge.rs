//! Bridge handles through their authentication states.
//!
//! A bridge starts as an [`UnauthBridge`]: a network location, possibly with
//! a discovered id. Authentication turns it into a [`Bridge`] by reading the
//! device's configuration; on failure the original handle is returned
//! unchanged beside the error, so the caller can retry or discard it. Batch
//! authentication applies the same transition to a whole set without letting
//! one device's failure abort the others'. Key issuance then populates the
//! bridge's application key from the device's response.
//!
//! The network exchanges themselves are the caller's: each transition takes
//! the outcome of the exchange it depends on and is verified for every such
//! outcome.

use crate::addr::{ipv4_rep, push_ipv4, sp_ipv4, Ipv4Addr};
use crate::codec::{
    chars_to_string, enc_bool, enc_field, enc_opt_field, enc_str, json_safe, lemma_bool_at,
    lemma_field_at, lemma_lit_at, lemma_string_at, match_lit, parse_bool, parse_field,
    parse_string, push_bool,
    push_chars, push_quoted, sp_bool, sp_field, sp_lit, sp_opt_field, sp_string,
    sp_uint, parse_uint,
};
use crate::error::{AuthFailed, AuthResults, Error};
use crate::error::{sp_first_outcome, GenKeyResult, GenKeyResultV};
use crate::session::Session;
use vstd::prelude::*;

verus! {

/// The contents of an optional string, seen from a specification.
pub open spec fn view_opt_string(o: Option<String>) -> Option<Seq<char>> {
    match o {
        Some(s) => Some(s@),
        None => None,
    }
}

// ---------------------------------------------------------------------------
// Unauthenticated handles
// ---------------------------------------------------------------------------

/// A device known only by network location, before any credential exchange.
/// The id is populated only when the discovery source supplied one.
#[derive(Debug, Clone, PartialEq, Eq)]
pub struct UnauthBridge {
    pub id: Option<String>,
    pub ip: Ipv4Addr,
    pub port: u16,
}

pub struct UnauthBridgeV {
    pub id: Option<Seq<char>>,
    pub ip: Ipv4Addr,
    pub port: u16,
}

impl View for UnauthBridge {
    type V = UnauthBridgeV;

    open spec fn view(&self) -> UnauthBridgeV {
        UnauthBridgeV { id: view_opt_string(self.id), ip: self.ip, port: self.port }
    }
}

/// The devices one discovery call produced, in discovery response order.
#[derive(Debug)]
pub struct UnauthBridges(pub Vec<UnauthBridge>);

impl Default for UnauthBridges {
    fn default() -> (r: Self)
        ensures
            r.0@.len() == 0,
    {
        UnauthBridges(Vec::new())
    }
}

// ---------------------------------------------------------------------------
// The configuration snapshot and its wire codec
// ---------------------------------------------------------------------------

/// Metadata fetched from a device at authentication time, kept as a
/// snapshot. `bridgeid` is the stable device id used as the canonical
/// identity from then on.
#[derive(Debug, Clone, PartialEq, Eq)]
pub struct BridgeConfig {
    pub name: String,
    pub datastoreversion: String,
    pub swversion: String,
    pub apiversion: String,
    pub mac: String,
    pub bridgeid: String,
    pub factorynew: bool,
    pub replacebridgeid: Option<String>,
    pub modelid: String,
    pub starterkitid: Option<String>,
}

pub struct BridgeConfigV {
    pub name: Seq<char>,
    pub datastoreversion: Seq<char>,
    pub swversion: Seq<char>,
    pub apiversion: Seq<char>,
    pub mac: Seq<char>,
    pub bridgeid: Seq<char>,
    pub factorynew: bool,
    pub replacebridgeid: Option<Seq<char>>,
    pub modelid: Seq<char>,
    pub starterkitid: Option<Seq<char>>,
}

impl View for BridgeConfig {
    type V = BridgeConfigV;

    open spec fn view(&self) -> BridgeConfigV {
        BridgeConfigV {
            name: self.name@,
            datastoreversion: self.datastoreversion@,
            swversion: self.swversion@,
            apiversion: self.apiversion@,
            mac: self.mac@,
            bridgeid: self.bridgeid@,
            factorynew: self.factorynew,
            replacebridgeid: view_opt_string(self.replacebridgeid),
            modelid: self.modelid@,
            starterkitid: view_opt_string(self.starterkitid),
        }
    }
}

/// Holds when a configuration's strings can stand unescaped in the wire
/// text.
pub open spec fn config_safe(c: BridgeConfigV) -> bool {
    &&& json_safe(c.name)
    &&& json_safe(c.datastoreversion)
    &&& json_safe(c.swversion)
    &&& json_safe(c.apiversion)
    &&& json_safe(c.mac)
    &&& json_safe(c.bridgeid)
    &&& (c.replacebridgeid matches Some(t) ==> json_safe(t))
    &&& json_safe(c.modelid)
    &&& (c.starterkitid matches Some(t) ==> json_safe(t))
}

/// The wire text from the model id on: the model id field, the optional
/// starter-kit field, and the closing brace.
pub open spec fn enc_config_model(modelid: Seq<char>, starter: Option<Seq<char>>) -> Seq<char> {
    enc_field((",\"modelid\":")@, modelid) + enc_opt_field((",\"starterkitid\":")@, starter) + (
    "}")@
}

/// The wire text after the factory-new field: the optional replacement-id
/// field, then the rest.
pub open spec fn enc_config_tail(
    replace: Option<Seq<char>>,
    modelid: Seq<char>,
    starter: Option<Seq<char>>,
) -> Seq<char> {
    enc_opt_field((",\"replacebridgeid\":")@, replace) + enc_config_model(modelid, starter)
}

/// The wire text of the six leading string fields.
pub open spec fn enc_config_front(c: BridgeConfigV) -> Seq<char> {
    enc_field(("{\"name\":")@, c.name) + enc_field((",\"datastoreversion\":")@,
        c.datastoreversion,
    ) + enc_field((",\"swversion\":")@, c.swversion) + enc_field(
        (",\"apiversion\":")@,
        c.apiversion,
    ) + enc_field((",\"mac\":")@, c.mac) + enc_field((",\"bridgeid\":")@, c.bridgeid)
}

/// The compact wire text of a configuration resource body. Optional fields
/// are omitted when absent.
pub open spec fn enc_config(c: BridgeConfigV) -> Seq<char> {
    enc_config_front(c) + (",\"factorynew\":")@ + enc_bool(c.factorynew) + enc_config_tail(
        c.replacebridgeid,
        c.modelid,
        c.starterkitid,
    )
}

/// A configuration object from its model id field on.
pub open spec fn sp_config_model(s: Seq<char>, i: int) -> Option<
    ((Seq<char>, Option<Seq<char>>), int),
> {
    match sp_field(s, i, (",\"modelid\":")@) {
        None => None,
        Some((modelid, i10)) => match sp_opt_field(s, i10, (",\"starterkitid\":")@) {
            None => None,
            Some((starterkitid, i11)) => match sp_lit(s, i11, ("}")@) {
                None => None,
                Some(i12) => Some(((modelid, starterkitid), i12)),
            },
        },
    }
}

/// A configuration object from its optional replacement-id field on.
pub open spec fn sp_config_tail(s: Seq<char>, i: int) -> Option<
    ((Option<Seq<char>>, Seq<char>, Option<Seq<char>>), int),
> {
    match sp_opt_field(s, i, (",\"replacebridgeid\":")@) {
        None => None,
        Some((replacebridgeid, i9)) => match sp_config_model(s, i9) {
            None => None,
            Some(((modelid, starterkitid), i12)) => Some(
                ((replacebridgeid, modelid, starterkitid), i12),
            ),
        },
    }
}

/// The six leading string fields of a configuration object, name through
/// bridge id.
pub open spec fn sp_config_front(s: Seq<char>, i: int) -> Option<
    ((Seq<char>, Seq<char>, Seq<char>, Seq<char>, Seq<char>, Seq<char>), int),
> {
    match sp_field(s, i, ("{\"name\":")@) {
        None => None,
        Some((name, i1)) => match sp_field(s, i1, (",\"datastoreversion\":")@) {
            None => None,
            Some((datastoreversion, i2)) => match sp_field(s, i2, (",\"swversion\":")@) {
                None => None,
                Some((swversion, i3)) => match sp_field(s, i3, (",\"apiversion\":")@) {
                    None => None,
                    Some((apiversion, i4)) => match sp_field(s, i4, (",\"mac\":")@) {
                        None => None,
                        Some((mac, i5)) => match sp_field(s, i5, (",\"bridgeid\":")@) {
                            None => None,
                            Some((bridgeid, i6)) => Some(
                                ((name, datastoreversion, swversion, apiversion, mac, bridgeid), i6),
                            ),
                        },
                    },
                },
            },
        },
    }
}

/// A configuration object at position `i` of the compact wire text; fields
/// in their documented order, the two optional ones recognized by their
/// keys.
pub open spec fn sp_config(s: Seq<char>, i: int) -> Option<(BridgeConfigV, int)> {
    match sp_config_front(s, i) {
        None => None,
        Some(((name, datastoreversion, swversion, apiversion, mac, bridgeid), i6)) => match sp_lit(
            s,
            i6,
            (",\"factorynew\":")@,
        ) {
            None => None,
            Some(i7) => match sp_bool(s, i7) {
                None => None,
                Some((factorynew, i8)) => match sp_config_tail(s, i8) {
                    None => None,
                    Some(((replacebridgeid, modelid, starterkitid), i12)) => Some(
                        (
                            BridgeConfigV {
                                name,
                                datastoreversion,
                                swversion,
                                apiversion,
                                mac,
                                bridgeid,
                                factorynew,
                                replacebridgeid,
                                modelid,
                                starterkitid,
                            },
                            i12,
                        ),
                    ),
                },
            },
        },
    }
}

/// The whole of `t` read as one configuration object.
pub open spec fn sp_config_str(t: Seq<char>) -> Option<BridgeConfigV> {
    match sp_config(t, 0) {
        Some((c, j)) => if j == t.len() {
            Some(c)
        } else {
            None
        },
        None => None,
    }
}

impl BridgeConfig {
    /// Encodes this configuration in its compact wire form. The strings
    /// must hold no `"` or `\`, which the wire text could not carry
    /// unescaped.
    #[verifier::rlimit(100)]
    #[verifier::spinoff_prover]
    pub fn encode(&self) -> (r: String)
        requires
            config_safe(self@),
        ensures
            r@ == enc_config(self@),
    {
        let mut out: Vec<char> = Vec::new();
        push_chars(&mut out, "{\"name\":");
        push_quoted(&mut out, self.name.as_str());
        push_chars(&mut out, ",\"datastoreversion\":");
        push_quoted(&mut out, self.datastoreversion.as_str());
        push_chars(&mut out, ",\"swversion\":");
        push_quoted(&mut out, self.swversion.as_str());
        push_chars(&mut out, ",\"apiversion\":");
        push_quoted(&mut out, self.apiversion.as_str());
        push_chars(&mut out, ",\"mac\":");
        push_quoted(&mut out, self.mac.as_str());
        push_chars(&mut out, ",\"bridgeid\":");
        push_quoted(&mut out, self.bridgeid.as_str());
        push_chars(&mut out, ",\"factorynew\":");
        push_bool(&mut out, self.factorynew);
        match &self.replacebridgeid {
            Some(rb) => {
                push_chars(&mut out, ",\"replacebridgeid\":");
                push_quoted(&mut out, rb.as_str());
            },
            None => {},
        }
        push_chars(&mut out, ",\"modelid\":");
        push_quoted(&mut out, self.modelid.as_str());
        match &self.starterkitid {
            Some(sk) => {
                push_chars(&mut out, ",\"starterkitid\":");
                push_quoted(&mut out, sk.as_str());
            },
            None => {},
        }
        push_chars(&mut out, "}");
        proof {
            assert(out@ =~= enc_config(self@));
        }
        chars_to_string(&out)
    }

    /// Reads a whole response body as one configuration object.
    pub fn decode(s: &str) -> (r: Option<BridgeConfig>)
        ensures
            (r is Some) == (sp_config_str(s@) is Some),
            r matches Some(c) ==> sp_config_str(s@) == Some(c@),
    {
        let n = s.unicode_len();
        match parse_config_at(s, 0) {
            Some((c, j)) => {
                if j == n {
                    Some(c)
                } else {
                    None
                }
            },
            None => None,
        }
    }
}

fn parse_config_at(s: &str, i: usize) -> (r: Option<(BridgeConfig, usize)>)
    requires
        i <= s@.len(),
    ensures
        (r is Some) == (sp_config(s@, i as int) is Some),
        r matches Some(p) ==> sp_config(s@, i as int) == Some((p.0@, p.1 as int)) && p.1
            <= s@.len(),
{
    let (name, i1) = match parse_field(s, i, "{\"name\":") {
        Some(p) => p,
        None => {
            return None;
        },
    };
    let (datastoreversion, i2) = match parse_field(s, i1, ",\"datastoreversion\":") {
        Some(p) => p,
        None => {
            return None;
        },
    };
    let (swversion, i3) = match parse_field(s, i2, ",\"swversion\":") {
        Some(p) => p,
        None => {
            return None;
        },
    };
    let (apiversion, i4) = match parse_field(s, i3, ",\"apiversion\":") {
        Some(p) => p,
        None => {
            return None;
        },
    };
    let (mac, i5) = match parse_field(s, i4, ",\"mac\":") {
        Some(p) => p,
        None => {
            return None;
        },
    };
    let (bridgeid, i6) = match parse_field(s, i5, ",\"bridgeid\":") {
        Some(p) => p,
        None => {
            return None;
        },
    };
    let i7 = match match_lit(s, i6, ",\"factorynew\":") {
        Some(j) => j,
        None => {
            return None;
        },
    };
    let (factorynew, i8) = match parse_bool(s, i7) {
        Some(p) => p,
        None => {
            return None;
        },
    };
    let (replacebridgeid, i9): (Option<String>, usize) = match match_lit(
        s,
        i8,
        ",\"replacebridgeid\":",
    ) {
        Some(jr) => match parse_string(s, jr) {
            Some((t, k)) => (Some(t), k),
            None => {
                return None;
            },
        },
        None => (None, i8),
    };
    let (modelid, i10) = match parse_field(s, i9, ",\"modelid\":") {
        Some(p) => p,
        None => {
            return None;
        },
    };
    let (starterkitid, i11): (Option<String>, usize) = match match_lit(
        s,
        i10,
        ",\"starterkitid\":",
    ) {
        Some(jr) => match parse_string(s, jr) {
            Some((t, k)) => (Some(t), k),
            None => {
                return None;
            },
        },
        None => (None, i10),
    };
    let i12 = match match_lit(s, i11, "}") {
        Some(j) => j,
        None => {
            return None;
        },
    };
    Some(
        (
            BridgeConfig {
                name,
                datastoreversion,
                swversion,
                apiversion,
                mac,
                bridgeid,
                factorynew,
                replacebridgeid,
                modelid,
                starterkitid,
            },
            i12,
        ),
    )
}

// ---------------------------------------------------------------------------
// The discovery-endpoint wire format: an array of location objects
// ---------------------------------------------------------------------------

/// One location object of a discovery-endpoint response:
/// `{"id":…,"internalipaddress":…,"port":…}`, the address a dotted quad in
/// a string.
pub open spec fn sp_bridge(s: Seq<char>, i: int) -> Option<(UnauthBridgeV, int)> {
    match sp_field(s, i, ("{\"id\":")@) {
        None => None,
        Some((id, i1)) => match sp_lit(s, i1, (",\"internalipaddress\":\"")@) {
            None => None,
            Some(i2) => match sp_ipv4(s, i2) {
                None => None,
                Some((ip, i3)) => match sp_lit(s, i3, ("\",\"port\":")@) {
                    None => None,
                    Some(i4) => match sp_uint(s, i4, 65535) {
                        None => None,
                        Some((port, i5)) => match sp_lit(s, i5, ("}")@) {
                            None => None,
                            Some(i6) => Some(
                                (UnauthBridgeV { id: Some(id), ip, port: port as u16 }, i6),
                            ),
                        },
                    },
                },
            },
        },
    }
}

/// The elements after the first: either the closing bracket, or a comma and
/// a further location object.
pub open spec fn sp_bridges_tail(s: Seq<char>, i: int) -> Option<(Seq<UnauthBridgeV>, int)>
    decreases s.len() - i,
{
    match sp_lit(s, i, ("]")@) {
        Some(j) => Some((Seq::<UnauthBridgeV>::empty(), j)),
        None => match sp_lit(s, i, (",")@) {
            Some(j) => match sp_bridge(s, j) {
                Some((b, k)) => if i < k <= s.len() {
                    match sp_bridges_tail(s, k) {
                        Some((bs, m)) => Some((seq![b] + bs, m)),
                        None => None,
                    }
                } else {
                    None
                },
                None => None,
            },
            None => None,
        },
    }
}

/// A discovery-endpoint response array at position `i`.
pub open spec fn sp_bridges(s: Seq<char>, i: int) -> Option<(Seq<UnauthBridgeV>, int)> {
    match sp_lit(s, i, ("[]")@) {
        Some(j) => Some((Seq::<UnauthBridgeV>::empty(), j)),
        None => match sp_lit(s, i, ("[")@) {
            Some(j) => match sp_bridge(s, j) {
                Some((b, k)) => if i < k <= s.len() {
                    match sp_bridges_tail(s, k) {
                        Some((bs, m)) => Some((seq![b] + bs, m)),
                        None => None,
                    }
                } else {
                    None
                },
                None => None,
            },
            None => None,
        },
    }
}

/// The whole of `t` read as one response array.
pub open spec fn sp_bridges_str(t: Seq<char>) -> Option<Seq<UnauthBridgeV>> {
    match sp_bridges(t, 0) {
        Some((bs, j)) => if j == t.len() {
            Some(bs)
        } else {
            None
        },
        None => None,
    }
}

fn parse_bridge_at(s: &str, i: usize) -> (r: Option<(UnauthBridge, usize)>)
    requires
        i <= s@.len(),
    ensures
        (r is Some) == (sp_bridge(s@, i as int) is Some),
        r matches Some(p) ==> sp_bridge(s@, i as int) == Some((p.0@, p.1 as int)) && p.1
            <= s@.len(),
{
    let (id, i1) = match parse_field(s, i, "{\"id\":") {
        Some(p) => p,
        None => {
            return None;
        },
    };
    let i2 = match match_lit(s, i1, ",\"internalipaddress\":\"") {
        Some(j) => j,
        None => {
            return None;
        },
    };
    let (ip, i3) = match crate::addr::parse_ipv4_at(s, i2) {
        Some(p) => p,
        None => {
            return None;
        },
    };
    let i4 = match match_lit(s, i3, "\",\"port\":") {
        Some(j) => j,
        None => {
            return None;
        },
    };
    let (port, i5) = match parse_uint(s, i4, 65535) {
        Some(p) => p,
        None => {
            return None;
        },
    };
    let i6 = match match_lit(s, i5, "}") {
        Some(j) => j,
        None => {
            return None;
        },
    };
    Some((UnauthBridge { id: Some(id), ip, port: port as u16 }, i6))
}

fn parse_bridges_tail(s: &str, i: usize) -> (r: Option<(Vec<UnauthBridge>, usize)>)
    requires
        i <= s@.len(),
    ensures
        (r is Some) == (sp_bridges_tail(s@, i as int) is Some),
        r matches Some(p) ==> ({
            &&& sp_bridges_tail(s@, i as int) matches Some(q) && p.1 as int == q.1
                && p.0@.len() == q.0.len() && (forall|k: int|
                0 <= k < q.0.len() ==> (#[trigger] p.0@[k])@ == q.0[k])
            &&& p.1 <= s@.len()
        }),
    decreases s@.len() - i,
{
    match match_lit(s, i, "]") {
        Some(j) => Some((Vec::new(), j)),
        None => {
            let j = match match_lit(s, i, ",") {
                Some(j) => j,
                None => {
                    return None;
                },
            };
            let (b, k) = match parse_bridge_at(s, j) {
                Some(p) => p,
                None => {
                    return None;
                },
            };
            if !(i < k) {
                return None;
            }
            match parse_bridges_tail(s, k) {
                Some((bs, m)) => {
                    let mut out = bs;
                    out.insert(0, b);
                    Some((out, m))
                },
                None => None,
            }
        },
    }
}

impl UnauthBridges {
    /// Reads a whole discovery-endpoint response body as a set of devices,
    /// in response order.
    pub fn decode(s: &str) -> (r: Option<UnauthBridges>)
        ensures
            (r is Some) == (sp_bridges_str(s@) is Some),
            r matches Some(bs) ==> ({
                &&& sp_bridges_str(s@) matches Some(q) && bs.0@.len() == q.len() && (forall|k: int|
                    0 <= k < q.len() ==> (#[trigger] bs.0@[k])@ == q[k])
            }),
    {
        let n = s.unicode_len();
        let parsed: Option<(Vec<UnauthBridge>, usize)> = match match_lit(s, 0, "[]") {
            Some(j) => Some((Vec::new(), j)),
            None => {
                match match_lit(s, 0, "[") {
                    Some(j) => match parse_bridge_at(s, j) {
                        Some((b, k)) => {
                            if !(0 < k) {
                                None
                            } else {
                                match parse_bridges_tail(s, k) {
                                    Some((bs, m)) => {
                                        let mut out = bs;
                                        out.insert(0, b);
                                        Some((out, m))
                                    },
                                    None => None,
                                }
                            }
                        },
                        None => None,
                    },
                    None => None,
                }
            },
        };
        match parsed {
            Some((bs, j)) => {
                if j == n {
                    Some(UnauthBridges(bs))
                } else {
                    None
                }
            },
            None => None,
        }
    }
}

// ---------------------------------------------------------------------------
// Authentication: one device
// ---------------------------------------------------------------------------

/// The text of a device's configuration resource address.
pub open spec fn config_url_rep(ip: Ipv4Addr) -> Seq<char> {
    ("https://")@ + ipv4_rep(ip) + ("/api/0/config")@
}

/// The text of a device's provisioning resource address.
pub open spec fn api_url_rep(ip: Ipv4Addr) -> Seq<char> {
    ("https://")@ + ipv4_rep(ip) + ("/api")@
}

/// Holds when `b` is the authenticated handle formed from `d` and a fetched
/// configuration body: location and id carried over, the key still absent,
/// the session owned, the configuration the decoded snapshot.
pub open spec fn authed_from(d: UnauthBridge, sb: (Session, String), b: Bridge) -> bool {
    &&& b.id == d.id
    &&& b.ip == d.ip
    &&& b.port == d.port
    &&& b.app_key is None
    &&& b.session == sb.0
    &&& sp_config_str(sb.1@) matches Some(cv) && b.config@ == cv
}

/// Holds when `err` reports `o`'s failure: the fetch error itself, or a
/// decode error for a body that was no configuration object.
pub open spec fn failed_err(o: Result<(Session, String), Error>, err: Error) -> bool {
    match o {
        Err(e) => err == e,
        Ok(_) => err matches Error::Decode(_),
    }
}

impl UnauthBridge {
    /// The address of this device's configuration resource.
    pub fn config_url(&self) -> (r: String)
        ensures
            r@ == config_url_rep(self.ip),
    {
        let mut out: Vec<char> = Vec::new();
        push_chars(&mut out, "https://");
        push_ipv4(&mut out, self.ip);
        push_chars(&mut out, "/api/0/config");
        proof {
            assert(Seq::<char>::empty() + ("https://")@ + ipv4_rep(self.ip) + ("/api/0/config")@
                =~= config_url_rep(self.ip));
        }
        chars_to_string(&out)
    }

    /// Turns this handle into an authenticated bridge from the outcome of
    /// fetching its configuration resource: the session used and the body
    /// it returned, or the error the fetch ended in.
    ///
    /// Never mutates the handle: on any failure the very handle comes back
    /// beside the error, field for field as it went in.
    pub fn auth(self, fetched: Result<(Session, String), Error>) -> (r: Result<
        Bridge,
        (UnauthBridge, Error),
    >)
        ensures
            fetched matches Err(e) ==> r matches Err(p) && p.0 == self && p.1 == e,
            fetched matches Ok(sb) ==> (match sp_config_str(sb.1@) {
                Some(cv) => r matches Ok(b) && authed_from(self, sb, b),
                None => r matches Err(p) && p.0 == self && p.1 matches Error::Decode(_),
            }),
            r matches Err(p) ==> p.0 == self && failed_err(fetched, p.1),
            r matches Ok(_) ==> fetched is Ok,
    {
        match fetched {
            Err(e) => Err((self, e)),
            Ok((session, body)) => match BridgeConfig::decode(body.as_str()) {
                Some(config) => Ok(
                    Bridge {
                        id: self.id,
                        ip: self.ip,
                        port: self.port,
                        app_key: None,
                        session,
                        config,
                    },
                ),
                None => Err(
                    (
                        self,
                        Error::Decode(
                            String::from_str("the configuration resource body did not decode"),
                        ),
                    ),
                ),
            },
        }
    }
}

// ---------------------------------------------------------------------------
// Authentication: a whole set, partial failures reported per device
// ---------------------------------------------------------------------------

/// Whether this fetch outcome carries a body that decodes as a
/// configuration object, so that authentication succeeds on it.
pub open spec fn outcome_decodes(o: Result<(Session, String), Error>) -> bool {
    o matches Ok(p) && sp_config_str(p.1@) is Some
}

/// How many of the first `n` outcomes authenticate their device.
pub open spec fn count_ok(outs: Seq<Result<(Session, String), Error>>, n: int) -> int
    decreases n,
{
    if n <= 0 {
        0
    } else {
        count_ok(outs, n - 1) + if outcome_decodes(outs[n - 1]) {
            1int
        } else {
            0int
        }
    }
}

proof fn lemma_count_ok_bounds(outs: Seq<Result<(Session, String), Error>>, n: int)
    requires
        0 <= n,
    ensures
        0 <= count_ok(outs, n) <= n,
    decreases n,
{
    if n > 0 {
        lemma_count_ok_bounds(outs, n - 1);
    }
}

/// Where device `i` of a batch ends up: in the successes at the position
/// counting the successes before it, or in the failures at the position
/// counting the failures before it, with its handle intact.
pub open spec fn auth_slot(
    devs: Seq<UnauthBridge>,
    outs: Seq<Result<(Session, String), Error>>,
    succ: Seq<Bridge>,
    fail: Seq<AuthFailed>,
    i: int,
) -> bool {
    let k = count_ok(outs, i);
    if outcome_decodes(outs[i]) {
        0 <= k < succ.len() && authed_from(devs[i], outs[i]->Ok_0, succ[k])
    } else {
        0 <= i - k < fail.len() && fail[i - k].bridge == devs[i] && failed_err(
            outs[i],
            fail[i - k].err,
        )
    }
}

proof fn lemma_slot_stable(
    devs: Seq<UnauthBridge>,
    outs: Seq<Result<(Session, String), Error>>,
    succ1: Seq<Bridge>,
    fail1: Seq<AuthFailed>,
    succ2: Seq<Bridge>,
    fail2: Seq<AuthFailed>,
    i: int,
)
    requires
        auth_slot(devs, outs, succ1, fail1, i),
        succ1.len() <= succ2.len(),
        forall|j: int| 0 <= j < succ1.len() ==> succ2[j] == succ1[j],
        fail1.len() <= fail2.len(),
        forall|j: int| 0 <= j < fail1.len() ==> fail2[j] == fail1[j],
    ensures
        auth_slot(devs, outs, succ2, fail2, i),
{
}

impl UnauthBridges {
    /// Authenticates every device of the set independently and in input
    /// order, from the per-device fetch outcomes, which stand in the same
    /// order. No device's failure aborts the others': the result partitions
    /// the input exactly, successes and failures each keeping the input
    /// order, every failure keeping its device's handle intact beside its
    /// error.
    pub fn auth(self, outcomes: Vec<Result<(Session, String), Error>>) -> (r: AuthResults)
        requires
            outcomes@.len() == self.0@.len(),
        ensures
            r.success.0@.len() + r.failed@.len() == self.0@.len(),
            r.success.0@.len() == count_ok(outcomes@, outcomes@.len() as int),
            forall|i: int|
                0 <= i < self.0@.len() ==> #[trigger] auth_slot(
                    self.0@,
                    outcomes@,
                    r.success.0@,
                    r.failed@,
                    i,
                ),
    {
        let UnauthBridges(mut devs) = self;
        let mut outs = outcomes;
        let ghost devs0 = devs@;
        let ghost outs0 = outs@;
        let mut success: Vec<Bridge> = Vec::new();
        let mut failed: Vec<AuthFailed> = Vec::new();
        let mut t: usize = 0;
        let n0 = devs.len();
        proof {
            assert(devs@ =~= devs0.subrange(0, devs0.len() as int));
            assert(outs@ =~= outs0.subrange(0, outs0.len() as int));
        }
        while devs.len() > 0
            invariant
                devs0.len() == n0,
                outs0.len() == n0,
                t + devs@.len() == devs0.len(),
                outs@.len() == devs@.len(),
                devs@ == devs0.subrange(t as int, devs0.len() as int),
                outs@ == outs0.subrange(t as int, outs0.len() as int),
                success@.len() == count_ok(outs0, t as int),
                success@.len() + failed@.len() == t,
                forall|i: int|
                    0 <= i < t ==> #[trigger] auth_slot(devs0, outs0, success@, failed@, i),
            decreases devs@.len(),
        {
            let ghost old_success = success@;
            let ghost old_failed = failed@;
            proof {
                assert(devs0.subrange(t as int, devs0.len() as int)[0] == devs0[t as int]);
                assert(outs0.subrange(t as int, outs0.len() as int)[0] == outs0[t as int]);
            }
            let d = devs.remove(0);
            let o = outs.remove(0);
            proof {
                assert(devs@ =~= devs0.subrange(t + 1 as int, devs0.len() as int));
                assert(outs@ =~= outs0.subrange(t + 1 as int, outs0.len() as int));
            }
            match d.auth(o) {
                Ok(b) => {
                    success.push(b);
                },
                Err((db, e)) => {
                    failed.push(AuthFailed { bridge: db, err: e });
                },
            }
            proof {
                lemma_count_ok_bounds(outs0, t as int);
                assert(count_ok(outs0, t + 1 as int) == count_ok(outs0, t as int)
                    + if outcome_decodes(outs0[t as int]) {
                    1int
                } else {
                    0int
                });
                assert(auth_slot(devs0, outs0, success@, failed@, t as int));
                assert forall|i: int|
                    0 <= i < t implies #[trigger] auth_slot(
                    devs0,
                    outs0,
                    success@,
                    failed@,
                    i,
                ) by {
                    lemma_slot_stable(devs0, outs0, old_success, old_failed, success@, failed@, i);
                }
            }
            t += 1;
        }
        AuthResults { success: Bridges(success), failed }
    }
}

// ---------------------------------------------------------------------------
// Authenticated handles
// ---------------------------------------------------------------------------

/// The bridges a batch authentication succeeded on, in input order.
#[derive(Debug)]
pub struct Bridges(pub Vec<Bridge>);

impl Bridges {
    /// The single bridge of a set known to hold exactly one. A set that is
    /// empty or holds more than one is a caller-contract violation, ruled
    /// out by the precondition rather than silently truncated.
    pub fn into_singular(self) -> (r: Bridge)
        requires
            self.0@.len() == 1,
        ensures
            r == self.0@[0],
    {
        let Bridges(mut v) = self;
        v.remove(0)
    }
}

/// An authenticated bridge: its location and id carried over from
/// discovery, the configuration snapshot fetched at authentication, the
/// transport session it owns, and the application key once one is issued.
#[derive(Debug)]
pub struct Bridge {
    pub id: Option<String>,
    pub ip: Ipv4Addr,
    pub port: u16,
    pub app_key: Option<String>,
    pub session: Session,
    pub config: BridgeConfig,
}

impl Bridge {
    /// The same bridge with the application key set.
    pub fn with_key(self, app_key: String) -> (r: Self)
        ensures
            r.app_key == (Some(app_key)),
            r.id == self.id,
            r.ip == self.ip,
            r.port == self.port,
            r.session == self.session,
            r.config == self.config,
    {
        Bridge { app_key: Some(app_key), ..self }
    }

    /// The address of this device's provisioning resource.
    pub fn api_url(&self) -> (r: String)
        ensures
            r@ == api_url_rep(self.ip),
    {
        let mut out: Vec<char> = Vec::new();
        push_chars(&mut out, "https://");
        push_ipv4(&mut out, self.ip);
        push_chars(&mut out, "/api");
        proof {
            assert(Seq::<char>::empty() + ("https://")@ + ipv4_rep(self.ip) + ("/api")@
                =~= api_url_rep(self.ip));
        }
        chars_to_string(&out)
    }

    /// Concludes the key-issuance handshake from the response body the
    /// device returned, or the error the exchange ended in. Only the first
    /// element of the response array is consulted: a success outcome yields
    /// this bridge with the issued key — the device's own token, not a
    /// synthesized one — and an error outcome, most commonly "link button
    /// not pressed", fails with that structured error preserved.
    pub fn gen_key(self, response: Result<String, Error>) -> (r: Result<(Bridge, String), Error>)
        ensures
            response matches Err(e) ==> r matches Err(e2) && e2 == e,
            response matches Ok(body) ==> (match sp_first_outcome(body@) {
                Some(o) => (match o {
                    GenKeyResultV::Success(su) => r matches Ok(p) && ({
                        &&& p.1@ == su.username
                        &&& p.0.app_key matches Some(k) && k@ == su.username
                        &&& p.0.id == self.id
                        &&& p.0.ip == self.ip
                        &&& p.0.port == self.port
                        &&& p.0.session == self.session
                        &&& p.0.config == self.config
                    }),
                    GenKeyResultV::Error(ev) => r matches Err(e2) && ({
                        &&& e2 matches Error::GenKey(g) && g@ == ev
                    }),
                }),
                None => r matches Err(e2) && e2 matches Error::Decode(_),
            }),
    {
        match response {
            Err(e) => Err(e),
            Ok(body) => match GenKeyResult::decode_first(body.as_str()) {
                Some(GenKeyResult::Success(su)) => {
                    let key = su.username;
                    let key_copy = key.clone();
                    Ok(
                        (
                            Bridge {
                                id: self.id,
                                ip: self.ip,
                                port: self.port,
                                app_key: Some(key),
                                session: self.session,
                                config: self.config,
                            },
                            key_copy,
                        ),
                    )
                },
                Some(GenKeyResult::Error(e)) => Err(Error::GenKey(e)),
                None => Err(
                    Error::Decode(String::from_str("the key issuance body did not decode")),
                ),
            },
        }
    }
}


// ---------------------------------------------------------------------------
// The configuration codec is lossless
// ---------------------------------------------------------------------------

#[verifier::rlimit(100)]
#[verifier::spinoff_prover]
proof fn lemma_config_model_at(
    pre: Seq<char>,
    modelid: Seq<char>,
    starter: Option<Seq<char>>,
    rest: Seq<char>,
)
    requires
        json_safe(modelid),
        starter matches Some(t) ==> json_safe(t),
    ensures
        sp_config_model(pre + enc_config_model(modelid, starter) + rest, pre.len() as int)
            == Some(
            ((modelid, starter), (pre.len() + enc_config_model(modelid, starter).len()) as int),
        ),
{
    reveal_strlit(",\"starterkitid\":");
    reveal_strlit("}");
    let s = pre + enc_config_model(modelid, starter) + rest;
    let km = (",\"modelid\":")@;
    let ks = (",\"starterkitid\":")@;
    let kc = ("}")@;
    let fm = enc_field(km, modelid);
    match starter {
        Some(sk) => {
            let su2 = kc + rest;
            let su1 = (ks + enc_str(sk)) + su2;
            assert(s =~= pre + (fm + su1));
            assert(s =~= (pre + fm) + su1);
            lemma_field_at(pre, km, modelid, su1);
            let p1 = pre + fm;
            assert(s =~= (p1 + ks) + (enc_str(sk) + su2));
            lemma_lit_at(p1, ks, enc_str(sk) + su2);
            assert(s =~= ((p1 + ks) + enc_str(sk)) + su2);
            lemma_string_at(p1 + ks, sk, su2);
            let p2 = (p1 + ks) + enc_str(sk);
            assert(s =~= (p2 + kc) + rest);
            lemma_lit_at(p2, kc, rest);
            assert(p2.len() + kc.len() == pre.len() + enc_config_model(modelid, starter).len());
        },
        None => {
            let su1 = kc + rest;
            assert(s =~= pre + (fm + su1));
            assert(s =~= (pre + fm) + su1);
            lemma_field_at(pre, km, modelid, su1);
            let p1 = pre + fm;
            // the starter-kit key cannot stand here: a closing brace is no comma
            assert(s[p1.len() as int] == '}');
            if sp_lit(s, p1.len() as int, ks) is Some {
                assert(s.subrange(p1.len() as int, p1.len() + ks.len() as int) == ks);
                assert(s.subrange(p1.len() as int, p1.len() + ks.len() as int)[0] == s[p1.len() as int]);
                assert(false);
            }
            assert(s =~= (p1 + kc) + rest);
            lemma_lit_at(p1, kc, rest);
            assert(p1.len() + kc.len() == pre.len() + enc_config_model(modelid, starter).len());
        },
    }
}

#[verifier::rlimit(100)]
#[verifier::spinoff_prover]
proof fn lemma_config_tail_at(
    pre: Seq<char>,
    replace: Option<Seq<char>>,
    modelid: Seq<char>,
    starter: Option<Seq<char>>,
    rest: Seq<char>,
)
    requires
        replace matches Some(t) ==> json_safe(t),
        json_safe(modelid),
        starter matches Some(t) ==> json_safe(t),
    ensures
        sp_config_tail(pre + enc_config_tail(replace, modelid, starter) + rest, pre.len() as int)
            == Some(
            (
                (replace, modelid, starter),
                (pre.len() + enc_config_tail(replace, modelid, starter).len()) as int,
            ),
        ),
{
    reveal_strlit(",\"replacebridgeid\":");
    reveal_strlit(",\"modelid\":");
    let s = pre + enc_config_tail(replace, modelid, starter) + rest;
    let kr = (",\"replacebridgeid\":")@;
    let em = enc_config_model(modelid, starter);
    match replace {
        Some(rb) => {
            let su1 = em + rest;
            assert(s =~= pre + ((kr + enc_str(rb)) + su1));
            assert(s =~= (pre + kr) + (enc_str(rb) + su1));
            lemma_lit_at(pre, kr, enc_str(rb) + su1);
            assert(s =~= ((pre + kr) + enc_str(rb)) + su1);
            lemma_string_at(pre + kr, rb, su1);
            let p1 = (pre + kr) + enc_str(rb);
            assert(s =~= p1 + em + rest);
            lemma_config_model_at(p1, modelid, starter, rest);
            assert(p1.len() + em.len() == pre.len() + enc_config_tail(
                replace,
                modelid,
                starter,
            ).len());
        },
        None => {
            assert(s =~= pre + em + rest);
            // the replacement key cannot stand here: the third character differs
            assert(em[2] == (",\"modelid\":")@[2]);
            assert(s[pre.len() as int + 2] == 'm');
            if sp_lit(s, pre.len() as int, kr) is Some {
                assert(s.subrange(pre.len() as int, pre.len() + kr.len() as int) == kr);
                assert(s.subrange(pre.len() as int, pre.len() + kr.len() as int)[2] == s[pre.len()
                    as int + 2]);
                assert(false);
            }
            lemma_config_model_at(pre, modelid, starter, rest);
        },
    }
}

#[verifier::rlimit(100)]
#[verifier::spinoff_prover]
proof fn lemma_config_front_at(pre: Seq<char>, c: BridgeConfigV, rest: Seq<char>)
    requires
        config_safe(c),
    ensures
        sp_config_front(pre + enc_config_front(c) + rest, pre.len() as int) == Some(
            (
                (c.name, c.datastoreversion, c.swversion, c.apiversion, c.mac, c.bridgeid),
                (pre.len() + enc_config_front(c).len()) as int,
            ),
        ),
{
    let s = pre + enc_config_front(c) + rest;
    let k1 = ("{\"name\":")@;
    let k2 = (",\"datastoreversion\":")@;
    let k3 = (",\"swversion\":")@;
    let k4 = (",\"apiversion\":")@;
    let k5 = (",\"mac\":")@;
    let k6 = (",\"bridgeid\":")@;
    let f1 = enc_field(k1, c.name);
    let f2 = enc_field(k2, c.datastoreversion);
    let f3 = enc_field(k3, c.swversion);
    let f4 = enc_field(k4, c.apiversion);
    let f5 = enc_field(k5, c.mac);
    let f6 = enc_field(k6, c.bridgeid);
    let su6 = f6 + rest;
    let su5 = f5 + su6;
    let su4 = f4 + su5;
    let su3 = f3 + su4;
    let su2 = f2 + su3;
    assert(s =~= pre + (f1 + su2));
    assert(s =~= (pre + f1) + su2);
    lemma_field_at(pre, k1, c.name, su2);
    let p1 = pre + f1;
    assert(s =~= (p1 + f2) + su3);
    lemma_field_at(p1, k2, c.datastoreversion, su3);
    let p2 = p1 + f2;
    assert(s =~= (p2 + f3) + su4);
    lemma_field_at(p2, k3, c.swversion, su4);
    let p3 = p2 + f3;
    assert(s =~= (p3 + f4) + su5);
    lemma_field_at(p3, k4, c.apiversion, su5);
    let p4 = p3 + f4;
    assert(s =~= (p4 + f5) + su6);
    lemma_field_at(p4, k5, c.mac, su6);
    let p5 = p4 + f5;
    assert(s =~= (p5 + f6) + rest);
    lemma_field_at(p5, k6, c.bridgeid, rest);
    assert(p5.len() + f6.len() == pre.len() + enc_config_front(c).len());
}

#[verifier::rlimit(100)]
#[verifier::spinoff_prover]
proof fn lemma_config_at(pre: Seq<char>, c: BridgeConfigV, rest: Seq<char>)
    requires
        config_safe(c),
    ensures
        sp_config(pre + enc_config(c) + rest, pre.len() as int) == Some(
            (c, (pre.len() + enc_config(c).len()) as int),
        ),
{
    let s = pre + enc_config(c) + rest;
    let kf = (",\"factorynew\":")@;
    let ef = enc_config_front(c);
    let eb = enc_bool(c.factorynew);
    let et = enc_config_tail(c.replacebridgeid, c.modelid, c.starterkitid);
    let su3 = et + rest;
    let su2 = eb + su3;
    let su1 = kf + su2;
    assert(s =~= pre + (ef + su1));
    assert(s =~= (pre + ef) + su1);
    lemma_config_front_at(pre, c, su1);
    let p1 = pre + ef;
    assert(s =~= (p1 + kf) + su2);
    lemma_lit_at(p1, kf, su2);
    let p2 = p1 + kf;
    assert(s =~= (p2 + eb) + su3);
    lemma_bool_at(p2, c.factorynew, su3);
    let p3 = p2 + eb;
    assert(s =~= p3 + et + rest);
    lemma_config_tail_at(p3, c.replacebridgeid, c.modelid, c.starterkitid, rest);
    assert(p3.len() + et.len() == pre.len() + enc_config(c).len());
    assert(c == (BridgeConfigV {
        name: c.name,
        datastoreversion: c.datastoreversion,
        swversion: c.swversion,
        apiversion: c.apiversion,
        mac: c.mac,
        bridgeid: c.bridgeid,
        factorynew: c.factorynew,
        replacebridgeid: c.replacebridgeid,
        modelid: c.modelid,
        starterkitid: c.starterkitid,
    }));
}

/// Law: the configuration wire codec is lossless. Decoding an encoded
/// configuration yields it back, field for field, for every configuration
/// whose strings hold no `\"` or backslash.
pub proof fn lemma_config_round_trip(c: BridgeConfigV)
    requires
        config_safe(c),
    ensures
        sp_config_str(enc_config(c)) == Some(c),
{
    let empty = Seq::<char>::empty();
    lemma_config_at(empty, c, empty);
    assert(empty + enc_config(c) + empty =~= enc_config(c));
}

} // verus!
