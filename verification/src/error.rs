//! Error taxonomy and the key-issuance outcome wire schema.
//!
//! A key-issuance response is a JSON array whose first element is either a
//! success object carrying the issued key or an error object in the device's
//! wire-level error schema (the "link button not pressed" condition among
//! others). The outcome codec here is verified: encoding an outcome and
//! decoding it again is lossless.

use crate::codec::{
    dec_int, enc_str, json_safe, lemma_int_at, lemma_lit_at, lemma_string_at, match_lit,
    parse_int, parse_string, push_chars, push_int, push_quoted, chars_to_string, sp_int, sp_lit,
    sp_string, is_digit,
};
use crate::resources::{Bridge, Bridges, UnauthBridge};
use vstd::prelude::*;

verus! {

/// Why discovery, authentication or provisioning failed. Every failure
/// carries enough structure to tell an unreachable device from one that
/// answered and rejected the exchange.
#[derive(Debug, Clone, PartialEq, Eq)]
pub enum Error {
    /// The transport could not be built or the exchange failed on the wire.
    Reqwest(String),
    /// The local-multicast subsystem failed.
    Mdns(String),
    /// A textual address was not a dotted-quad IPv4 address.
    AddrParse,
    /// The device answered, but its body did not decode.
    Decode(String),
    /// The device answered the key-issuance request with its error schema.
    GenKey(GenKeyError),
}

/// Outcome of one device's authentication, when both sides are wanted
/// side by side.
#[derive(Debug)]
pub struct AuthResult {
    pub success: Bridge,
    pub failed: AuthFailed,
}

/// Outcome of a batch authentication: the bridges that authenticated and,
/// device by device, the failures. Together they partition the input set,
/// each side in input order.
#[derive(Debug)]
pub struct AuthResults {
    pub success: Bridges,
    pub failed: Vec<AuthFailed>,
}

/// A failed authentication: the device's handle, intact for a retry, beside
/// its error.
#[derive(Debug)]
pub struct AuthFailed {
    pub bridge: UnauthBridge,
    pub err: Error,
}

/// First element of a key-issuance response: the key was issued, or the
/// device reported a structured error.
#[derive(Debug, Clone, PartialEq, Eq)]
pub enum GenKeyResult {
    Success(GenKeySuccess),
    Error(GenKeyError),
}

/// The success outcome, carrying the application key the device issued.
#[derive(Debug, Clone, PartialEq, Eq)]
pub struct GenKeySuccess {
    pub username: String,
}

/// The device's wire-level error schema; `t` is the numeric error code,
/// 101 being "link button not pressed".
#[derive(Debug, Clone, PartialEq, Eq)]
pub struct GenKeyError {
    pub t: i32,
    pub address: String,
    pub description: String,
}

pub struct GenKeySuccessV {
    pub username: Seq<char>,
}

pub struct GenKeyErrorV {
    pub t: i32,
    pub address: Seq<char>,
    pub description: Seq<char>,
}

pub enum GenKeyResultV {
    Success(GenKeySuccessV),
    Error(GenKeyErrorV),
}

impl View for GenKeySuccess {
    type V = GenKeySuccessV;

    open spec fn view(&self) -> GenKeySuccessV {
        GenKeySuccessV { username: self.username@ }
    }
}

impl View for GenKeyError {
    type V = GenKeyErrorV;

    open spec fn view(&self) -> GenKeyErrorV {
        GenKeyErrorV { t: self.t, address: self.address@, description: self.description@ }
    }
}

impl View for GenKeyResult {
    type V = GenKeyResultV;

    open spec fn view(&self) -> GenKeyResultV {
        match self {
            GenKeyResult::Success(su) => GenKeyResultV::Success(su@),
            GenKeyResult::Error(e) => GenKeyResultV::Error(e@),
        }
    }
}

// ---------------------------------------------------------------------------
// Outcome wire codec
// ---------------------------------------------------------------------------

pub open spec fn enc_success(u: Seq<char>) -> Seq<char> {
    ("{\"success\":{\"username\":")@ + enc_str(u) + ("}}")@
}

pub open spec fn enc_gen_key_error(e: GenKeyErrorV) -> Seq<char> {
    ("{\"error\":{\"type\":")@ + dec_int(e.t as int) + (",\"address\":")@ + enc_str(e.address) + (
    ",\"description\":")@ + enc_str(e.description) + ("}}")@
}

/// The compact wire text of one outcome.
pub open spec fn enc_outcome(o: GenKeyResultV) -> Seq<char> {
    match o {
        GenKeyResultV::Success(su) => enc_success(su.username),
        GenKeyResultV::Error(e) => enc_gen_key_error(e),
    }
}

/// Holds when an outcome's strings can stand unescaped in the wire text.
pub open spec fn outcome_safe(o: GenKeyResultV) -> bool {
    match o {
        GenKeyResultV::Success(su) => json_safe(su.username),
        GenKeyResultV::Error(e) => json_safe(e.address) && json_safe(e.description),
    }
}

/// One outcome object at position `i` of the compact wire text.
pub open spec fn sp_outcome(s: Seq<char>, i: int) -> Option<(GenKeyResultV, int)> {
    match sp_lit(s, i, ("{\"success\":{\"username\":")@) {
        Some(j) => match sp_string(s, j) {
            Some((u, k)) => match sp_lit(s, k, ("}}")@) {
                Some(m) => Some((GenKeyResultV::Success(GenKeySuccessV { username: u }), m)),
                None => None,
            },
            None => None,
        },
        None => match sp_lit(s, i, ("{\"error\":{\"type\":")@) {
            Some(j) => match sp_int(s, j) {
                Some((t, k)) => match sp_lit(s, k, (",\"address\":")@) {
                    Some(m) => match sp_string(s, m) {
                        Some((a, p)) => match sp_lit(s, p, (",\"description\":")@) {
                            Some(q) => match sp_string(s, q) {
                                Some((d, w)) => match sp_lit(s, w, ("}}")@) {
                                    Some(z) => Some(
                                        (
                                            GenKeyResultV::Error(
                                                GenKeyErrorV {
                                                    t: t as i32,
                                                    address: a,
                                                    description: d,
                                                },
                                            ),
                                            z,
                                        ),
                                    ),
                                    None => None,
                                },
                                None => None,
                            },
                            None => None,
                        },
                        None => None,
                    },
                    None => None,
                },
                None => None,
            },
            None => None,
        },
    }
}

/// The first element of a key-issuance response body: an opening bracket,
/// then one outcome. The remainder of the array is not inspected, since only
/// the first element is ever consulted.
pub open spec fn sp_first_outcome(s: Seq<char>) -> Option<GenKeyResultV> {
    match sp_lit(s, 0, ("[")@) {
        Some(j) => match sp_outcome(s, j) {
            Some((o, _)) => Some(o),
            None => None,
        },
        None => None,
    }
}

impl GenKeyResult {
    /// Encodes this outcome in its compact wire form.
    pub fn encode(&self) -> (r: String)
        requires
            outcome_safe(self@),
        ensures
            r@ == enc_outcome(self@),
    {
        let mut out: Vec<char> = Vec::new();
        match self {
            GenKeyResult::Success(su) => {
                push_chars(&mut out, "{\"success\":{\"username\":");
                push_quoted(&mut out, su.username.as_str());
                push_chars(&mut out, "}}");
            },
            GenKeyResult::Error(e) => {
                push_chars(&mut out, "{\"error\":{\"type\":");
                push_int(&mut out, e.t);
                push_chars(&mut out, ",\"address\":");
                push_quoted(&mut out, e.address.as_str());
                push_chars(&mut out, ",\"description\":");
                push_quoted(&mut out, e.description.as_str());
                push_chars(&mut out, "}}");
            },
        }
        proof {
            assert(out@ =~= Seq::<char>::empty() + out@);
            assert(Seq::<char>::empty() + out@ =~= out@);
        }
        assert(out@ == enc_outcome(self@));
        chars_to_string(&out)
    }

    /// Reads one outcome object at position `i`.
    pub fn parse_at(s: &str, i: usize) -> (r: Option<(GenKeyResult, usize)>)
        requires
            i <= s@.len(),
        ensures
            (r is Some) == (sp_outcome(s@, i as int) is Some),
            r matches Some(p) ==> sp_outcome(s@, i as int) == Some((p.0@, p.1 as int)) && p.1
                <= s@.len(),
    {
        match match_lit(s, i, "{\"success\":{\"username\":") {
            Some(j) => {
                let (u, k) = match parse_string(s, j) {
                    Some(p) => p,
                    None => {
                        return None;
                    },
                };
                match match_lit(s, k, "}}") {
                    Some(m) => Some((GenKeyResult::Success(GenKeySuccess { username: u }), m)),
                    None => None,
                }
            },
            None => {
                let j = match match_lit(s, i, "{\"error\":{\"type\":") {
                    Some(j) => j,
                    None => {
                        return None;
                    },
                };
                let (t, k) = match parse_int(s, j) {
                    Some(p) => p,
                    None => {
                        return None;
                    },
                };
                let m = match match_lit(s, k, ",\"address\":") {
                    Some(m) => m,
                    None => {
                        return None;
                    },
                };
                let (a, p) = match parse_string(s, m) {
                    Some(p) => p,
                    None => {
                        return None;
                    },
                };
                let q = match match_lit(s, p, ",\"description\":") {
                    Some(q) => q,
                    None => {
                        return None;
                    },
                };
                let (d, w) = match parse_string(s, q) {
                    Some(p) => p,
                    None => {
                        return None;
                    },
                };
                match match_lit(s, w, "}}") {
                    Some(z) => Some(
                        (
                            GenKeyResult::Error(
                                GenKeyError { t, address: a, description: d },
                            ),
                            z,
                        ),
                    ),
                    None => None,
                }
            },
        }
    }

    /// Reads the first element of a key-issuance response body.
    pub fn decode_first(s: &str) -> (r: Option<GenKeyResult>)
        ensures
            (r is Some) == (sp_first_outcome(s@) is Some),
            r matches Some(o) ==> sp_first_outcome(s@) == Some(o@),
    {
        let j = match match_lit(s, 0, "[") {
            Some(j) => j,
            None => {
                return None;
            },
        };
        match Self::parse_at(s, j) {
            Some((o, _)) => Some(o),
            None => None,
        }
    }
}

#[verifier::rlimit(100)]
#[verifier::spinoff_prover]
proof fn lemma_success_at(pre: Seq<char>, su: GenKeySuccessV, rest: Seq<char>)
    requires
        json_safe(su.username),
    ensures
        sp_outcome(pre + enc_success(su.username) + rest, pre.len() as int) == Some(
            (
                GenKeyResultV::Success(GenKeySuccessV { username: su.username }),
                (pre.len() + enc_success(su.username).len()) as int,
            ),
        ),
{
    let s = pre + enc_success(su.username) + rest;
    let k_success = ("{\"success\":{\"username\":")@;
    let k_close = ("}}")@;
    let eu = enc_str(su.username);
    let su2 = k_close + rest;
    let su1 = eu + su2;
    assert(s =~= pre + (k_success + su1));
    assert(s =~= (pre + k_success) + su1);
    lemma_lit_at(pre, k_success, su1);
    let p1 = pre + k_success;
    assert(s =~= (p1 + eu) + su2);
    lemma_string_at(p1, su.username, su2);
    let p2 = p1 + eu;
    assert(s =~= (p2 + k_close) + rest);
    lemma_lit_at(p2, k_close, rest);
    assert(p2.len() + k_close.len() == pre.len() + enc_success(su.username).len());
}

#[verifier::rlimit(100)]
#[verifier::spinoff_prover]
proof fn lemma_error_at(pre: Seq<char>, e: GenKeyErrorV, rest: Seq<char>)
    requires
        json_safe(e.address),
        json_safe(e.description),
    ensures
        sp_outcome(pre + enc_gen_key_error(e) + rest, pre.len() as int) == Some(
            (GenKeyResultV::Error(e), (pre.len() + enc_gen_key_error(e).len()) as int),
        ),
{
    reveal_strlit("{\"success\":{\"username\":");
    reveal_strlit("{\"error\":{\"type\":");
    reveal_strlit(",\"address\":");
    let s = pre + enc_gen_key_error(e) + rest;
    let i = pre.len() as int;
    let k_success = ("{\"success\":{\"username\":")@;
    let k_error = ("{\"error\":{\"type\":")@;
    let k_addr = (",\"address\":")@;
    let k_desc = (",\"description\":")@;
    let k_close = ("}}")@;
    let et = dec_int(e.t as int);
    let ea = enc_str(e.address);
    let ed = enc_str(e.description);
    let su6 = k_close + rest;
    let su5 = ed + su6;
    let su4 = k_desc + su5;
    let su3 = ea + su4;
    let su2 = k_addr + su3;
    let su1 = et + su2;
    assert(s =~= pre + (k_error + su1));
    // the success key cannot match: the third character differs
    assert(enc_gen_key_error(e)[2] == k_error[2]);
    assert(s[i + 2] == 'e');
    if sp_lit(s, i, k_success) is Some {
        assert(s.subrange(i, i + k_success.len() as int) == k_success);
        assert(s.subrange(i, i + k_success.len() as int)[2] == s[i + 2]);
        assert(false);
    }
    assert(s =~= (pre + k_error) + su1);
    lemma_lit_at(pre, k_error, su1);
    let p1 = pre + k_error;
    assert(s =~= (p1 + et) + su2);
    assert(su2[0] == ',');
    assert(!is_digit(','));
    lemma_int_at(p1, e.t as int, su2);
    let p2 = p1 + et;
    assert(s =~= (p2 + k_addr) + su3);
    lemma_lit_at(p2, k_addr, su3);
    let p3 = p2 + k_addr;
    assert(s =~= (p3 + ea) + su4);
    lemma_string_at(p3, e.address, su4);
    let p4 = p3 + ea;
    assert(s =~= (p4 + k_desc) + su5);
    lemma_lit_at(p4, k_desc, su5);
    let p5 = p4 + k_desc;
    assert(s =~= (p5 + ed) + su6);
    lemma_string_at(p5, e.description, su6);
    let p6 = p5 + ed;
    assert(s =~= (p6 + k_close) + rest);
    lemma_lit_at(p6, k_close, rest);
    assert(p6.len() + k_close.len() == pre.len() + enc_gen_key_error(e).len());
    assert((e.t as int) as i32 == e.t);
}

/// Law: decoding an encoded outcome recovers it, whatever follows it in the
/// array.
pub proof fn lemma_outcome_at(pre: Seq<char>, o: GenKeyResultV, rest: Seq<char>)
    requires
        outcome_safe(o),
    ensures
        sp_outcome(pre + enc_outcome(o) + rest, pre.len() as int) == Some(
            (o, (pre.len() + enc_outcome(o).len()) as int),
        ),
{
    match o {
        GenKeyResultV::Success(su) => {
            lemma_success_at(pre, su, rest);
            assert(GenKeySuccessV { username: su.username } == su);
        },
        GenKeyResultV::Error(e) => {
            lemma_error_at(pre, e, rest);
        },
    }
}

/// Law: the outcome wire codec is lossless. An encoded outcome, framed as
/// the first element of a response array, decodes to the same outcome.
pub proof fn lemma_outcome_round_trip(o: GenKeyResultV, rest: Seq<char>)
    requires
        outcome_safe(o),
    ensures
        sp_first_outcome(("[")@ + enc_outcome(o) + rest) == Some(o),
{
    reveal_strlit("[");
    let s = ("[")@ + enc_outcome(o) + rest;
    let br = ("[")@;
    assert(s =~= br + (enc_outcome(o) + rest));
    assert(s.subrange(0, 1) =~= br);
    assert(sp_lit(s, 0, br) == Some(1int));
    lemma_outcome_at(br, o, rest);
    assert(br.len() == 1);
}

} // verus!
