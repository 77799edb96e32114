//! The crate's own IPv4 address value: four octets, printed and parsed in
//! dotted-quad form. Only IPv4 addresses are actionable anywhere in the
//! crate; nothing here represents an IPv6 address.

use crate::codec::{
    dec_rep, is_digit, lemma_uint_at, parse_uint, push_dec, sp_uint, chars_to_string, sp_lit,
    lemma_lit_at, match_lit,
};
use vstd::prelude::*;

verus! {

/// An IPv4 address held as its four dotted-quad octets.
#[derive(Clone, Copy, Debug, PartialEq, Eq, Structural)]
pub struct Ipv4Addr {
    pub a: u8,
    pub b: u8,
    pub c: u8,
    pub d: u8,
}

/// The dotted-quad text of `ip`.
pub open spec fn ipv4_rep(ip: Ipv4Addr) -> Seq<char> {
    dec_rep(ip.a as nat) + (".")@ + dec_rep(ip.b as nat) + (".")@ + dec_rep(ip.c as nat) + (".")@
        + dec_rep(ip.d as nat)
}

/// A dotted quad at position `i`: four numbers up to 255, separated by dots.
pub open spec fn sp_ipv4(s: Seq<char>, i: int) -> Option<(Ipv4Addr, int)> {
    match sp_uint(s, i, 255) {
        None => None,
        Some((a, i1)) => match sp_lit(s, i1, (".")@) {
            None => None,
            Some(i2) => match sp_uint(s, i2, 255) {
                None => None,
                Some((b, i3)) => match sp_lit(s, i3, (".")@) {
                    None => None,
                    Some(i4) => match sp_uint(s, i4, 255) {
                        None => None,
                        Some((c, i5)) => match sp_lit(s, i5, (".")@) {
                            None => None,
                            Some(i6) => match sp_uint(s, i6, 255) {
                                None => None,
                                Some((d, i7)) => Some(
                                    (
                                        Ipv4Addr {
                                            a: a as u8,
                                            b: b as u8,
                                            c: c as u8,
                                            d: d as u8,
                                        },
                                        i7,
                                    ),
                                ),
                            },
                        },
                    },
                },
            },
        },
    }
}

/// The whole of `t` read as a dotted quad.
pub open spec fn sp_ipv4_str(t: Seq<char>) -> Option<Ipv4Addr> {
    match sp_ipv4(t, 0) {
        Some((ip, j)) => if j == t.len() {
            Some(ip)
        } else {
            None
        },
        None => None,
    }
}

impl Ipv4Addr {
    pub fn new(a: u8, b: u8, c: u8, d: u8) -> (r: Ipv4Addr)
        ensures
            r == (Ipv4Addr { a, b, c, d }),
    {
        Ipv4Addr { a, b, c, d }
    }

    /// The address in dotted-quad text, as it stands in request URLs and in
    /// the discovery wire format.
    pub fn to_text(&self) -> (r: String)
        ensures
            r@ == ipv4_rep(*self),
    {
        let mut out: Vec<char> = Vec::new();
        push_ipv4(&mut out, *self);
        proof {
            assert(Seq::<char>::empty() + ipv4_rep(*self) =~= ipv4_rep(*self));
        }
        chars_to_string(&out)
    }

    /// Reads a dotted-quad text such as `192.168.50.173`; the whole input
    /// must be the address, octets at most 255.
    pub fn parse(s: &str) -> (r: Option<Ipv4Addr>)
        ensures
            r == sp_ipv4_str(s@),
    {
        let n = s.unicode_len();
        match parse_ipv4_at(s, 0) {
            Some((ip, j)) => {
                if j == n {
                    Some(ip)
                } else {
                    None
                }
            },
            None => None,
        }
    }
}

/// Appends the dotted-quad text of `ip` onto `out`.
pub fn push_ipv4(out: &mut Vec<char>, ip: Ipv4Addr)
    ensures
        final(out)@ == old(out)@ + ipv4_rep(ip),
{
    push_dec(out, ip.a as u64);
    push_chars_dot(out);
    push_dec(out, ip.b as u64);
    push_chars_dot(out);
    push_dec(out, ip.c as u64);
    push_chars_dot(out);
    push_dec(out, ip.d as u64);
    assert(old(out)@ + dec_rep(ip.a as nat) + (".")@ + dec_rep(ip.b as nat) + (".")@ + dec_rep(
        ip.c as nat,
    ) + (".")@ + dec_rep(ip.d as nat) =~= old(out)@ + ipv4_rep(ip));
}

fn push_chars_dot(out: &mut Vec<char>)
    ensures
        final(out)@ == old(out)@ + (".")@,
{
    crate::codec::push_chars(out, ".");
}

/// Reads a dotted quad at position `i`.
pub fn parse_ipv4_at(s: &str, i: usize) -> (r: Option<(Ipv4Addr, usize)>)
    requires
        i <= s@.len(),
    ensures
        (r is Some) == (sp_ipv4(s@, i as int) is Some),
        r matches Some(p) ==> sp_ipv4(s@, i as int) == Some((p.0, p.1 as int)) && i < p.1
            <= s@.len(),
{
    let (a, i1) = match parse_uint(s, i, 255) {
        Some(p) => p,
        None => {
            return None;
        },
    };
    let i2 = match match_lit(s, i1, ".") {
        Some(j) => j,
        None => {
            return None;
        },
    };
    let (b, i3) = match parse_uint(s, i2, 255) {
        Some(p) => p,
        None => {
            return None;
        },
    };
    let i4 = match match_lit(s, i3, ".") {
        Some(j) => j,
        None => {
            return None;
        },
    };
    let (c, i5) = match parse_uint(s, i4, 255) {
        Some(p) => p,
        None => {
            return None;
        },
    };
    let i6 = match match_lit(s, i5, ".") {
        Some(j) => j,
        None => {
            return None;
        },
    };
    let (d, i7) = match parse_uint(s, i6, 255) {
        Some(p) => p,
        None => {
            return None;
        },
    };
    Some((Ipv4Addr { a: a as u8, b: b as u8, c: c as u8, d: d as u8 }, i7))
}

/// Law: reading back a printed address recovers it, whatever follows,
/// provided what follows starts with no digit.
#[verifier::rlimit(100)]
#[verifier::spinoff_prover]
pub proof fn lemma_ipv4_at(pre: Seq<char>, ip: Ipv4Addr, rest: Seq<char>)
    requires
        rest.len() > 0 ==> !is_digit(rest[0]),
    ensures
        sp_ipv4(pre + ipv4_rep(ip) + rest, pre.len() as int) == Some(
            (ip, (pre.len() + ipv4_rep(ip).len()) as int),
        ),
{
    let s = pre + ipv4_rep(ip) + rest;
    let ra = dec_rep(ip.a as nat);
    let rb = dec_rep(ip.b as nat);
    let rc = dec_rep(ip.c as nat);
    let rd = dec_rep(ip.d as nat);
    let dot = (".")@;
    reveal_strlit(".");
    assert(dot.len() == 1 && dot[0] == '.');
    assert(!is_digit('.'));

    let su6 = rd + rest;
    let su5 = dot + su6;
    let su4 = rc + su5;
    let su3 = dot + su4;
    let su2 = rb + su3;
    let su1 = dot + su2;
    let su0 = ra + su1;
    assert(s =~= pre + su0);

    assert(s =~= (pre + ra) + su1);
    assert(su1[0] == '.');
    lemma_uint_at(pre, ip.a as nat, su1, 255);
    let p1 = pre + ra;
    assert(s =~= (p1 + dot) + su2);
    lemma_lit_at(p1, dot, su2);
    let p2 = p1 + dot;
    assert(s =~= (p2 + rb) + su3);
    assert(su3[0] == '.');
    lemma_uint_at(p2, ip.b as nat, su3, 255);
    let p3 = p2 + rb;
    assert(s =~= (p3 + dot) + su4);
    lemma_lit_at(p3, dot, su4);
    let p4 = p3 + dot;
    assert(s =~= (p4 + rc) + su5);
    assert(su5[0] == '.');
    lemma_uint_at(p4, ip.c as nat, su5, 255);
    let p5 = p4 + rc;
    assert(s =~= (p5 + dot) + su6);
    lemma_lit_at(p5, dot, su6);
    let p6 = p5 + dot;
    assert(s =~= (p6 + rd) + rest);
    lemma_uint_at(p6, ip.d as nat, rest, 255);
    assert(p6.len() + rd.len() == pre.len() + ipv4_rep(ip).len());
}

/// Law: printing an address and parsing the text yields the address again.
pub proof fn lemma_ipv4_round_trip(ip: Ipv4Addr)
    ensures
        sp_ipv4_str(ipv4_rep(ip)) == Some(ip),
{
    let empty = Seq::<char>::empty();
    lemma_ipv4_at(empty, ip, empty);
    assert(empty + ipv4_rep(ip) + empty =~= ipv4_rep(ip));
    assert(sp_ipv4(ipv4_rep(ip), 0) == Some((ip, ipv4_rep(ip).len() as int)));
}

} // verus!
