//! Character-level building blocks for the wire codec.
//!
//! The bridges speak a small JSON dialect. This module gives the codec its
//! primitives: decimal numbers, string literals, quoted strings and booleans,
//! each with a specification-level grammar (`sp_*`), an executable parser or
//! encoder proved against it, and a lemma showing that parsing an encoded
//! value recovers it. Quoted strings are supported without escape sequences:
//! a string containing `"` or `\` is rejected rather than misread.

use vstd::prelude::*;

verus! {

// ---------------------------------------------------------------------------
// Decimal digits
// ---------------------------------------------------------------------------

pub open spec fn is_digit(c: char) -> bool {
    c == '0' || c == '1' || c == '2' || c == '3' || c == '4' || c == '5' || c == '6' || c == '7'
        || c == '8' || c == '9'
}

pub open spec fn digit_val(c: char) -> int {
    if c == '0' {
        0
    } else if c == '1' {
        1
    } else if c == '2' {
        2
    } else if c == '3' {
        3
    } else if c == '4' {
        4
    } else if c == '5' {
        5
    } else if c == '6' {
        6
    } else if c == '7' {
        7
    } else if c == '8' {
        8
    } else {
        9
    }
}

pub open spec fn digit_char(n: int) -> char {
    if n == 0 {
        '0'
    } else if n == 1 {
        '1'
    } else if n == 2 {
        '2'
    } else if n == 3 {
        '3'
    } else if n == 4 {
        '4'
    } else if n == 5 {
        '5'
    } else if n == 6 {
        '6'
    } else if n == 7 {
        '7'
    } else if n == 8 {
        '8'
    } else {
        '9'
    }
}

/// The decimal representation of `n`, most significant digit first.
pub open spec fn dec_rep(n: nat) -> Seq<char>
    decreases n,
{
    if n < 10 {
        seq![digit_char(n as int)]
    } else {
        dec_rep(n / 10).push(digit_char((n % 10) as int))
    }
}

pub open spec fn pow10(e: nat) -> nat
    decreases e,
{
    if e == 0 {
        1
    } else {
        10 * pow10((e - 1) as nat)
    }
}

fn digit_of(c: char) -> (r: Option<u64>)
    ensures
        (r is Some) == is_digit(c),
        r matches Some(d) ==> d as int == digit_val(c) && d < 10,
{
    match c {
        '0' => Some(0),
        '1' => Some(1),
        '2' => Some(2),
        '3' => Some(3),
        '4' => Some(4),
        '5' => Some(5),
        '6' => Some(6),
        '7' => Some(7),
        '8' => Some(8),
        '9' => Some(9),
        _ => None,
    }
}

fn char_of_digit(n: u64) -> (c: char)
    requires
        n < 10,
    ensures
        c == digit_char(n as int),
{
    match n {
        0 => '0',
        1 => '1',
        2 => '2',
        3 => '3',
        4 => '4',
        5 => '5',
        6 => '6',
        7 => '7',
        8 => '8',
        _ => '9',
    }
}

// ---------------------------------------------------------------------------
// Encoders: append onto a character buffer
// ---------------------------------------------------------------------------

/// Appends the characters of `t` onto `out`.
pub fn push_chars(out: &mut Vec<char>, t: &str)
    ensures
        final(out)@ == old(out)@ + t@,
{
    let m = t.unicode_len();
    let mut j: usize = 0;
    while j < m
        invariant
            j <= m,
            m == t@.len(),
            out@ == old(out)@ + t@.subrange(0, j as int),
        decreases m - j,
    {
        let c = t.get_char(j);
        out.push(c);
        assert(old(out)@ + t@.subrange(0, j as int) + seq![t@[j as int]] =~= old(out)@
            + t@.subrange(0, j + 1 as int));
        j += 1;
    }
    assert(t@.subrange(0, m as int) =~= t@);
}

/// Appends the decimal representation of `n` onto `out`.
pub fn push_dec(out: &mut Vec<char>, n: u64)
    ensures
        final(out)@ == old(out)@ + dec_rep(n as nat),
    decreases n,
{
    if n < 10 {
        out.push(char_of_digit(n));
        assert(old(out)@.push(digit_char(n as int)) =~= old(out)@ + dec_rep(n as nat));
    } else {
        push_dec(out, n / 10);
        out.push(char_of_digit(n % 10));
        assert((old(out)@ + dec_rep((n / 10) as nat)).push(digit_char((n % 10) as int)) =~= old(
            out,
        )@ + dec_rep(n as nat));
    }
}

pub open spec fn enc_bool(b: bool) -> Seq<char> {
    if b {
        ("true")@
    } else {
        ("false")@
    }
}

/// Appends `true` or `false` onto `out`.
pub fn push_bool(out: &mut Vec<char>, b: bool)
    ensures
        final(out)@ == old(out)@ + enc_bool(b),
{
    if b {
        push_chars(out, "true");
    } else {
        push_chars(out, "false");
    }
}

/// A quoted string, valid only for contents free of `"` and `\`.
pub open spec fn enc_str(t: Seq<char>) -> Seq<char> {
    seq!['"'] + t + seq!['"']
}

/// Holds when a string may stand between quotes without escaping.
pub open spec fn json_safe(t: Seq<char>) -> bool {
    forall|k: int| 0 <= k < t.len() ==> t[k] != '"' && t[k] != '\\'
}

/// Appends `t` between double quotes onto `out`.
pub fn push_quoted(out: &mut Vec<char>, t: &str)
    ensures
        final(out)@ == old(out)@ + enc_str(t@),
{
    out.push('"');
    push_chars(out, t);
    out.push('"');
    assert(((old(out)@.push('"')) + t@).push('"') =~= old(out)@ + enc_str(t@));
}

/// Exposes whether `t` can be carried in a quoted string unescaped.
pub fn is_json_safe(t: &str) -> (r: bool)
    ensures
        r == json_safe(t@),
{
    let m = t.unicode_len();
    let mut j: usize = 0;
    while j < m
        invariant
            j <= m,
            m == t@.len(),
            forall|k: int| 0 <= k < j ==> t@[k] != '"' && t@[k] != '\\',
        decreases m - j,
    {
        let c = t.get_char(j);
        if c == '"' || c == '\\' {
            return false;
        }
        j += 1;
    }
    true
}

/// Whether two strings hold the same characters.
pub fn str_eq(a: &str, b: &str) -> (r: bool)
    ensures
        r == (a@ == b@),
{
    let n = a.unicode_len();
    let m = b.unicode_len();
    if n != m {
        return false;
    }
    let mut j: usize = 0;
    while j < n
        invariant
            j <= n,
            n == a@.len(),
            n == b@.len(),
            forall|k: int| 0 <= k < j ==> a@[k] == b@[k],
        decreases n - j,
    {
        if a.get_char(j) != b.get_char(j) {
            return false;
        }
        j += 1;
    }
    proof {
        assert(a@ =~= b@);
    }
    true
}

/// Relies on `String`'s `FromIterator<char>`: collecting characters yields
/// the string holding exactly those characters, in order.
#[verifier::external_body]
pub fn chars_to_string(v: &Vec<char>) -> (r: String)
    ensures
        r@ == v@,
{
    v.iter().collect()
}

// ---------------------------------------------------------------------------
// Parsers: literals
// ---------------------------------------------------------------------------

/// Recognizes the exact characters of `lit` at position `i`.
pub open spec fn sp_lit(s: Seq<char>, i: int, lit: Seq<char>) -> Option<int> {
    if 0 <= i && i + lit.len() <= s.len() && s.subrange(i, i + lit.len() as int) == lit {
        Some(i + lit.len())
    } else {
        None
    }
}

pub fn match_lit(s: &str, i: usize, lit: &str) -> (r: Option<usize>)
    requires
        i <= s@.len(),
    ensures
        (r is Some) == (sp_lit(s@, i as int, lit@) is Some),
        r matches Some(j) ==> sp_lit(s@, i as int, lit@) == Some(j as int) && j == i + lit@.len()
            && j <= s@.len(),
{
    let n = s.unicode_len();
    let m = lit.unicode_len();
    if m > n - i {
        return None;
    }
    let mut j: usize = 0;
    while j < m
        invariant
            j <= m,
            i + m <= n,
            n == s@.len(),
            m == lit@.len(),
            forall|k: int| 0 <= k < j ==> s@[i + k] == lit@[k],
        decreases m - j,
    {
        if s.get_char(i + j) != lit.get_char(j) {
            proof {
                let ss = s@.subrange(i as int, i + m as int);
                assert(ss[j as int] == s@[i + j]);
                assert(ss != lit@);
            }
            return None;
        }
        j += 1;
    }
    proof {
        assert(s@.subrange(i as int, i + m as int) =~= lit@);
    }
    Some(i + m)
}

/// Parsing an encoded literal consumes exactly that literal.
pub proof fn lemma_lit_at(pre: Seq<char>, lit: Seq<char>, rest: Seq<char>)
    ensures
        sp_lit(pre + lit + rest, pre.len() as int, lit) == Some((pre.len() + lit.len()) as int),
{
    let s = pre + lit + rest;
    assert(s.subrange(pre.len() as int, pre.len() + lit.len() as int) =~= lit);
}

// ---------------------------------------------------------------------------
// Parsers: unsigned decimal numbers
// ---------------------------------------------------------------------------

/// Consumes digits left to right, extending `acc`; fails once the value
/// would pass `max`.
pub open spec fn sp_digits(s: Seq<char>, i: int, acc: nat, max: nat) -> Option<(nat, int)>
    decreases s.len() - i,
{
    if 0 <= i < s.len() && is_digit(s[i]) {
        if acc * 10 + digit_val(s[i]) > max {
            None
        } else {
            sp_digits(s, i + 1, (acc * 10 + digit_val(s[i])) as nat, max)
        }
    } else {
        Some((acc, i))
    }
}

/// A number: at least one digit, value at most `max`.
pub open spec fn sp_uint(s: Seq<char>, i: int, max: nat) -> Option<(nat, int)> {
    if 0 <= i < s.len() && is_digit(s[i]) {
        sp_digits(s, i, 0, max)
    } else {
        None
    }
}

pub fn parse_uint(s: &str, i: usize, max: u64) -> (r: Option<(u64, usize)>)
    requires
        i <= s@.len(),
        max <= 0xFFFF_FFFF,
    ensures
        (r is Some) == (sp_uint(s@, i as int, max as nat) is Some),
        r matches Some(p) ==> sp_uint(s@, i as int, max as nat) == Some(
            (p.0 as nat, p.1 as int),
        ) && i < p.1 <= s@.len() && p.0 <= max,
{
    let n = s.unicode_len();
    if i >= n {
        return None;
    }
    if digit_of(s.get_char(i)).is_none() {
        return None;
    }
    let mut j: usize = i;
    let mut acc: u64 = 0;
    loop
        invariant
            i <= j <= n,
            n == s@.len(),
            acc <= max,
            max <= 0xFFFF_FFFF,
            i < n && is_digit(s@[i as int]),
            sp_digits(s@, i as int, 0, max as nat) == sp_digits(s@, j as int, acc as nat, max as nat),
        decreases n - j,
    {
        if j == n {
            assert(sp_digits(s@, j as int, acc as nat, max as nat) == Some((acc as nat, j as int)));
            return Some((acc, j));
        }
        match digit_of(s.get_char(j)) {
            Some(d) => {
                let v = acc * 10 + d;
                if v > max {
                    assert(sp_digits(s@, j as int, acc as nat, max as nat) is None);
                    return None;
                }
                assert(sp_digits(s@, j as int, acc as nat, max as nat) == sp_digits(
                    s@,
                    j + 1 as int,
                    v as nat,
                    max as nat,
                ));
                acc = v;
                j += 1;
            },
            None => {
                assert(sp_digits(s@, j as int, acc as nat, max as nat) == Some(
                    (acc as nat, j as int),
                ));
                return Some((acc, j));
            },
        }
    }
}

proof fn lemma_dec_rep_digits(n: nat)
    ensures
        dec_rep(n).len() >= 1,
        forall|k: int| 0 <= k < dec_rep(n).len() ==> is_digit(#[trigger] dec_rep(n)[k]),
    decreases n,
{
    if n < 10 {
    } else {
        lemma_dec_rep_digits(n / 10);
    }
}

proof fn lemma_digits_run(s: Seq<char>, i: int, acc: nat, n: nat, max: nat)
    requires
        0 <= i,
        i + dec_rep(n).len() <= s.len(),
        forall|k: int| 0 <= k < dec_rep(n).len() ==> s[i + k] == #[trigger] dec_rep(n)[k],
        acc * pow10(dec_rep(n).len()) + n <= max,
    ensures
        sp_digits(s, i, acc, max) == sp_digits(
            s,
            i + dec_rep(n).len(),
            (acc * pow10(dec_rep(n).len()) + n) as nat,
            max,
        ),
    decreases n,
{
    if n < 10 {
        assert(dec_rep(n) =~= seq![digit_char(n as int)]);
        assert(dec_rep(n)[0] == digit_char(n as int));
        assert(s[i + 0] == dec_rep(n)[0]);
        assert(s[i] == digit_char(n as int));
        assert(pow10(0) == 1);
        assert(pow10(1) == 10);
        assert(is_digit(s[i]));
        assert(digit_val(s[i]) == n);
        assert(sp_digits(s, i, acc, max) == sp_digits(s, i + 1, (acc * 10 + n) as nat, max));
    } else {
        let m = n / 10;
        let d = (n % 10) as int;
        let rep = dec_rep(n);
        let repm = dec_rep(m);
        let l1 = repm.len() as int;
        assert(rep == repm.push(digit_char(d)));
        assert(rep.len() == l1 + 1);
        assert(forall|k: int| 0 <= k < l1 ==> s[i + k] == #[trigger] repm[k]) by {
            assert(forall|k: int| 0 <= k < l1 ==> #[trigger] repm[k] == rep[k]);
        }
        assert(pow10(repm.len() + 1) == 10 * pow10(repm.len()));
        assert(acc * pow10(repm.len()) + m <= max) by (nonlinear_arith)
            requires
                acc * pow10(rep.len()) + n <= max,
                pow10(rep.len()) == 10 * pow10(repm.len()),
                n == 10 * m + (n % 10),
                0 <= n % 10,
                acc >= 0,
                pow10(repm.len()) >= 0,
        ;
        lemma_digits_run(s, i, acc, m, max);
        let acc1 = (acc * pow10(repm.len()) + m) as nat;
        assert(s[i + l1] == rep[l1]);
        assert(rep[l1] == digit_char(d));
        lemma_dec_rep_digits(n);
        assert(is_digit(s[i + l1]));
        assert(digit_val(digit_char(d)) == d);
        assert(acc1 * 10 + d == acc * pow10(rep.len()) + n) by (nonlinear_arith)
            requires
                acc1 == acc * pow10(repm.len()) + m,
                pow10(rep.len()) == 10 * pow10(repm.len()),
                n == 10 * m + d,
        ;
        assert(sp_digits(s, i + l1, acc1, max) == sp_digits(
            s,
            i + l1 + 1,
            (acc1 * 10 + d) as nat,
            max,
        ));
    }
}

/// Parsing an encoded number recovers it, provided what follows starts with
/// no digit.
pub proof fn lemma_uint_at(pre: Seq<char>, n: nat, rest: Seq<char>, max: nat)
    requires
        n <= max,
        rest.len() > 0 ==> !is_digit(rest[0]),
    ensures
        sp_uint(pre + dec_rep(n) + rest, pre.len() as int, max) == Some(
            (n, (pre.len() + dec_rep(n).len()) as int),
        ),
{
    let s = pre + dec_rep(n) + rest;
    let i = pre.len() as int;
    let l = dec_rep(n).len() as int;
    lemma_dec_rep_digits(n);
    assert(forall|k: int| 0 <= k < l ==> s[i + k] == #[trigger] dec_rep(n)[k]);
    assert(0 * pow10(dec_rep(n).len()) + n <= max);
    lemma_digits_run(s, i, 0, n, max);
    assert(s[i] == dec_rep(n)[0]);
    assert(is_digit(s[i]));
    if i + l < s.len() {
        assert(s[i + l] == rest[0]);
        assert(sp_digits(s, i + l, n, max) == Some((n, i + l)));
    } else {
        assert(sp_digits(s, i + l, n, max) == Some((n, i + l)));
    }
}

// ---------------------------------------------------------------------------
// Parsers: booleans
// ---------------------------------------------------------------------------

pub open spec fn sp_bool(s: Seq<char>, i: int) -> Option<(bool, int)> {
    if sp_lit(s, i, ("true")@) is Some {
        Some((true, sp_lit(s, i, ("true")@)->Some_0))
    } else if sp_lit(s, i, ("false")@) is Some {
        Some((false, sp_lit(s, i, ("false")@)->Some_0))
    } else {
        None
    }
}

pub fn parse_bool(s: &str, i: usize) -> (r: Option<(bool, usize)>)
    requires
        i <= s@.len(),
    ensures
        (r is Some) == (sp_bool(s@, i as int) is Some),
        r matches Some(p) ==> sp_bool(s@, i as int) == Some((p.0, p.1 as int)) && i < p.1
            <= s@.len(),
{
    proof {
        reveal_strlit("true");
        reveal_strlit("false");
    }
    match match_lit(s, i, "true") {
        Some(j) => Some((true, j)),
        None => match match_lit(s, i, "false") {
            Some(j) => Some((false, j)),
            None => None,
        },
    }
}

/// Parsing an encoded boolean recovers it.
pub proof fn lemma_bool_at(pre: Seq<char>, b: bool, rest: Seq<char>)
    ensures
        sp_bool(pre + enc_bool(b) + rest, pre.len() as int) == Some(
            (b, (pre.len() + enc_bool(b).len()) as int),
        ),
{
    reveal_strlit("true");
    reveal_strlit("false");
    let s = pre + enc_bool(b) + rest;
    let i = pre.len() as int;
    lemma_lit_at(pre, enc_bool(b), rest);
    if b {
    } else {
        assert(s[i] == 'f');
        if sp_lit(s, i, ("true")@) is Some {
            assert(s.subrange(i, i + 4) == ("true")@);
            assert(s.subrange(i, i + 4)[0] == s[i]);
            assert(false);
        }
    }
}

// ---------------------------------------------------------------------------
// Parsers: quoted strings without escapes
// ---------------------------------------------------------------------------

/// Position of the closing quote, scanning from `i`; fails on a backslash.
pub open spec fn scan_str_end(s: Seq<char>, i: int) -> Option<int>
    decreases s.len() - i,
{
    if 0 <= i < s.len() {
        if s[i] == '"' {
            Some(i)
        } else if s[i] == '\\' {
            None
        } else {
            scan_str_end(s, i + 1)
        }
    } else {
        None
    }
}

/// A quoted string at position `i`; yields the contents and the position
/// after the closing quote.
pub open spec fn sp_string(s: Seq<char>, i: int) -> Option<(Seq<char>, int)> {
    if 0 <= i < s.len() && s[i] == '"' {
        match scan_str_end(s, i + 1) {
            Some(j) => Some((s.subrange(i + 1, j), j + 1)),
            None => None,
        }
    } else {
        None
    }
}

pub fn parse_string(s: &str, i: usize) -> (r: Option<(String, usize)>)
    requires
        i <= s@.len(),
    ensures
        (r is Some) == (sp_string(s@, i as int) is Some),
        r matches Some(p) ==> sp_string(s@, i as int) == Some((p.0@, p.1 as int)) && i + 2 <= p.1
            <= s@.len() && json_safe(p.0@),
{
    let n = s.unicode_len();
    if i >= n {
        return None;
    }
    if s.get_char(i) != '"' {
        return None;
    }
    let mut j: usize = i + 1;
    loop
        invariant
            i + 1 <= j <= n,
            n == s@.len(),
            i < n,
            s@[i as int] == '"',
            scan_str_end(s@, i + 1 as int) == scan_str_end(s@, j as int),
            forall|k: int| i + 1 <= k < j ==> s@[k] != '"' && s@[k] != '\\',
        decreases n - j,
    {
        if j == n {
            assert(scan_str_end(s@, j as int) is None);
            return None;
        }
        let c = s.get_char(j);
        if c == '"' {
            assert(scan_str_end(s@, j as int) == Some(j as int));
            let content = s.substring_char(i + 1, j).to_owned();
            assert(json_safe(content@));
            return Some((content, j + 1));
        }
        if c == '\\' {
            assert(scan_str_end(s@, j as int) is None);
            return None;
        }
        j += 1;
    }
}

proof fn lemma_scan_safe(s: Seq<char>, i: int, j: int)
    requires
        0 <= i <= j < s.len(),
        s[j] == '"',
        forall|k: int| i <= k < j ==> s[k] != '"' && s[k] != '\\',
    ensures
        scan_str_end(s, i) == Some(j),
    decreases j - i,
{
    if i == j {
    } else {
        lemma_scan_safe(s, i + 1, j);
    }
}

/// Parsing an encoded quoted string recovers its contents.
pub proof fn lemma_string_at(pre: Seq<char>, t: Seq<char>, rest: Seq<char>)
    requires
        json_safe(t),
    ensures
        sp_string(pre + enc_str(t) + rest, pre.len() as int) == Some(
            (t, (pre.len() + t.len() + 2) as int),
        ),
{
    let s = pre + enc_str(t) + rest;
    let i = pre.len() as int;
    assert(s[i] == '"');
    assert(s[i + 1 + t.len()] == '"');
    assert(forall|k: int| i + 1 <= k < i + 1 + t.len() ==> s[k] == t[k - i - 1]);
    lemma_scan_safe(s, i + 1, i + 1 + t.len() as int);
    assert(s.subrange(i + 1, i + 1 + t.len() as int) =~= t);
}

// ---------------------------------------------------------------------------
// Object fields: a key literal followed by a quoted string
// ---------------------------------------------------------------------------

/// A key literal (such as `,"mac":`) followed by a quoted string.
pub open spec fn enc_field(key: Seq<char>, t: Seq<char>) -> Seq<char> {
    key + enc_str(t)
}

pub open spec fn sp_field(s: Seq<char>, i: int, key: Seq<char>) -> Option<(Seq<char>, int)> {
    match sp_lit(s, i, key) {
        Some(j) => sp_string(s, j),
        None => None,
    }
}

/// An optional field: when the key stands at `i` its string follows, and
/// when it does not the position is left as it is.
pub open spec fn enc_opt_field(key: Seq<char>, v: Option<Seq<char>>) -> Seq<char> {
    match v {
        Some(t) => enc_field(key, t),
        None => Seq::<char>::empty(),
    }
}

pub open spec fn sp_opt_field(s: Seq<char>, i: int, key: Seq<char>) -> Option<
    (Option<Seq<char>>, int),
> {
    match sp_lit(s, i, key) {
        Some(j) => match sp_string(s, j) {
            Some((t, k)) => Some((Some(t), k)),
            None => None,
        },
        None => Some((None, i)),
    }
}

pub fn parse_field(s: &str, i: usize, key: &str) -> (r: Option<(String, usize)>)
    requires
        i <= s@.len(),
    ensures
        (r is Some) == (sp_field(s@, i as int, key@) is Some),
        r matches Some(p) ==> sp_field(s@, i as int, key@) == Some((p.0@, p.1 as int)) && p.1
            <= s@.len() && json_safe(p.0@),
{
    match match_lit(s, i, key) {
        Some(j) => parse_string(s, j),
        None => None,
    }
}

/// Parsing an encoded field recovers its string.
pub proof fn lemma_field_at(pre: Seq<char>, key: Seq<char>, t: Seq<char>, rest: Seq<char>)
    requires
        json_safe(t),
    ensures
        sp_field(pre + enc_field(key, t) + rest, pre.len() as int, key) == Some(
            (t, (pre.len() + enc_field(key, t).len()) as int),
        ),
{
    let s = pre + enc_field(key, t) + rest;
    let su1 = enc_str(t) + rest;
    assert(s =~= (pre + key) + su1);
    lemma_lit_at(pre, key, su1);
    assert(s =~= (pre + key) + enc_str(t) + rest);
    lemma_string_at(pre + key, t, rest);
}

// ---------------------------------------------------------------------------
// Parsers: signed decimal numbers in the 32-bit range
// ---------------------------------------------------------------------------

pub open spec fn dec_int(t: int) -> Seq<char> {
    if t < 0 {
        seq!['-'] + dec_rep((-t) as nat)
    } else {
        dec_rep(t as nat)
    }
}

pub open spec fn sp_int(s: Seq<char>, i: int) -> Option<(int, int)> {
    if 0 <= i < s.len() && s[i] == '-' {
        match sp_uint(s, i + 1, 0x8000_0000) {
            Some(p) => Some((-(p.0 as int), p.1)),
            None => None,
        }
    } else {
        match sp_uint(s, i, 0x7FFF_FFFF) {
            Some(p) => Some((p.0 as int, p.1)),
            None => None,
        }
    }
}

pub fn parse_int(s: &str, i: usize) -> (r: Option<(i32, usize)>)
    requires
        i <= s@.len(),
    ensures
        (r is Some) == (sp_int(s@, i as int) is Some),
        r matches Some(p) ==> sp_int(s@, i as int) == Some((p.0 as int, p.1 as int)) && i < p.1
            <= s@.len(),
{
    let n = s.unicode_len();
    if i < n && s.get_char(i) == '-' {
        match parse_uint(s, i + 1, 0x8000_0000) {
            Some((v, j)) => {
                let t = (-(v as i64)) as i32;
                Some((t, j))
            },
            None => None,
        }
    } else {
        match parse_uint(s, i, 0x7FFF_FFFF) {
            Some((v, j)) => Some((v as i32, j)),
            None => None,
        }
    }
}

/// Appends the decimal representation of `t`, with a sign when negative.
pub fn push_int(out: &mut Vec<char>, t: i32)
    ensures
        final(out)@ == old(out)@ + dec_int(t as int),
{
    if t < 0 {
        out.push('-');
        let m = -(t as i64);
        push_dec(out, m as u64);
        assert(old(out)@.push('-') + dec_rep(m as nat) =~= old(out)@ + dec_int(t as int));
    } else {
        push_dec(out, t as u64);
    }
}

/// Parsing an encoded signed number recovers it, provided what follows
/// starts with no digit.
pub proof fn lemma_int_at(pre: Seq<char>, t: int, rest: Seq<char>)
    requires
        -0x8000_0000 <= t <= 0x7FFF_FFFF,
        rest.len() > 0 ==> !is_digit(rest[0]),
    ensures
        sp_int(pre + dec_int(t) + rest, pre.len() as int) == Some(
            (t, (pre.len() + dec_int(t).len()) as int),
        ),
{
    let s = pre + dec_int(t) + rest;
    let i = pre.len() as int;
    if t < 0 {
        assert(s[i] == '-');
        assert(s =~= (pre + seq!['-']) + dec_rep((-t) as nat) + rest);
        lemma_uint_at(pre + seq!['-'], (-t) as nat, rest, 0x8000_0000);
    } else {
        lemma_dec_rep_digits(t as nat);
        assert(s[i] == dec_rep(t as nat)[0]);
        assert(is_digit(s[i]));
        assert(s[i] != '-');
        lemma_uint_at(pre, t as nat, rest, 0x7FFF_FFFF);
    }
}

} // verus!
