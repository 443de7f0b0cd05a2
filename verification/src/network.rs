//! Which local IPv4 addresses DSH may be offered on: private LAN addresses
//! only, listed in a stable order without repeated addresses.
use vstd::prelude::*;
use vstd::multiset::Multiset;

use crate::error_mapper::{error_is, LauncherError};
use crate::models::LanHost;
use crate::text::{chars_of, decimal, lemma_insert_multiset, owned, push_char, push_decimal, same_text};

verus! {

// ---------------------------------------------------------------------------
// Addresses

/// An IPv4 address as its four octets.
pub type Octets = (u8, u8, u8, u8);

/// `Ipv4Addr::is_private`: 10.0.0.0/8, 172.16.0.0/12, 192.168.0.0/16.
pub open spec fn is_private(ip: Octets) -> bool {
    ip.0 == 10 || (ip.0 == 172 && 16 <= ip.1 <= 31) || (ip.0 == 192 && ip.1 == 168)
}

/// An address DSH may be offered on: private, and not loopback,
/// link-local, unspecified, multicast or broadcast.
pub open spec fn is_private_lan(ip: Octets) -> bool {
    &&& is_private(ip)
    &&& ip.0 != 127
    &&& !(ip.0 == 169 && ip.1 == 254)
    &&& !(ip.0 == 0 && ip.1 == 0 && ip.2 == 0 && ip.3 == 0)
    &&& !(224 <= ip.0 <= 239)
    &&& !(ip.0 == 255 && ip.1 == 255 && ip.2 == 255 && ip.3 == 255)
}

pub fn is_private_lan_ip(ip: Octets) -> (r: bool)
    ensures
        r == is_private_lan(ip),
{
    let (a, b, c, d) = ip;
    let private = a == 10 || (a == 172 && 16 <= b && b <= 31) || (a == 192 && b == 168);
    let loopback = a == 127;
    let link_local = a == 169 && b == 254;
    let unspecified = a == 0 && b == 0 && c == 0 && d == 0;
    let multicast = 224 <= a && a <= 239;
    let broadcast = a == 255 && b == 255 && c == 255 && d == 255;
    private && !loopback && !link_local && !unspecified && !multicast && !broadcast
}

/// Only the RFC 1918 blocks hold private LAN addresses: 10.0.0.0/8,
/// 172.16.0.0/12 and 192.168.0.0/16, and every address in them is one.
/// Shared (100.64.0.0/10), loopback and link-local addresses never are.
pub proof fn law_private_lan_is_rfc1918(ip: Octets)
    ensures
        is_private_lan(ip) ==> (ip.0 == 10 || (ip.0 == 172 && 16 <= ip.1 && ip.1 <= 31) || (ip.0 == 192 && ip.1
            == 168)),
        (ip.0 == 10 || (ip.0 == 172 && 16 <= ip.1 && ip.1 <= 31) || (ip.0 == 192 && ip.1 == 168))
            ==> is_private_lan(ip),
        (ip.0 == 100 && 64 <= ip.1 && ip.1 <= 127) ==> !is_private_lan(ip),
        ip.0 == 127 ==> !is_private_lan(ip),
        (ip.0 == 169 && ip.1 == 254) ==> !is_private_lan(ip),
{
}

/// Dotted-decimal text of an address (`Ipv4Addr::to_string`).
pub open spec fn ipv4_text(ip: Octets) -> Seq<char> {
    decimal(ip.0 as nat) + "."@ + decimal(ip.1 as nat) + "."@ + decimal(ip.2 as nat) + "."@ + decimal(
        ip.3 as nat,
    )
}

pub fn ipv4_to_text(ip: Octets) -> (text: String)
    ensures
        text@ == ipv4_text(ip),
{
    let mut text = String::new();
    push_decimal(&mut text, ip.0 as u64);
    push_char(&mut text, '.');
    push_decimal(&mut text, ip.1 as u64);
    push_char(&mut text, '.');
    push_decimal(&mut text, ip.2 as u64);
    push_char(&mut text, '.');
    push_decimal(&mut text, ip.3 as u64);
    proof {
        reveal_strlit(".");
    }
    assert(text@ =~= ipv4_text(ip));
    text
}

// ---------------------------------------------------------------------------
// Parsing dotted-decimal text

/// Index of the first `.` in `s` at or after `i`, or the length.
pub open spec fn field_end(s: Seq<char>, i: int) -> int
    decreases s.len() - i,
{
    if i < s.len() && s[i] != '.' {
        field_end(s, i + 1)
    } else {
        i
    }
}

pub proof fn lemma_field_end_bounds(s: Seq<char>, i: int)
    requires
        0 <= i <= s.len(),
    ensures
        i <= field_end(s, i) <= s.len(),
        forall|k: int| i <= k < field_end(s, i) ==> #[trigger] s[k] != '.',
        field_end(s, i) == s.len() || s[field_end(s, i)] == '.',
    decreases s.len() - i,
{
    if i < s.len() && s[i] != '.' {
        lemma_field_end_bounds(s, i + 1);
    }
}

/// The fields of `s` between dots (`str::split('.')`).
pub open spec fn dot_fields(s: Seq<char>) -> Seq<Seq<char>>
    decreases s.len(),
{
    let k = field_end(s, 0);
    if k >= s.len() {
        seq![s]
    } else {
        proof {
            lemma_field_end_bounds(s, 0);
        }
        seq![s.take(k)] + dot_fields(s.skip(k + 1))
    }
}

pub open spec fn is_digit(c: char) -> bool {
    '0' <= c && c <= '9'
}

/// The value of a run of decimal digits.
pub open spec fn digits_value(t: Seq<char>) -> nat
    decreases t.len(),
{
    if t.len() == 0 {
        0
    } else {
        digits_value(t.drop_last()) * 10 + ((t.last() as u32) - ('0' as u32)) as nat
    }
}

/// An octet as `Ipv4Addr`'s parser accepts it: one to three digits, no
/// leading zero unless it is `0`, and a value of at most 255.
pub open spec fn octet_field(t: Seq<char>) -> bool {
    &&& 1 <= t.len() <= 3
    &&& forall|k: int| 0 <= k < t.len() ==> is_digit(#[trigger] t[k])
    &&& (t.len() == 1 || t[0] != '0')
    &&& digits_value(t) <= 255
}

/// `s.parse::<Ipv4Addr>()`: four octets separated by dots.
pub open spec fn parse_ipv4(s: Seq<char>) -> Option<Octets> {
    let f = dot_fields(s);
    if f.len() == 4 && octet_field(f[0]) && octet_field(f[1]) && octet_field(f[2]) && octet_field(f[3]) {
        Some((digits_value(f[0]) as u8, digits_value(f[1]) as u8, digits_value(f[2]) as u8, digits_value(f[3]) as u8))
    } else {
        None
    }
}

proof fn lemma_dot_fields_from(s: Seq<char>, start: int, end: int)
    requires
        0 <= start <= end <= s.len(),
        forall|k: int| start <= k < end ==> #[trigger] s[k] != '.',
        end == s.len() || s[end] == '.',
    ensures
        end == s.len() ==> dot_fields(s.skip(start)) == seq![s.subrange(start, end)],
        end < s.len() ==> dot_fields(s.skip(start)) == seq![s.subrange(start, end)] + dot_fields(s.skip(end + 1)),
{
    let t = s.skip(start);
    lemma_field_end_bounds(t, 0);
    let k = field_end(t, 0);
    assert forall|m: int| 0 <= m < end - start implies #[trigger] t[m] != '.' by {
        assert(t[m] == s[m + start]);
    }
    if end < s.len() {
        assert(t[end - start] == s[end]);
    }
    lemma_field_end_exact(t, 0, end - start);
    assert(t.take(end - start) =~= s.subrange(start, end));
    if end < s.len() {
        assert(t.skip(end - start + 1) =~= s.skip(end + 1));
    } else {
        assert(t =~= s.subrange(start, end));
    }
}

proof fn lemma_field_end_exact(s: Seq<char>, i: int, k: int)
    requires
        0 <= i <= k <= s.len(),
        forall|m: int| i <= m < k ==> #[trigger] s[m] != '.',
        k == s.len() || s[k] == '.',
    ensures
        field_end(s, i) == k,
    decreases k - i,
{
    if i < k {
        lemma_field_end_exact(s, i + 1, k);
    }
}

/// The value of the digits `chars[from..to]`, when they form an octet field.
fn octet_value(chars: &Vec<char>, from: usize, to: usize) -> (r: Option<u8>)
    requires
        from <= to <= chars.len(),
    ensures
        r.is_some() == octet_field(chars@.subrange(from as int, to as int)),
        r.is_some() ==> r.unwrap() == digits_value(chars@.subrange(from as int, to as int)),
{
    let ghost t = chars@.subrange(from as int, to as int);
    if to - from < 1 || to - from > 3 {
        return None;
    }
    if to - from > 1 && chars[from] == '0' {
        assert(t[0] == chars@[from as int]);
        return None;
    }
    let mut value: u32 = 0;
    let mut k = from;
    while k < to
        invariant
            from <= k <= to <= chars.len(),
            to - from <= 3,
            t == chars@.subrange(from as int, to as int),
            forall|m: int| 0 <= m < k - from ==> is_digit(#[trigger] t[m]),
            value == digits_value(t.take(k - from)),
            value < 1000,
        decreases to - k,
    {
        let c = chars[k];
        if !('0' <= c && c <= '9') {
            assert(t[k - from] == c);
            return None;
        }
        proof {
            assert(t.take(k - from + 1).drop_last() =~= t.take(k - from));
            assert(t.take(k - from + 1).last() == c);
            assert(digits_value(t.take(k - from)) < 100) by {
                lemma_digits_value_bound(t.take(k - from));
            }
        }
        value = value * 10 + (c as u32 - 48);
        k = k + 1;
    }
    assert(t.take(to - from) =~= t);
    if value > 255 {
        return None;
    }
    Some(value as u8)
}

proof fn lemma_digits_value_bound(t: Seq<char>)
    requires
        t.len() <= 2,
        forall|m: int| 0 <= m < t.len() ==> is_digit(#[trigger] t[m]),
    ensures
        digits_value(t) < 100,
    decreases t.len(),
{
    if t.len() > 0 {
        let u = t.drop_last();
        assert forall|m: int| 0 <= m < u.len() implies is_digit(#[trigger] u[m]) by {
            assert(u[m] == t[m]);
        }
        lemma_digits_value_bound(u);
        if u.len() == 0 {
            assert(digits_value(u) == 0);
        } else {
            lemma_digits_value_small(u);
        }
        assert(is_digit(t[t.len() - 1]));
    }
}

proof fn lemma_digits_value_small(t: Seq<char>)
    requires
        t.len() == 1,
        is_digit(t[0]),
    ensures
        digits_value(t) < 10,
{
    assert(t.drop_last().len() == 0);
    assert(digits_value(t.drop_last()) == 0);
    assert(t.last() == t[0]);
    assert((t[0] as u32) <= ('9' as u32));
    assert(digits_value(t) == digits_value(t.drop_last()) * 10 + ((t.last() as u32) - ('0' as u32)) as nat);
}

/// `value.parse::<Ipv4Addr>()`.
pub fn parse_ipv4_text(value: &str) -> (r: Option<Octets>)
    ensures
        r == parse_ipv4(value@),
{
    let chars = chars_of(value);
    let n = chars.len();
    let mut octets: Vec<u8> = Vec::new();
    let mut start: usize = 0;
    let ghost mut done: Seq<Seq<char>> = seq![];
    assert(value@.skip(0) =~= value@);
    loop
        invariant
            chars@ == value@,
            n == chars.len(),
            start <= n,
            done.len() == octets.len(),
            octets.len() < 3,
            forall|k: int| 0 <= k < done.len() ==> octet_field(#[trigger] done[k]),
            forall|k: int| 0 <= k < done.len() ==> octets@[k] == digits_value(#[trigger] done[k]),
            dot_fields(value@) == done + dot_fields(value@.skip(start as int)),
        decreases n - start,
    {
        let mut end = start;
        while end < n && chars[end] != '.'
            invariant
                chars@ == value@,
                n == chars.len(),
                start <= end <= n,
                forall|k: int| start <= k < end ==> #[trigger] value@[k] != '.',
            decreases n - end,
        {
            end = end + 1;
        }
        proof {
            lemma_dot_fields_from(value@, start as int, end as int);
        }
        let ghost field = value@.subrange(start as int, end as int);
        let parsed = octet_value(&chars, start, end);
        match parsed {
            None => {
                proof {
                    let f = dot_fields(value@);
                    if end < n {
                        assert(f =~= done + (seq![field] + dot_fields(value@.skip(end + 1))));
                        lemma_dot_fields_len(value@.skip(end + 1));
                    } else {
                        assert(f =~= done + seq![field]);
                    }
                    assert(f[done.len() as int] == field);
                }
                return None;
            },
            Some(v) => {
                octets.push(v);
                proof {
                    done = done.push(field);
                }
                if end == n {
                    proof {
                        assert(dot_fields(value@) =~= done);
                    }
                    return None;
                }
                proof {
                    assert(done.drop_last() + (seq![field] + dot_fields(value@.skip(end + 1))) =~= done
                        + dot_fields(value@.skip(end + 1)));
                }
                start = end + 1;
                if octets.len() == 3 {
                    let mut last_end = start;
                    while last_end < n && chars[last_end] != '.'
                        invariant
                            chars@ == value@,
                            n == chars.len(),
                            start <= last_end <= n,
                            forall|k: int| start <= k < last_end ==> #[trigger] value@[k] != '.',
                        decreases n - last_end,
                    {
                        last_end = last_end + 1;
                    }
                    proof {
                        lemma_dot_fields_from(value@, start as int, last_end as int);
                    }
                    let ghost last_field = value@.subrange(start as int, last_end as int);
                    if last_end < n {
                        proof {
                            let f = dot_fields(value@);
                            assert(f =~= done + (seq![last_field] + dot_fields(value@.skip(last_end + 1))));
                            lemma_dot_fields_len(value@.skip(last_end + 1));
                        }
                        return None;
                    }
                    let last = octet_value(&chars, start, last_end);
                    proof {
                        let f = dot_fields(value@);
                        assert(f =~= done.push(last_field));
                        assert(f[0] == done[0]);
                        assert(f[1] == done[1]);
                        assert(f[2] == done[2]);
                        assert(f[3] == last_field);
                    }
                    match last {
                        None => {
                            return None;
                        },
                        Some(d) => {
                            return Some((octets[0], octets[1], octets[2], d));
                        },
                    }
                }
            },
        }
    }
}

proof fn lemma_dot_fields_len(s: Seq<char>)
    ensures
        dot_fields(s).len() >= 1,
    decreases s.len(),
{
    lemma_field_end_bounds(s, 0);
    if field_end(s, 0) < s.len() {
        lemma_dot_fields_len(s.skip(field_end(s, 0) + 1));
    }
}

/// The decimal text of a number is its digits, without a leading zero,
/// one to three of them below a thousand.
proof fn lemma_decimal_value(n: nat)
    ensures
        digits_value(decimal(n)) == n,
        n > 0 ==> decimal(n)[0] != '0',
        n < 10 ==> decimal(n).len() == 1,
        10 <= n < 100 ==> decimal(n).len() == 2,
        100 <= n < 1000 ==> decimal(n).len() == 3,
    decreases n,
{
    if n >= 10 {
        lemma_decimal_value(n / 10);
        let s = decimal(n / 10);
        let c = crate::text::digit_char(n % 10);
        assert(decimal(n) == s.push(c));
        assert(decimal(n).drop_last() =~= s);
        assert(decimal(n).last() == c);
        assert((c as u32) == 48 + n % 10);
        assert(digits_value(decimal(n)) == digits_value(s) * 10 + ((c as u32) - ('0' as u32)) as nat);
        assert(n == (n / 10) * 10 + n % 10);
        assert(decimal(n)[0] == s[0]);
    } else {
        let c = crate::text::digit_char(n);
        assert(decimal(n) == seq![c]);
        assert(decimal(n).drop_last() =~= Seq::<char>::empty());
        assert((c as u32) == 48 + n);
        assert(digits_value(decimal(n)) == digits_value(Seq::<char>::empty()) * 10 + ((c as u32) - ('0' as u32)) as nat);
    }
}

/// The decimal text of an octet is a field that the address parser takes,
/// with the octet's value and no dot in it.
proof fn lemma_decimal_octet(n: u8)
    ensures
        octet_field(decimal(n as nat)),
        digits_value(decimal(n as nat)) == n,
        forall|k: int| 0 <= k < decimal(n as nat).len() ==> #[trigger] decimal(n as nat)[k] != '.',
{
    lemma_decimal_value(n as nat);
    crate::text::lemma_decimal_digits(n as nat);
    let d = decimal(n as nat);
    assert forall|k: int| 0 <= k < d.len() implies is_digit(#[trigger] d[k]) && d[k] != '.' by {
        assert('0' <= d[k] <= '9');
    }
}

proof fn lemma_dot_fields_cons(a: Seq<char>, b: Seq<char>)
    requires
        forall|k: int| 0 <= k < a.len() ==> #[trigger] a[k] != '.',
    ensures
        dot_fields(a + seq!['.'] + b) == seq![a] + dot_fields(b),
{
    let s = a + seq!['.'] + b;
    assert forall|k: int| 0 <= k < a.len() implies #[trigger] s[k] != '.' by {
        assert(s[k] == a[k]);
    }
    assert(s[a.len() as int] == '.');
    lemma_dot_fields_from(s, 0, a.len() as int);
    assert(s.skip(0) =~= s);
    assert(s.subrange(0, a.len() as int) =~= a);
    assert(s.skip(a.len() as int + 1) =~= b);
}

proof fn lemma_dot_fields_single(a: Seq<char>)
    requires
        forall|k: int| 0 <= k < a.len() ==> #[trigger] a[k] != '.',
    ensures
        dot_fields(a) == seq![a],
{
    lemma_dot_fields_from(a, 0, a.len() as int);
    assert(a.skip(0) =~= a);
    assert(a.subrange(0, a.len() as int) =~= a);
}

/// The dotted-decimal text of an address parses back to that address.
pub proof fn law_address_text_parses_back(ip: Octets)
    ensures
        parse_ipv4(ipv4_text(ip)) == Some(ip),
{
    reveal_strlit(".");
    lemma_decimal_octet(ip.0);
    lemma_decimal_octet(ip.1);
    lemma_decimal_octet(ip.2);
    lemma_decimal_octet(ip.3);
    let d0 = decimal(ip.0 as nat);
    let d1 = decimal(ip.1 as nat);
    let d2 = decimal(ip.2 as nat);
    let d3 = decimal(ip.3 as nat);
    let dot: Seq<char> = seq!['.'];
    assert(ipv4_text(ip) =~= d0 + dot + (d1 + dot + (d2 + dot + d3)));
    lemma_dot_fields_single(d3);
    lemma_dot_fields_cons(d2, d3);
    lemma_dot_fields_cons(d1, d2 + dot + d3);
    lemma_dot_fields_cons(d0, d1 + dot + (d2 + dot + d3));
    let f = dot_fields(ipv4_text(ip));
    assert(f =~= seq![d0, d1, d2, d3]);
}

/// Whether `value` is the dotted-decimal text of a private LAN address.
pub fn is_private_lan_address(value: &str) -> (r: bool)
    ensures
        r == (parse_ipv4(value@) matches Some(ip) && is_private_lan(ip)),
{
    match parse_ipv4_text(value) {
        Some(ip) => is_private_lan_ip(ip),
        None => false,
    }
}

// ---------------------------------------------------------------------------
// Listing hosts

/// One address of a network interface, as the system reports it: the
/// interface name and, for an IPv4 address, its octets.
#[derive(Clone, Debug)]
pub struct InterfaceAddress {
    pub name: String,
    pub ipv4: Option<Octets>,
}

/// A host as the pair of its name and address characters.
pub open spec fn host_key(h: LanHost) -> (Seq<char>, Seq<char>) {
    (h.name@, h.address@)
}

pub open spec fn host_keys(hosts: Seq<LanHost>) -> Seq<(Seq<char>, Seq<char>)> {
    hosts.map_values(|h: LanHost| host_key(h))
}

/// Lexicographic order of characters by code point, which is also the
/// byte order of their UTF-8 encoding (`String`'s `Ord`).
pub open spec fn lex_le(a: Seq<char>, b: Seq<char>) -> bool
    decreases a.len(),
{
    if a.len() == 0 {
        true
    } else if b.len() == 0 {
        false
    } else if a[0] != b[0] {
        a[0] < b[0]
    } else {
        lex_le(a.drop_first(), b.drop_first())
    }
}

pub open spec fn lex_lt(a: Seq<char>, b: Seq<char>) -> bool {
    lex_le(a, b) && a != b
}

/// Hosts ordered by name, then by address.
pub open spec fn key_le(x: (Seq<char>, Seq<char>), y: (Seq<char>, Seq<char>)) -> bool {
    lex_lt(x.0, y.0) || (x.0 == y.0 && lex_le(x.1, y.1))
}

/// Each key is at most the next one.
pub open spec fn keys_sorted(keys: Seq<(Seq<char>, Seq<char>)>) -> bool {
    forall|i: int| 0 <= i < keys.len() - 1 ==> key_le(#[trigger] keys[i], keys[i + 1])
}

/// The hosts that the interfaces offer: their private LAN IPv4 addresses,
/// in the order the interfaces came.
pub open spec fn offered(interfaces: Seq<InterfaceAddress>) -> Seq<(Seq<char>, Seq<char>)>
    decreases interfaces.len(),
{
    if interfaces.len() == 0 {
        seq![]
    } else {
        let rest = offered(interfaces.drop_last());
        let i = interfaces.last();
        match i.ipv4 {
            Some(ip) => if is_private_lan(ip) {
                rest.push((i.name@, ipv4_text(ip)))
            } else {
                rest
            },
            None => rest,
        }
    }
}

/// `Vec::dedup_by` on equal addresses: a key is kept when it is the first
/// or its address differs from the one before it.
pub open spec fn dedup_by_address(keys: Seq<(Seq<char>, Seq<char>)>) -> Seq<(Seq<char>, Seq<char>)>
    decreases keys.len(),
{
    if keys.len() <= 1 {
        keys
    } else {
        let rest = dedup_by_address(keys.drop_last());
        if keys.last().1 == keys[keys.len() - 2].1 {
            rest
        } else {
            rest.push(keys.last())
        }
    }
}

proof fn lemma_lex_skip(a: Seq<char>, b: Seq<char>, k: int)
    requires
        0 <= k <= a.len(),
        k <= b.len(),
        a.take(k) == b.take(k),
    ensures
        lex_le(a, b) == lex_le(a.skip(k), b.skip(k)),
    decreases k,
{
    if k > 0 {
        assert(a[0] == a.take(k)[0]);
        assert(b[0] == b.take(k)[0]);
        assert(a.drop_first().take(k - 1) =~= a.take(k).drop_first());
        assert(b.drop_first().take(k - 1) =~= b.take(k).drop_first());
        lemma_lex_skip(a.drop_first(), b.drop_first(), k - 1);
        assert(a.drop_first().skip(k - 1) =~= a.skip(k));
        assert(b.drop_first().skip(k - 1) =~= b.skip(k));
    } else {
        assert(a.skip(0) =~= a);
        assert(b.skip(0) =~= b);
    }
}

pub proof fn lemma_lex_total(a: Seq<char>, b: Seq<char>)
    ensures
        lex_le(a, b) || lex_le(b, a),
        lex_le(a, b) && lex_le(b, a) ==> a == b,
    decreases a.len(),
{
    if a.len() > 0 && b.len() > 0 && a[0] == b[0] {
        lemma_lex_total(a.drop_first(), b.drop_first());
        if lex_le(a, b) && lex_le(b, a) {
            assert(a =~= seq![a[0]] + a.drop_first());
            assert(b =~= seq![b[0]] + b.drop_first());
        }
    }
    if a.len() == 0 && b.len() == 0 {
        assert(a =~= b);
    }
}

/// The order on hosts is total.
pub proof fn lemma_key_total(x: (Seq<char>, Seq<char>), y: (Seq<char>, Seq<char>))
    ensures
        key_le(x, y) || key_le(y, x),
{
    lemma_lex_total(x.0, y.0);
    lemma_lex_total(x.1, y.1);
}

/// `a <= b` in code-point order.
fn lex_le_exec(a: &Vec<char>, b: &Vec<char>) -> (r: bool)
    ensures
        r == lex_le(a@, b@),
{
    let mut k: usize = 0;
    while k < a.len() && k < b.len() && a[k] == b[k]
        invariant
            k <= a.len(),
            k <= b.len(),
            a@.take(k as int) =~= b@.take(k as int),
        decreases a.len() - k,
    {
        k = k + 1;
        assert(a@.take(k as int) =~= b@.take(k as int));
    }
    proof {
        lemma_lex_skip(a@, b@, k as int);
    }
    if k == a.len() {
        true
    } else if k == b.len() {
        false
    } else {
        a[k] < b[k]
    }
}

/// Whether host `x` sorts at or before host `y`.
fn key_le_exec(x: &LanHost, y: &LanHost) -> (r: bool)
    ensures
        r == key_le(host_key(*x), host_key(*y)),
{
    let xn = chars_of(x.name.as_str());
    let yn = chars_of(y.name.as_str());
    let same_name = same_text(x.name.as_str(), y.name.as_str());
    if same_name {
        let xa = chars_of(x.address.as_str());
        let ya = chars_of(y.address.as_str());
        lex_le_exec(&xa, &ya)
    } else {
        lex_le_exec(&xn, &yn)
    }
}

/// Inserts a host after the last one that sorts at or before it.
fn insert_sorted(sorted: &mut Vec<LanHost>, host: LanHost)
    requires
        keys_sorted(host_keys(old(sorted)@)),
    ensures
        keys_sorted(host_keys(final(sorted)@)),
        host_keys(final(sorted)@).to_multiset() == host_keys(old(sorted)@).to_multiset().insert(host_key(host)),
{
    let ghost key = host_key(host);
    let mut p: usize = 0;
    let mut found = false;
    while !found && p < sorted.len()
        invariant
            p <= sorted.len(),
            sorted@ == old(sorted)@,
            key == host_key(host),
            forall|m: int| 0 <= m < p ==> key_le(#[trigger] host_key(sorted@[m]), key),
            found ==> p < sorted.len() && !key_le(host_key(sorted@[p as int]), key),
        decreases sorted.len() - p + (if found { 0int } else { 1int }),
    {
        let le = key_le_exec(&sorted[p], &host);
        if le {
            p = p + 1;
        } else {
            found = true;
        }
    }
    let ghost before = host_keys(sorted@);
    sorted.insert(p, host);
    proof {
        let after = host_keys(sorted@);
        assert(after =~= before.insert(p as int, key));
        assert forall|i: int| 0 <= i < after.len() - 1 implies key_le(#[trigger] after[i], after[i + 1]) by {
            if i + 1 < p {
                assert(after[i] == before[i] && after[i + 1] == before[i + 1]);
            } else if i + 1 == p {
                assert(after[i] == before[i]);
                assert(after[i] == host_key(old(sorted)@[i]));
            } else if i == p {
                assert(after[i + 1] == before[i]);
                assert(!key_le(before[i], key));
                lemma_key_total(before[i], key);
            } else {
                assert(after[i] == before[i - 1] && after[i + 1] == before[i]);
            }
        }
        before.insert_ensures(p as int, key);
        lemma_insert_multiset(before, p as int, key);
    }
}

/// `hosts` are the offered hosts sorted as `sorted`, with repeated
/// addresses dropped.
pub open spec fn lists_lan_hosts(
    interfaces: Seq<InterfaceAddress>,
    hosts: Seq<LanHost>,
    sorted: Seq<(Seq<char>, Seq<char>)>,
) -> bool {
    &&& sorted.to_multiset() == offered(interfaces).to_multiset()
    &&& keys_sorted(sorted)
    &&& host_keys(hosts) == dedup_by_address(sorted)
}

/// The LAN hosts that the interfaces offer, ordered by name and then
/// address, with each address kept only once when it repeats in a row.
pub fn lan_hosts(interfaces: Vec<InterfaceAddress>) -> (hosts: Vec<LanHost>)
    ensures
        exists|sorted: Seq<(Seq<char>, Seq<char>)>| #[trigger] lists_lan_hosts(interfaces@, hosts@, sorted),
{
    let mut sorted: Vec<LanHost> = Vec::new();
    let mut i: usize = 0;
    assert(interfaces@.take(0) =~= Seq::<InterfaceAddress>::empty());
    assert(host_keys(sorted@) =~= Seq::<(Seq<char>, Seq<char>)>::empty());
    while i < interfaces.len()
        invariant
            i <= interfaces.len(),
            keys_sorted(host_keys(sorted@)),
            host_keys(sorted@).to_multiset() == offered(interfaces@.take(i as int)).to_multiset(),
        decreases interfaces.len() - i,
    {
        let interface = &interfaces[i];
        proof {
            assert(interfaces@.take(i + 1).drop_last() =~= interfaces@.take(i as int));
            assert(interfaces@.take(i + 1).last() == interfaces@[i as int]);
        }
        match interface.ipv4 {
            Some(ip) => {
                if is_private_lan_ip(ip) {
                    let host = LanHost { name: interface.name.clone(), address: ipv4_to_text(ip) };
                    insert_sorted(&mut sorted, host);
                    proof {
                        broadcast use vstd::seq_lib::group_to_multiset_ensures;

                        let prev = offered(interfaces@.take(i as int));
                        assert(offered(interfaces@.take(i + 1)) == prev.push(
                            (interfaces@[i as int].name@, ipv4_text(ip)),
                        ));
                    }
                }
            },
            None => {},
        }
        i = i + 1;
    }
    assert(interfaces@.take(interfaces.len() as int) =~= interfaces@);
    let ghost keys = host_keys(sorted@);
    let mut hosts: Vec<LanHost> = Vec::new();
    let mut j: usize = 0;
    while j < sorted.len()
        invariant
            j <= sorted.len(),
            keys == host_keys(sorted@),
            host_keys(hosts@) == dedup_by_address(keys.take(j as int)),
            j > 0 ==> hosts.len() > 0 && host_keys(hosts@).last().1 == keys[j - 1].1,
        decreases sorted.len() - j,
    {
        let host = &sorted[j];
        let keep = if j == 0 {
            true
        } else {
            !same_text(host.address.as_str(), sorted[j - 1].address.as_str())
        };
        proof {
            let t = keys.take(j + 1);
            assert(t.drop_last() =~= keys.take(j as int));
            if j > 0 {
                assert(t[t.len() - 2] == keys[j - 1]);
            }
            assert(t.last() == keys[j as int]);
        }
        if keep {
            hosts.push(LanHost { name: host.name.clone(), address: host.address.clone() });
            proof {
                assert(host_keys(hosts@) =~= host_keys(hosts@).drop_last().push(keys[j as int]));
                if j == 0 {
                    assert(keys.take(1) =~= seq![keys[0]]);
                    assert(host_keys(hosts@) =~= keys.take(1));
                }
            }
        }
        j = j + 1;
    }
    assert(keys.take(sorted.len() as int) =~= keys);
    assert(lists_lan_hosts(interfaces@, hosts@, keys));
    hosts
}

/// The offered host whose address is `value`: the first such, or an error
/// asking to reconnect when there is none.
pub fn selected_lan_host(value: &str, hosts: Vec<LanHost>) -> (r: Result<LanHost, LauncherError>)
    ensures
        match r {
            Ok(h) => exists|i: int|
                0 <= i < hosts.len() && hosts@[i] == h && h.address@ == value@ && forall|k: int|
                    0 <= k < i ==> (#[trigger] hosts@[k]).address@ != value@,
            Err(e) => (forall|k: int| 0 <= k < hosts.len() ==> (#[trigger] hosts@[k]).address@ != value@)
                && error_is(
                e,
                "lanHostUnavailable"@,
                "所选局域网地址当前不可用。"@,
                None,
                Some("确认电脑已连接到可信 Wi-Fi，然后重新选择地址并重启 DSH。"@),
                None,
            ),
        },
{
    let mut i: usize = 0;
    while i < hosts.len()
        invariant
            i <= hosts.len(),
            forall|k: int| 0 <= k < i ==> (#[trigger] hosts@[k]).address@ != value@,
        decreases hosts.len() - i,
    {
        if same_text(hosts[i].address.as_str(), value) {
            let host = LanHost { name: hosts[i].name.clone(), address: hosts[i].address.clone() };
            assert(host == hosts@[i as int]);
            return Ok(host);
        }
        i = i + 1;
    }
    Err(
        LauncherError::new("lanHostUnavailable", "所选局域网地址当前不可用。").with_action(
            "确认电脑已连接到可信 Wi-Fi，然后重新选择地址并重启 DSH。",
        ),
    )
}

/// The error when the local addresses cannot be read.
pub fn lan_discovery_failed(reason: &str) -> (e: LauncherError)
    ensures
        error_is(
            e,
            "lanDiscoveryFailed"@,
            "无法读取本机局域网地址。"@,
            Some(crate::text::first_chars(reason@, 1200)),
            None,
            None,
        ),
{
    LauncherError::new("lanDiscoveryFailed", "无法读取本机局域网地址。").with_detail(reason)
}

proof fn lemma_offered_private(interfaces: Seq<InterfaceAddress>)
    ensures
        forall|k: int|
            0 <= k < offered(interfaces).len() ==> exists|ip: Octets|
                is_private_lan(ip) && (#[trigger] offered(interfaces)[k]).1 == ipv4_text(ip),
    decreases interfaces.len(),
{
    if interfaces.len() > 0 {
        lemma_offered_private(interfaces.drop_last());
        let rest = offered(interfaces.drop_last());
        let o = offered(interfaces);
        assert forall|k: int| 0 <= k < o.len() implies exists|ip: Octets|
            is_private_lan(ip) && (#[trigger] o[k]).1 == ipv4_text(ip) by {
            if k < rest.len() {
                assert(o[k] == rest[k]);
            } else {
                let i = interfaces.last();
                let ip = i.ipv4->0;
                assert(is_private_lan(ip) && o[k].1 == ipv4_text(ip));
            }
        }
    }
}

proof fn lemma_dedup_contained(keys: Seq<(Seq<char>, Seq<char>)>)
    ensures
        forall|k: int| 0 <= k < dedup_by_address(keys).len() ==> keys.contains(#[trigger] dedup_by_address(keys)[k]),
    decreases keys.len(),
{
    if keys.len() > 1 {
        let d = dedup_by_address(keys);
        let r = dedup_by_address(keys.drop_last());
        lemma_dedup_contained(keys.drop_last());
        assert forall|k: int| 0 <= k < d.len() implies keys.contains(#[trigger] d[k]) by {
            if k < r.len() {
                assert(d[k] == r[k]);
                let j = choose|j: int| 0 <= j < keys.drop_last().len() && keys.drop_last()[j] == r[k];
                assert(keys[j] == r[k]);
            } else {
                assert(d[k] == keys.last());
                assert(keys[keys.len() - 1] == d[k]);
            }
        }
    } else {
        assert forall|k: int| 0 <= k < dedup_by_address(keys).len() implies keys.contains(
            #[trigger] dedup_by_address(keys)[k],
        ) by {
            assert(keys[k] == dedup_by_address(keys)[k]);
        }
    }
}

/// Every listed host has the text of a private LAN address.
pub proof fn law_lan_hosts_are_private(
    interfaces: Seq<InterfaceAddress>,
    hosts: Seq<LanHost>,
    sorted: Seq<(Seq<char>, Seq<char>)>,
)
    requires
        lists_lan_hosts(interfaces, hosts, sorted),
    ensures
        forall|i: int|
            0 <= i < hosts.len() ==> exists|ip: Octets|
                is_private_lan(ip) && (#[trigger] hosts[i]).address@ == ipv4_text(ip),
{
    broadcast use vstd::seq_lib::group_to_multiset_ensures;

    lemma_offered_private(interfaces);
    lemma_dedup_contained(sorted);
    let o = offered(interfaces);
    assert forall|i: int| 0 <= i < hosts.len() implies exists|ip: Octets|
        is_private_lan(ip) && (#[trigger] hosts[i]).address@ == ipv4_text(ip) by {
        let key = host_keys(hosts)[i];
        assert(key == host_key(hosts[i]));
        assert(dedup_by_address(sorted)[i] == key);
        assert(sorted.contains(key));
        assert(sorted.to_multiset().count(key) > 0);
        assert(o.to_multiset().count(key) > 0);
        assert(o.contains(key));
        let k = choose|k: int| 0 <= k < o.len() && o[k] == key;
        assert(o[k].1 == key.1);
    }
}

/// Every address the launcher offers passes its own private LAN address
/// check (`is_private_lan_address`).
pub proof fn law_offered_addresses_pass_the_check(
    interfaces: Seq<InterfaceAddress>,
    hosts: Seq<LanHost>,
    sorted: Seq<(Seq<char>, Seq<char>)>,
)
    requires
        lists_lan_hosts(interfaces, hosts, sorted),
    ensures
        forall|i: int|
            0 <= i < hosts.len() ==> (parse_ipv4((#[trigger] hosts[i]).address@) matches Some(ip)
                && is_private_lan(ip)),
{
    law_lan_hosts_are_private(interfaces, hosts, sorted);
    assert forall|i: int| 0 <= i < hosts.len() implies (parse_ipv4((#[trigger] hosts[i]).address@) matches Some(
        ip,
    ) && is_private_lan(ip)) by {
        let ip = choose|ip: Octets| is_private_lan(ip) && hosts[i].address@ == ipv4_text(ip);
        law_address_text_parses_back(ip);
    }
}

/// The address check accepts only dotted-decimal RFC 1918 addresses, and
/// every offered host's address is one.
pub proof fn law_accepted_addresses_are_rfc1918(
    value: Seq<char>,
    accepted: bool,
    interfaces: Seq<InterfaceAddress>,
    hosts: Seq<LanHost>,
    sorted: Seq<(Seq<char>, Seq<char>)>,
)
    requires
        accepted == (parse_ipv4(value) matches Some(ip) && is_private_lan(ip)),
        lists_lan_hosts(interfaces, hosts, sorted),
    ensures
        accepted ==> (parse_ipv4(value) matches Some(ip) && (ip.0 == 10 || (ip.0 == 172 && 16 <= ip.1 && ip.1
            <= 31) || (ip.0 == 192 && ip.1 == 168))),
        forall|i: int|
            0 <= i < hosts.len() ==> (parse_ipv4((#[trigger] hosts[i]).address@) matches Some(ip) && (ip.0 == 10
                || (ip.0 == 172 && 16 <= ip.1 && ip.1 <= 31) || (ip.0 == 192 && ip.1 == 168))),
{
    if accepted {
        law_private_lan_is_rfc1918(parse_ipv4(value)->0);
    }
    law_offered_addresses_pass_the_check(interfaces, hosts, sorted);
    assert forall|i: int| 0 <= i < hosts.len() implies (parse_ipv4((#[trigger] hosts[i]).address@) matches Some(
        ip,
    ) && (ip.0 == 10 || (ip.0 == 172 && 16 <= ip.1 && ip.1 <= 31) || (ip.0 == 192 && ip.1 == 168))) by {
        law_private_lan_is_rfc1918(parse_ipv4(hosts[i].address@)->0);
    }
}

/// Consecutive listed hosts never share an address.
pub proof fn law_lan_hosts_no_adjacent_repeats(keys: Seq<(Seq<char>, Seq<char>)>)
    ensures
        forall|i: int|
            0 <= i < dedup_by_address(keys).len() - 1 ==> (#[trigger] dedup_by_address(keys)[i]).1
                != dedup_by_address(keys)[i + 1].1,
    decreases keys.len(),
{
    if keys.len() > 1 {
        law_lan_hosts_no_adjacent_repeats(keys.drop_last());
        lemma_dedup_last(keys.drop_last());
    }
}

proof fn lemma_dedup_last(keys: Seq<(Seq<char>, Seq<char>)>)
    ensures
        keys.len() > 0 ==> dedup_by_address(keys).len() > 0 && dedup_by_address(keys).last().1 == keys.last().1,
    decreases keys.len(),
{
    if keys.len() > 1 {
        lemma_dedup_last(keys.drop_last());
    }
}

} // verus!
