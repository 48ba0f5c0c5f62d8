//! The reverse-name cache: resolved names by address, written by the
//! resolver and read on every refresh.

use std::collections::HashMap;
use vstd::prelude::*;
use crate::tcpdiag::{address_len, IpAddress, AF_INET, AF_INET6};
use crate::text::{digits, decimal, push_digits};

verus! {

broadcast use vstd::std_specs::hash::group_hash_axioms;

/// Big-endian value of the first `n` octets of `o`.
pub open spec fn be_value(o: Seq<u8>, n: int) -> int
    decreases n,
{
    if n <= 0 {
        0
    } else {
        be_value(o, n - 1) * 256 + o[n - 1] as int
    }
}

/// The cache key of an address: its family and its value as an integer.
/// An IPv4 address and its IPv4-mapped IPv6 form are different keys.
pub open spec fn key_of(ip: (u8, Seq<u8>)) -> (u8, u128) {
    (ip.0, be_value(ip.1, address_len(ip.0)) as u128)
}

proof fn lemma_be_value_bound(o: Seq<u8>, n: int)
    requires
        0 <= n <= o.len(),
    ensures
        0 <= be_value(o, n) < pow256(n),
    decreases n,
{
    if n > 0 {
        lemma_be_value_bound(o, n - 1);
        assert(be_value(o, n - 1) * 256 + (o[n - 1] as int) < pow256(n)) by (nonlinear_arith)
            requires
                be_value(o, n - 1) < pow256(n - 1),
                o[n - 1] < 256,
                pow256(n) == pow256(n - 1) * 256,
        ;
    }
}

/// `256` to the power `n`.
pub open spec fn pow256(n: int) -> int
    decreases n,
{
    if n <= 0 {
        1
    } else {
        pow256(n - 1) * 256
    }
}

/// The value of an address as an integer, the second half of its key.
pub fn address_key(ip: &IpAddress) -> (r: u128)
    requires
        ip.wf(),
    ensures
        r == key_of(ip@).1,
        r as int == be_value(ip@.1, address_len(ip.family)),
        ip.family == AF_INET ==> r < 0x1_0000_0000,
{
    let n: usize = if ip.family == AF_INET { 4 } else { 16 };
    let mut v: u128 = 0;
    let mut i: usize = 0;
    while i < n
        invariant
            n as int == address_len(ip.family),
            ip.octets@.len() == n,
            i <= n <= 16,
            v as int == be_value(ip.octets@, i as int),
        decreases n - i,
    {
        proof {
            lemma_be_value_bound(ip.octets@, i as int);
            assert(pow256(i as int) <= pow256(15)) by {
                lemma_pow256_mono(i as int, 15);
            }
            assert(pow256(15) == 0x1000000000000000000000000000000) by {
                reveal_with_fuel(pow256, 16);
            }
        }
        v = v * 256 + ip.octets[i] as u128;
        i = i + 1;
    }
    if ip.family == AF_INET {
        proof {
            lemma_be_value_bound(ip.octets@, 4);
            assert(pow256(4) == 0x1_0000_0000) by {
                reveal_with_fuel(pow256, 5);
            }
        }
        v
    } else {
        v
    }
}

proof fn lemma_pow256_mono(a: int, b: int)
    requires
        0 <= a <= b,
    ensures
        pow256(a) <= pow256(b),
    decreases b - a,
{
    if a < b {
        lemma_pow256_mono(a, b - 1);
        assert(pow256(b - 1) >= 1) by {
            lemma_pow256_pos(b - 1);
        }
    }
}

proof fn lemma_pow256_pos(a: int)
    ensures
        pow256(a) >= 1,
    decreases a,
{
    if a > 0 {
        lemma_pow256_pos(a - 1);
    }
}

/// The 16-bit group `g` of an IPv6 address.
pub open spec fn group(o: Seq<u8>, g: int) -> nat {
    (o[2 * g] as nat * 256 + o[2 * g + 1] as nat) as nat
}

/// Four octets from `s` on in dotted decimal.
pub open spec fn dotted(o: Seq<u8>, s: int) -> Seq<char> {
    decimal(o[s] as nat) + seq!['.'] + decimal(o[s + 1] as nat) + seq!['.'] + decimal(
        o[s + 2] as nat,
    ) + seq!['.'] + decimal(o[s + 3] as nat)
}

/// Length of the run of zero groups that starts at group `s`.
pub open spec fn zero_run(o: Seq<u8>, s: int) -> int
    decreases 8 - s,
{
    if 0 <= s < 8 && group(o, s) == 0 {
        1 + zero_run(o, s + 1)
    } else {
        0
    }
}

/// Start and length of the longest run of zero groups starting before
/// group `n`; the first one on a tie.
pub open spec fn longest_run(o: Seq<u8>, n: int) -> (int, int)
    decreases n,
{
    if n <= 0 {
        (0, 0)
    } else {
        let p = longest_run(o, n - 1);
        let l = zero_run(o, n - 1);
        if l > p.1 {
            (n - 1, l)
        } else {
            p
        }
    }
}

/// Groups `a` up to `b` in lowercase hexadecimal, separated by colons.
pub open spec fn join_groups(o: Seq<u8>, a: int, b: int) -> Seq<char>
    decreases b - a,
{
    if b <= a {
        Seq::empty()
    } else if b == a + 1 {
        digits(group(o, a), 16)
    } else {
        join_groups(o, a, b - 1) + seq![':'] + digits(group(o, b - 1), 16)
    }
}

/// An IPv4-mapped IPv6 address (`::ffff:a.b.c.d`).
pub open spec fn is_v4_mapped(o: Seq<u8>) -> bool {
    &&& group(o, 0) == 0
    &&& group(o, 1) == 0
    &&& group(o, 2) == 0
    &&& group(o, 3) == 0
    &&& group(o, 4) == 0
    &&& group(o, 5) == 0xffff
}

/// The standard text of an IPv6 address: an IPv4-mapped address as
/// `::ffff:a.b.c.d`; otherwise lowercase hexadecimal groups without leading
/// zeros, with the longest run of two or more zero groups (the first on a
/// tie) written as `::`.
pub open spec fn v6_text(o: Seq<u8>) -> Seq<char> {
    if is_v4_mapped(o) {
        seq![':', ':', 'f', 'f', 'f', 'f', ':'] + dotted(o, 12)
    } else {
        let r = longest_run(o, 8);
        if r.1 >= 2 {
            join_groups(o, 0, r.0) + seq![':', ':'] + join_groups(o, r.0 + r.1, 8)
        } else {
            join_groups(o, 0, 8)
        }
    }
}

/// The literal text of an address: dotted decimal for IPv4, the standard
/// compressed form for IPv6.
pub open spec fn literal(ip: (u8, Seq<u8>)) -> Seq<char> {
    if ip.0 == AF_INET {
        dotted(ip.1, 0)
    } else {
        v6_text(ip.1)
    }
}

fn group_at(o: &Vec<u8>, g: usize) -> (r: u64)
    requires
        o@.len() == 16,
        g < 8,
    ensures
        r as nat == group(o@, g as int),
{
    o[2 * g] as u64 * 256 + o[2 * g + 1] as u64
}

fn zero_run_at(o: &Vec<u8>, s: usize) -> (r: usize)
    requires
        o@.len() == 16,
        s <= 8,
    ensures
        r as int == zero_run(o@, s as int),
        s + r <= 8,
{
    let mut k: usize = s;
    loop
        invariant
            o@.len() == 16,
            s <= k <= 8,
            zero_run(o@, s as int) == (k - s) + zero_run(o@, k as int),
        ensures
            s <= k <= 8,
            zero_run(o@, s as int) == k - s,
        decreases 8 - k,
    {
        if k >= 8 {
            break;
        }
        if group_at(o, k) != 0 {
            break;
        }
        k = k + 1;
    }
    k - s
}

fn longest_zero_run(o: &Vec<u8>) -> (r: (usize, usize))
    requires
        o@.len() == 16,
    ensures
        r.0 as int == longest_run(o@, 8).0,
        r.1 as int == longest_run(o@, 8).1,
        r.0 + r.1 <= 8,
{
    let mut best: (usize, usize) = (0, 0);
    let mut n: usize = 0;
    while n < 8
        invariant
            o@.len() == 16,
            n <= 8,
            best.0 as int == longest_run(o@, n as int).0,
            best.1 as int == longest_run(o@, n as int).1,
            best.0 + best.1 <= 8,
        decreases 8 - n,
    {
        let l = zero_run_at(o, n);
        if l > best.1 {
            best = (n, l);
        }
        n = n + 1;
    }
    best
}

/// Appends groups `a` up to `b`.
fn push_groups(s: &mut String, o: &Vec<u8>, a: usize, b: usize)
    requires
        o@.len() == 16,
        a <= b <= 8,
    ensures
        final(s)@ == old(s)@ + join_groups(o@, a as int, b as int),
{
    proof {
        reveal_strlit(":");
        assert(":"@ =~= seq![':']);
    }
    let mut i: usize = a;
    assert(old(s)@ =~= old(s)@ + join_groups(o@, a as int, a as int));
    while i < b
        invariant
            o@.len() == 16,
            ":"@ == seq![':'],
            a <= i <= b <= 8,
            s@ == old(s)@ + join_groups(o@, a as int, i as int),
        decreases b - i,
    {
        let ghost before = s@;
        if i > a {
            s.append(":");
        }
        push_digits(s, group_at(o, i), 16);
        assert(s@ =~= old(s)@ + join_groups(o@, a as int, i + 1)) by {
            if i > a {
                assert(before + seq![':'] + digits(group(o@, i as int), 16) =~= s@);
            }
        }
        i = i + 1;
    }
}

/// Appends four octets from `start` on in dotted decimal.
fn push_dotted(s: &mut String, o: &Vec<u8>, start: usize)
    requires
        start + 4 <= o@.len(),
    ensures
        final(s)@ == old(s)@ + dotted(o@, start as int),
{
    proof {
        reveal_strlit(".");
        assert("."@ =~= seq!['.']);
    }
    let n = o.len();
    push_digits(s, o[start] as u64, 10);
    s.append(".");
    push_digits(s, o[start + 1] as u64, 10);
    s.append(".");
    push_digits(s, o[start + 2] as u64, 10);
    s.append(".");
    push_digits(s, o[start + 3] as u64, 10);
    assert(final(s)@ =~= old(s)@ + dotted(o@, start as int));
}

/// The literal text of an address.
pub fn ip_literal(ip: &IpAddress) -> (r: String)
    requires
        ip.wf(),
    ensures
        r@ == literal(ip@),
{
    let mut s = String::new();
    if ip.family == AF_INET {
        push_dotted(&mut s, &ip.octets, 0);
        assert(s@ =~= literal(ip@));
        return s;
    }
    let o = &ip.octets;
    let mapped = group_at(o, 0) == 0 && group_at(o, 1) == 0 && group_at(o, 2) == 0 && group_at(o, 3)
        == 0 && group_at(o, 4) == 0 && group_at(o, 5) == 0xffff;
    if mapped {
        proof {
            reveal_strlit("::ffff:");
        }
        s.append("::ffff:");
        push_dotted(&mut s, o, 12);
        assert(s@ =~= literal(ip@));
        return s;
    }
    let (start, len) = longest_zero_run(o);
    if len >= 2 {
        push_groups(&mut s, o, 0, start);
        proof {
            reveal_strlit("::");
        }
        s.append("::");
        push_groups(&mut s, o, start + len, 8);
    } else {
        push_groups(&mut s, o, 0, 8);
    }
    assert(s@ =~= literal(ip@));
    s
}

/// The name to store for an address once a lookup has finished: the name
/// found, or the literal address when the lookup failed.
pub fn resolved_or_literal(ip: &IpAddress, found: Option<String>) -> (r: String)
    requires
        ip.wf(),
    ensures
        found is Some ==> r@ == found->Some_0@,
        found is None ==> r@ == literal(ip@),
{
    match found {
        Some(name) => name,
        None => ip_literal(ip),
    }
}

/// Resolved names by address key.
pub struct NameCache {
    v4: HashMap<u32, String>,
    v6: HashMap<u128, String>,
}

impl View for NameCache {
    type V = Map<(u8, u128), String>;

    closed spec fn view(&self) -> Map<(u8, u128), String> {
        Map::new(
            |k: (u8, u128)|
                (k.0 == AF_INET && k.1 < 0x1_0000_0000 && self.v4@.contains_key(k.1 as u32)) || (k.0
                    == AF_INET6 && self.v6@.contains_key(k.1)),
            |k: (u8, u128)|
                if k.0 == AF_INET {
                    self.v4@[k.1 as u32]
                } else {
                    self.v6@[k.1]
                },
        )
    }
}

impl NameCache {
    pub fn new() -> (r: NameCache)
        ensures
            r@ == Map::<(u8, u128), String>::empty(),
    {
        let r = NameCache { v4: HashMap::new(), v6: HashMap::new() };
        assert(r@ =~= Map::<(u8, u128), String>::empty());
        r
    }

    /// The name stored for an address.
    pub fn lookup(&self, ip: &IpAddress) -> (r: Option<String>)
        requires
            ip.wf(),
        ensures
            r is Some <==> self@.contains_key(key_of(ip@)),
            r matches Some(n) ==> n@ == self@[key_of(ip@)]@,
    {
        let k = address_key(ip);
        let found = if ip.family == AF_INET {
            self.v4.get(&(k as u32))
        } else {
            self.v6.get(&k)
        };
        match found {
            Some(n) => {
                let c = n.clone();
                Some(c)
            },
            None => None,
        }
    }

    /// Stores a name for an address, replacing any earlier one.
    pub fn record(&mut self, ip: &IpAddress, name: String)
        requires
            ip.wf(),
        ensures
            final(self)@ == old(self)@.insert(key_of(ip@), name),
    {
        let k = address_key(ip);
        let ghost key = key_of(ip@);
        if ip.family == AF_INET {
            self.v4.insert(k as u32, name);
        } else {
            self.v6.insert(k, name);
        }
        assert(self@ =~= old(self)@.insert(key, name));
    }
}

/// Two stores for one address keep the second name: the cache holds the
/// same as after the second store alone.
pub proof fn lemma_last_store_wins(
    m: Map<(u8, u128), String>,
    k: (u8, u128),
    first: String,
    second: String,
)
    ensures
        m.insert(k, first).insert(k, second) == m.insert(k, second),
        m.insert(k, first).insert(k, second)[k] == second,
{
    assert(m.insert(k, first).insert(k, second) =~= m.insert(k, second));
}

} // verus!
