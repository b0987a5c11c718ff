//! Internet addresses, their textual forms, and ranges of them.

use crate::text::{
    all_digits, decimal, decimal_reads_back, digits_value, find, from_chars, is_digit, parse_unsigned, read_digits,
    split, split_at, texts, to_chars, unsigned_value,
};
use vstd::arithmetic::power2::{lemma2_to64, lemma_pow2_adds, lemma_pow2_pos, lemma_pow2_unfold, pow2};
use vstd::prelude::*;
use vstd::string::*;

verus! {

/// An address, as the number that its bits form.
#[derive(Clone, Copy, Debug, PartialEq, Eq, Structural)]
pub enum IpAddr {
    V4(u32),
    V6(u128),
}

// ── Dotted decimals ─────────────────────────────────────────────────────────

/// The value of one part of a dotted address: up to three digits, at most 255,
/// without a zero before them.
pub open spec fn octet_value(s: Seq<char>) -> Option<nat> {
    if all_digits(s) && s.len() <= 3 && digits_value(s) <= 255 && !(s.len() > 1 && s[0] == '0') {
        Some(digits_value(s))
    } else {
        None
    }
}

/// The address of four parts.
pub open spec fn v4_of_parts(p: Seq<Seq<char>>) -> Option<nat> {
    if p.len() != 4 {
        None
    } else {
        match (octet_value(p[0]), octet_value(p[1]), octet_value(p[2]), octet_value(p[3])) {
            (Some(a), Some(b), Some(c), Some(d)) => Some(((a * 256 + b) * 256 + c) * 256 + d),
            _ => None,
        }
    }
}

/// The address of a text such as `192.168.1.1`.
pub open spec fn v4_value(s: Seq<char>) -> Option<nat> {
    v4_of_parts(split(s, '.'))
}

fn parse_octet(s: &str) -> (r: Option<u32>)
    ensures
        octet_value(s@) == (match r {
            Some(n) => Some(n as nat),
            None => None,
        }),
        r matches Some(n) ==> n <= 255,
{
    let v = to_chars(s);
    assert(s@.skip(0) =~= s@);
    if v.len() > 3 || (v.len() > 1 && v[0] == '0') {
        return None;
    }
    match read_digits(&v, 0, 255) {
        Some(n) => Some(n as u32),
        None => None,
    }
}

/// Reads a dotted address.
pub fn parse_v4(s: &str) -> (r: Option<u32>)
    ensures
        v4_value(s@) == (match r {
            Some(n) => Some(n as nat),
            None => None,
        }),
{
    let p = split_at(s, '.');
    let ghost parts = texts(p@);
    if p.len() != 4 {
        return None;
    }
    assert(parts[0] == p@[0]@ && parts[1] == p@[1]@ && parts[2] == p@[2]@ && parts[3] == p@[3]@);
    match (
        parse_octet(p[0].as_str()),
        parse_octet(p[1].as_str()),
        parse_octet(p[2].as_str()),
        parse_octet(p[3].as_str()),
    ) {
        (Some(a), Some(b), Some(c), Some(d)) => Some(((a * 256 + b) * 256 + c) * 256 + d),
        _ => None,
    }
}

// ── Groups of hexadecimal digits ────────────────────────────────────────────

/// The value of a hexadecimal digit.
pub open spec fn hex_digit(c: char) -> Option<nat> {
    if '0' <= c && c <= '9' {
        Some((c as u32 - '0' as u32) as nat)
    } else if 'a' <= c && c <= 'f' {
        Some((c as u32 - 'a' as u32 + 10) as nat)
    } else if 'A' <= c && c <= 'F' {
        Some((c as u32 - 'A' as u32 + 10) as nat)
    } else {
        None
    }
}

/// The number that hexadecimal digits denote.
pub open spec fn hex_value(s: Seq<char>) -> Option<nat>
    decreases s.len(),
{
    if s.len() == 0 {
        Some(0)
    } else {
        match (hex_value(s.drop_last()), hex_digit(s.last())) {
            (Some(n), Some(d)) => Some(n * 16 + d),
            _ => None,
        }
    }
}

/// The value of one group: one to four hexadecimal digits.
pub open spec fn group_value(s: Seq<char>) -> Option<nat> {
    if 1 <= s.len() <= 4 {
        hex_value(s)
    } else {
        None
    }
}

fn read_hex_digit(c: char) -> (r: Option<u32>)
    ensures
        hex_digit(c) == (match r {
            Some(n) => Some(n as nat),
            None => None,
        }),
        r matches Some(n) ==> n < 16,
{
    if '0' <= c && c <= '9' {
        Some(c as u32 - 48)
    } else if 'a' <= c && c <= 'f' {
        Some(c as u32 - 97 + 10)
    } else if 'A' <= c && c <= 'F' {
        Some(c as u32 - 65 + 10)
    } else {
        None
    }
}

proof fn hex_fails_early(s: Seq<char>, n: int)
    requires
        0 <= n <= s.len(),
        hex_value(s.take(n)) is None,
    ensures
        hex_value(s) is None,
    decreases s.len() - n,
{
    if n < s.len() {
        assert(s.take(n + 1).drop_last() =~= s.take(n));
        hex_fails_early(s, n + 1);
    } else {
        assert(s.take(n) =~= s);
    }
}

fn parse_group(s: &str) -> (r: Option<u16>)
    ensures
        group_value(s@) == (match r {
            Some(n) => Some(n as nat),
            None => None,
        }),
{
    let v = to_chars(s);
    if v.len() == 0 || v.len() > 4 {
        return None;
    }
    let mut n: u32 = 0;
    let mut i: usize = 0;
    while i < v.len()
        invariant
            i <= v@.len() <= 4,
            v@ == s@,
            hex_value(s@.take(i as int)) == Some(n as nat),
            i == 0 ==> n == 0,
            i == 1 ==> n < 16,
            i == 2 ==> n < 256,
            i == 3 ==> n < 4096,
            i == 4 ==> n < 65536,
        decreases v@.len() - i,
    {
        assert(s@.take(i + 1).drop_last() =~= s@.take(i as int));
        assert(s@.take(i + 1).last() == s@[i as int]);
        match read_hex_digit(v[i]) {
            Some(d) => {
                n = n * 16 + d;
            },
            None => {
                proof {
                    hex_fails_early(s@, i + 1);
                }
                return None;
            },
        }
        i = i + 1;
    }
    assert(s@.take(i as int) =~= s@);
    Some(n as u16)
}

/// The groups of parts. Where it is allowed, the last part may be a dotted
/// address, which makes two groups.
pub open spec fn groups_of(parts: Seq<Seq<char>>, dotted: bool) -> Option<Seq<nat>>
    decreases parts.len(),
{
    if parts.len() == 0 {
        Some(seq![])
    } else {
        match groups_of(parts.drop_last(), false) {
            None => None,
            Some(g) => match group_value(parts.last()) {
                Some(n) => Some(g.push(n)),
                None => match v4_value(parts.last()) {
                    Some(n) => if dotted {
                        Some(g.push(n / 65536).push(n % 65536))
                    } else {
                        None
                    },
                    None => None,
                },
            },
        }
    }
}

/// The groups of a side of `::`, none if it is empty.
pub open spec fn side_groups(s: Seq<char>, dotted: bool) -> Option<Seq<nat>> {
    if s.len() == 0 {
        Some(seq![])
    } else {
        groups_of(split(s, ':'), dotted)
    }
}

/// Where `::` stands first.
pub open spec fn double_colon(s: Seq<char>) -> Option<int>
    decreases s.len(),
{
    if s.len() < 2 {
        None
    } else if s[0] == ':' && s[1] == ':' {
        Some(0)
    } else {
        match double_colon(s.skip(1)) {
            Some(i) => Some(i + 1),
            None => None,
        }
    }
}

/// The address of eight groups.
pub open spec fn of_groups(g: Seq<nat>) -> nat {
    ((((((g[0] * 65536 + g[1]) * 65536 + g[2]) * 65536 + g[3]) * 65536 + g[4]) * 65536 + g[5]) * 65536 + g[6]) * 65536
        + g[7]
}

/// The eight groups of two sides with as many zeros between them as it takes.
pub open spec fn filled(head: Seq<nat>, tail: Seq<nat>) -> Seq<nat> {
    head + Seq::new((8 - head.len() - tail.len()) as nat, |i: int| 0nat) + tail
}

/// The address of a text such as `2606:4700::1`. `::` stands for at least one
/// group of zeros.
pub open spec fn v6_value(s: Seq<char>) -> Option<nat> {
    match double_colon(s) {
        None => match groups_of(split(s, ':'), true) {
            Some(g) => if g.len() == 8 {
                Some(of_groups(g))
            } else {
                None
            },
            None => None,
        },
        Some(i) => match (side_groups(s.take(i), false), side_groups(s.skip(i + 2), true)) {
            (Some(head), Some(tail)) => if head.len() + tail.len() <= 7 {
                Some(of_groups(filled(head, tail)))
            } else {
                None
            },
            _ => None,
        },
    }
}

/// Groups as numbers.
pub open spec fn group_nats(v: Seq<u16>) -> Seq<nat> {
    v.map_values(|n: u16| n as nat)
}

proof fn groups_fail_early(parts: Seq<Seq<char>>, n: int)
    requires
        0 <= n <= parts.len(),
        groups_of(parts.take(n), false) is None,
        n < parts.len(),
    ensures
        groups_of(parts, false) is None,
        groups_of(parts, true) is None,
    decreases parts.len() - n,
{
    if n == parts.len() - 1 {
        assert(parts.drop_last() =~= parts.take(n));
    } else {
        assert(parts.take(n + 1).drop_last() =~= parts.take(n));
        groups_fail_early(parts, n + 1);
    }
}

fn read_groups(parts: &Vec<String>, dotted: bool) -> (r: Option<Vec<u16>>)
    ensures
        groups_of(texts(parts@), dotted) == (match r {
            Some(v) => Some(group_nats(v@)),
            None => None,
        }),
{
    let ghost all = texts(parts@);
    let mut out: Vec<u16> = Vec::new();
    let mut i: usize = 0;
    let n: usize = parts.len();
    assert(group_nats(out@) =~= seq![]);
    if n == 0 {
        return Some(out);
    }
    while i < n - 1
        invariant
            0 < n == parts@.len(),
            i <= n - 1,
            all == texts(parts@),
            groups_of(all.take(i as int), false) == Some(group_nats(out@)),
        decreases n - i,
    {
        assert(all.take(i + 1).drop_last() =~= all.take(i as int));
        assert(all.take(i + 1).last() == parts@[i as int]@);
        match parse_group(parts[i].as_str()) {
            Some(g) => {
                let ghost before = group_nats(out@);
                out.push(g);
                assert(group_nats(out@) =~= before.push(g as nat));
            },
            None => {
                proof {
                    groups_fail_early(all, i + 1);
                }
                return None;
            },
        }
        i = i + 1;
    }
    assert(all.drop_last() =~= all.take(i as int));
    assert(all.last() == parts@[i as int]@);
    let ghost before = group_nats(out@);
    match parse_group(parts[i].as_str()) {
        Some(g) => {
            out.push(g);
            assert(group_nats(out@) =~= before.push(g as nat));
            Some(out)
        },
        None => match parse_v4(parts[i].as_str()) {
            Some(a) => {
                if dotted {
                    let high: u16 = (a / 65536) as u16;
                    let low: u16 = (a % 65536) as u16;
                    out.push(high);
                    out.push(low);
                    assert(group_nats(out@) =~= before.push(high as nat).push(low as nat));
                    Some(out)
                } else {
                    None
                }
            },
            None => None,
        },
    }
}

fn read_side(s: &str, dotted: bool) -> (r: Option<Vec<u16>>)
    ensures
        side_groups(s@, dotted) == (match r {
            Some(v) => Some(group_nats(v@)),
            None => None,
        }),
{
    if s.is_empty() {
        let none: Vec<u16> = Vec::new();
        assert(group_nats(none@) =~= seq![]);
        Some(none)
    } else {
        let parts = split_at(s, ':');
        read_groups(&parts, dotted)
    }
}

fn join_groups(g: &Vec<u16>) -> (r: u128)
    requires
        g@.len() == 8,
    ensures
        r == of_groups(group_nats(g@)),
{
    let a: u128 = g[0] as u128 * 65536 + g[1] as u128;
    let b: u128 = a * 65536 + g[2] as u128;
    let c: u128 = b * 65536 + g[3] as u128;
    let d: u128 = c * 65536 + g[4] as u128;
    let e: u128 = d * 65536 + g[5] as u128;
    let f: u128 = e * 65536 + g[6] as u128;
    f * 65536 + g[7] as u128
}

fn find_double_colon(v: &Vec<char>) -> (r: Option<usize>)
    ensures
        double_colon(v@) == (match r {
            Some(i) => Some(i as int),
            None => None,
        }),
        r matches Some(i) ==> i + 2 <= v@.len(),
{
    let mut i: usize = 0;
    let n: usize = v.len();
    assert(v@.skip(0) =~= v@);
    while i < n && n - i >= 2
        invariant
            i <= n == v@.len(),
            double_colon(v@) == (match double_colon(v@.skip(i as int)) {
                Some(k) => Some(k + i),
                None => None,
            }),
        decreases n - i,
    {
        if v[i] == ':' && v[i + 1] == ':' {
            return Some(i);
        }
        assert(v@.skip(i as int).skip(1) =~= v@.skip(i + 1));
        i = i + 1;
    }
    None
}

/// Reads an address of groups.
pub fn parse_v6(s: &str) -> (r: Option<u128>)
    ensures
        v6_value(s@) == (match r {
            Some(n) => Some(n as nat),
            None => None,
        }),
{
    let v = to_chars(s);
    let n: usize = v.len();
    match find_double_colon(&v) {
        None => {
            let parts = split_at(s, ':');
            match read_groups(&parts, true) {
                Some(g) => if g.len() == 8 {
                    Some(join_groups(&g))
                } else {
                    None
                },
                None => None,
            }
        },
        Some(i) => {
            let head_text = from_chars(&v, 0, i);
            let tail_text = from_chars(&v, i + 2, n);
            assert(head_text@ =~= s@.take(i as int));
            assert(tail_text@ =~= s@.skip(i + 2));
            match (read_side(head_text.as_str(), false), read_side(tail_text.as_str(), true)) {
                (Some(head), Some(tail)) => {
                    if head.len() > 7 || tail.len() > 7 || head.len() + tail.len() > 7 {
                        return None;
                    }
                    let ghost h = group_nats(head@);
                    let ghost t = group_nats(tail@);
                    let mut all = head;
                    let mut tail = tail;
                    let zeros: usize = 8 - all.len() - tail.len();
                    let mut k: usize = 0;
                    while k < zeros
                        invariant
                            k <= zeros,
                            group_nats(all@) =~= h + Seq::new(k as nat, |i: int| 0nat),
                        decreases zeros - k,
                    {
                        let ghost before = group_nats(all@);
                        all.push(0);
                        k = k + 1;
                        assert(group_nats(all@) =~= before.push(0));
                        assert(Seq::new(k as nat, |i: int| 0nat) =~= Seq::new((k - 1) as nat, |i: int| 0nat).push(0));
                    }
                    let ghost padded = group_nats(all@);
                    all.append(&mut tail);
                    assert(group_nats(all@) =~= padded + t);
                    assert(group_nats(all@) =~= filled(h, t));
                    Some(join_groups(&all))
                },
                _ => None,
            }
        },
    }
}

/// The address of a text, dotted or of groups.
pub open spec fn ip_value(s: Seq<char>) -> Option<(bool, nat)> {
    match v4_value(s) {
        Some(n) => Some((false, n)),
        None => match v6_value(s) {
            Some(n) => Some((true, n)),
            None => None,
        },
    }
}

/// An address as whether it is of groups, and its number.
pub open spec fn ip_view(ip: IpAddr) -> (bool, nat) {
    match ip {
        IpAddr::V4(n) => (false, n as nat),
        IpAddr::V6(n) => (true, n as nat),
    }
}

/// Reads an address.
pub fn parse_ip(s: &str) -> (r: Option<IpAddr>)
    ensures
        ip_value(s@) == (match r {
            Some(ip) => Some(ip_view(ip)),
            None => None,
        }),
{
    match parse_v4(s) {
        Some(n) => Some(IpAddr::V4(n)),
        None => match parse_v6(s) {
            Some(n) => Some(IpAddr::V6(n)),
            None => None,
        },
    }
}

// ── Ranges ──────────────────────────────────────────────────────────────────

/// How many bits an address has.
pub open spec fn width(v6: bool) -> nat {
    if v6 {
        128
    } else {
        32
    }
}

/// How many addresses share a prefix.
pub open spec fn block_size(v6: bool, prefix: nat) -> nat
    recommends
        prefix <= width(v6),
{
    pow2((width(v6) - prefix) as nat)
}

/// The first address that shares a prefix with an address.
pub open spec fn block_first(v6: bool, address: nat, prefix: nat) -> nat {
    (address / block_size(v6, prefix)) * block_size(v6, prefix)
}

/// The last address that shares a prefix with an address.
pub open spec fn block_last(v6: bool, address: nat, prefix: nat) -> int {
    block_first(v6, address, prefix) + block_size(v6, prefix) - 1
}

/// A range of addresses: whether they are of groups, the first and the last.
pub ghost struct RangeView {
    pub v6: bool,
    pub first: nat,
    pub last: int,
}

impl RangeView {
    /// Whether an address lies in the range.
    pub open spec fn holds(self, ip: (bool, nat)) -> bool {
        ip.0 == self.v6 && self.first <= ip.1 <= self.last
    }
}

/// The range of a text such as `10.0.0.0/8`: an address, and how many of its
/// leading bits count. A text that is not of this form has none.
pub open spec fn cidr_range(s: Seq<char>) -> Option<RangeView> {
    match s.index_of_first('/') {
        None => None,
        Some(i) => match (ip_value(s.take(i)), unsigned_value(s.skip(i + 1), 0xffff_ffff)) {
            (Some((v6, address)), Some(prefix)) => if prefix <= width(v6) {
                Some(
                    RangeView {
                        v6,
                        first: block_first(v6, address, prefix),
                        last: block_last(v6, address, prefix),
                    },
                )
            } else {
                None
            },
            _ => None,
        },
    }
}

/// The addresses of a range are those that agree with it in the bits that
/// count.
pub proof fn range_is_prefix(v6: bool, address: nat, prefix: nat, n: nat)
    requires
        prefix <= width(v6),
    ensures
        (RangeView {
            v6,
            first: block_first(v6, address, prefix),
            last: block_last(v6, address, prefix),
        }).holds((v6, n)) <==> n / block_size(v6, prefix) == address / block_size(v6, prefix),
{
    let size = block_size(v6, prefix) as int;
    lemma_pow2_pos((width(v6) - prefix) as nat);
    let a = address as int / size;
    let b = n as int / size;
    vstd::arithmetic::div_mod::lemma_fundamental_div_mod(address as int, size);
    vstd::arithmetic::div_mod::lemma_fundamental_div_mod(n as int, size);
    assert(n == size * b + n as int % size);
    assert(0 <= n as int % size < size);
    if b < a {
        assert(size * b + size <= size * a) by (nonlinear_arith)
            requires
                b + 1 <= a,
                size > 0,
        ;
    }
    if b > a {
        assert(size * a + size <= size * b) by (nonlinear_arith)
            requires
                a + 1 <= b,
                size > 0,
        ;
    }
    assert(a * size == size * a) by (nonlinear_arith);
}

fn power_of_two(k: u32) -> (r: u128)
    requires
        k < 128,
    ensures
        r == pow2(k as nat),
{
    let mut r: u128 = 1;
    let mut i: u32 = 0;
    proof {
        lemma2_to64();
    }
    while i < k
        invariant
            i <= k < 128,
            r == pow2(i as nat),
        decreases k - i,
    {
        proof {
            lemma_pow2_unfold((i + 1) as nat);
            pow2_below(i as nat);
        }
        r = r * 2;
        i = i + 1;
    }
    r
}

proof fn pow2_below(i: nat)
    requires
        i < 127,
    ensures
        2 * pow2(i) <= 0x8000_0000_0000_0000_0000_0000_0000_0000,
{
    lemma_pow2_adds(i, (126 - i) as nat);
    lemma_pow2_pos((126 - i) as nat);
    assert(pow2(i) <= pow2(126)) by (nonlinear_arith)
        requires
            pow2(126) == pow2(i) * pow2((126 - i) as nat),
            pow2((126 - i) as nat) >= 1,
    ;
    lemma_pow2_adds(63, 63);
    lemma2_to64();
    vstd::arithmetic::power2::lemma2_to64_rest();
    assert(pow2(63) * pow2(63) == 0x4000_0000_0000_0000_0000_0000_0000_0000) by (nonlinear_arith)
        requires
            pow2(63) == 0x8000_0000_0000_0000,
    ;
}

proof fn full_width(v6: bool)
    ensures
        pow2(width(v6)) == if v6 {
            0x1_0000_0000_0000_0000_0000_0000_0000_0000int
        } else {
            0x1_0000_0000int
        },
{
    lemma2_to64();
    vstd::arithmetic::power2::lemma2_to64_rest();
    if v6 {
        lemma_pow2_adds(64, 64);
        assert(pow2(64) * pow2(64) == 0x1_0000_0000_0000_0000_0000_0000_0000_0000) by (nonlinear_arith)
            requires
                pow2(64) == 0x1_0000_0000_0000_0000,
        ;
    }
}

/// A range lies within the addresses.
proof fn block_fits(v6: bool, address: nat, prefix: nat)
    requires
        prefix <= width(v6),
        address < pow2(width(v6)),
    ensures
        block_last(v6, address, prefix) < pow2(width(v6)),
        block_first(v6, address, prefix) <= address,
{
    let size = block_size(v6, prefix) as int;
    let count = pow2(prefix) as int;
    lemma_pow2_pos((width(v6) - prefix) as nat);
    lemma_pow2_adds((width(v6) - prefix) as nat, prefix);
    let a = address as int / size;
    vstd::arithmetic::div_mod::lemma_fundamental_div_mod(address as int, size);
    assert(a < count) by (nonlinear_arith)
        requires
            size * a <= address < size * count,
            size > 0,
    ;
    assert(a * size + size <= size * count) by (nonlinear_arith)
        requires
            a + 1 <= count,
            size > 0,
    ;
    assert(a * size == size * a) by (nonlinear_arith);
}

fn block(v6: bool, address: u128, prefix: u32) -> (r: (u128, u128))
    requires
        prefix <= width(v6),
        address < pow2(width(v6)),
    ensures
        r.0 == block_first(v6, address as nat, prefix as nat),
        r.1 == block_last(v6, address as nat, prefix as nat),
{
    proof {
        full_width(v6);
        block_fits(v6, address as nat, prefix as nat);
    }
    let bits: u32 = if v6 {
        128
    } else {
        32
    };
    if prefix == 0 {
        proof {
            let size = block_size(v6, 0) as int;
            vstd::arithmetic::div_mod::lemma_basic_div(address as int, size);
            assert(block_first(v6, address as nat, 0) == 0);
        }
        let last: u128 = if v6 {
            0xffff_ffff_ffff_ffff_ffff_ffff_ffff_ffff
        } else {
            0xffff_ffff
        };
        return (0, last);
    }
    let size: u128 = power_of_two(bits - prefix);
    proof {
        lemma_pow2_pos((bits - prefix) as nat);
        vstd::arithmetic::div_mod::lemma_fundamental_div_mod(address as int, size as int);
        assert((address as int / size as int) * size as int == size as int * (address as int / size as int))
            by (nonlinear_arith);
    }
    let first: u128 = address - address % size;
    assert(first == block_first(v6, address as nat, prefix as nat));
    (first, first + (size - 1))
}

/// A set of address ranges.
#[derive(Debug)]
pub struct CidrSet {
    v4: Vec<(u32, u32)>,
    v6: Vec<(u128, u128)>,
}

impl CidrSet {
    /// The ranges of dotted addresses, in the order they were added.
    pub closed spec fn v4_ranges(self) -> Seq<RangeView> {
        self.v4@.map_values(|r: (u32, u32)| RangeView { v6: false, first: r.0 as nat, last: r.1 as int })
    }

    /// The ranges of addresses of groups, in the order they were added.
    pub closed spec fn v6_ranges(self) -> Seq<RangeView> {
        self.v6@.map_values(|r: (u128, u128)| RangeView { v6: true, first: r.0 as nat, last: r.1 as int })
    }

    /// All ranges.
    pub open spec fn ranges(self) -> Seq<RangeView> {
        self.v4_ranges() + self.v6_ranges()
    }

    /// Whether an address lies in some range.
    pub open spec fn covers(self, ip: (bool, nat)) -> bool {
        exists|i: int| 0 <= i < self.ranges().len() && (#[trigger] self.ranges()[i]).holds(ip)
    }

    /// A set without ranges.
    pub fn new() -> (r: CidrSet)
        ensures
            r.v4_ranges() == Seq::<RangeView>::empty(),
            r.v6_ranges() == Seq::<RangeView>::empty(),
    {
        let r = CidrSet { v4: Vec::new(), v6: Vec::new() };
        assert(r.v4_ranges() =~= Seq::<RangeView>::empty());
        assert(r.v6_ranges() =~= Seq::<RangeView>::empty());
        r
    }

    /// Adds the range of a text, if it has one.
    pub fn add(&mut self, cidr: &str) -> (r: Result<(), ()>)
        ensures
            r is Ok <==> cidr_range(cidr@) is Some,
            final(self).v4_ranges() == with_range(old(self).v4_ranges(), cidr_range(cidr@), false),
            final(self).v6_ranges() == with_range(old(self).v6_ranges(), cidr_range(cidr@), true),
    {
        let v = to_chars(cidr);
        let n: usize = v.len();
        let (ip_text, prefix_text): (String, String) = match find(&v, '/') {
            Some(i) => {
                assert(v@.subrange(0, i as int) =~= cidr@.take(i as int));
                assert(v@.subrange(i + 1, n as int) =~= cidr@.skip(i + 1));
                (from_chars(&v, 0, i), from_chars(&v, i + 1, n))
            },
            None => {
                return Err(());
            },
        };
        let prefix: u32 = match parse_unsigned(prefix_text.as_str(), 0xffff_ffff) {
            Some(p) => p as u32,
            None => {
                return Err(());
            },
        };
        proof {
            full_width(false);
            full_width(true);
        }
        let ghost v4_before = self.v4_ranges();
        let ghost v6_before = self.v6_ranges();
        match parse_ip(ip_text.as_str()) {
            Some(IpAddr::V4(a)) => {
                if prefix > 32 {
                    return Err(());
                }
                let (first, last) = block(false, a as u128, prefix);
                proof {
                    block_fits(false, a as nat, prefix as nat);
                }
                self.v4.push((first as u32, last as u32));
                assert(self.v4_ranges() =~= v4_before.push(cidr_range(cidr@)->0));
                Ok(())
            },
            Some(IpAddr::V6(a)) => {
                if prefix > 128 {
                    return Err(());
                }
                let (first, last) = block(true, a, prefix);
                self.v6.push((first, last));
                assert(self.v6_ranges() =~= v6_before.push(cidr_range(cidr@)->0));
                Ok(())
            },
            None => Err(()),
        }
    }

    /// The set of the ranges of texts. Texts that are not of this form are
    /// skipped.
    pub fn from_cidrs(cidrs: &[&str]) -> (r: CidrSet)
        ensures
            r.v4_ranges() == ranges_of(cidrs@, false),
            r.v6_ranges() == ranges_of(cidrs@, true),
    {
        let mut set = CidrSet::new();
        let mut i: usize = 0;
        while i < cidrs.len()
            invariant
                i <= cidrs@.len(),
                set.v4_ranges() == ranges_of(cidrs@.take(i as int), false),
                set.v6_ranges() == ranges_of(cidrs@.take(i as int), true),
            decreases cidrs@.len() - i,
        {
            assert(cidrs@.take(i + 1).drop_last() =~= cidrs@.take(i as int));
            assert(cidrs@.take(i + 1).last() == cidrs@[i as int]);
            let _skipped = set.add(cidrs[i]);
            i = i + 1;
        }
        assert(cidrs@.take(i as int) =~= cidrs@);
        set
    }

    /// Tests whether an address lies in some range.
    pub fn contains(&self, ip: &IpAddr) -> (r: bool)
        ensures
            r == self.covers(ip_view(*ip)),
    {
        let ghost all = self.ranges();
        let ghost count = self.v4_ranges().len();
        match *ip {
            IpAddr::V4(n) => {
                let mut i: usize = 0;
                while i < self.v4.len()
                    invariant
                        i <= self.v4@.len(),
                        all == self.ranges(),
                        count == self.v4_ranges().len(),
                        *ip == IpAddr::V4(n),
                        forall|k: int| 0 <= k < i ==> !(#[trigger] all[k]).holds(ip_view(*ip)),
                    decreases self.v4@.len() - i,
                {
                    let (first, last) = self.v4[i];
                    assert(all[i as int] == self.v4_ranges()[i as int]);
                    if first <= n && n <= last {
                        assert(all[i as int].holds(ip_view(*ip)));
                        return true;
                    }
                    i = i + 1;
                }
                assert forall|k: int| 0 <= k < all.len() implies !(#[trigger] all[k]).holds(ip_view(*ip)) by {
                    if k >= count {
                        assert(all[k] == self.v6_ranges()[k - count]);
                    }
                }
                false
            },
            IpAddr::V6(n) => {
                let mut i: usize = 0;
                while i < self.v6.len()
                    invariant
                        i <= self.v6@.len(),
                        all == self.ranges(),
                        count == self.v4_ranges().len(),
                        *ip == IpAddr::V6(n),
                        forall|k: int| count <= k < count + i ==> !(#[trigger] all[k]).holds(ip_view(*ip)),
                    decreases self.v6@.len() - i,
                {
                    let (first, last) = self.v6[i];
                    assert(all[count + i] == self.v6_ranges()[i as int]);
                    if first <= n && n <= last {
                        assert(all[count + i].holds(ip_view(*ip)));
                        return true;
                    }
                    i = i + 1;
                }
                assert forall|k: int| 0 <= k < all.len() implies !(#[trigger] all[k]).holds(ip_view(*ip)) by {
                    if k < count {
                        assert(all[k] == self.v4_ranges()[k]);
                    }
                }
                false
            },
        }
    }

    /// How many ranges the set has.
    pub fn len(&self) -> (r: usize)
        requires
            self.ranges().len() <= usize::MAX,
        ensures
            r == self.ranges().len(),
    {
        self.v4.len() + self.v6.len()
    }

    /// Whether the set has no range.
    pub fn is_empty(&self) -> (r: bool)
        ensures
            r == (self.ranges().len() == 0),
    {
        self.v4.len() == 0 && self.v6.len() == 0
    }
}

/// Ranges with another one behind them, if it is of a kind.
pub open spec fn with_range(list: Seq<RangeView>, r: Option<RangeView>, v6: bool) -> Seq<RangeView> {
    match r {
        Some(x) => if x.v6 == v6 {
            list.push(x)
        } else {
            list
        },
        None => list,
    }
}

/// The ranges of a kind that texts have, in order.
pub open spec fn ranges_of(cidrs: Seq<&str>, v6: bool) -> Seq<RangeView>
    decreases cidrs.len(),
{
    if cidrs.len() == 0 {
        seq![]
    } else {
        with_range(ranges_of(cidrs.drop_last(), v6), cidr_range(cidrs.last()@), v6)
    }
}

// ── Laws ────────────────────────────────────────────────────────────────────

/// Splitting undoes joining: what precedes the first separator is a part, if it
/// holds none.
proof fn first_part(head: Seq<char>, sep: char, rest: Seq<char>)
    requires
        !head.contains(sep),
    ensures
        split(head.push(sep) + rest, sep) == seq![head] + split(rest, sep),
        split(head, sep) == seq![head],
{
    let s = head.push(sep) + rest;
    s.index_of_first_ensures(sep);
    head.index_of_first_ensures(sep);
    assert(s[head.len() as int] == sep);
    assert(s.contains(sep));
    let i = s.index_of_first(sep)->0;
    if i < head.len() {
        assert(head[i] == s[i]);
        assert(head.contains(sep));
    }
    assert(i <= head.len()) by {
        if i > head.len() {
            assert(s[head.len() as int] != sep);
        }
    }
    assert(s.take(i) =~= head);
    assert(s.skip(i + 1) =~= rest);
}

proof fn octet_reads_back(n: nat)
    requires
        n < 256,
    ensures
        octet_value(decimal(n)) == Some(n),
        !decimal(n).contains('.'),
        !decimal(n).contains('/'),
{
    decimal_reads_back(n);
    reveal_with_fuel(decimal, 4);
    if decimal(n).contains('.') || decimal(n).contains('/') {
        let k = choose|k: int| 0 <= k < decimal(n).len() && (decimal(n)[k] == '.' || decimal(n)[k] == '/');
        assert(is_digit(decimal(n)[k]));
    }
}

/// A dotted address is the number of its octets, the first one the highest.
pub proof fn an_address_is_its_octets(a: nat, b: nat, c: nat, d: nat)
    requires
        a < 256 && b < 256 && c < 256 && d < 256,
    ensures
        ip_value(decimal(a) + seq!['.'] + (decimal(b) + seq!['.'] + (decimal(c) + seq!['.'] + decimal(d)))) == Some(
            (false, a * 0x100_0000 + b * 0x1_0000 + c * 0x100 + d),
        ),
{
    octet_reads_back(a);
    octet_reads_back(b);
    octet_reads_back(c);
    octet_reads_back(d);
    let z = decimal(d);
    let y = decimal(c) + seq!['.'] + z;
    let x = decimal(b) + seq!['.'] + y;
    let w = decimal(a) + seq!['.'] + x;
    assert(y =~= decimal(c).push('.') + z);
    assert(x =~= decimal(b).push('.') + y);
    assert(w =~= decimal(a).push('.') + x);
    let none: Seq<char> = seq![];
    first_part(z, '.', none);
    first_part(decimal(c), '.', z);
    first_part(decimal(b), '.', y);
    first_part(decimal(a), '.', x);
    let p = split(w, '.');
    assert(p =~= seq![decimal(a), decimal(b), decimal(c), decimal(d)]);
}

/// A range holds the addresses of its kind that agree with it in as many leading
/// bits as it says, and there is none with more bits than an address has.
pub proof fn a_range_holds_what_shares_its_prefix(text: Seq<char>, v6: bool, address: nat, prefix: nat, n: nat)
    requires
        !text.contains('/'),
        ip_value(text) == Some((v6, address)),
        prefix <= 0xffff_ffff,
    ensures
        ({
            let range = cidr_range(text + seq!['/'] + decimal(prefix));
            let bits: nat = if v6 {
                128
            } else {
                32
            };
            &&& range is Some <==> prefix <= bits
            &&& prefix <= bits ==> {
                &&& (range->0).holds((v6, n)) <==> n / pow2((bits - prefix) as nat) == address / pow2(
                    (bits - prefix) as nat,
                )
                &&& !(range->0).holds((!v6, n))
            }
        }),
{
    let s = text + seq!['/'] + decimal(prefix);
    decimal_reads_back(prefix);
    assert(is_digit(decimal(prefix)[0]));
    s.index_of_first_ensures('/');
    let at: int = text.len() as int;
    assert(s[at] == '/');
    assert(s.contains('/'));
    let i = s.index_of_first('/')->0;
    if i < at {
        assert(text[i] == s[i]);
        assert(text.contains('/'));
    }
    assert(i <= at) by {
        if i > at {
            assert(s[at] != '/');
        }
    }
    assert(s.take(at) =~= text);
    assert(s.skip(at + 1) =~= decimal(prefix));
    if prefix <= width(v6) {
        range_is_prefix(v6, address, prefix, n);
    }
}

} // verus!
