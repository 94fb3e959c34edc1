//! IP addresses: their text form, read and written, and the address classes.

use vstd::prelude::*;

use crate::number;
use crate::text;

verus! {

/// An IPv4 address by its four octets.
#[derive(Clone, Copy, Debug, PartialEq, Eq, Hash, Structural)]
pub struct Ipv4Addr {
    pub a: u8,
    pub b: u8,
    pub c: u8,
    pub d: u8,
}

/// An IPv6 address by its eight 16-bit groups.
#[derive(Clone, Copy, Debug, PartialEq, Eq, Hash, Structural)]
pub struct Ipv6Addr {
    pub g0: u16,
    pub g1: u16,
    pub g2: u16,
    pub g3: u16,
    pub g4: u16,
    pub g5: u16,
    pub g6: u16,
    pub g7: u16,
}

/// An address of either family.
#[derive(Clone, Copy, Debug, PartialEq, Eq, Hash, Structural)]
pub enum IpAddr {
    V4(Ipv4Addr),
    V6(Ipv6Addr),
}

impl Ipv4Addr {
    /// `127.0.0.0/8`
    pub open spec fn spec_loopback(self) -> bool {
        self.a == 127
    }

    /// `0.0.0.0`
    pub open spec fn spec_unspecified(self) -> bool {
        self.a == 0 && self.b == 0 && self.c == 0 && self.d == 0
    }

    /// `224.0.0.0/4`
    pub open spec fn spec_multicast(self) -> bool {
        224 <= self.a <= 239
    }

    /// `255.255.255.255`
    pub open spec fn spec_broadcast(self) -> bool {
        self.a == 255 && self.b == 255 && self.c == 255 && self.d == 255
    }

    /// `192.0.2.0/24`, `198.51.100.0/24` and `203.0.113.0/24`
    pub open spec fn spec_documentation(self) -> bool {
        ||| self.a == 192 && self.b == 0 && self.c == 2
        ||| self.a == 198 && self.b == 51 && self.c == 100
        ||| self.a == 203 && self.b == 0 && self.c == 113
    }
}

impl Ipv6Addr {
    /// The eight groups, first group first.
    pub open spec fn groups(self) -> Seq<u16> {
        seq![self.g0, self.g1, self.g2, self.g3, self.g4, self.g5, self.g6, self.g7]
    }

    /// The address with the given eight groups.
    pub open spec fn of_groups(g: Seq<u16>) -> Ipv6Addr {
        Ipv6Addr { g0: g[0], g1: g[1], g2: g[2], g3: g[3], g4: g[4], g5: g[5], g6: g[6], g7: g[7] }
    }

    /// `::`
    pub open spec fn spec_unspecified(self) -> bool {
        forall|i: int| 0 <= i < 8 ==> #[trigger] self.groups()[i] == 0
    }

    /// `::1`
    pub open spec fn spec_loopback(self) -> bool {
        &&& forall|i: int| 0 <= i < 7 ==> #[trigger] self.groups()[i] == 0
        &&& self.g7 == 1
    }

    /// `ff00::/8`
    pub open spec fn spec_multicast(self) -> bool {
        0xff00 <= self.g0
    }

    /// `fe80::/10`
    pub open spec fn spec_link_local(self) -> bool {
        0xfe80 <= self.g0 <= 0xfebf
    }

    /// `2001:db8::/32`
    pub open spec fn spec_documentation(self) -> bool {
        self.g0 == 0x2001 && self.g1 == 0x0db8
    }

    /// `::ffff:0:0/96`
    pub open spec fn spec_mapped(self) -> bool {
        self.g0 == 0 && self.g1 == 0 && self.g2 == 0 && self.g3 == 0 && self.g4 == 0 && self.g5
            == 0xffff
    }

    /// The IPv4 address in the last two groups.
    pub open spec fn low_ipv4(self) -> Ipv4Addr {
        Ipv4Addr {
            a: (self.g6 / 256) as u8,
            b: (self.g6 % 256) as u8,
            c: (self.g7 / 256) as u8,
            d: (self.g7 % 256) as u8,
        }
    }
}

// Reading.

/// One octet of a dotted IPv4 address: up to three decimal digits without a
/// leading zero, at most 255.
pub open spec fn octet(s: Seq<char>) -> Option<u8> {
    if 1 <= s.len() <= 3 && number::all_digits(s, 10) && (s.len() == 1 || s[0] != '0') && number::value_of(s, 10)
        <= 255 {
        Some(number::value_of(s, 10) as u8)
    } else {
        None
    }
}

/// The IPv4 address that `s` stands for: four octets between three dots.
pub open spec fn ipv4_of(s: Seq<char>) -> Option<Ipv4Addr> {
    let p = text::pieces(s, '.');
    if p.len() == 4 && octet(p[0]) is Some && octet(p[1]) is Some && octet(p[2]) is Some && octet(
        p[3],
    ) is Some {
        Some(Ipv4Addr { a: octet(p[0])->0, b: octet(p[1])->0, c: octet(p[2])->0, d: octet(p[3])->0 })
    } else {
        None
    }
}

/// One group of an IPv6 address: one to four hexadecimal digits.
pub open spec fn group(s: Seq<char>) -> Option<u16> {
    if 1 <= s.len() <= 4 && number::all_digits(s, 16) {
        Some(number::value_of(s, 16) as u16)
    } else {
        None
    }
}

/// The groups that the pieces `p` stand for, if each one is a group.
pub open spec fn groups_of(p: Seq<Seq<char>>) -> Option<Seq<u16>> {
    if forall|i: int| 0 <= i < p.len() ==> group(#[trigger] p[i]) is Some {
        Some(Seq::new(p.len(), |i: int| group(p[i])->0))
    } else {
        None
    }
}

/// The two groups that an embedded IPv4 address fills.
pub open spec fn ipv4_groups(v: Ipv4Addr) -> Seq<u16> {
    seq![(v.a * 256 + v.b) as u16, (v.c * 256 + v.d) as u16]
}

/// The groups that the pieces `p` stand for, where the last piece may be an
/// embedded IPv4 address.
pub open spec fn groups_with_ipv4(p: Seq<Seq<char>>) -> Option<Seq<u16>> {
    if p.len() > 0 && ipv4_of(p.last()) is Some {
        match groups_of(p.drop_last()) {
            Some(g) => Some(g + ipv4_groups(ipv4_of(p.last())->0)),
            None => None,
        }
    } else {
        groups_of(p)
    }
}

/// Two colons stand in `s` at `i`.
pub open spec fn gap_at(s: Seq<char>, i: int) -> bool {
    0 <= i && i + 2 <= s.len() && s[i] == ':' && s[i + 1] == ':'
}

/// The first two colons in `s` stand at `i`.
pub open spec fn first_gap(s: Seq<char>, i: int) -> bool {
    &&& gap_at(s, i)
    &&& forall|j: int| 0 <= j < i ==> !#[trigger] gap_at(s, j)
}

/// The groups in front of a gap.
pub open spec fn head_groups(s: Seq<char>) -> Option<Seq<u16>> {
    if s.len() == 0 {
        Some(Seq::empty())
    } else {
        groups_of(text::pieces(s, ':'))
    }
}

/// The groups behind a gap.
pub open spec fn tail_groups(s: Seq<char>) -> Option<Seq<u16>> {
    if s.len() == 0 {
        Some(Seq::empty())
    } else {
        groups_with_ipv4(text::pieces(s, ':'))
    }
}

/// `n` groups of zero.
pub open spec fn zero_groups(n: nat) -> Seq<u16> {
    Seq::new(n, |i: int| 0u16)
}

/// The eight groups that `head`, a gap and `tail` stand for: the gap fills at
/// least one group.
pub open spec fn spanned(head: Option<Seq<u16>>, tail: Option<Seq<u16>>) -> Option<Ipv6Addr> {
    if head is Some && tail is Some && head->0.len() + tail->0.len() <= 7 {
        Some(
            Ipv6Addr::of_groups(
                head->0 + zero_groups((8 - head->0.len() - tail->0.len()) as nat) + tail->0,
            ),
        )
    } else {
        None
    }
}

/// The IPv6 address that `s` stands for: eight groups between colons, or fewer
/// around one gap `::`; an IPv4 address may stand for the last two groups.
pub open spec fn ipv6_of(s: Seq<char>) -> Option<Ipv6Addr> {
    if exists|i: int| first_gap(s, i) {
        let i = choose|i: int| first_gap(s, i);
        spanned(head_groups(s.take(i)), tail_groups(s.skip(i + 2)))
    } else {
        match groups_with_ipv4(text::pieces(s, ':')) {
            Some(g) => if g.len() == 8 {
                Some(Ipv6Addr::of_groups(g))
            } else {
                None
            },
            None => None,
        }
    }
}

/// The address that `s` stands for.
pub open spec fn ip_of(s: Seq<char>) -> Option<IpAddr> {
    match ipv4_of(s) {
        Some(v) => Some(IpAddr::V4(v)),
        None => match ipv6_of(s) {
            Some(v) => Some(IpAddr::V6(v)),
            None => None,
        },
    }
}

fn read_octet(s: &Vec<char>) -> (r: Option<u8>)
    ensures
        r == octet(s@),
{
    if s.len() == 0 || s.len() > 3 || (s.len() > 1 && s[0] == '0') {
        return None;
    }
    match number::read_digits(s, 10, 255) {
        Some(v) => Some(v as u8),
        None => None,
    }
}

fn read_ipv4(s: &Vec<char>) -> (r: Option<Ipv4Addr>)
    ensures
        r == ipv4_of(s@),
{
    let p = text::split_pieces(s, '.');
    proof {
        assert(text::char_views(p@).len() == p@.len());
        assert forall|i: int| 0 <= i < p@.len() implies #[trigger] text::pieces(s@, '.')[i]
            == p@[i]@ by {
            assert(text::char_views(p@)[i] == p@[i]@);
        }
    }
    if p.len() != 4 {
        return None;
    }
    let a = read_octet(&p[0]);
    let b = read_octet(&p[1]);
    let c = read_octet(&p[2]);
    let d = read_octet(&p[3]);
    match (a, b, c, d) {
        (Some(a), Some(b), Some(c), Some(d)) => Some(Ipv4Addr { a, b, c, d }),
        _ => None,
    }
}

proof fn lemma_group_fits(s: Seq<char>)
    requires
        1 <= s.len() <= 4,
        number::all_digits(s, 16),
    ensures
        number::value_of(s, 16) <= 0xffff,
{
    reveal_with_fuel(number::value_of, 5);
    assert forall|i: int| 0 <= i < s.len() implies number::digit_value(#[trigger] s[i], 16)->0 <= 15 by {}
    let s1 = s.drop_last();
    assert(number::digit_value(s.last(), 16)->0 <= 15);
    if s1.len() > 0 {
        assert(s1.last() == s[s.len() - 2]);
        let s2 = s1.drop_last();
        if s2.len() > 0 {
            assert(s2.last() == s[s.len() - 3]);
            let s3 = s2.drop_last();
            if s3.len() > 0 {
                assert(s3.last() == s[s.len() - 4]);
                assert(s3.drop_last().len() == 0);
            }
        }
    }
}

fn read_group(s: &Vec<char>) -> (r: Option<u16>)
    ensures
        r == group(s@),
{
    if s.len() == 0 || s.len() > 4 {
        return None;
    }
    proof {
        if number::all_digits(s@, 16) {
            lemma_group_fits(s@);
        }
    }
    match number::read_digits(s, 16, 0xffff) {
        Some(v) => Some(v as u16),
        None => None,
    }
}

/// Reads the first `n` pieces as groups.
fn read_groups(p: &Vec<Vec<char>>, n: usize) -> (r: Option<Vec<u16>>)
    requires
        n <= p.len(),
    ensures
        r is Some <==> groups_of(text::char_views(p@).take(n as int)) is Some,
        r is Some ==> groups_of(text::char_views(p@).take(n as int)) == Some(r->0@),
{
    let ghost v = text::char_views(p@).take(n as int);
    let mut out: Vec<u16> = Vec::new();
    let mut i: usize = 0;
    while i < n
        invariant
            i <= n <= p.len(),
            v == text::char_views(p@).take(n as int),
            out@.len() == i,
            forall|j: int| 0 <= j < i ==> group(#[trigger] v[j]) == Some(out@[j]),
        decreases n - i,
    {
        proof {
            assert(v[i as int] == p@[i as int]@);
        }
        match read_group(&p[i]) {
            Some(g) => {
                out.push(g);
            },
            None => {
                return None;
            },
        }
        i = i + 1;
    }
    proof {
        assert(groups_of(v) is Some);
        assert(groups_of(v)->0 =~= out@);
    }
    Some(out)
}

fn read_groups_with_ipv4(s: &Vec<char>) -> (r: Option<Vec<u16>>)
    ensures
        r is Some <==> groups_with_ipv4(text::pieces(s@, ':')) is Some,
        r is Some ==> groups_with_ipv4(text::pieces(s@, ':')) == Some(r->0@),
{
    let p = text::split_pieces(s, ':');
    proof {
        text::lemma_pieces_nonempty(s@, ':');
        assert(text::char_views(p@).len() == p@.len());
        assert(text::char_views(p@).last() == p@.last()@);
        assert(text::char_views(p@).take(p@.len() as int) =~= text::char_views(p@));
        assert(text::char_views(p@).take(p@.len() - 1) =~= text::char_views(p@).drop_last());
    }
    match read_ipv4(&p[p.len() - 1]) {
        Some(v) => {
            match read_groups(&p, p.len() - 1) {
                Some(g) => {
                    let mut out = g;
                    let ghost front = out@;
                    out.push(v.a as u16 * 256 + v.b as u16);
                    out.push(v.c as u16 * 256 + v.d as u16);
                    proof {
                        assert(out@ =~= front + ipv4_groups(v));
                    }
                    Some(out)
                },
                None => None,
            }
        },
        None => read_groups(&p, p.len()),
    }
}

/// The address with the given eight groups.
fn from_groups(g: &Vec<u16>) -> (r: Ipv6Addr)
    requires
        g.len() == 8,
    ensures
        r == Ipv6Addr::of_groups(g@),
{
    Ipv6Addr { g0: g[0], g1: g[1], g2: g[2], g3: g[3], g4: g[4], g5: g[5], g6: g[6], g7: g[7] }
}

/// Fills the gap between `head` and `tail` with zeros.
fn span(head: Vec<u16>, tail: Vec<u16>) -> (r: Option<Ipv6Addr>)
    ensures
        r == spanned(Some(head@), Some(tail@)),
{
    if head.len() > 7 || tail.len() > 7 || head.len() + tail.len() > 7 {
        return None;
    }
    let mut all: Vec<u16> = Vec::new();
    let mut i: usize = 0;
    while i < head.len()
        invariant
            i <= head.len(),
            all@ == head@.take(i as int),
        decreases head.len() - i,
    {
        proof {
            assert(head@.take(i + 1) =~= head@.take(i as int).push(head@[i as int]));
        }
        all.push(head[i]);
        i = i + 1;
    }
    let gap: usize = 8 - head.len() - tail.len();
    proof {
        assert(all@ =~= head@ + zero_groups(0));
    }
    let mut k: usize = 0;
    while k < gap
        invariant
            k <= gap,
            all@ == head@ + zero_groups(k as nat),
        decreases gap - k,
    {
        all.push(0);
        k = k + 1;
        proof {
            assert(all@ =~= head@ + zero_groups(k as nat));
        }
    }
    let mut j: usize = 0;
    proof {
        assert(all@ =~= head@ + zero_groups(gap as nat) + tail@.take(0));
    }
    while j < tail.len()
        invariant
            j <= tail.len(),
            all@ == head@ + zero_groups(gap as nat) + tail@.take(j as int),
        decreases tail.len() - j,
    {
        all.push(tail[j]);
        j = j + 1;
        proof {
            assert(all@ =~= head@ + zero_groups(gap as nat) + tail@.take(j as int));
        }
    }
    proof {
        assert(tail@.take(tail@.len() as int) =~= tail@);
    }
    Some(from_groups(&all))
}

/// Two positions that are both the first gap are the same.
proof fn lemma_first_gap_unique(s: Seq<char>, i: int, j: int)
    requires
        first_gap(s, i),
        first_gap(s, j),
    ensures
        i == j,
{
    if i < j {
        assert(gap_at(s, i));
    }
    if j < i {
        assert(gap_at(s, j));
    }
}

/// The position of the first gap, or the length of `s` where there is none.
fn find_gap(s: &Vec<char>) -> (r: usize)
    ensures
        r < s.len() ==> first_gap(s@, r as int),
        r >= s.len() ==> forall|j: int| !#[trigger] gap_at(s@, j),
{
    let mut i: usize = 0;
    while i < s.len()
        invariant
            i <= s.len(),
            forall|j: int| 0 <= j < i ==> !#[trigger] gap_at(s@, j),
        decreases s.len() - i,
    {
        if s.len() - i >= 2 && s[i] == ':' && s[i + 1] == ':' {
            return i;
        }
        i = i + 1;
    }
    i
}

fn read_ipv6(s: &Vec<char>) -> (r: Option<Ipv6Addr>)
    ensures
        r == ipv6_of(s@),
{
    let at = find_gap(s);
    if at < s.len() {
        proof {
            assert(first_gap(s@, at as int));
            let i = choose|i: int| first_gap(s@, i);
            lemma_first_gap_unique(s@, at as int, i);
            assert(s@.subrange(0, at as int) =~= s@.take(at as int));
            assert(s@.subrange(at + 2, s@.len() as int) =~= s@.skip(at + 2));
        }
        let front = text::slice_of(s, 0, at);
        let back = text::slice_of(s, at + 2, s.len());
        let head = if front.len() == 0 {
            let none: Vec<u16> = Vec::new();
            proof {
                assert(none@ =~= Seq::empty());
            }
            none
        } else {
            let p = text::split_pieces(&front, ':');
            proof {
                assert(text::char_views(p@).take(p@.len() as int) =~= text::char_views(p@));
            }
            match read_groups(&p, p.len()) {
                Some(g) => g,
                None => {
                    return None;
                },
            }
        };
        let tail = if back.len() == 0 {
            let none: Vec<u16> = Vec::new();
            proof {
                assert(none@ =~= Seq::empty());
            }
            none
        } else {
            match read_groups_with_ipv4(&back) {
                Some(g) => g,
                None => {
                    return None;
                },
            }
        };
        span(head, tail)
    } else {
        proof {
            assert forall|i: int| !first_gap(s@, i) by {
                assert(!gap_at(s@, i));
            }
        }
        match read_groups_with_ipv4(s) {
            Some(g) => {
                if g.len() == 8 {
                    Some(from_groups(&g))
                } else {
                    None
                }
            },
            None => None,
        }
    }
}

/// Reads an address of either family.
pub fn read_ip_chars(s: &Vec<char>) -> (r: Option<IpAddr>)
    ensures
        r == ip_of(s@),
{
    match read_ipv4(s) {
        Some(v) => Some(IpAddr::V4(v)),
        None => match read_ipv6(s) {
            Some(v) => Some(IpAddr::V6(v)),
            None => None,
        },
    }
}

/// Reads an address of either family.
pub fn read_ip(s: &str) -> (r: Option<IpAddr>)
    ensures
        r == ip_of(s@),
{
    read_ip_chars(&text::chars_of(s))
}

// Writing.

/// `v` in dotted decimal.
pub open spec fn ipv4_shown(v: Ipv4Addr) -> Seq<char> {
    text::joined(
        seq![
            number::decimal(v.a as nat),
            number::decimal(v.b as nat),
            number::decimal(v.c as nat),
            number::decimal(v.d as nat),
        ],
        seq!['.'],
    )
}

/// The number of zero groups in `g` from position `i` on.
pub open spec fn zero_run(g: Seq<u16>, i: int) -> int
    decreases g.len() - i,
{
    if 0 <= i < g.len() && g[i] == 0 {
        1 + zero_run(g, i + 1)
    } else {
        0
    }
}

/// Start and length of the first of the longest runs of zero groups among those
/// that start under `n`.
pub open spec fn longest_zero_run(g: Seq<u16>, n: int) -> (int, int)
    decreases n,
{
    if n <= 0 {
        (0, 0)
    } else {
        let best = longest_zero_run(g, n - 1);
        let here = zero_run(g, n - 1);
        if here > best.1 {
            (n - 1, here)
        } else {
            best
        }
    }
}

/// The groups `g` in hexadecimal.
pub open spec fn group_texts(g: Seq<u16>) -> Seq<Seq<char>> {
    Seq::new(g.len(), |i: int| number::rendered(g[i] as nat, 16))
}

/// The groups `g` in hexadecimal, between colons.
pub open spec fn groups_shown(g: Seq<u16>) -> Seq<char> {
    text::joined(group_texts(g), seq![':'])
}

/// The groups `g`, with `len` of them from `start` on written as a gap.
pub open spec fn gapped(g: Seq<u16>, start: int, len: int) -> Seq<char> {
    groups_shown(g.take(start)) + seq![':', ':'] + groups_shown(g.skip(start + len))
}

/// `v` in its shortest form: the first of the longest runs of two or more zero
/// groups is left out; an IPv4-mapped address ends in dotted decimal.
pub open spec fn ipv6_shown(v: Ipv6Addr) -> Seq<char> {
    if v.spec_mapped() {
        seq![':', ':', 'f', 'f', 'f', 'f', ':'] + ipv4_shown(v.low_ipv4())
    } else {
        let run = longest_zero_run(v.groups(), 8);
        if run.1 > 1 {
            gapped(v.groups(), run.0, run.1)
        } else {
            groups_shown(v.groups())
        }
    }
}

/// The text form of an address.
pub open spec fn shown(ip: IpAddr) -> Seq<char> {
    match ip {
        IpAddr::V4(v) => ipv4_shown(v),
        IpAddr::V6(v) => ipv6_shown(v),
    }
}

/// The text form of an optional address.
pub open spec fn option_shown(ip: Option<IpAddr>) -> Option<Seq<char>> {
    match ip {
        Some(ip) => Some(shown(ip)),
        None => None,
    }
}

fn write_ipv4(v: Ipv4Addr) -> (r: String)
    ensures
        r@ == ipv4_shown(v),
{
    let mut parts: Vec<String> = Vec::new();
    parts.push(number::decimal_text(v.a as u64));
    parts.push(number::decimal_text(v.b as u64));
    parts.push(number::decimal_text(v.c as u64));
    parts.push(number::decimal_text(v.d as u64));
    proof {
        reveal_strlit(".");
        assert("."@ =~= seq!['.']);
        assert(text::texts(parts@) =~= seq![
            number::decimal(v.a as nat),
            number::decimal(v.b as nat),
            number::decimal(v.c as nat),
            number::decimal(v.d as nat),
        ]);
    }
    text::join(&parts, ".")
}

impl Ipv6Addr {
    /// The eight groups, first group first.
    pub fn to_groups(&self) -> (r: Vec<u16>)
        ensures
            r@ == self.groups(),
    {
        let mut g: Vec<u16> = Vec::new();
        g.push(self.g0);
        g.push(self.g1);
        g.push(self.g2);
        g.push(self.g3);
        g.push(self.g4);
        g.push(self.g5);
        g.push(self.g6);
        g.push(self.g7);
        proof {
            assert(g@ =~= self.groups());
        }
        g
    }
}

/// Writes the groups from `from` up to but excluding `to`.
fn write_groups(g: &Vec<u16>, from: usize, to: usize) -> (r: String)
    requires
        from <= to <= g.len(),
    ensures
        r@ == groups_shown(g@.subrange(from as int, to as int)),
{
    let mut parts: Vec<String> = Vec::new();
    let mut i: usize = from;
    while i < to
        invariant
            from <= i <= to <= g.len(),
            parts@.len() == i - from,
            forall|j: int|
                0 <= j < i - from ==> (#[trigger] parts@[j])@ == number::rendered(
                    g@[from + j] as nat,
                    16,
                ),
        decreases to - i,
    {
        let digits = number::render(g[i] as u64, 16);
        parts.push(text::string_of(&digits));
        i = i + 1;
    }
    proof {
        reveal_strlit(":");
        assert(":"@ =~= seq![':']);
        assert(text::texts(parts@) =~= group_texts(g@.subrange(from as int, to as int)));
    }
    text::join(&parts, ":")
}

/// A run of zeros ends inside the groups.
proof fn lemma_zero_run_bound(g: Seq<u16>, i: int)
    requires
        0 <= i <= g.len(),
    ensures
        0 <= zero_run(g, i) <= g.len() - i,
        forall|j: int| i <= j < i + zero_run(g, i) ==> #[trigger] g[j] == 0,
    decreases g.len() - i,
{
    if i < g.len() && g[i] == 0 {
        lemma_zero_run_bound(g, i + 1);
    }
}

/// The longest run lies inside the groups and holds zeros only.
proof fn lemma_longest_run(g: Seq<u16>, n: int)
    requires
        0 <= n <= g.len(),
    ensures
        0 <= longest_zero_run(g, n).0,
        0 <= longest_zero_run(g, n).1,
        longest_zero_run(g, n).0 + longest_zero_run(g, n).1 <= g.len(),
        forall|j: int|
            longest_zero_run(g, n).0 <= j < longest_zero_run(g, n).0 + longest_zero_run(g, n).1
                ==> #[trigger] g[j] == 0,
    decreases n,
{
    if n > 0 {
        lemma_longest_run(g, n - 1);
        lemma_zero_run_bound(g, n - 1);
    }
}

fn find_zero_run(g: &Vec<u16>, from: usize) -> (r: usize)
    requires
        from <= g.len(),
    ensures
        r == zero_run(g@, from as int),
    decreases g.len() - from,
{
    if from < g.len() && g[from] == 0 {
        proof {
            lemma_zero_run_bound(g@, from + 1);
        }
        1 + find_zero_run(g, from + 1)
    } else {
        0
    }
}

/// Writes the shortest form of `v`.
fn write_ipv6(v: Ipv6Addr) -> (r: String)
    ensures
        r@ == ipv6_shown(v),
{
    if v.g0 == 0 && v.g1 == 0 && v.g2 == 0 && v.g3 == 0 && v.g4 == 0 && v.g5 == 0xffff {
        let low = Ipv4Addr {
            a: (v.g6 / 256) as u8,
            b: (v.g6 % 256) as u8,
            c: (v.g7 / 256) as u8,
            d: (v.g7 % 256) as u8,
        };
        proof {
            reveal_strlit("::ffff:");
            assert("::ffff:"@ =~= seq![':', ':', 'f', 'f', 'f', 'f', ':']);
        }
        return "::ffff:".to_owned().concat(write_ipv4(low).as_str());
    }
    let g = v.to_groups();
    let mut start: usize = 0;
    let mut len: usize = 0;
    let mut i: usize = 0;
    while i < 8
        invariant
            i <= 8,
            g.len() == 8,
            (start as int, len as int) == longest_zero_run(g@, i as int),
        decreases 8 - i,
    {
        let here = find_zero_run(&g, i);
        if here > len {
            start = i;
            len = here;
        }
        i = i + 1;
    }
    proof {
        lemma_longest_run(g@, 8);
    }
    if len > 1 {
        let head = write_groups(&g, 0, start);
        let tail = write_groups(&g, start + len, 8);
        proof {
            reveal_strlit("::");
            assert("::"@ =~= seq![':', ':']);
            assert(g@.subrange(0, start as int) =~= g@.take(start as int));
            assert(g@.subrange(start + len, 8) =~= g@.skip(start + len));
        }
        head.concat("::").concat(tail.as_str())
    } else {
        proof {
            assert(g@.subrange(0, 8) =~= g@);
        }
        write_groups(&g, 0, 8)
    }
}

impl IpAddr {
    /// The text form of the address.
    pub fn to_text(&self) -> (r: String)
        ensures
            r@ == shown(*self),
    {
        match self {
            IpAddr::V4(v) => write_ipv4(*v),
            IpAddr::V6(v) => write_ipv6(*v),
        }
    }

    /// This is `0.0.0.0` or `::`.
    pub open spec fn spec_unspecified(self) -> bool {
        match self {
            IpAddr::V4(v) => v.spec_unspecified(),
            IpAddr::V6(v) => v.spec_unspecified(),
        }
    }

    /// Whether this is `0.0.0.0` or `::`.
    pub fn is_unspecified(&self) -> (r: bool)
        ensures
            r == self.spec_unspecified(),
    {
        match self {
            IpAddr::V4(v) => v.a == 0 && v.b == 0 && v.c == 0 && v.d == 0,
            IpAddr::V6(v) => {
                proof {
                    lemma_all_zero(*v);
                }
                v.g0 == 0 && v.g1 == 0 && v.g2 == 0 && v.g3 == 0 && v.g4 == 0 && v.g5 == 0 && v.g6
                    == 0 && v.g7 == 0
            },
        }
    }
}

/// The groups of `v` one by one.
pub proof fn lemma_all_zero(v: Ipv6Addr)
    ensures
        v.spec_unspecified() == (v.g0 == 0 && v.g1 == 0 && v.g2 == 0 && v.g3 == 0 && v.g4 == 0
            && v.g5 == 0 && v.g6 == 0 && v.g7 == 0),
        v.spec_loopback() == (v.g0 == 0 && v.g1 == 0 && v.g2 == 0 && v.g3 == 0 && v.g4 == 0 && v.g5
            == 0 && v.g6 == 0 && v.g7 == 1),
{
    let g = v.groups();
    assert(g[0] == v.g0 && g[1] == v.g1 && g[2] == v.g2 && g[3] == v.g3);
    assert(g[4] == v.g4 && g[5] == v.g5 && g[6] == v.g6 && g[7] == v.g7);
}

// What is written is read back.

/// Digits hold no character that is no digit.
proof fn lemma_digits_lack(s: Seq<char>, radix: nat, c: char)
    requires
        number::all_digits(s, radix),
        number::digit_value(c, radix) is None,
    ensures
        text::lacks(s, c),
{
    assert forall|i: int| 0 <= i < s.len() implies #[trigger] s[i] != c by {
        assert(number::digit_value(s[i], radix) is Some);
    }
}

proof fn lemma_octet_reads_back(n: u8)
    ensures
        octet(number::decimal(n as nat)) == Some(n),
        text::lacks(number::decimal(n as nat), '.'),
        text::lacks(number::decimal(n as nat), ':'),
{
    let s = number::decimal(n as nat);
    number::law_rendered_reads_back(n as nat, 10);
    number::lemma_decimal_width(n as nat);
    if n > 0 {
        number::lemma_rendered_first(n as nat, 10);
    }
    lemma_digits_lack(s, 10, '.');
    lemma_digits_lack(s, 10, ':');
}

proof fn lemma_group_reads_back(n: u16)
    ensures
        group(number::rendered(n as nat, 16)) == Some(n),
        number::rendered(n as nat, 16).len() > 0,
        text::lacks(number::rendered(n as nat, 16), '.'),
        text::lacks(number::rendered(n as nat, 16), ':'),
{
    let s = number::rendered(n as nat, 16);
    number::law_rendered_reads_back(n as nat, 16);
    number::lemma_hexadecimal_width(n as nat);
    lemma_digits_lack(s, 16, '.');
    lemma_digits_lack(s, 16, ':');
}

proof fn lemma_ipv4_reads_back(v: Ipv4Addr)
    ensures
        ipv4_of(ipv4_shown(v)) == Some(v),
        text::lacks(ipv4_shown(v), ':'),
{
    let parts = seq![
        number::decimal(v.a as nat),
        number::decimal(v.b as nat),
        number::decimal(v.c as nat),
        number::decimal(v.d as nat),
    ];
    lemma_octet_reads_back(v.a);
    lemma_octet_reads_back(v.b);
    lemma_octet_reads_back(v.c);
    lemma_octet_reads_back(v.d);
    text::law_pieces_of_joined(parts, '.');
    lemma_joined_lacks(parts, '.', ':');
}

/// Joined parts hold a character only where a part or the separator does.
proof fn lemma_joined_lacks(parts: Seq<Seq<char>>, sep: char, c: char)
    requires
        sep != c,
        forall|i: int| 0 <= i < parts.len() ==> text::lacks(#[trigger] parts[i], c),
    ensures
        text::lacks(text::joined(parts, seq![sep]), c),
    decreases parts.len(),
{
    if parts.len() > 1 {
        let front = parts.drop_last();
        assert forall|i: int| 0 <= i < front.len() implies text::lacks(#[trigger] front[i], c) by {
            assert(text::lacks(parts[i], c));
        }
        lemma_joined_lacks(front, sep, c);
        let j = text::joined(front, seq![sep]);
        let whole = j + seq![sep] + parts.last();
        assert(text::lacks(parts.last(), c));
        assert forall|i: int| 0 <= i < whole.len() implies #[trigger] whole[i] != c by {
            if i < j.len() {
                assert(whole[i] == j[i]);
            } else if i == j.len() {
                assert(whole[i] == sep);
            } else {
                assert(whole[i] == parts.last()[i - j.len() - 1]);
            }
        }
    } else if parts.len() == 1 {
        assert(text::lacks(parts[0], c));
    }
}

/// Written groups hold no gap and do not end in a colon.
proof fn lemma_groups_tidy(g: Seq<u16>)
    ensures
        g.len() > 0 ==> groups_shown(g).len() > 0 && groups_shown(g).last() != ':',
        g.len() == 0 ==> groups_shown(g).len() == 0,
        forall|i: int| !#[trigger] gap_at(groups_shown(g), i),
        g.len() > 1 ==> groups_shown(g).contains(':'),
    decreases g.len(),
{
    if g.len() > 0 {
        let last = number::rendered(g.last() as nat, 16);
        lemma_group_reads_back(g.last());
        assert(last[last.len() - 1] != ':');
        if g.len() == 1 {
            assert(groups_shown(g) =~= last);
            assert forall|i: int| !#[trigger] gap_at(groups_shown(g), i) by {
                if gap_at(groups_shown(g), i) {
                    assert(last[i] != ':');
                }
            }
        } else {
            let front = g.drop_last();
            lemma_groups_tidy(front);
            assert(group_texts(g).drop_last() =~= group_texts(front));
            assert(group_texts(g).last() == last);
            let f = groups_shown(front);
            let whole = f + seq![':'] + last;
            assert(groups_shown(g) == whole);
            assert(whole[f.len() as int] == ':');
            assert forall|i: int| !#[trigger] gap_at(whole, i) by {
                if gap_at(whole, i) {
                    if i + 1 < f.len() {
                        assert(f[i] == ':' && f[i + 1] == ':');
                        assert(gap_at(f, i));
                    } else if i + 1 == f.len() {
                        assert(whole[i] == f[i]);
                        assert(f.last() == f[i]);
                    } else {
                        assert(whole[i + 1] == last[i + 1 - f.len() - 1]);
                        assert(last[i - f.len()] != ':');
                    }
                }
            }
        }
    } else {
        assert(group_texts(g).len() == 0);
    }
}

proof fn lemma_groups_read_back(g: Seq<u16>)
    ensures
        groups_of(group_texts(g)) == Some(g),
        groups_with_ipv4(group_texts(g)) == Some(g),
        g.len() > 0 ==> text::pieces(groups_shown(g), ':') == group_texts(g),
{
    let t = group_texts(g);
    assert forall|i: int| 0 <= i < t.len() implies group(#[trigger] t[i]) == Some(g[i])
        && text::lacks(t[i], ':') && text::lacks(t[i], '.') by {
        lemma_group_reads_back(g[i]);
    }
    assert(groups_of(t)->0 =~= g);
    if g.len() > 0 {
        text::law_pieces_of_joined(t, ':');
        text::lemma_pieces_single(t.last(), '.');
        assert(ipv4_of(t.last()) is None);
    }
}

/// A text that holds a colon is no IPv4 address.
proof fn lemma_colon_is_no_ipv4(s: Seq<char>)
    requires
        s.contains(':'),
    ensures
        ipv4_of(s) is None,
{
    let i = choose|i: int| 0 <= i < s.len() && s[i] == ':';
    let k = text::lemma_piece_holds(s, '.', i);
    let p = text::pieces(s, '.');
    if ipv4_of(s) is Some {
        assert(octet(p[k]) is Some);
        let j = choose|j: int| 0 <= j < p[k].len() && p[k][j] == ':';
        assert(number::digit_value(p[k][j], 10) is Some);
    }
}

/// A text with a gap is read as the groups in front of it and behind it.
proof fn lemma_gap_is_read(hs: Seq<char>, ts: Seq<char>)
    requires
        hs.len() > 0 ==> hs.last() != ':',
        forall|i: int| !#[trigger] gap_at(hs, i),
    ensures
        ipv6_of(hs + seq![':', ':'] + ts) == spanned(head_groups(hs), tail_groups(ts)),
        (hs + seq![':', ':'] + ts).contains(':'),
{
    let s = hs + seq![':', ':'] + ts;
    let at = hs.len() as int;
    assert(s[at] == ':' && s[at + 1] == ':');
    assert(gap_at(s, at));
    assert forall|j: int| 0 <= j < at implies !#[trigger] gap_at(s, j) by {
        if gap_at(s, j) {
            assert(s[j] == hs[j]);
            if j + 1 < at {
                assert(s[j + 1] == hs[j + 1]);
                assert(gap_at(hs, j));
            } else {
                assert(hs.last() == hs[j]);
            }
        }
    }
    assert(first_gap(s, at));
    let i = choose|i: int| first_gap(s, i);
    lemma_first_gap_unique(s, at, i);
    assert(s.take(at) =~= hs);
    assert(s.skip(at + 2) =~= ts);
}

/// Filling a run of zeros with zeros changes nothing.
proof fn lemma_fill_zeros(v: Ipv6Addr, start: int, len: int)
    requires
        0 <= start,
        1 <= len,
        start + len <= 8,
        forall|j: int| start <= j < start + len ==> #[trigger] v.groups()[j] == 0,
    ensures
        spanned(Some(v.groups().take(start)), Some(v.groups().skip(start + len))) == Some(v),
{
    let g = v.groups();
    let h = g.take(start);
    let t = g.skip(start + len);
    let filled = h + zero_groups((8 - h.len() - t.len()) as nat) + t;
    assert(filled.len() == 8);
    assert forall|i: int| 0 <= i < 8 implies filled[i] == g[i] by {}
    assert(filled =~= g);
}

proof fn lemma_groups_around_gap(h: Seq<u16>, t: Seq<u16>)
    ensures
        ipv6_of(groups_shown(h) + seq![':', ':'] + groups_shown(t)) == spanned(Some(h), Some(t)),
        (groups_shown(h) + seq![':', ':'] + groups_shown(t)).contains(':'),
{
    let hs = groups_shown(h);
    let ts = groups_shown(t);
    lemma_groups_tidy(h);
    lemma_groups_tidy(t);
    lemma_gap_is_read(hs, ts);
    assert(head_groups(hs) == Some(h)) by {
        lemma_groups_read_back(h);
        assert(h.len() == 0 ==> h =~= Seq::empty());
    }
    assert(tail_groups(ts) == Some(t)) by {
        lemma_groups_read_back(t);
        assert(t.len() == 0 ==> t =~= Seq::empty());
    }
}

proof fn lemma_gapped_reads_back(v: Ipv6Addr, start: int, len: int)
    requires
        0 <= start,
        1 < len,
        start + len <= 8,
        forall|j: int| start <= j < start + len ==> #[trigger] v.groups()[j] == 0,
    ensures
        ipv6_of(gapped(v.groups(), start, len)) == Some(v),
        gapped(v.groups(), start, len).contains(':'),
{
    let h = v.groups().take(start);
    let t = v.groups().skip(start + len);
    lemma_groups_around_gap(h, t);
    lemma_fill_zeros(v, start, len);
}

/// The group of an IPv4-mapped prefix.
proof fn lemma_ffff()
    ensures
        group(seq!['f', 'f', 'f', 'f']) == Some(0xffffu16),
        text::lacks(seq!['f', 'f', 'f', 'f'], ':'),
{
    let ffff = seq!['f', 'f', 'f', 'f'];
    reveal_with_fuel(number::value_of, 5);
    assert(ffff.drop_last() =~= seq!['f', 'f', 'f']);
    assert(ffff.drop_last().drop_last() =~= seq!['f', 'f']);
    assert(ffff.drop_last().drop_last().drop_last() =~= seq!['f']);
    assert(ffff.drop_last().drop_last().drop_last().drop_last() =~= Seq::empty());
    assert(number::value_of(ffff, 16) == 0xffff);
}

/// The groups behind the gap of an IPv4-mapped address.
proof fn lemma_mapped_tail(low: Ipv4Addr)
    ensures
        tail_groups(seq!['f', 'f', 'f', 'f', ':'] + ipv4_shown(low)) == Some(
            seq![0xffffu16] + ipv4_groups(low),
        ),
{
    let ffff = seq!['f', 'f', 'f', 'f'];
    let ls = ipv4_shown(low);
    let parts = seq![ffff, ls];
    let tail = seq!['f', 'f', 'f', 'f', ':'] + ls;
    lemma_ipv4_reads_back(low);
    lemma_ffff();
    assert(parts.drop_last() =~= seq![ffff]);
    assert(text::joined(seq![ffff], seq![':']) == ffff);
    assert(tail =~= ffff + seq![':'] + ls);
    assert(tail == text::joined(parts, seq![':']));
    text::law_pieces_of_joined(parts, ':');
    assert(groups_of(seq![ffff])->0 =~= seq![0xffffu16]);
}

/// The text of an IPv4-mapped address starts with a gap.
proof fn lemma_mapped_text(low: Seq<char>)
    ensures
        seq![':', ':', 'f', 'f', 'f', 'f', ':'] + low == Seq::<char>::empty() + seq![':', ':'] + (
        seq!['f', 'f', 'f', 'f', ':'] + low),
{
    assert(seq![':', ':', 'f', 'f', 'f', 'f', ':'] + low =~= Seq::<char>::empty() + seq![':', ':']
        + (seq!['f', 'f', 'f', 'f', ':'] + low));
}

proof fn lemma_mapped_reads_back(v: Ipv6Addr)
    requires
        v.spec_mapped(),
    ensures
        ipv6_of(ipv6_shown(v)) == Some(v),
        ipv6_shown(v).contains(':'),
{
    let low = v.low_ipv4();
    let none = Seq::<char>::empty();
    let tail = seq!['f', 'f', 'f', 'f', ':'] + ipv4_shown(low);
    let t = seq![0xffffu16] + ipv4_groups(low);
    lemma_mapped_text(ipv4_shown(low));
    assert(tail_groups(tail) == Some(t)) by {
        lemma_mapped_tail(low);
    }
    lemma_gap_is_read(none, tail);
    assert(head_groups(none) == Some(Seq::<u16>::empty()));
    assert(spanned(Some(Seq::<u16>::empty()), Some(t)) == Some(v)) by {
        lemma_mapped_groups(v);
        lemma_fill_zeros(v, 0, 5);
    }
}

/// The groups of an IPv4-mapped address in front of its prefix and behind it.
proof fn lemma_mapped_groups(v: Ipv6Addr)
    requires
        v.spec_mapped(),
    ensures
        v.groups().take(0) == Seq::<u16>::empty(),
        v.groups().skip(5) == seq![0xffffu16] + ipv4_groups(v.low_ipv4()),
        forall|j: int| 0 <= j < 5 ==> #[trigger] v.groups()[j] == 0,
{
    let low = v.low_ipv4();
    assert((v.g6 / 256) * 256 + v.g6 % 256 == v.g6);
    assert((v.g7 / 256) * 256 + v.g7 % 256 == v.g7);
    assert(ipv4_groups(low) =~= seq![v.g6, v.g7]);
    assert(v.groups().take(0) =~= Seq::<u16>::empty());
    assert(v.groups().skip(5) =~= seq![0xffffu16] + ipv4_groups(low));
}

proof fn lemma_ipv6_reads_back(v: Ipv6Addr)
    ensures
        ipv6_of(ipv6_shown(v)) == Some(v),
        ipv6_shown(v).contains(':'),
{
    if v.spec_mapped() {
        lemma_mapped_reads_back(v);
    } else {
        let g = v.groups();
        let run = longest_zero_run(g, 8);
        lemma_longest_run(g, 8);
        if run.1 > 1 {
            lemma_gapped_reads_back(v, run.0, run.1);
        } else {
            let s = groups_shown(g);
            lemma_groups_tidy(g);
            lemma_groups_read_back(g);
            assert forall|i: int| !first_gap(s, i) by {
                assert(!gap_at(s, i));
            }
            assert(Ipv6Addr::of_groups(g) == v);
        }
    }
}

/// Law: the text form of an address is read back as that address.
pub proof fn law_shown_reads_back(ip: IpAddr)
    ensures
        ip_of(shown(ip)) == Some(ip),
{
    match ip {
        IpAddr::V4(v) => {
            lemma_ipv4_reads_back(v);
        },
        IpAddr::V6(v) => {
            lemma_ipv6_reads_back(v);
            lemma_colon_is_no_ipv4(ipv6_shown(v));
        },
    }
}

/// Law: two addresses with the same text form are the same address.
pub proof fn law_shown_is_injective(a: IpAddr, b: IpAddr)
    requires
        shown(a) == shown(b),
    ensures
        a == b,
{
    law_shown_reads_back(a);
    law_shown_reads_back(b);
}

/// An IPv6 address is read from its eight groups, from the first to the last, in
/// hexadecimal digits with colons between them.
pub proof fn law_ipv6_address_is_read_from_its_groups(v: Ipv6Addr)
    ensures
        ip_of(
            text::joined(
                seq![
                    number::rendered(v.g0 as nat, 16),
                    number::rendered(v.g1 as nat, 16),
                    number::rendered(v.g2 as nat, 16),
                    number::rendered(v.g3 as nat, 16),
                    number::rendered(v.g4 as nat, 16),
                    number::rendered(v.g5 as nat, 16),
                    number::rendered(v.g6 as nat, 16),
                    number::rendered(v.g7 as nat, 16),
                ],
                seq![':'],
            ),
        ) == Some(IpAddr::V6(v)),
{
    let g = v.groups();
    let parts = seq![
        number::rendered(v.g0 as nat, 16),
        number::rendered(v.g1 as nat, 16),
        number::rendered(v.g2 as nat, 16),
        number::rendered(v.g3 as nat, 16),
        number::rendered(v.g4 as nat, 16),
        number::rendered(v.g5 as nat, 16),
        number::rendered(v.g6 as nat, 16),
        number::rendered(v.g7 as nat, 16),
    ];
    assert(group_texts(g) =~= parts);
    lemma_groups_tidy(g);
    lemma_groups_read_back(g);
    lemma_colon_is_no_ipv4(groups_shown(g));
    assert(forall|i: int| !first_gap(groups_shown(g), i)) by {
        assert forall|i: int| !first_gap(groups_shown(g), i) by {
            assert(!gap_at(groups_shown(g), i));
        }
    }
    assert(Ipv6Addr::of_groups(g) == v);
}

/// Groups that are zero may be left out once, with two colons in their place.
pub proof fn law_two_colons_stand_for_zeros(v: Ipv6Addr, start: int, len: int)
    requires
        0 <= start,
        1 <= len,
        start + len <= 8,
        forall|j: int| start <= j < start + len ==> #[trigger] v.groups()[j] == 0,
    ensures
        ip_of(
            groups_shown(v.groups().take(start)) + seq![':', ':'] + groups_shown(
                v.groups().skip(start + len),
            ),
        ) == Some(IpAddr::V6(v)),
{
    let h = v.groups().take(start);
    let t = v.groups().skip(start + len);
    lemma_groups_around_gap(h, t);
    lemma_fill_zeros(v, start, len);
    lemma_colon_is_no_ipv4(groups_shown(h) + seq![':', ':'] + groups_shown(t));
}

proof fn lemma_run_length(g: Seq<u16>, i: int, n: int)
    requires
        0 <= i,
        0 <= n,
        i + n <= g.len(),
        forall|j: int| i <= j < i + n ==> #[trigger] g[j] == 0,
    ensures
        zero_run(g, i) >= n,
    decreases n,
{
    lemma_zero_run_bound(g, i);
    if n > 0 {
        assert(g[i] == 0);
        lemma_run_length(g, i + 1, n - 1);
    }
}

proof fn lemma_longest_of_all(g: Seq<u16>, n: int, i: int)
    requires
        0 <= i < n <= g.len(),
    ensures
        zero_run(g, i) <= longest_zero_run(g, n).1,
        zero_run(g, i) == longest_zero_run(g, n).1 && zero_run(g, i) > 0 ==> longest_zero_run(
            g,
            n,
        ).0 <= i,
    decreases n,
{
    lemma_longest_run(g, n - 1);
    if i < n - 1 {
        lemma_longest_of_all(g, n - 1, i);
    } else if n > 1 {
        lemma_best_is_in_front(g, n - 1);
    }
}

proof fn lemma_best_is_in_front(g: Seq<u16>, n: int)
    requires
        0 < n <= g.len(),
    ensures
        longest_zero_run(g, n).0 < n,
    decreases n,
{
    if n > 1 {
        lemma_best_is_in_front(g, n - 1);
    } else {
        assert(longest_zero_run(g, 0) == (0int, 0int));
    }
}

/// In the text of an IPv6 address the longest run of two or more zeros is left out, the
/// first one of those; an address without one is written with all of its groups, and an
/// IPv4-mapped one with the IPv4 address.
pub proof fn law_longest_zeros_are_left_out(v: Ipv6Addr, start: int, len: int) -> (r: (int, int))
    requires
        0 <= start,
        2 <= len,
        start + len <= 8,
        forall|j: int| start <= j < start + len ==> #[trigger] v.groups()[j] == 0,
    ensures
        !v.spec_mapped() ==> {
            &&& shown(IpAddr::V6(v)) == groups_shown(v.groups().take(r.0)) + seq![':', ':']
                + groups_shown(v.groups().skip(r.0 + r.1))
            &&& 0 <= r.0 && r.0 + r.1 <= 8
            &&& forall|j: int| r.0 <= j < r.0 + r.1 ==> #[trigger] v.groups()[j] == 0
            &&& len <= r.1
            &&& len == r.1 ==> r.0 <= start
        },
        v.spec_mapped() ==> shown(IpAddr::V6(v)) == seq![':', ':', 'f', 'f', 'f', 'f', ':']
            + shown(IpAddr::V4(v.low_ipv4())),
{
    let g = v.groups();
    lemma_run_length(g, start, len);
    lemma_longest_of_all(g, 8, start);
    lemma_longest_run(g, 8);
    longest_zero_run(g, 8)
}

proof fn lemma_no_gap_before_tail(hs: Seq<char>, ls: Seq<char>)
    requires
        hs.len() > 0,
        hs.last() != ':',
        forall|i: int| !gap_at(hs, i),
        text::lacks(ls, ':'),
    ensures
        forall|i: int| !gap_at(hs + seq![':'] + ls, i),
{
    let s = hs + seq![':'] + ls;
    assert forall|i: int| !gap_at(s, i) by {
        if gap_at(s, i) {
            if i + 1 < hs.len() {
                assert(s[i] == hs[i] && s[i + 1] == hs[i + 1]);
                assert(gap_at(hs, i));
            } else if i + 1 == hs.len() {
                assert(s[i] == hs.last());
            } else {
                assert(s[i + 1] == ls[i + 1 - hs.len() - 1]);
            }
        }
    }
}

proof fn lemma_tail_pieces(h: Seq<u16>, ls: Seq<char>)
    requires
        h.len() > 0,
        text::lacks(ls, ':'),
    ensures
        text::pieces(groups_shown(h) + seq![':'] + ls, ':') == group_texts(h).push(ls),
{
    let parts = group_texts(h).push(ls);
    assert(parts.drop_last() =~= group_texts(h));
    assert(text::joined(parts, seq![':']) == groups_shown(h) + seq![':'] + ls);
    assert forall|i: int| 0 <= i < parts.len() implies text::lacks(#[trigger] parts[i], ':') by {
        if i < h.len() {
            lemma_group_reads_back(h[i]);
        }
    }
    text::law_pieces_of_joined(parts, ':');
}

proof fn lemma_low_groups(v: Ipv6Addr)
    ensures
        v.groups().take(6) + ipv4_groups(v.low_ipv4()) == v.groups(),
        Ipv6Addr::of_groups(v.groups()) == v,
{
    assert((v.g6 / 256) * 256 + v.g6 % 256 == v.g6);
    assert((v.g7 / 256) * 256 + v.g7 % 256 == v.g7);
    assert(ipv4_groups(v.low_ipv4()) =~= seq![v.g6, v.g7]);
    assert(v.groups().take(6) + ipv4_groups(v.low_ipv4()) =~= v.groups());
}

/// The last two groups of an IPv6 address may be written as an IPv4 address.
pub proof fn law_ipv4_tail_stands_for_two_groups(v: Ipv6Addr)
    ensures
        ip_of(groups_shown(v.groups().take(6)) + seq![':'] + ipv4_shown(v.low_ipv4())) == Some(
            IpAddr::V6(v),
        ),
{
    let h = v.groups().take(6);
    let hs = groups_shown(h);
    let ls = ipv4_shown(v.low_ipv4());
    let s = hs + seq![':'] + ls;
    lemma_ipv4_reads_back(v.low_ipv4());
    lemma_groups_tidy(h);
    lemma_groups_read_back(h);
    lemma_no_gap_before_tail(hs, ls);
    lemma_tail_pieces(h, ls);
    assert(group_texts(h).push(ls).drop_last() =~= group_texts(h));
    assert(s[hs.len() as int] == ':');
    lemma_colon_is_no_ipv4(s);
    lemma_low_groups(v);
}

} // verus!
