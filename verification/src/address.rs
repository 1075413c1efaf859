//! Network addresses as plain data, and the textual form of IP addresses.
//!
//! An IPv4 literal is four decimal numbers from 0 to 255 separated by `.`,
//! each written without a leading zero. An IPv6 literal is eight groups of
//! one to four hexadecimal digits separated by `:`; one run of zero groups
//! may be written `::`, and the last two groups may be written as an IPv4
//! literal.

use vstd::prelude::*;
use vstd::string::*;

use crate::text::{chars_of, ranges_mark_split, split, split_ranges};

verus! {

/// An IP address: four octets, or eight 16-bit groups.
#[derive(Debug, Clone, Copy, PartialEq, Eq, Structural)]
pub enum IpAddress {
    V4(u8, u8, u8, u8),
    V6(u16, u16, u16, u16, u16, u16, u16, u16),
}

/// An IP address together with a port.
#[derive(Debug, Clone, Copy, PartialEq, Eq, Structural)]
pub struct SocketAddress {
    pub ip: IpAddress,
    pub port: u16,
}

impl SocketAddress {
    /// The socket address made of `ip` and `port`.
    pub fn new(ip: IpAddress, port: u16) -> (address: SocketAddress)
        ensures
            address == (SocketAddress { ip, port }),
    {
        SocketAddress { ip, port }
    }
}

/// The value of `c` as a decimal digit.
pub open spec fn decimal_digit(c: char) -> Option<nat> {
    if '0' <= c <= '9' {
        Some((c as u32 - '0' as u32) as nat)
    } else {
        None
    }
}

/// The value of `c` as a hexadecimal digit, in either case.
pub open spec fn hex_digit(c: char) -> Option<nat> {
    if '0' <= c <= '9' {
        Some((c as u32 - '0' as u32) as nat)
    } else if 'a' <= c <= 'f' {
        Some((c as u32 - 'a' as u32 + 10) as nat)
    } else if 'A' <= c <= 'F' {
        Some((c as u32 - 'A' as u32 + 10) as nat)
    } else {
        None
    }
}

/// The number that the digits `s` write in base `radix`, most significant
/// digit first. A character that is no digit counts as zero.
pub open spec fn number(s: Seq<char>, radix: nat) -> nat
    decreases s.len(),
{
    if s.len() == 0 {
        0
    } else {
        number(s.drop_last(), radix) * radix + match hex_digit(s.last()) {
            Some(d) => d,
            None => 0,
        }
    }
}

/// The octet that `s` writes in decimal: one to three digits, no leading
/// zero before another digit, at most 255.
pub open spec fn decimal_octet(s: Seq<char>) -> Option<u8> {
    if 1 <= s.len() <= 3 && (forall|i: int| 0 <= i < s.len() ==> decimal_digit(s[i]) is Some) && (
    s.len() > 1 ==> s[0] != '0') && number(s, 10) <= 255 {
        Some(number(s, 10) as u8)
    } else {
        None
    }
}

/// The group that `s` writes in hexadecimal: one to four digits.
pub open spec fn hex_group(s: Seq<char>) -> Option<u16> {
    if 1 <= s.len() <= 4 && (forall|i: int| 0 <= i < s.len() ==> hex_digit(s[i]) is Some) {
        Some(number(s, 16) as u16)
    } else {
        None
    }
}

/// The IPv4 address that `s` writes, if it is an IPv4 literal.
pub open spec fn ipv4_literal(s: Seq<char>) -> Option<IpAddress> {
    let parts = split(s, '.');
    if parts.len() == 4 && decimal_octet(parts[0]) is Some && decimal_octet(parts[1]) is Some
        && decimal_octet(parts[2]) is Some && decimal_octet(parts[3]) is Some {
        Some(
            IpAddress::V4(
                decimal_octet(parts[0])->0,
                decimal_octet(parts[1])->0,
                decimal_octet(parts[2])->0,
                decimal_octet(parts[3])->0,
            ),
        )
    } else {
        None
    }
}

/// The groups that `parts` write, if each of them is a hexadecimal group.
pub open spec fn hex_groups(parts: Seq<Seq<char>>) -> Option<Seq<u16>> {
    if forall|k: int| 0 <= k < parts.len() ==> hex_group(#[trigger] parts[k]) is Some {
        Some(Seq::new(parts.len(), |k: int| hex_group(parts[k])->0))
    } else {
        None
    }
}

/// The two groups that hold the octets `a.b.c.d`.
pub open spec fn embedded_groups(a: u8, b: u8, c: u8, d: u8) -> Seq<u16> {
    seq![(a * 256 + b) as u16, (c * 256 + d) as u16]
}

/// The groups that `parts` write, where the last part may be an IPv4 literal
/// standing for two groups and every other part is a hexadecimal group.
pub open spec fn closing_groups(parts: Seq<Seq<char>>) -> Option<Seq<u16>> {
    if parts.len() > 0 && ipv4_literal(parts.last()) is Some {
        match (hex_groups(parts.drop_last()), ipv4_literal(parts.last())) {
            (Some(groups), Some(IpAddress::V4(a, b, c, d))) => Some(
                groups + embedded_groups(a, b, c, d),
            ),
            _ => None,
        }
    } else {
        hex_groups(parts)
    }
}

/// The parts on one side of `::`: none for empty text, else the pieces
/// between colons.
pub open spec fn colon_parts(s: Seq<char>) -> Seq<Seq<char>> {
    if s.len() == 0 {
        Seq::empty()
    } else {
        split(s, ':')
    }
}

/// Whether `::` stands at position `k` of `s`.
pub open spec fn double_colon_at(s: Seq<char>, k: int) -> bool {
    0 <= k && k + 1 < s.len() && s[k] == ':' && s[k + 1] == ':'
}

/// Whether the leftmost `::` of `s` stands at position `k`.
pub open spec fn first_double_colon(s: Seq<char>, k: int) -> bool {
    double_colon_at(s, k) && forall|j: int| 0 <= j < k ==> !double_colon_at(s, j)
}

/// The eight groups that `s` writes, if it is an IPv6 literal.
///
/// Without `::` the text must write all eight groups. With `::`, the
/// groups before the leftmost `::` and those after it must be seven at most;
/// the gap is filled with zero groups.
pub open spec fn ipv6_groups(s: Seq<char>) -> Option<Seq<u16>> {
    if exists|k: int| first_double_colon(s, k) {
        let k = choose|k: int| first_double_colon(s, k);
        match (hex_groups(colon_parts(s.take(k))), closing_groups(colon_parts(s.skip(k + 2)))) {
            (Some(head), Some(tail)) => if head.len() <= 7 && tail.len() <= 7 - head.len() {
                Some(head + Seq::new((8 - head.len() - tail.len()) as nat, |i: int| 0u16) + tail)
            } else {
                None
            },
            _ => None,
        }
    } else {
        match closing_groups(split(s, ':')) {
            Some(groups) => if groups.len() == 8 {
                Some(groups)
            } else {
                None
            },
            None => None,
        }
    }
}

/// The IPv6 address that `s` writes, if it is an IPv6 literal.
pub open spec fn ipv6_literal(s: Seq<char>) -> Option<IpAddress> {
    match ipv6_groups(s) {
        Some(g) => Some(IpAddress::V6(g[0], g[1], g[2], g[3], g[4], g[5], g[6], g[7])),
        None => None,
    }
}

/// The IP address that `s` writes, if it is an IPv4 or an IPv6 literal.
pub open spec fn ip_literal(s: Seq<char>) -> Option<IpAddress> {
    match ipv4_literal(s) {
        Some(address) => Some(address),
        None => ipv6_literal(s),
    }
}

/// An IPv6 literal always writes eight groups.
pub proof fn lemma_ipv6_has_eight_groups(s: Seq<char>)
    requires
        ipv6_groups(s) is Some,
    ensures
        ipv6_groups(s)->0.len() == 8,
{
}

/// No text is both an IPv4 literal and an IPv6 literal: an IPv4 literal
/// holds no colon, and an IPv6 literal without a colon would be a single
/// part, which writes two groups at most.
pub proof fn lemma_ipv4_literal_is_no_ipv6_literal(s: Seq<char>)
    requires
        ipv4_literal(s) is Some,
    ensures
        ipv6_literal(s) is None,
{
    let dotted = split(s, '.');
    crate::text::lemma_join_undoes_split(s, '.');
    crate::text::lemma_split_pieces_lack_separator(s, '.');
    assert forall|i: int| 0 <= i < s.len() implies s[i] != ':' by {
        lemma_octets_hold_no_colon(dotted, i);
    }
    crate::text::lemma_split_without_separator(s, ':');
    assert(!exists|k: int| first_double_colon(s, k));
    let parts = split(s, ':');
    assert(parts.last() == s);
    assert(parts.drop_last() =~= Seq::<Seq<char>>::empty());
    assert(hex_groups(parts.drop_last())->0.len() == 0);
}

/// Four decimal octets joined by dots hold no colon.
proof fn lemma_octets_hold_no_colon(dotted: Seq<Seq<char>>, i: int)
    requires
        dotted.len() == 4,
        forall|k: int| 0 <= k < 4 ==> decimal_octet(#[trigger] dotted[k]) is Some,
        0 <= i < crate::text::join(dotted, '.').len(),
    ensures
        crate::text::join(dotted, '.')[i] != ':',
{
    reveal_with_fuel(crate::text::join, 5);
    let a = dotted[0];
    let b = dotted[1];
    let c = dotted[2];
    let d = dotted[3];
    assert(decimal_octet(dotted[0]) is Some);
    assert(decimal_octet(dotted[1]) is Some);
    assert(decimal_octet(dotted[2]) is Some);
    assert(decimal_octet(dotted[3]) is Some);
    let three = dotted.drop_last();
    let two = three.drop_last();
    let one = two.drop_last();
    assert(one.len() == 1 && one[0] == a);
    assert(two.len() == 2 && two.last() == b);
    assert(three.len() == 3 && three.last() == c);
    let joined = crate::text::join(dotted, '.');
    assert(joined == a.push('.').add(b).push('.').add(c).push('.').add(d));
    let la = a.len() as int;
    let lb = b.len() as int;
    let lc = c.len() as int;
    if i < la {
        assert(joined[i] == a[i]);
    } else if i == la {
    } else if i < la + 1 + lb {
        assert(joined[i] == b[i - la - 1]);
    } else if i == la + 1 + lb {
    } else if i < la + 1 + lb + 1 + lc {
        assert(joined[i] == c[i - la - lb - 2]);
    } else if i == la + 1 + lb + 1 + lc {
    } else {
        assert(joined[i] == d[i - la - lb - lc - 3]);
    }
}

/// The pieces of `chars` that `ranges` marks.
spec fn marked(ranges: Seq<(usize, usize)>, chars: Seq<char>) -> Seq<Seq<char>> {
    Seq::new(ranges.len(), |k: int| chars.subrange(ranges[k].0 as int, ranges[k].1 as int))
}

proof fn lemma_marked_is_split(
    ranges: Seq<(usize, usize)>,
    chars: Seq<char>,
    from: int,
    to: int,
    sep: char,
)
    requires
        ranges_mark_split(ranges, chars, from, to, sep),
    ensures
        marked(ranges, chars) == split(chars.subrange(from, to), sep),
{
    assert(marked(ranges, chars) =~= split(chars.subrange(from, to), sep));
}

/// Reads `chars[from..to]` as a number in base `radix` (ten or sixteen).
/// `None` if there are no digits, more than `max_digits`, or a character
/// that is no digit of that base.
fn parse_number(chars: &[char], from: usize, to: usize, radix: u32, max_digits: usize) -> (value:
    Option<u32>)
    requires
        from <= to <= chars@.len(),
        radix == 10 || radix == 16,
        max_digits <= 4,
    ensures
        ({
            let s = chars@.subrange(from as int, to as int);
            let digits = forall|i: int|
                0 <= i < s.len() ==> if radix == 10 {
                    decimal_digit(s[i]) is Some
                } else {
                    hex_digit(s[i]) is Some
                };
            match value {
                Some(v) => 1 <= s.len() <= max_digits && digits && v == number(s, radix as nat),
                None => !(1 <= s.len() <= max_digits && digits),
            }
        }),
{
    let ghost s = chars@.subrange(from as int, to as int);
    if to - from == 0 || to - from > max_digits {
        return None;
    }
    let mut value: u32 = 0;
    let mut i: usize = from;
    assert(s.take(0) == Seq::<char>::empty());
    while i < to
        invariant
            from <= i <= to <= chars@.len(),
            to - from <= 4,
            radix == 10 || radix == 16,
            s == chars@.subrange(from as int, to as int),
            value == number(s.take(i - from), radix as nat),
            value < pow16(i - from),
            forall|j: int|
                0 <= j < i - from ==> if radix == 10 {
                    decimal_digit(s[j]) is Some
                } else {
                    hex_digit(s[j]) is Some
                },
        decreases to - i,
    {
        let c = chars[i];
        assert(c == s[i - from]);
        let digit: u32 = if '0' <= c && c <= '9' {
            c as u32 - '0' as u32
        } else if radix == 16 && 'a' <= c && c <= 'f' {
            c as u32 - 'a' as u32 + 10
        } else if radix == 16 && 'A' <= c && c <= 'F' {
            c as u32 - 'A' as u32 + 10
        } else {
            return None;
        };
        proof {
            let grown = s.take(i - from + 1);
            assert(grown.drop_last() == s.take(i - from));
            assert(grown.last() == c);
            assert(hex_digit(c) == Some(digit as nat));
            lemma_pow16_step(i - from);
        }
        value = value * radix + digit;
        i = i + 1;
    }
    assert(s.take(to - from) == s);
    Some(value)
}

/// Sixteen to the power `n`, for `n` up to four; beyond that, its value at
/// four.
spec fn pow16(n: int) -> int {
    if n <= 0 {
        1
    } else if n == 1 {
        16
    } else if n == 2 {
        256
    } else if n == 3 {
        4096
    } else {
        65536
    }
}

proof fn lemma_pow16_step(n: int)
    ensures
        0 <= n < 4 ==> pow16(n + 1) == 16 * pow16(n),
{
}

/// Reads `chars[from..to]` as a decimal octet.
fn parse_decimal_octet(chars: &[char], from: usize, to: usize) -> (octet: Option<u8>)
    requires
        from <= to <= chars@.len(),
    ensures
        octet == decimal_octet(chars@.subrange(from as int, to as int)),
{
    let ghost s = chars@.subrange(from as int, to as int);
    match parse_number(chars, from, to, 10, 3) {
        Some(v) => {
            assert(chars@[from as int] == s[0]);
            if (to - from > 1 && chars[from] == '0') || v > 255 {
                None
            } else {
                Some(v as u8)
            }
        },
        None => None,
    }
}

/// Reads `chars[from..to]` as a hexadecimal group.
fn parse_hex_group(chars: &[char], from: usize, to: usize) -> (group: Option<u16>)
    requires
        from <= to <= chars@.len(),
    ensures
        group == hex_group(chars@.subrange(from as int, to as int)),
{
    match parse_number(chars, from, to, 16, 4) {
        Some(v) => {
            assert(v < 65536) by {
                lemma_number_bound(chars@.subrange(from as int, to as int), 16);
            }
            Some(v as u16)
        },
        None => None,
    }
}

/// A number of `n` digits is below the `n`-th power of sixteen, for `n` up
/// to four.
proof fn lemma_number_bound(s: Seq<char>, radix: nat)
    requires
        s.len() <= 4,
        radix == 10 || radix == 16,
        forall|i: int|
            0 <= i < s.len() ==> if radix == 10 {
                decimal_digit(s[i]) is Some
            } else {
                hex_digit(s[i]) is Some
            },
    ensures
        number(s, radix) < pow16(s.len() as int),
    decreases s.len(),
{
    if s.len() > 0 {
        lemma_number_bound(s.drop_last(), radix);
        lemma_pow16_step(s.len() - 1);
        assert(hex_digit(s.last()) is Some);
    }
}

/// Reads `chars[from..to]` as an IPv4 literal.
fn parse_ipv4(chars: &[char], from: usize, to: usize) -> (address: Option<IpAddress>)
    requires
        from <= to <= chars@.len(),
    ensures
        address == ipv4_literal(chars@.subrange(from as int, to as int)),
{
    let ranges = split_ranges(chars, from, to, '.');
    if ranges.len() != 4 {
        return None;
    }
    let a = parse_decimal_octet(chars, ranges[0].0, ranges[0].1);
    let b = parse_decimal_octet(chars, ranges[1].0, ranges[1].1);
    let c = parse_decimal_octet(chars, ranges[2].0, ranges[2].1);
    let d = parse_decimal_octet(chars, ranges[3].0, ranges[3].1);
    match (a, b, c, d) {
        (Some(a), Some(b), Some(c), Some(d)) => Some(IpAddress::V4(a, b, c, d)),
        _ => None,
    }
}

/// Reads the first `count` pieces that `ranges` marks as hexadecimal groups.
fn parse_hex_groups(chars: &[char], ranges: &Vec<(usize, usize)>, count: usize) -> (groups: Option<
    Vec<u16>,
>)
    requires
        count <= ranges@.len(),
        forall|k: int|
            0 <= k < ranges@.len() ==> (#[trigger] ranges@[k]).0 <= ranges@[k].1 <= chars@.len(),
    ensures
        match groups {
            Some(g) => hex_groups(marked(ranges@, chars@).take(count as int)) == Some(g@),
            None => hex_groups(marked(ranges@, chars@).take(count as int)) is None,
        },
{
    let ghost parts = marked(ranges@, chars@).take(count as int);
    let mut groups: Vec<u16> = Vec::new();
    let mut k: usize = 0;
    while k < count
        invariant
            k <= count <= ranges@.len(),
            parts == marked(ranges@, chars@).take(count as int),
            forall|j: int|
                0 <= j < ranges@.len() ==> (#[trigger] ranges@[j]).0 <= ranges@[j].1
                    <= chars@.len(),
            groups@.len() == k,
            forall|j: int| 0 <= j < k ==> hex_group(#[trigger] parts[j]) == Some(groups@[j]),
        decreases count - k,
    {
        let (start, end) = ranges[k];
        assert(parts[k as int] == chars@.subrange(start as int, end as int));
        match parse_hex_group(chars, start, end) {
            Some(g) => {
                groups.push(g);
            },
            None => {
                return None;
            },
        }
        k = k + 1;
    }
    assert(hex_groups(parts)->0 =~= groups@);
    Some(groups)
}

/// Reads `chars[from..to]` as the groups before a `::`.
fn parse_leading_groups(chars: &[char], from: usize, to: usize) -> (groups: Option<Vec<u16>>)
    requires
        from <= to <= chars@.len(),
    ensures
        match groups {
            Some(g) => hex_groups(colon_parts(chars@.subrange(from as int, to as int))) == Some(
                g@,
            ),
            None => hex_groups(colon_parts(chars@.subrange(from as int, to as int))) is None,
        },
{
    if from == to {
        let groups: Vec<u16> = Vec::new();
        assert(hex_groups(Seq::<Seq<char>>::empty())->0 =~= groups@);
        return Some(groups);
    }
    let ranges = split_ranges(chars, from, to, ':');
    proof {
        lemma_marked_is_split(ranges@, chars@, from as int, to as int, ':');
        assert(marked(ranges@, chars@).take(ranges@.len() as int) == marked(ranges@, chars@));
    }
    parse_hex_groups(chars, &ranges, ranges.len())
}

/// Reads `chars[from..to]` as groups separated by colons, the last of which
/// may be an IPv4 literal. With `whole` unset, empty text writes no group.
fn parse_closing_groups(chars: &[char], from: usize, to: usize, whole: bool) -> (groups: Option<
    Vec<u16>,
>)
    requires
        from <= to <= chars@.len(),
    ensures
        ({
            let s = chars@.subrange(from as int, to as int);
            let parts = if whole {
                split(s, ':')
            } else {
                colon_parts(s)
            };
            match groups {
                Some(g) => closing_groups(parts) == Some(g@),
                None => closing_groups(parts) is None,
            }
        }),
{
    if from == to && !whole {
        let groups: Vec<u16> = Vec::new();
        assert(hex_groups(Seq::<Seq<char>>::empty())->0 =~= groups@);
        return Some(groups);
    }
    let ranges = split_ranges(chars, from, to, ':');
    let n = ranges.len();
    proof {
        lemma_marked_is_split(ranges@, chars@, from as int, to as int, ':');
        crate::text::lemma_split_nonempty(chars@.subrange(from as int, to as int), ':');
        assert(marked(ranges@, chars@).take(n as int) == marked(ranges@, chars@));
        assert(marked(ranges@, chars@).take(n - 1) == marked(ranges@, chars@).drop_last());
    }
    let (start, end) = ranges[n - 1];
    match parse_ipv4(chars, start, end) {
        Some(IpAddress::V4(a, b, c, d)) => match parse_hex_groups(chars, &ranges, n - 1) {
            Some(mut groups) => {
                let ghost before = groups@;
                groups.push((a as u16) * 256 + (b as u16));
                groups.push((c as u16) * 256 + (d as u16));
                assert(groups@ =~= before + embedded_groups(a, b, c, d));
                Some(groups)
            },
            None => None,
        },
        _ => parse_hex_groups(chars, &ranges, n),
    }
}

/// Finds the leftmost `::` in `chars`.
fn find_double_colon(chars: &[char]) -> (position: Option<usize>)
    ensures
        match position {
            Some(k) => first_double_colon(chars@, k as int),
            None => forall|k: int| !double_colon_at(chars@, k),
        },
{
    let n = chars.len();
    if n < 2 {
        return None;
    }
    let mut k: usize = 0;
    while k + 1 < n
        invariant
            n == chars@.len(),
            n >= 2,
            k + 1 <= n,
            forall|j: int| 0 <= j < k ==> !double_colon_at(chars@, j),
        decreases n - k,
    {
        if chars[k] == ':' && chars[k + 1] == ':' {
            return Some(k);
        }
        k = k + 1;
    }
    None
}

/// Reads `chars` as an IPv6 literal.
fn parse_ipv6(chars: &[char]) -> (address: Option<IpAddress>)
    ensures
        address == ipv6_literal(chars@),
{
    let n = chars.len();
    let groups: Option<Vec<u16>> = match find_double_colon(chars) {
        Some(k) => {
            proof {
                let chosen = choose|j: int| first_double_colon(chars@, j);
                assert(chosen == k);
                assert(chars@.take(k as int) == chars@.subrange(0, k as int));
                assert(chars@.skip(k + 2) == chars@.subrange(k + 2, n as int));
            }
            match (parse_leading_groups(chars, 0, k), parse_closing_groups(chars, k + 2, n, false)) {
                (Some(head), Some(tail)) => {
                    if head.len() <= 7 && tail.len() <= 7 - head.len() {
                        let mut all: Vec<u16> = head;
                        let ghost head_view = all@;
                        let gap: usize = 8 - all.len() - tail.len();
                        let mut i: usize = 0;
                        while i < gap
                            invariant
                                i <= gap,
                                all@ == head_view + Seq::new(i as nat, |j: int| 0u16),
                            decreases gap - i,
                        {
                            all.push(0u16);
                            i = i + 1;
                            assert(all@ =~= head_view + Seq::new(i as nat, |j: int| 0u16));
                        }
                        let mut t: usize = 0;
                        while t < tail.len()
                            invariant
                                t <= tail@.len(),
                                all@ == head_view + Seq::new(gap as nat, |j: int| 0u16)
                                    + tail@.take(t as int),
                            decreases tail@.len() - t,
                        {
                            all.push(tail[t]);
                            t = t + 1;
                            assert(all@ =~= head_view + Seq::new(gap as nat, |j: int| 0u16)
                                + tail@.take(t as int));
                        }
                        assert(tail@.take(tail@.len() as int) == tail@);
                        Some(all)
                    } else {
                        None
                    }
                },
                _ => None,
            }
        },
        None => {
            assert(chars@.subrange(0, n as int) == chars@);
            assert(!exists|j: int| first_double_colon(chars@, j));
            match parse_closing_groups(chars, 0, n, true) {
                Some(groups) => if groups.len() == 8 {
                    Some(groups)
                } else {
                    None
                },
                None => None,
            }
        },
    };
    match groups {
        Some(g) => {
            assert(ipv6_groups(chars@) == Some(g@));
            Some(IpAddress::V6(g[0], g[1], g[2], g[3], g[4], g[5], g[6], g[7]))
        },
        None => {
            assert(ipv6_groups(chars@) is None);
            None
        },
    }
}

impl IpAddress {
    /// Reads `text` as an IP address literal, IPv4 or IPv6.
    pub fn parse(text: &str) -> (address: Option<IpAddress>)
        ensures
            address == ip_literal(text@),
    {
        let chars = chars_of(text);
        let n = chars.len();
        assert(chars@.subrange(0, n as int) == text@);
        match parse_ipv4(chars.as_slice(), 0, n) {
            Some(address) => Some(address),
            None => parse_ipv6(chars.as_slice()),
        }
    }
}

} // verus!
