//! IP addresses and their text.
//!
//! The text of an IPv4 address is four decimal numbers from 0 to 255, without
//! leading zeros, separated by dots. The text of an IPv6 address is eight
//! groups of one to four hexadecimal digits separated by colons; one run of
//! groups that are zero may be left out and written `::`, and the last two
//! groups may be written as an IPv4 address.

use vstd::prelude::*;
use vstd::string::*;

verus! {

/// An IP address.
#[derive(Debug, Clone, Copy, PartialEq, Eq, Hash, Structural)]
pub enum IpAddress {
    /// An IPv4 address, by its four bytes.
    V4(u8, u8, u8, u8),
    /// An IPv6 address, by its eight groups of 16 bits.
    V6(u16, u16, u16, u16, u16, u16, u16, u16),
}

/// The value of the character `byte` as a digit of the radix `radix`, which
/// is 10 or 16.
pub open spec fn digit_of(byte: u8, radix: int) -> Option<int> {
    if 48 <= byte <= 57 {
        Some(byte - 48)
    } else if radix == 16 && 97 <= byte <= 102 {
        Some(byte - 87)
    } else if radix == 16 && 65 <= byte <= 70 {
        Some(byte - 55)
    } else {
        None
    }
}

/// A number that was read: the count of its digits, its value, and the place
/// behind it.
pub struct NumberRead {
    /// The count of digits.
    pub digits: int,
    /// The value.
    pub value: int,
    /// The place behind the last digit.
    pub end: int,
}

/// Reading every digit from the place `from` on, behind `digits` digits of
/// the value `value`.
pub open spec fn read_digits(
    text: Seq<u8>,
    from: int,
    radix: int,
    digits: int,
    value: int,
) -> NumberRead
    decreases text.len() - from,
{
    if 0 <= from < text.len() && digit_of(text[from], radix) is Some {
        read_digits(
            text,
            from + 1,
            radix,
            digits + 1,
            value * radix + digit_of(text[from], radix)->0,
        )
    } else {
        NumberRead { digits, value, end: from }
    }
}

/// Reading one of the four numbers of an IPv4 address at the place `from`:
/// one to three decimal digits, of a value up to 255, without a leading
/// zero. The result is the number and the place behind it.
pub open spec fn read_octet(text: Seq<u8>, from: int) -> Option<(u8, int)> {
    let number = read_digits(text, from, 10, 0, 0);
    if number.digits < 1 || number.digits > 3 {
        None
    } else if number.digits > 1 && text[from] == 48 {
        None
    } else if number.value > 255 {
        None
    } else {
        Some((number.value as u8, number.end))
    }
}

/// Reading one of the groups of an IPv6 address at the place `from`: one to
/// four hexadecimal digits. The result is the group and the place behind it.
pub open spec fn read_group(text: Seq<u8>, from: int) -> Option<(u16, int)> {
    let number = read_digits(text, from, 16, 0, 0);
    if number.digits < 1 || number.digits > 4 {
        None
    } else {
        Some((number.value as u16, number.end))
    }
}

/// Whether the character `byte` stands at the place `at`.
pub open spec fn stands_at(text: Seq<u8>, at: int, byte: u8) -> bool {
    0 <= at < text.len() && text[at] == byte
}

/// Reading an IPv4 address at the place `from`. The result is its four
/// bytes and the place behind it.
pub open spec fn read_v4(text: Seq<u8>, from: int) -> Option<((u8, u8, u8, u8), int)> {
    match read_octet(text, from) {
        None => None,
        Some((a, first)) => if !stands_at(text, first, 46) {
            None
        } else {
            match read_octet(text, first + 1) {
                None => None,
                Some((b, second)) => if !stands_at(text, second, 46) {
                    None
                } else {
                    match read_octet(text, second + 1) {
                        None => None,
                        Some((c, third)) => if !stands_at(text, third, 46) {
                            None
                        } else {
                            match read_octet(text, third + 1) {
                                None => None,
                                Some((d, end)) => Some(((a, b, c, d), end)),
                            }
                        },
                    }
                },
            }
        },
    }
}

/// Groups of an IPv6 address that were read.
pub struct GroupsRead {
    /// The groups.
    pub groups: Seq<u16>,
    /// Whether the last two groups were written as an IPv4 address.
    pub dotted: bool,
    /// The place behind the last group.
    pub end: int,
}

/// Reading at most `limit` groups separated by colons from the place `from`
/// on, behind the groups of `before`. An IPv4 address is read as two groups
/// where two groups can still be read, and ends the reading. The reading
/// stops before the first thing that is no group.
pub open spec fn read_groups(text: Seq<u8>, from: int, limit: int, before: Seq<u16>) -> GroupsRead
    decreases limit - before.len(),
{
    let stopped = GroupsRead { groups: before, dotted: false, end: from };
    if before.len() >= limit {
        stopped
    } else if before.len() > 0 && !stands_at(text, from, 58) {
        stopped
    } else {
        let at = if before.len() > 0 {
            from + 1
        } else {
            from
        };
        let dotted = if before.len() < limit - 1 {
            read_v4(text, at)
        } else {
            None
        };
        match dotted {
            Some((bytes, end)) => GroupsRead {
                groups: before.push((bytes.0 * 256 + bytes.1) as u16).push(
                    (bytes.2 * 256 + bytes.3) as u16,
                ),
                dotted: true,
                end,
            },
            None => match read_group(text, at) {
                Some((group, end)) => read_groups(text, end, limit, before.push(group)),
                None => stopped,
            },
        }
    }
}

/// Reading an IPv6 address at the place `from`. The result is its eight
/// groups and the place behind it.
pub open spec fn read_v6(text: Seq<u8>, from: int) -> Option<(Seq<u16>, int)> {
    let head = read_groups(text, from, 8, Seq::empty());
    if head.groups.len() == 8 {
        Some((head.groups, head.end))
    } else if head.dotted {
        None
    } else if !(stands_at(text, head.end, 58) && stands_at(text, head.end + 1, 58)) {
        None
    } else {
        let tail = read_groups(text, head.end + 2, 7 - head.groups.len(), Seq::empty());
        Some(
            (
                head.groups + Seq::new(
                    (8 - head.groups.len() - tail.groups.len()) as nat,
                    |i: int| 0u16,
                ) + tail.groups,
                tail.end,
            ),
        )
    }
}

/// The IP address that a text stands for, if it stands for one: an IPv4
/// address or else an IPv6 address, with nothing behind it.
pub open spec fn parse_ip(text: Seq<u8>) -> Option<IpAddress> {
    match read_v4(text, 0) {
        Some((bytes, end)) => if end == text.len() {
            Some(IpAddress::V4(bytes.0, bytes.1, bytes.2, bytes.3))
        } else {
            None
        },
        None => match read_v6(text, 0) {
            Some((groups, end)) => if end == text.len() && groups.len() == 8 {
                Some(
                    IpAddress::V6(
                        groups[0],
                        groups[1],
                        groups[2],
                        groups[3],
                        groups[4],
                        groups[5],
                        groups[6],
                        groups[7],
                    ),
                )
            } else {
                None
            },
            None => None,
        },
    }
}

/// Reading digits only adds to their count.
proof fn lemma_digits_counted(text: Seq<u8>, from: int, radix: int, digits: int, value: int)
    ensures
        read_digits(text, from, radix, digits, value).digits >= digits,
    decreases text.len() - from,
{
    if 0 <= from < text.len() && digit_of(text[from], radix) is Some {
        lemma_digits_counted(
            text,
            from + 1,
            radix,
            digits + 1,
            value * radix + digit_of(text[from], radix)->0,
        );
    }
}

/// The value of the character `byte` as a digit.
fn digit(byte: u8, hex: bool) -> (value: Option<u32>)
    ensures
        match digit_of(byte, if hex { 16int } else { 10int }) {
            Some(v) => value == Some(v as u32) && v < 16 && (!hex ==> v < 10),
            None => value is None,
        },
{
    if 48 <= byte && byte <= 57 {
        Some((byte - 48) as u32)
    } else if hex && 97 <= byte && byte <= 102 {
        Some((byte - 87) as u32)
    } else if hex && 65 <= byte && byte <= 70 {
        Some((byte - 55) as u32)
    } else {
        None
    }
}

/// Reads a number of at most `most` digits, which is at most 4.
fn read_number(text: &[u8], from: usize, hex: bool, most: usize) -> (number: Option<(u32, usize)>)
    requires
        from <= text@.len(),
        most <= 4,
    ensures
        ({
            let read = read_digits(text@, from as int, if hex { 16int } else { 10int }, 0, 0);
            if 1 <= read.digits <= most {
                number matches Some(found) && found.0 == read.value && found.1 == read.end && 0
                    <= read.value < 65536
                    && from < read.end <= text@.len() && read.end == from + read.digits
                    && read.end <= usize::MAX
            } else {
                number is None
            }
        }),
{
    let ghost radix: int = if hex { 16int } else { 10int };
    let mut value: u32 = 0;
    let mut count: usize = 0;
    let mut at: usize = from;
    while at < text.len()
        invariant
            from <= at <= text@.len(),
            at == from + count,
            count <= most <= 4,
            radix == (if hex { 16int } else { 10int }),
            read_digits(text@, from as int, radix, 0, 0) == read_digits(
                text@,
                at as int,
                radix,
                count as int,
                value as int,
            ),
            count == 0 ==> value == 0,
            count == 1 ==> value < 16,
            count == 2 ==> value < 256,
            count == 3 ==> value < 4096,
            count == 4 ==> value < 65536,
        decreases text.len() - at,
    {
        match digit(text[at], hex) {
            None => {
                return if count == 0 {
                    None
                } else {
                    Some((value, at))
                };
            },
            Some(d) => {
                if count == most {
                    proof {
                        lemma_digits_counted(
                            text@,
                            at as int + 1,
                            radix,
                            count as int + 1,
                            value * radix + d,
                        );
                    }
                    return None;
                }
                value = if hex {
                    value * 16 + d
                } else {
                    value * 10 + d
                };
                count += 1;
                at += 1;
            },
        }
    }
    if count == 0 {
        None
    } else {
        Some((value, at))
    }
}

/// Reads one of the four numbers of an IPv4 address.
fn octet_at(text: &[u8], from: usize) -> (octet: Option<(u8, usize)>)
    requires
        from <= text@.len(),
    ensures
        match read_octet(text@, from as int) {
            Some((value, end)) => octet matches Some(read) && read.0 == value && read.1 == end
                && from < end <= text@.len(),
            None => octet is None,
        },
{
    match read_number(text, from, false, 3) {
        None => None,
        Some((value, end)) => {
            if end > from + 1 && text[from] == 48 {
                None
            } else if value > 255 {
                None
            } else {
                Some((value as u8, end))
            }
        },
    }
}

/// Reads one of the groups of an IPv6 address.
fn group_at(text: &[u8], from: usize) -> (group: Option<(u16, usize)>)
    requires
        from <= text@.len(),
    ensures
        match read_group(text@, from as int) {
            Some((value, end)) => group matches Some(read) && read.0 == value && read.1 == end
                && from < end <= text@.len(),
            None => group is None,
        },
{
    match read_number(text, from, true, 4) {
        None => None,
        Some((value, end)) => Some((value as u16, end)),
    }
}

/// Whether the character `byte` stands at the place `at`.
fn is_at(text: &[u8], at: usize, byte: u8) -> (there: bool)
    ensures
        there == stands_at(text@, at as int, byte),
        there ==> at < text@.len() && at < usize::MAX,
{
    at < text.len() && text[at] == byte
}

/// Reads an IPv4 address.
fn v4_at(text: &[u8], from: usize) -> (address: Option<((u8, u8, u8, u8), usize)>)
    requires
        from <= text@.len(),
    ensures
        match read_v4(text@, from as int) {
            Some((bytes, end)) => address matches Some(read) && read.0 == bytes && read.1
                == end && from < end <= text@.len(),
            None => address is None,
        },
{
    let (a, first) = match octet_at(text, from) {
        Some(read) => read,
        None => {
            return None;
        },
    };
    if !is_at(text, first, 46) {
        return None;
    }
    let (b, second) = match octet_at(text, first + 1) {
        Some(read) => read,
        None => {
            return None;
        },
    };
    if !is_at(text, second, 46) {
        return None;
    }
    let (c, third) = match octet_at(text, second + 1) {
        Some(read) => read,
        None => {
            return None;
        },
    };
    if !is_at(text, third, 46) {
        return None;
    }
    match octet_at(text, third + 1) {
        Some((d, end)) => Some(((a, b, c, d), end)),
        None => None,
    }
}

/// Reads at most `limit` groups into `groups`, and returns whether the last
/// two were written as an IPv4 address, and the place behind the last group.
fn groups_at(text: &[u8], from: usize, limit: usize, groups: &mut Vec<u16>) -> (read: (bool, usize))
    requires
        from <= text@.len(),
        limit <= 8,
        old(groups)@.len() == 0,
    ensures
        ({
            let wanted = read_groups(text@, from as int, limit as int, Seq::empty());
            final(groups)@ == wanted.groups && read.0 == wanted.dotted && read.1 == wanted.end
                && wanted.groups.len() <= limit && from <= wanted.end <= text@.len()
        }),
{
    let mut at: usize = from;
    assert(groups@ =~= Seq::empty());
    while groups.len() < limit
        invariant
            from <= at <= text@.len(),
            limit <= 8,
            groups@.len() <= limit,
            read_groups(text@, from as int, limit as int, Seq::empty()) == read_groups(
                text@,
                at as int,
                limit as int,
                groups@,
            ),
        decreases limit - groups.len(),
    {
        if groups.len() > 0 && !is_at(text, at, 58) {
            return (false, at);
        }
        let start: usize = if groups.len() > 0 {
            at + 1
        } else {
            at
        };
        let dotted: Option<((u8, u8, u8, u8), usize)> = if groups.len() < limit - 1 {
            v4_at(text, start)
        } else {
            None
        };
        match dotted {
            Some((bytes, end)) => {
                groups.push(bytes.0 as u16 * 256 + bytes.1 as u16);
                groups.push(bytes.2 as u16 * 256 + bytes.3 as u16);
                return (true, end);
            },
            None => match group_at(text, start) {
                Some((group, end)) => {
                    groups.push(group);
                    at = end;
                },
                None => {
                    return (false, at);
                },
            },
        }
    }
    (false, at)
}

/// Reads an IPv6 address.
fn v6_at(text: &[u8], from: usize) -> (address: Option<(Vec<u16>, usize)>)
    requires
        from <= text@.len(),
    ensures
        match read_v6(text@, from as int) {
            Some((groups, end)) => address matches Some(read) && read.0@ == groups && read.1
                == end && groups.len() == 8 && end <= text@.len(),
            None => address is None,
        },
{
    let mut head: Vec<u16> = Vec::new();
    let (dotted, middle) = groups_at(text, from, 8, &mut head);
    if head.len() == 8 {
        return Some((head, middle));
    }
    if dotted {
        return None;
    }
    if !(is_at(text, middle, 58) && is_at(text, middle + 1, 58)) {
        return None;
    }
    let mut tail: Vec<u16> = Vec::new();
    let (_, end) = groups_at(text, middle + 2, 7 - head.len(), &mut tail);
    let ghost front = head@;
    let ghost back = tail@;
    let gap: usize = 8 - head.len() - tail.len();
    let mut filled: usize = 0;
    while filled < gap
        invariant
            filled <= gap,
            gap == 8 - front.len() - back.len(),
            head@ == front + Seq::new(filled as nat, |i: int| 0u16),
        decreases gap - filled,
    {
        head.push(0);
        assert(head@ =~= front + Seq::new((filled + 1) as nat, |i: int| 0u16));
        filled += 1;
    }
    let mut moved: usize = 0;
    while moved < tail.len()
        invariant
            moved <= tail@.len(),
            tail@ == back,
            head@ == front + Seq::new(gap as nat, |i: int| 0u16) + back.take(moved as int),
        decreases tail.len() - moved,
    {
        head.push(tail[moved]);
        assert(head@ =~= front + Seq::new(gap as nat, |i: int| 0u16) + back.take(
            moved as int + 1,
        ));
        moved += 1;
    }
    assert(back.take(back.len() as int) =~= back);
    Some((head, end))
}

impl IpAddress {
    /// The IP address that the bytes of a text stand for, if they stand for
    /// one.
    pub fn parse_bytes(text: &[u8]) -> (address: Option<IpAddress>)
        ensures
            address == parse_ip(text@),
    {
        match v4_at(text, 0) {
            Some((bytes, end)) => {
                if end == text.len() {
                    Some(IpAddress::V4(bytes.0, bytes.1, bytes.2, bytes.3))
                } else {
                    None
                }
            },
            None => match v6_at(text, 0) {
                Some((groups, end)) => {
                    if end == text.len() {
                        Some(
                            IpAddress::V6(
                                groups[0],
                                groups[1],
                                groups[2],
                                groups[3],
                                groups[4],
                                groups[5],
                                groups[6],
                                groups[7],
                            ),
                        )
                    } else {
                        None
                    }
                },
                None => None,
            },
        }
    }

    /// The IP address that a text stands for, if it stands for one.
    pub fn parse(text: &str) -> (address: Option<IpAddress>)
        ensures
            address == parse_ip(text.spec_bytes()),
    {
        IpAddress::parse_bytes(text.as_bytes())
    }
}

} // verus!
