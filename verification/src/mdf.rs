//! What a measurement file offers whatever its version: which version it
//! is, the list of its channels, and looking a channel up by name.
use crate::mdf3::id_block::mdf_magic;
use vstd::prelude::*;

verus! {


/// The versions of MDF files.
#[derive(Debug, Clone, Copy, PartialEq, Eq, Structural)]
pub enum MDFVersion {
    MDF3,
    MDF4,
}

/// `c` is an ASCII decimal digit.
pub open spec fn is_ascii_digit(c: u8) -> bool {
    0x30 <= c <= 0x39
}

/// The number that the decimal digits `t` stand for.
pub open spec fn digits_value(t: Seq<u8>) -> nat
    decreases t.len(),
{
    if t.len() == 0 {
        0
    } else {
        digits_value(t.drop_last()) * 10 + (t.last() - 0x30) as nat
    }
}

/// The digits of a number's text: the text without a leading `+`.
pub open spec fn number_digits(t: Seq<u8>) -> Seq<u8> {
    if t.len() > 0 && t[0] == 0x2B {
        t.drop_first()
    } else {
        t
    }
}

/// `t` is the text of an unsigned number: an optional `+`, then one or more
/// decimal digits.
pub open spec fn number_text(t: Seq<u8>) -> bool {
    let d = number_digits(t);
    d.len() > 0 && forall|i: int| 0 <= i < d.len() ==> is_ascii_digit(#[trigger] d[i])
}

/// The number that the text `t` stands for.
pub open spec fn number_value(t: Seq<u8>) -> nat {
    digits_value(number_digits(t))
}

/// `d` is the index of the first `.` of `v`, or the length of `v` where it
/// has none.
pub open spec fn first_dot(v: Seq<u8>, d: int) -> bool {
    &&& 0 <= d <= v.len()
    &&& d < v.len() ==> v[d] == 0x2E
    &&& forall|j: int| 0 <= j < d ==> v[j] != 0x2E
}

/// The text of the version field of the identification block `id` up to
/// its first `.`.
pub open spec fn major_text(id: Seq<u8>) -> Seq<u8> {
    let v = id.subrange(8, 16);
    let d = choose|d: int| first_dot(v, d);
    v.subrange(0, d)
}

/// The text of the version field of the identification block `id` between
/// its first `.` and the next one, or its end.
pub open spec fn minor_text(id: Seq<u8>) -> Seq<u8> {
    let v = id.subrange(8, 16);
    let d = choose|d: int| first_dot(v, d);
    let rest = v.subrange(d + 1, 8);
    let e = choose|e: int| first_dot(rest, e);
    rest.subrange(0, e)
}

/// The identification block `id` names a version that `check_version`
/// accepts: it starts with `MDF     `, its version field holds a `.`, the
/// texts before the `.` and after it (up to a next `.`) are numbers, and the
/// first of them is 3 or 4.
pub open spec fn version_readable(id: Seq<u8>) -> bool {
    &&& id.len() >= 64
    &&& id.subrange(0, 8) == mdf_magic()
    &&& exists|d: int| first_dot(id.subrange(8, 16), d) && d < 8
    &&& number_text(major_text(id))
    &&& number_text(minor_text(id))
    &&& (number_value(major_text(id)) == 3 || number_value(major_text(id)) == 4)
}

/// The version that the identification block `id` names.
pub open spec fn version_of(id: Seq<u8>) -> MDFVersion {
    if number_value(major_text(id)) == 3 {
        MDFVersion::MDF3
    } else {
        MDFVersion::MDF4
    }
}

/// The index, from `start`, of the first `.` of `bytes[start..end]`, or
/// `end - start` where it has none.
fn find_dot(bytes: &[u8], start: usize, end: usize) -> (r: usize)
    requires
        start <= end <= bytes@.len(),
    ensures
        first_dot(bytes@.subrange(start as int, end as int), r as int),
{
    let ghost v = bytes@.subrange(start as int, end as int);
    let mut i = start;
    while i < end
        invariant
            start <= i <= end <= bytes@.len(),
            v == bytes@.subrange(start as int, end as int),
            forall|j: int| 0 <= j < i - start ==> v[j] != 0x2E,
        decreases end - i,
    {
        if bytes[i] == 0x2E {
            return i - start;
        }
        i = i + 1;
    }
    i - start
}

/// The number that `bytes[start..end]` stands for, where it is the text of a
/// number.
fn parse_number(bytes: &[u8], start: usize, end: usize) -> (r: Option<u64>)
    requires
        start <= end <= bytes@.len(),
        end - start <= 8,
    ensures
        r is Some <==> number_text(bytes@.subrange(start as int, end as int)),
        r matches Some(n) ==> n == number_value(bytes@.subrange(start as int, end as int)),
{
    let ghost t = bytes@.subrange(start as int, end as int);
    let mut first = start;
    if start < end && bytes[start] == 0x2B {
        first = start + 1;
    }
    let ghost d = bytes@.subrange(first as int, end as int);
    assert(d =~= number_digits(t));
    if first == end {
        return None;
    }
    let mut value: u64 = 0;
    let mut i = first;
    while i < end
        invariant
            first <= i <= end <= bytes@.len(),
            end - first <= 8,
            d == bytes@.subrange(first as int, end as int),
            d == number_digits(bytes@.subrange(start as int, end as int)),
            forall|j: int| 0 <= j < i - first ==> is_ascii_digit(#[trigger] d[j]),
            value == digits_value(d.subrange(0, i - first)),
            value < pow10((i - first) as nat),
        decreases end - i,
    {
        let c = bytes[i];
        if c < 0x30 || c > 0x39 {
            assert(!is_ascii_digit(d[i - first]));
            return None;
        }
        let ghost k = (i - first) as nat;
        assert(d.subrange(0, (k + 1) as int).drop_last() =~= d.subrange(0, k as int));
        assert(value * 10 + 9 < pow10(k) * 10) by (nonlinear_arith)
            requires
                value < pow10(k),
        ;
        proof {
            lemma_pow10_bound((k + 1) as nat);
        }
        value = value * 10 + (c - 0x30) as u64;
        i = i + 1;
    }
    assert(d.subrange(0, (end - first) as int) =~= d);
    Some(value)
}

/// `10` to the power `n`.
pub open spec fn pow10(n: nat) -> nat
    decreases n,
{
    if n == 0 {
        1
    } else {
        pow10((n - 1) as nat) * 10
    }
}

proof fn lemma_pow10_monotone(a: nat, b: nat)
    requires
        a <= b,
    ensures
        1 <= pow10(a) <= pow10(b),
    decreases b,
{
    if b > a {
        lemma_pow10_monotone(a, (b - 1) as nat);
    } else if a > 0 {
        lemma_pow10_monotone((a - 1) as nat, (a - 1) as nat);
    }
}

proof fn lemma_pow10_bound(n: nat)
    requires
        n <= 8,
    ensures
        pow10(n) <= 100_000_000,
{
    lemma_pow10_monotone(n, 8);
    reveal_with_fuel(pow10, 9);
    assert(pow10(8) == 100_000_000);
}

/// The version that the identification block `id_stream` names, where it
/// names one that `check_version` accepts.
pub fn parse_version(id_stream: &[u8]) -> (r: Option<MDFVersion>)
    ensures
        r is Some <==> version_readable(id_stream@),
        r matches Some(v) ==> v == version_of(id_stream@),
{
    if id_stream.len() < 64 {
        return None;
    }
    let magic = id_stream[0] == 0x4D && id_stream[1] == 0x44 && id_stream[2] == 0x46
        && id_stream[3] == 0x20 && id_stream[4] == 0x20 && id_stream[5] == 0x20
        && id_stream[6] == 0x20 && id_stream[7] == 0x20;
    assert(magic == (id_stream@.subrange(0, 8) =~= mdf_magic()));
    if !magic {
        return None;
    }
    let ghost v = id_stream@.subrange(8, 16);
    let d = find_dot(id_stream, 8, 16);
    proof {
        assert forall|x: int| first_dot(v, x) implies x == d by {
            if x < d {
                assert(v[x] != 0x2E);
            } else if x > d {
                assert(v[d as int] == 0x2E);
            }
        }
    }
    if d >= 8 {
        assert(!exists|x: int| first_dot(v, x) && x < 8);
        return None;
    }
    let major = parse_number(id_stream, 8, 8 + d);
    assert(id_stream@.subrange(8, 8 + d) =~= major_text(id_stream@));
    let ghost rest = v.subrange(d + 1, 8);
    let e = find_dot(id_stream, 9 + d, 16);
    assert(id_stream@.subrange(9 + d, 16) =~= rest);
    proof {
        assert forall|x: int| first_dot(rest, x) implies x == e by {
            if x < e {
                assert(rest[x] != 0x2E);
            } else if x > e {
                assert(rest[e as int] == 0x2E);
            }
        }
    }
    let minor = parse_number(id_stream, 9 + d, 9 + d + e);
    assert(id_stream@.subrange(9 + d, 9 + d + e) =~= minor_text(id_stream@));
    match (major, minor) {
        (Some(m), Some(_)) => {
            if m == 3 {
                Some(MDFVersion::MDF3)
            } else if m == 4 {
                Some(MDFVersion::MDF4)
            } else {
                None
            }
        },
        _ => None,
    }
}

/// The version that the identification block `id_stream` names: the text
/// of its version field before the first `.` read as a number, which must
/// be 3 or 4.
pub fn check_version(id_stream: &[u8]) -> (r: MDFVersion)
    requires
        version_readable(id_stream@),
    ensures
        r == version_of(id_stream@),
{
    parse_version(id_stream).unwrap()
}

/// A channel of a file, with where it is found: the index of its data group,
/// of its channel group among all channel groups of the file, and of the
/// channel among all channels of the file.
#[derive(Debug)]
pub struct MdfChannel {
    pub name: String,
    pub data_group: u64,
    pub channel: u64,
    pub channel_group: u64,
}

impl MdfChannel {
    /// A copy of this channel entry.
    pub fn duplicate(&self) -> (r: MdfChannel)
        ensures
            r == *self,
    {
        MdfChannel {
            name: self.name.clone(),
            data_group: self.data_group,
            channel: self.channel,
            channel_group: self.channel_group,
        }
    }
}

/// Number of channel groups under the data groups of `tree`.
pub open spec fn group_count<T>(tree: Seq<Seq<Seq<T>>>) -> int
    decreases tree.len(),
{
    if tree.len() == 0 {
        0
    } else {
        group_count::<T>(tree.drop_last()) + tree.last().len()
    }
}

/// Name, data group index and channel group index of each entry of `v`.
pub open spec fn entries_of(v: Seq<MdfChannel>) -> Seq<(Seq<char>, int, int)> {
    v.map_values(|c: MdfChannel| (c.name@, c.data_group as int, c.channel_group as int))
}

/// Each entry of `v` gives its own index as its channel index.
pub open spec fn indexed(v: Seq<MdfChannel>) -> bool {
    forall|k: int| 0 <= k < v.len() ==> (#[trigger] v[k]).channel == k
}

/// An entry carries the name `name`.
pub open spec fn has_name(name: Seq<char>) -> spec_fn(MdfChannel) -> bool {
    |c: MdfChannel| c.name@ == name
}

/// The entries of `channels` that carry the name `name`, in order.
pub open spec fn named(channels: Seq<MdfChannel>, name: Seq<char>) -> Seq<MdfChannel> {
    channels.filter(has_name(name))
}

/// The one channel called `channel_name`. Fails with `Channel not found`
/// where no channel has that name, and with `Multiple matches found` where
/// more than one has it.
pub fn search_channels(channels: &Vec<MdfChannel>, channel_name: &str) -> (r: Result<
    MdfChannel,
    &'static str,
>)
    ensures
        named(channels@, channel_name@).len() == 1 <==> r is Ok,
        r matches Ok(c) ==> c == named(channels@, channel_name@)[0],
        r matches Err(e) ==> (named(channels@, channel_name@).len() == 0 && e
            == "Channel not found") || (named(channels@, channel_name@).len() > 1 && e
            == "Multiple matches found"),
{
    let wanted = channel_name.to_owned();
    let mut channels_match: Vec<MdfChannel> = Vec::new();
    let mut i: usize = 0;
    while i < channels.len()
        invariant
            i <= channels@.len(),
            wanted@ == channel_name@,
            channels_match@ == named(channels@.subrange(0, i as int), channel_name@),
        decreases channels@.len() - i,
    {
        let ghost before = channels@.subrange(0, i as int);
        assert(channels@.subrange(0, i + 1) =~= before.push(channels@[i as int]));
        proof {
            before.lemma_filter_push(channels@[i as int], has_name(channel_name@));
        }
        if channels[i].name == wanted {
            channels_match.push(channels[i].duplicate());
        }
        i = i + 1;
    }
    assert(channels@.subrange(0, channels@.len() as int) =~= channels@);
    let count = channels_match.len();
    if count == 0 {
        Err("Channel not found")
    } else if count == 1 {
        Ok(channels_match[0].duplicate())
    } else {
        Err("Multiple matches found")
    }
}

} // verus!
