//! Channel dependency block (`CD`) of an MDF version 3 file.
use crate::mdf3::mdf3_block::{check_fits, check_tag, fits, tag_at, Mdf3Block};
use crate::mdf3::signals::Signals;
use crate::utils::{bytes_to_vec, read_array, read_u16, u16_at, uint_bytes, write_u16};
use vstd::prelude::*;

verus! {

#[derive(Debug, Clone)]
pub struct Cdblock {
    pub block_type: [u8; 2],
    pub block_size: u16,
    pub dependency_type: u16,
    pub signal_number: u16,
    pub groups: Vec<Signals>,
    pub dims: Vec<u16>,
}

/// Number of dependencies that a dependency type announces: the type itself
/// below 255, else the type less 255.
pub open spec fn dependency_count(dependency_type: u16) -> int {
    if dependency_type < 255 {
        dependency_type as int
    } else {
        dependency_type - 255
    }
}

/// The bytes of `groups` written one after the other.
pub open spec fn signals_bytes(groups: Seq<Signals>, little_endian: bool) -> Seq<u8>
    decreases groups.len(),
{
    if groups.len() == 0 {
        Seq::empty()
    } else {
        signals_bytes(groups.drop_last(), little_endian) + groups.last().spec_write(little_endian)
    }
}

/// The bytes of `dims` written one after the other, two bytes each.
pub open spec fn dims_bytes(dims: Seq<u16>, little_endian: bool) -> Seq<u8>
    decreases dims.len(),
{
    if dims.len() == 0 {
        Seq::empty()
    } else {
        dims_bytes(dims.drop_last(), little_endian) + uint_bytes(dims.last() as nat, 2, little_endian)
    }
}

/// Where the dimensions start, after the four fields at `p` and the signals.
pub open spec fn cd_dims_start(p: int, signal_number: u16) -> int {
    p + 8 + 12 * (signal_number - 1)
}

/// The dependency part can be read: at least one signal and one dependency
/// are announced, every signal but the last can be read from the start of
/// `s`, and the dimensions, every dependency's but the last, lie inside `s`.
pub open spec fn dependencies_readable(
    s: Seq<u8>,
    p: int,
    little_endian: bool,
    signal_number: u16,
    dependency_type: u16,
) -> bool {
    let n = dependency_count(dependency_type);
    &&& signal_number >= 1
    &&& n >= 1
    &&& signal_number >= 2 ==> s.len() >= 12
    &&& cd_dims_start(p, signal_number) <= usize::MAX
    &&& n > 1 ==> cd_dims_start(p, signal_number) + 2 * (n - 1) <= s.len()
}

/// `groups` and `dims` are what the dependency part at `p` holds: the signal
/// at the start of `s`, once for each signal but the last, and the dimensions.
pub open spec fn dependencies_fields(
    s: Seq<u8>,
    p: int,
    little_endian: bool,
    signal_number: u16,
    dependency_type: u16,
    groups: Seq<Signals>,
    dims: Seq<u16>,
) -> bool {
    let q = cd_dims_start(p, signal_number);
    &&& groups.len() == signal_number - 1
    &&& forall|i: int| 0 <= i < groups.len() ==> #[trigger] groups[i] == Signals::spec_read(s, little_endian)
    &&& dims.len() == dependency_count(dependency_type) - 1
    &&& forall|j: int| 0 <= j < dims.len() ==> #[trigger] dims[j] == u16_at(s, q + 2 * j, little_endian)
}

/// Reads the signals and dimensions of a dependency block whose four fixed
/// fields end at `p + 8`; gives them and the position after them.
pub(crate) fn read_dependencies(
    stream: &[u8],
    p: usize,
    little_endian: bool,
    signal_number: u16,
    dependency_type: u16,
) -> (r: (Vec<Signals>, Vec<u16>, usize))
    requires
        p + 8 <= usize::MAX,
        dependencies_readable(stream@, p as int, little_endian, signal_number, dependency_type),
    ensures
        dependencies_fields(
            stream@,
            p as int,
            little_endian,
            signal_number,
            dependency_type,
            r.0@,
            r.1@,
        ),
        r.2 == cd_dims_start(p as int, signal_number) + 2 * (dependency_count(dependency_type) - 1),
{
    let mut pos = p + 8;
    let mut groups: Vec<Signals> = Vec::new();
    let mut i: u16 = 0;
    while i < signal_number - 1
        invariant
            signal_number >= 1,
            signal_number >= 2 ==> stream@.len() >= 12,
            cd_dims_start(p as int, signal_number) <= usize::MAX,
            i <= signal_number - 1,
            pos == p + 8 + 12 * i,
            groups@.len() == i,
            forall|k: int| 0 <= k < i ==> #[trigger] groups@[k] == Signals::spec_read(stream@, little_endian),
        decreases signal_number - 1 - i,
    {
        let (temp, pos_sig) = Signals::read(stream, little_endian);
        groups.push(temp);
        pos = pos + pos_sig;
        i = i + 1;
    }
    let no_dependencies: u16 = if dependency_type < 255 {
        dependency_type
    } else {
        dependency_type - 255
    };
    let ghost q = pos as int;
    let mut dims: Vec<u16> = Vec::new();
    let mut j: u16 = 0;
    while j < no_dependencies - 1
        invariant
            no_dependencies == dependency_count(dependency_type),
            no_dependencies >= 1,
            no_dependencies > 1 ==> q + 2 * (no_dependencies - 1) <= stream@.len(),
            j <= no_dependencies - 1,
            pos == q + 2 * j,
            dims@.len() == j,
            forall|k: int| 0 <= k < j ==> #[trigger] dims@[k] == u16_at(stream@, q + 2 * k, little_endian),
        decreases no_dependencies - 1 - j,
    {
        let d = read_u16(stream, little_endian, &mut pos);
        dims.push(d);
        j = j + 1;
    }
    (groups, dims, pos)
}

/// Writes `groups` and then `dims`.
pub(crate) fn write_dependencies(groups: &Vec<Signals>, dims: &Vec<u16>, little_endian: bool) -> (r: Vec<u8>)
    ensures
        r@ == signals_bytes(groups@, little_endian) + dims_bytes(dims@, little_endian),
{
    let mut array: Vec<u8> = Vec::new();
    let mut i: usize = 0;
    while i < groups.len()
        invariant
            i <= groups@.len(),
            array@ == signals_bytes(groups@.subrange(0, i as int), little_endian),
        decreases groups@.len() - i,
    {
        let mut part = groups[i].write(little_endian);
        array.append(&mut part);
        i = i + 1;
        assert(groups@.subrange(0, i as int).drop_last() =~= groups@.subrange(0, i - 1));
    }
    assert(groups@.subrange(0, groups@.len() as int) =~= groups@);
    let ghost signals_part = array@;
    let mut dim_part: Vec<u8> = Vec::new();
    let mut j: usize = 0;
    while j < dims.len()
        invariant
            j <= dims@.len(),
            dim_part@ == dims_bytes(dims@.subrange(0, j as int), little_endian),
        decreases dims@.len() - j,
    {
        let mut part = write_u16(dims[j], little_endian);
        dim_part.append(&mut part);
        j = j + 1;
        assert(dims@.subrange(0, j as int).drop_last() =~= dims@.subrange(0, j - 1));
    }
    assert(dims@.subrange(0, dims@.len() as int) =~= dims@);
    array.append(&mut dim_part);
    array
}

/// A dependency block can be read at `p`.
pub open spec fn cd_readable(s: Seq<u8>, p: int, little_endian: bool) -> bool {
    &&& fits(s, p, 8)
    &&& tag_at(s, p, 0x43, 0x44)
    &&& dependencies_readable(
        s,
        p,
        little_endian,
        u16_at(s, p + 6, little_endian),
        u16_at(s, p + 4, little_endian),
    )
}

/// `b` holds the dependency block stored at `p`.
pub open spec fn cd_fields(s: Seq<u8>, p: int, little_endian: bool, b: Cdblock) -> bool {
    &&& b.block_type@ == s.subrange(p, p + 2)
    &&& b.block_size == u16_at(s, p + 2, little_endian)
    &&& b.dependency_type == u16_at(s, p + 4, little_endian)
    &&& b.signal_number == u16_at(s, p + 6, little_endian)
    &&& dependencies_fields(
        s,
        p,
        little_endian,
        b.signal_number,
        b.dependency_type,
        b.groups@,
        b.dims@,
    )
}

impl Mdf3Block for Cdblock {
    open spec fn spec_readable(stream: Seq<u8>, position: int, little_endian: bool) -> bool {
        cd_readable(stream, position, little_endian)
    }

    open spec fn spec_read_result(
        stream: Seq<u8>,
        position: int,
        little_endian: bool,
        end: int,
        block: Self,
    ) -> bool {
        &&& end == cd_dims_start(position, block.signal_number) + 2 * (dependency_count(
            block.dependency_type,
        ) - 1)
        &&& cd_fields(stream, position, little_endian, block)
    }

    open spec fn spec_writable(&self) -> bool {
        true
    }

    open spec fn spec_write(&self, little_endian: bool) -> Seq<u8> {
        self.block_type@ + uint_bytes(self.block_size as nat, 2, little_endian) + uint_bytes(
            self.dependency_type as nat,
            2,
            little_endian,
        ) + uint_bytes(self.signal_number as nat, 2, little_endian) + signals_bytes(
            self.groups@,
            little_endian,
        ) + dims_bytes(self.dims@, little_endian)
    }

    fn is_readable(stream: &[u8], position: usize, little_endian: bool) -> (r: bool) {
        if !check_fits(stream, position, 8) || !check_tag(stream, position, 0x43, 0x44) {
            return false;
        }
        let total = stream.len();
        let mut pos = position + 4;
        let dependency_type = read_u16(stream, little_endian, &mut pos);
        let signal_number = read_u16(stream, little_endian, &mut pos);
        let n: u16 = if dependency_type < 255 {
            dependency_type
        } else {
            dependency_type - 255
        };
        if signal_number < 1 || n < 1 {
            return false;
        }
        if signal_number >= 2 && stream.len() < 12 {
            return false;
        }
        let signals_len = 12 * (signal_number as usize - 1);
        if signals_len > usize::MAX - position - 8 {
            return false;
        }
        let q = position + 8 + signals_len;
        if n > 1 {
            q <= stream.len() && 2 * (n as usize - 1) <= stream.len() - q
        } else {
            true
        }
    }

    fn read(stream: &[u8], position: usize, little_endian: bool) -> (r: (usize, Self)) {
        let mut pos = position;
        let mut block_type = [0u8; 2];
        read_array(stream, &mut block_type, &mut pos);
        let block_size = read_u16(stream, little_endian, &mut pos);
        let dependency_type = read_u16(stream, little_endian, &mut pos);
        let signal_number = read_u16(stream, little_endian, &mut pos);
        let (groups, dims, end) = read_dependencies(
            stream,
            position,
            little_endian,
            signal_number,
            dependency_type,
        );
        (end, Cdblock { block_type, block_size, dependency_type, signal_number, groups, dims })
    }

    fn write(&self, start_position: usize, little_endian: bool) -> (r: Vec<u8>) {
        let mut array = bytes_to_vec(&self.block_type);
        let mut part = write_u16(self.block_size, little_endian);
        array.append(&mut part);
        let mut part = write_u16(self.dependency_type, little_endian);
        array.append(&mut part);
        let mut part = write_u16(self.signal_number, little_endian);
        array.append(&mut part);
        let mut part = write_dependencies(&self.groups, &self.dims, little_endian);
        array.append(&mut part);
        array
    }
}

impl Cdblock {
    /// Writes nothing: dependency blocks are not serialised here.
    pub fn write() {
    }
}

} // verus!
