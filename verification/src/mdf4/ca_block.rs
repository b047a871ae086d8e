//! Channel array block (`##CA`): the layout of an array of values in a record.
//! The axis values are kept as the IEEE 754 bits stored in the file.
use crate::mdf4::block::Block;
use crate::mdf4::block_header::{
    check_id, check_links_fit, data_offset, data_start, header_fields, id_at, link_count_at,
    links_fit, BlockHeader, HEADER_LEN,
};
use crate::mdf4::{link_extract, links_at, read_u64_values, take_links};
use crate::utils::{i32_at, read_i32, read_u16, read_u32, read_u8, u16_at, u32_at};
use vstd::prelude::*;

verus! {

#[derive(Debug, Clone)]
pub struct Cablock {
    pub header: BlockHeader,
    pub ca_composition: u64,
    pub ca_data: Vec<u64>,
    pub ca_dynamic_size: Vec<u64>,
    pub ca_input_quantity: Vec<u64>,
    pub ca_output_quantity: Vec<u64>,
    pub ca_comparison_quantity: Vec<u64>,
    pub ca_cc_axis_conversion: Vec<u64>,
    pub ca_axis: Vec<u64>,
    pub ca_type: u8,
    pub ca_storage: u8,
    pub ca_ndim: u16,
    pub ca_flags: u32,
    pub ca_byte_offset_base: i32,
    pub ca_inval_bit_pos_base: u32,
    pub ca_dim_size: Vec<u64>,
    pub ca_axis_value: Vec<u64>,
    pub ca_cycle_count: Vec<u64>,
}

/// Sum of the values of `s`.
pub open spec fn seq_sum(s: Seq<u64>) -> int
    decreases s.len(),
{
    if s.len() == 0 {
        0
    } else {
        seq_sum(s.drop_last()) + s.last()
    }
}

/// Product of the values of `s`.
pub open spec fn seq_prod(s: Seq<u64>) -> int
    decreases s.len(),
{
    if s.len() == 0 {
        1
    } else {
        seq_prod(s.drop_last()) * s.last()
    }
}

/// The dimension sizes of the array block at `p`.
pub open spec fn ca_dims(s: Seq<u8>, p: int, little_endian: bool) -> Seq<u64> {
    let q = data_start(s, p, little_endian);
    links_at(s, q + 16, little_endian, u16_at(s, q + 2, little_endian) as nat)
}

/// Every running sum and product of `dims` fits in eight bytes.
pub open spec fn running_totals_fit(dims: Seq<u64>) -> bool {
    &&& forall|k: int| 0 <= k <= dims.len() ==> #[trigger] seq_sum(dims.take(k)) <= u64::MAX
    &&& forall|k: int| 0 <= k <= dims.len() ==> #[trigger] seq_prod(dims.take(k)) <= u64::MAX
}

/// Number of links that an array with these dimension sizes uses.
pub open spec fn ca_link_need(dims: Seq<u64>) -> int {
    7 + seq_prod(dims) + 10 * dims.len()
}

/// An array block can be read at `p`: the sums and products of its
/// dimension sizes fit in eight bytes, its axis values and cycle counts lie
/// inside `s`, and it has the links its dimensions ask for.
pub open spec fn ca_readable(s: Seq<u8>, p: int, little_endian: bool) -> bool {
    let q = data_start(s, p, little_endian);
    let d = u16_at(s, q + 2, little_endian) as int;
    let dims = ca_dims(s, p, little_endian);
    &&& links_fit(s, p, little_endian, 1, 16)
    &&& id_at(s, p, 0x43, 0x41)
    &&& q + 16 + 8 * d <= s.len()
    &&& running_totals_fit(dims)
    &&& q + 16 + 8 * d + 8 * seq_sum(dims) + 8 * seq_prod(dims) <= s.len()
    &&& link_count_at(s, p, little_endian) >= ca_link_need(dims)
}

/// `b` holds the array block stored at `p`.
pub open spec fn ca_fields(s: Seq<u8>, p: int, little_endian: bool, b: Cablock) -> bool {
    let q = data_start(s, p, little_endian);
    let d = b.ca_ndim as int;
    let dims = b.ca_dim_size@;
    let total = seq_sum(dims);
    let cells = seq_prod(dims);
    let links = links_at(s, p + 24, little_endian, link_count_at(s, p, little_endian) as nat);
    let dynamic_start = 1 + cells;
    let input_start = dynamic_start + 3 * d;
    let output_start = input_start + 3 * d;
    let comparison_start = output_start + 3;
    let conversion_start = comparison_start + 3;
    let axis_start = conversion_start + d;
    &&& header_fields(s, p, little_endian, b.header)
    &&& b.ca_type == s[q]
    &&& b.ca_storage == s[q + 1]
    &&& b.ca_ndim == u16_at(s, q + 2, little_endian)
    &&& b.ca_flags == u32_at(s, q + 4, little_endian)
    &&& b.ca_byte_offset_base == i32_at(s, q + 8, little_endian)
    &&& b.ca_inval_bit_pos_base == u32_at(s, q + 12, little_endian)
    &&& dims == links_at(s, q + 16, little_endian, d as nat)
    &&& b.ca_axis_value@ == links_at(s, q + 16 + 8 * d, little_endian, total as nat)
    &&& b.ca_cycle_count@ == links_at(s, q + 16 + 8 * d + 8 * total, little_endian, cells as nat)
    &&& b.ca_composition == links[0]
    &&& b.ca_data@ == links.subrange(1, dynamic_start)
    &&& b.ca_dynamic_size@ == links.subrange(dynamic_start, input_start)
    &&& b.ca_input_quantity@ == links.subrange(input_start, output_start)
    &&& b.ca_output_quantity@ == links.subrange(output_start, comparison_start)
    &&& b.ca_comparison_quantity@ == links.subrange(comparison_start, conversion_start)
    &&& b.ca_cc_axis_conversion@ == links.subrange(conversion_start, axis_start)
    &&& b.ca_axis@ == links.subrange(axis_start, axis_start + 3 * d)
}

/// The sum and the product of `dims`, each computed from the left.
pub fn sum_and_product(dims: &Vec<u64>) -> (r: (u64, u64))
    requires
        running_totals_fit(dims@),
    ensures
        r.0 == seq_sum(dims@),
        r.1 == seq_prod(dims@),
{
    let mut sum: u64 = 0;
    let mut prod: u64 = 1;
    let mut i: usize = 0;
    assert(dims@.take(0) =~= Seq::<u64>::empty());
    while i < dims.len()
        invariant
            i <= dims@.len(),
            running_totals_fit(dims@),
            sum == seq_sum(dims@.take(i as int)),
            prod == seq_prod(dims@.take(i as int)),
        decreases dims@.len() - i,
    {
        let ghost next = dims@.take(i + 1);
        assert(next.drop_last() =~= dims@.take(i as int));
        assert(next.last() == dims@[i as int]);
        assert(seq_sum(next) <= u64::MAX);
        assert(seq_prod(next) <= u64::MAX);
        sum = sum + dims[i];
        prod = prod * dims[i];
        i = i + 1;
    }
    assert(dims@.take(dims@.len() as int) =~= dims@);
    (sum, prod)
}

impl Block for Cablock {
    open spec fn spec_is_new(&self) -> bool {
        &&& self.header.id@ == seq![0x23u8, 0x23u8, 0x43u8, 0x41u8]
        &&& self.header.reserved0@ == seq![0u8, 0u8, 0u8, 0u8]
        &&& self.header.length == 50
        &&& self.header.link_count == 0
        &&& self.ca_composition == 0
        &&& self.ca_data@ == Seq::<u64>::empty()
        &&& self.ca_dynamic_size@ == Seq::<u64>::empty()
        &&& self.ca_input_quantity@ == Seq::<u64>::empty()
        &&& self.ca_output_quantity@ == Seq::<u64>::empty()
        &&& self.ca_comparison_quantity@ == Seq::<u64>::empty()
        &&& self.ca_cc_axis_conversion@ == Seq::<u64>::empty()
        &&& self.ca_axis@ == Seq::<u64>::empty()
        &&& self.ca_type == 0
        &&& self.ca_storage == 0
        &&& self.ca_ndim == 0
        &&& self.ca_flags == 0
        &&& self.ca_byte_offset_base == 0
        &&& self.ca_inval_bit_pos_base == 0
        &&& self.ca_dim_size@ == Seq::<u64>::empty()
        &&& self.ca_axis_value@ == Seq::<u64>::empty()
        &&& self.ca_cycle_count@ == Seq::<u64>::empty()
    }

    open spec fn spec_is_default(&self) -> bool {
        self.spec_is_new()
    }

    open spec fn spec_readable(stream: Seq<u8>, position: int, little_endian: bool) -> bool {
        ca_readable(stream, position, little_endian)
    }

    open spec fn spec_read_result(
        stream: Seq<u8>,
        position: int,
        little_endian: bool,
        end: int,
        block: Self,
    ) -> bool {
        let q = data_start(stream, position, little_endian);
        let dims = block.ca_dim_size@;
        &&& end == q + 16 + 8 * block.ca_ndim + 8 * seq_sum(dims) + 8 * seq_prod(dims)
        &&& ca_fields(stream, position, little_endian, block)
    }

    open spec fn spec_has_byte_len(&self) -> bool {
        self.spec_byte_len() <= usize::MAX
    }

    /// Header, composition link and fixed fields, and eight bytes for each
    /// link, dimension size, axis value and cycle count.
    open spec fn spec_byte_len(&self) -> nat {
        48 + 8 * (self.ca_data@.len() + self.ca_dynamic_size@.len() + self.ca_input_quantity@.len()
            + self.ca_output_quantity@.len() + self.ca_comparison_quantity@.len()
            + self.ca_cc_axis_conversion@.len() + self.ca_axis@.len() + self.ca_dim_size@.len()
            + self.ca_axis_value@.len() + self.ca_cycle_count@.len())
    }

    fn new() -> (r: Self) {
        let header = BlockHeader::with_id([0x23u8, 0x23u8, 0x43u8, 0x41u8], 50, 0);
        assert(header.id@ =~= seq![0x23u8, 0x23u8, 0x43u8, 0x41u8]);
        Cablock {
            header,
            ca_composition: 0,
            ca_data: Vec::new(),
            ca_dynamic_size: Vec::new(),
            ca_input_quantity: Vec::new(),
            ca_output_quantity: Vec::new(),
            ca_comparison_quantity: Vec::new(),
            ca_cc_axis_conversion: Vec::new(),
            ca_axis: Vec::new(),
            ca_type: 0,
            ca_storage: 0,
            ca_ndim: 0,
            ca_flags: 0,
            ca_byte_offset_base: 0,
            ca_inval_bit_pos_base: 0,
            ca_dim_size: Vec::new(),
            ca_axis_value: Vec::new(),
            ca_cycle_count: Vec::new(),
        }
    }

    fn default() -> (r: Self) {
        Self::new()
    }

    fn is_readable(stream: &[u8], position: usize, little_endian: bool) -> (r: bool) {
        if !check_links_fit(stream, position, little_endian, 1, 16) {
            return false;
        }
        if !check_id(stream, position, 0x43, 0x41) {
            return false;
        }
        let total = stream.len();
        let q = data_offset(stream, position, little_endian);
        let mut p = q + 2;
        let d = read_u16(stream, little_endian, &mut p);
        if d as usize > (stream.len() - q - 16) / 8 {
            return false;
        }
        let mut p = q + 16;
        let dims = read_u64_values(stream, little_endian, &mut p, d as usize);
        assert(dims@ == ca_dims(stream@, position as int, little_endian));
        let mut sum: u64 = 0;
        let mut prod: u64 = 1;
        let mut i: usize = 0;
        assert(dims@.take(0) =~= Seq::<u64>::empty());
        while i < dims.len()
            invariant
                i <= dims@.len(),
                dims@ == ca_dims(stream@, position as int, little_endian),
                sum == seq_sum(dims@.take(i as int)),
                prod == seq_prod(dims@.take(i as int)),
                forall|k: int| 0 <= k <= i ==> #[trigger] seq_sum(dims@.take(k)) <= u64::MAX,
                forall|k: int| 0 <= k <= i ==> #[trigger] seq_prod(dims@.take(k)) <= u64::MAX,
            decreases dims@.len() - i,
        {
            let ghost next = dims@.take(i + 1);
            assert(next.drop_last() =~= dims@.take(i as int));
            assert(next.last() == dims@[i as int]);
            let v = dims[i];
            if v > u64::MAX - sum {
                assert(seq_sum(dims@.take(i + 1)) > u64::MAX);
                assert(!running_totals_fit(dims@));
                return false;
            }
            if v != 0 && prod > u64::MAX / v {
                assert(prod * v > u64::MAX) by (nonlinear_arith)
                    requires
                        v != 0,
                        prod > u64::MAX / v,
                ;
                assert(seq_prod(dims@.take(i + 1)) > u64::MAX);
                assert(!running_totals_fit(dims@));
                return false;
            }
            assert(prod * v <= u64::MAX) by (nonlinear_arith)
                requires
                    v == 0 || prod <= u64::MAX / v,
            ;
            sum = sum + v;
            prod = prod * v;
            i = i + 1;
        }
        assert(dims@.take(dims@.len() as int) =~= dims@);
        let room = (stream.len() - p) / 8;
        if sum as u128 + prod as u128 > room as u128 {
            return false;
        }
        let mut c = position + 16;
        let link_count = crate::utils::read_u64(stream, little_endian, &mut c);
        (link_count as u128) >= 7 + prod as u128 + 10 * (d as u128)
    }

    fn read(stream: &[u8], position: usize, little_endian: bool) -> (r: (usize, Self)) {
        let total = stream.len();
        let (pos, header) = BlockHeader::read(stream, position, little_endian);
        let (mut pos, address) = link_extract(stream, pos, little_endian, header.link_count);
        let ca_type = read_u8(stream, &mut pos);
        let ca_storage = read_u8(stream, &mut pos);
        let ca_ndim = read_u16(stream, little_endian, &mut pos);
        let ca_flags = read_u32(stream, little_endian, &mut pos);
        let ca_byte_offset_base = read_i32(stream, little_endian, &mut pos);
        let ca_inval_bit_pos_base = read_u32(stream, little_endian, &mut pos);
        let d = ca_ndim as usize;
        let ca_dim_size = read_u64_values(stream, little_endian, &mut pos, d);
        let (nd_sum, nd_prod) = sum_and_product(&ca_dim_size);
        let ca_axis_value = read_u64_values(stream, little_endian, &mut pos, nd_sum as usize);
        let ca_cycle_count = read_u64_values(stream, little_endian, &mut pos, nd_prod as usize);
        let cells = nd_prod as usize;
        let ca_composition = address[0];
        let ca_data = take_links(&address, 1, cells);
        let dynamic_start = 1 + cells;
        let ca_dynamic_size = take_links(&address, dynamic_start, 3 * d);
        let input_start = dynamic_start + 3 * d;
        let ca_input_quantity = take_links(&address, input_start, 3 * d);
        let output_start = input_start + 3 * d;
        let ca_output_quantity = take_links(&address, output_start, 3);
        let comparison_start = output_start + 3;
        let ca_comparison_quantity = take_links(&address, comparison_start, 3);
        let conversion_start = comparison_start + 3;
        let ca_cc_axis_conversion = take_links(&address, conversion_start, d);
        let axis_start = conversion_start + d;
        let ca_axis = take_links(&address, axis_start, 3 * d);
        (
            pos,
            Cablock {
                header,
                ca_composition,
                ca_data,
                ca_dynamic_size,
                ca_input_quantity,
                ca_output_quantity,
                ca_comparison_quantity,
                ca_cc_axis_conversion,
                ca_axis,
                ca_type,
                ca_storage,
                ca_ndim,
                ca_flags,
                ca_byte_offset_base,
                ca_inval_bit_pos_base,
                ca_dim_size,
                ca_axis_value,
                ca_cycle_count,
            },
        )
    }

    fn byte_len(&self) -> (r: usize) {
        let count = self.ca_data.len() + self.ca_dynamic_size.len() + self.ca_input_quantity.len()
            + self.ca_output_quantity.len() + self.ca_comparison_quantity.len()
            + self.ca_cc_axis_conversion.len() + self.ca_axis.len() + self.ca_dim_size.len()
            + self.ca_axis_value.len() + self.ca_cycle_count.len();
        HEADER_LEN + 8 + 1 + 1 + 2 + 4 + 4 + 4 + 8 * count
    }
}

} // verus!
