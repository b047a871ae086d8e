//! Blocks of MDF version 4 files.
use crate::utils::{read_u64, u64_at};
use vstd::prelude::*;

pub mod block;
pub mod block_header;
pub mod mdf4_enums;
pub mod utils;
pub mod tx_block;
pub mod id_block;
pub mod cg_block;
pub mod dg_block;
pub mod si_block;
pub mod sd_block;
pub mod dt_block;
pub mod dz_block;
pub mod dl_block;
pub mod hl_block;
pub mod at_block;
pub mod data_block;
pub mod ch_block;
pub mod cc_block;
pub mod md_block;
pub mod hd_block;
pub mod fh_block;
pub mod sr_block;
pub mod ev_block;
pub mod cn_block;
pub mod ca_block;
pub mod mdf4_file;

pub use crate::mdf4::mdf4_file::MDF4;

verus! {

/// The `n` eight-byte links that start at `position`.
pub open spec fn links_at(stream: Seq<u8>, position: int, little_endian: bool, n: nat) -> Seq<u64> {
    Seq::new(n, |i: int| u64_at(stream, position + 8 * i, little_endian))
}

/// Reads `no_links` consecutive eight-byte links at `position`; gives the
/// position after them and the links.
pub fn link_extract(stream: &[u8], position: usize, little_endian: bool, no_links: u64) -> (r: (
    usize,
    Vec<u64>,
))
    requires
        position + 8 * no_links <= stream.len(),
    ensures
        r.0 == position + 8 * no_links,
        r.1@ == links_at(stream@, position as int, little_endian, no_links as nat),
{
    let mut links: Vec<u64> = Vec::new();
    let mut pos = position;
    let mut i: u64 = 0;
    while i < no_links
        invariant
            i <= no_links,
            position + 8 * no_links <= stream.len(),
            pos == position + 8 * i,
            links@.len() == i,
            forall|j: int|
                0 <= j < i ==> #[trigger] links@[j] == u64_at(
                    stream@,
                    position + 8 * j,
                    little_endian,
                ),
        decreases no_links - i,
    {
        let address = read_u64(stream, little_endian, &mut pos);
        links.push(address);
        i = i + 1;
    }
    assert(links@ =~= links_at(stream@, position as int, little_endian, no_links as nat));
    (pos, links)
}

/// `count` of the links in `address`, from index `start` on.
pub fn take_links(address: &Vec<u64>, start: usize, count: usize) -> (r: Vec<u64>)
    requires
        start + count <= address@.len(),
    ensures
        r@ == address@.subrange(start as int, start + count),
{
    let n = address.len();
    let mut out: Vec<u64> = Vec::new();
    let mut i: usize = 0;
    while i < count
        invariant
            n == address@.len(),
            start + count <= address@.len(),
            i <= count,
            out@ == address@.subrange(start as int, start + i),
        decreases count - i,
    {
        out.push(address[start + i]);
        i = i + 1;
        assert(out@ =~= address@.subrange(start as int, start + i));
    }
    out
}

/// Reads `count` consecutive eight-byte values at `*position` and moves the
/// position past them.
pub fn read_u64_values(stream: &[u8], little_endian: bool, position: &mut usize, count: usize) -> (r: Vec<u64>)
    requires
        *old(position) + 8 * count <= stream.len(),
    ensures
        *final(position) == *old(position) + 8 * count,
        r@ == links_at(stream@, *old(position) as int, little_endian, count as nat),
{
    let (end, values) = link_extract(stream, *position, little_endian, count as u64);
    *position = end;
    values
}

} // verus!
