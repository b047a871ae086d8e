//! A whole MDF version 3 file held in memory: its leading blocks, the chains
//! of data groups, channel groups and channels, and the values of a channel.
use crate::mdf::{entries_of, group_count, indexed, MdfChannel};
use crate::mdf3::cg_block::Cgblock;
use crate::mdf3::cn_block::{channel_name, channel_name_readable, Cnblock};
use crate::mdf3::dg_block::Dgblock;
use crate::mdf3::id_block::{id_fields, id_readable, is_id_block};
use crate::mdf3::mdf3_block::{check_fits, check_tag};
use crate::mdf3::{
    hd_fields, hd_readable, tx_fields, tx_readable, CGBLOCK, CNBLOCK, DGBLOCK, HDBLOCK, IDBLOCK,
    TXBLOCK,
};
use crate::mdf4::block::{
    chain_ends, chain_ends_within, is_chain, lemma_checked_chain_unique, read_chain,
};
use crate::mdf4::utils::until_nul;
use crate::record::{latin1, record_of, record_type, DataType, DataTypeRead, Record};
use crate::utils::{u16_at, u32_at};
use vstd::prelude::*;

verus! {


/// Channel type of the time channel of a channel group.
pub const TIME_CHANNEL_TYPE: u16 = 1;

/// `r` is the record that the bytes `b` hold as data type `dtype`; a string
/// takes one character for each byte up to the first zero byte.
pub open spec fn is_record_of(r: Record, b: Seq<u8>, dtype: DataTypeRead) -> bool {
    if dtype.data_type == DataType::StringNullTerm {
        r matches Record::StringNullTerm(t) && t@ == latin1(until_nul(b))
    } else {
        r == record_of(b, dtype)
    }
}

/// The bytes `stream[start..start + len]`.
fn copy_bytes(stream: &[u8], start: usize, len: usize) -> (r: Vec<u8>)
    requires
        start + len <= stream@.len(),
    ensures
        r@ == stream@.subrange(start as int, start + len),
{
    let total = stream.len();
    let mut out: Vec<u8> = Vec::new();
    let mut i: usize = 0;
    while i < len
        invariant
            i <= len,
            total == stream@.len(),
            start + len <= stream@.len(),
            out@ == stream@.subrange(start as int, start + i),
        decreases len - i,
    {
        out.push(stream[start + i]);
        i = i + 1;
        assert(out@ =~= stream@.subrange(start as int, start + i));
    }
    out
}

/// The channel chain at `p` ends.
pub open spec fn cn_chain_ends(s: Seq<u8>, p: int, little_endian: bool) -> bool {
    exists|fuel: nat| chain_ends::<Cnblock>(s, p, little_endian, fuel)
}

/// The channel group chain at `p` ends, and so does the channel chain of each
/// of its groups.
pub open spec fn cg_tree_ends(s: Seq<u8>, p: int, little_endian: bool) -> bool {
    &&& exists|fuel: nat| chain_ends::<Cgblock>(s, p, little_endian, fuel)
    &&& forall|cgs: Seq<Cgblock>, j: int|
        #![trigger is_chain::<Cgblock>(s, p, little_endian, cgs), cgs[j]]
        is_chain::<Cgblock>(s, p, little_endian, cgs) && 0 <= j < cgs.len() ==> cn_chain_ends(
            s,
            cgs[j].first as int,
            little_endian,
        )
}

/// The data group chain at `p` ends, and so does every chain under it.
pub open spec fn dg_tree_ends(s: Seq<u8>, p: int, little_endian: bool) -> bool {
    &&& exists|fuel: nat| chain_ends::<Dgblock>(s, p, little_endian, fuel)
    &&& forall|dgs: Seq<Dgblock>, i: int|
        #![trigger is_chain::<Dgblock>(s, p, little_endian, dgs), dgs[i]]
        is_chain::<Dgblock>(s, p, little_endian, dgs) && 0 <= i < dgs.len() ==> cg_tree_ends(
            s,
            dgs[i].first as int,
            little_endian,
        )
}

/// The channel group chain at `p`, and the channel chain of each of its
/// groups, end within `limit` blocks each.
pub open spec fn cg_tree_ends_within(s: Seq<u8>, p: int, little_endian: bool, limit: nat) -> bool {
    &&& chain_ends::<Cgblock>(s, p, little_endian, limit)
    &&& forall|cgs: Seq<Cgblock>, j: int|
        #![trigger is_chain::<Cgblock>(s, p, little_endian, cgs), cgs[j]]
        is_chain::<Cgblock>(s, p, little_endian, cgs) && 0 <= j < cgs.len() ==> chain_ends::<
            Cnblock,
        >(s, cgs[j].first as int, little_endian, limit)
}

/// The data group chain at `p`, and every chain under it, end within
/// `limit` blocks each.
pub open spec fn dg_tree_ends_within(s: Seq<u8>, p: int, little_endian: bool, limit: nat) -> bool {
    &&& chain_ends::<Dgblock>(s, p, little_endian, limit)
    &&& forall|dgs: Seq<Dgblock>, i: int|
        #![trigger is_chain::<Dgblock>(s, p, little_endian, dgs), dgs[i]]
        is_chain::<Dgblock>(s, p, little_endian, dgs) && 0 <= i < dgs.len()
            ==> cg_tree_ends_within(s, dgs[i].first as int, little_endian, limit)
}

/// Chains that end within `limit` blocks end.
pub proof fn lemma_cg_tree_within_ends(s: Seq<u8>, p: int, little_endian: bool, limit: nat)
    requires
        cg_tree_ends_within(s, p, little_endian, limit),
    ensures
        cg_tree_ends(s, p, little_endian),
{
    assert forall|cgs: Seq<Cgblock>, j: int|
        is_chain::<Cgblock>(s, p, little_endian, cgs) && 0 <= j < cgs.len() implies cn_chain_ends(
        s,
        (#[trigger] cgs[j]).first as int,
        little_endian,
    ) by {
        assert(chain_ends::<Cnblock>(s, cgs[j].first as int, little_endian, limit));
    }
}

/// Chains that end within `limit` blocks end.
pub proof fn lemma_dg_tree_within_ends(s: Seq<u8>, p: int, little_endian: bool, limit: nat)
    requires
        dg_tree_ends_within(s, p, little_endian, limit),
    ensures
        dg_tree_ends(s, p, little_endian),
{
    assert forall|dgs: Seq<Dgblock>, i: int|
        is_chain::<Dgblock>(s, p, little_endian, dgs) && 0 <= i < dgs.len() implies cg_tree_ends(
        s,
        (#[trigger] dgs[i]).first as int,
        little_endian,
    ) by {
        lemma_cg_tree_within_ends(s, dgs[i].first as int, little_endian, limit);
    }
}

/// The byte order of a file: little endian where the identification block's
/// byte order code, read least significant byte first, is 0.
pub open spec fn file_little_endian(s: Seq<u8>) -> bool {
    u16_at(s, 24, true) == 0
}

/// Where the header block, which follows the identification block, puts the
/// first data group.
pub open spec fn first_data_group(s: Seq<u8>) -> int {
    u32_at(s, 68, file_little_endian(s)) as int
}

/// Where the header block puts the file's comment.
pub open spec fn file_comment_at(s: Seq<u8>) -> int {
    u32_at(s, 72, file_little_endian(s)) as int
}

/// `s` holds an MDF version 3 file that can be read whole: identification,
/// header and comment blocks, and the data group chain with every chain
/// under it.
pub open spec fn mdf3_readable(s: Seq<u8>) -> bool {
    &&& id_readable(s)
    &&& hd_readable(s, 64)
    &&& tx_readable(s, file_comment_at(s), file_little_endian(s))
    &&& dg_tree_ends(s, first_data_group(s), file_little_endian(s))
}

/// Like `mdf3_readable`, with every chain ending within `limit` blocks.
pub open spec fn mdf3_readable_within(s: Seq<u8>, limit: nat) -> bool {
    &&& id_readable(s)
    &&& hd_readable(s, 64)
    &&& tx_readable(s, file_comment_at(s), file_little_endian(s))
    &&& dg_tree_ends_within(s, first_data_group(s), file_little_endian(s), limit)
}

/// `cgs` are the channel groups of the data groups `dgs`, chain after chain.
pub open spec fn groups_of(s: Seq<u8>, little_endian: bool, dgs: Seq<Dgblock>, cgs: Seq<Cgblock>) -> bool {
    exists|parts: Seq<Seq<Cgblock>>|
        {
            &&& parts.len() == dgs.len()
            &&& forall|i: int|
                0 <= i < dgs.len() ==> is_chain::<Cgblock>(
                    s,
                    dgs[i].first as int,
                    little_endian,
                    #[trigger] parts[i],
                )
            &&& cgs == parts.flatten()
        }
}

/// `cns` are the channels of the channel groups `cgs`, chain after chain.
pub open spec fn channels_of(s: Seq<u8>, little_endian: bool, cgs: Seq<Cgblock>, cns: Seq<Cnblock>) -> bool {
    exists|parts: Seq<Seq<Cnblock>>|
        {
            &&& parts.len() == cgs.len()
            &&& forall|j: int|
                0 <= j < cgs.len() ==> is_chain::<Cnblock>(
                    s,
                    cgs[j].first as int,
                    little_endian,
                    #[trigger] parts[j],
                )
            &&& cns == parts.flatten()
        }
}


/// Every channel of the channel chain at `p` has a name that can be read.
pub open spec fn cn_names_readable(s: Seq<u8>, p: int, little_endian: bool) -> bool {
    forall|cns: Seq<Cnblock>, k: int|
        #![trigger is_chain::<Cnblock>(s, p, little_endian, cns), cns[k]]
        is_chain::<Cnblock>(s, p, little_endian, cns) && 0 <= k < cns.len()
            ==> channel_name_readable(s, little_endian, cns[k].channel_type, cns[k].long_name)
}

/// Every channel under the channel group chain at `p` has a name that can be read.
pub open spec fn cg_names_readable(s: Seq<u8>, p: int, little_endian: bool) -> bool {
    forall|cgs: Seq<Cgblock>, j: int|
        #![trigger is_chain::<Cgblock>(s, p, little_endian, cgs), cgs[j]]
        is_chain::<Cgblock>(s, p, little_endian, cgs) && 0 <= j < cgs.len() ==> cn_names_readable(
            s,
            cgs[j].first as int,
            little_endian,
        )
}

/// Every channel of the file `s` has a name that can be read.
pub open spec fn names_readable(s: Seq<u8>) -> bool {
    let little_endian = file_little_endian(s);
    forall|dgs: Seq<Dgblock>, i: int|
        #![trigger is_chain::<Dgblock>(s, first_data_group(s), little_endian, dgs), dgs[i]]
        is_chain::<Dgblock>(s, first_data_group(s), little_endian, dgs) && 0 <= i < dgs.len()
            ==> cg_names_readable(s, dgs[i].first as int, little_endian)
}

/// `dgs` are the data groups of the file `s`; `cgs[i]` the channel groups of
/// data group `i`, and `tree[i][j]` the channels of its channel group `j`.
pub open spec fn file_tree(
    s: Seq<u8>,
    dgs: Seq<Dgblock>,
    cgs: Seq<Seq<Cgblock>>,
    tree: Seq<Seq<Seq<Cnblock>>>,
) -> bool {
    let little_endian = file_little_endian(s);
    &&& is_chain::<Dgblock>(s, first_data_group(s), little_endian, dgs)
    &&& cgs.len() == dgs.len()
    &&& tree.len() == dgs.len()
    &&& forall|i: int|
        0 <= i < dgs.len() ==> is_chain::<Cgblock>(
            s,
            dgs[i].first as int,
            little_endian,
            #[trigger] cgs[i],
        )
    &&& forall|i: int| 0 <= i < dgs.len() ==> (#[trigger] tree[i]).len() == cgs[i].len()
    &&& forall|i: int, j: int|
        0 <= i < dgs.len() && 0 <= j < cgs[i].len() ==> is_chain::<Cnblock>(
            s,
            cgs[i][j].first as int,
            little_endian,
            #[trigger] tree[i][j],
        )
}

/// Name, data group index and channel group index of each channel of the
/// channel groups `groups` of data group `dg`, the first of them being
/// channel group `first_group` of the file.
pub open spec fn group_entries(
    s: Seq<u8>,
    little_endian: bool,
    groups: Seq<Seq<Cnblock>>,
    dg: int,
    first_group: int,
) -> Seq<(Seq<char>, int, int)>
    decreases groups.len(),
{
    if groups.len() == 0 {
        Seq::empty()
    } else {
        group_entries(s, little_endian, groups.drop_last(), dg, first_group) + groups.last().map_values(
            |cn: Cnblock|
                (
                    channel_name(s, little_endian, cn.channel_type, cn.long_name),
                    dg,
                    first_group + groups.len() - 1,
                ),
        )
    }
}

/// Name, data group index and channel group index of each channel under the
/// data groups of `tree`, in file order.
pub open spec fn tree_entries(s: Seq<u8>, little_endian: bool, tree: Seq<Seq<Seq<Cnblock>>>) -> Seq<
    (Seq<char>, int, int),
>
    decreases tree.len(),
{
    if tree.len() == 0 {
        Seq::empty()
    } else {
        tree_entries(s, little_endian, tree.drop_last()) + group_entries(
            s,
            little_endian,
            tree.last(),
            tree.len() - 1,
            group_count(tree.drop_last()),
        )
    }
}

/// The channels under the data groups of `tree`, in file order.
pub open spec fn tree_channels(tree: Seq<Seq<Seq<Cnblock>>>) -> Seq<Cnblock> {
    tree.flatten_alt().flatten_alt()
}

/// Entry `k` of the entries of `groups` names channel `k` of `groups`,
/// group after group.
proof fn lemma_group_entries_names(
    s: Seq<u8>,
    little_endian: bool,
    groups: Seq<Seq<Cnblock>>,
    dg: int,
    first_group: int,
)
    ensures
        group_entries(s, little_endian, groups, dg, first_group).len()
            == groups.flatten_alt().len(),
        forall|k: int|
            0 <= k < groups.flatten_alt().len() ==> (#[trigger] group_entries(
                s,
                little_endian,
                groups,
                dg,
                first_group,
            )[k]).0 == channel_name(
                s,
                little_endian,
                groups.flatten_alt()[k].channel_type,
                groups.flatten_alt()[k].long_name,
            ),
    decreases groups.len(),
{
    if groups.len() > 0 {
        let prev = groups.drop_last();
        lemma_group_entries_names(s, little_endian, prev, dg, first_group);
        let e = group_entries(s, little_endian, groups, dg, first_group);
        let pe = group_entries(s, little_endian, prev, dg, first_group);
        let f = groups.flatten_alt();
        let pf = prev.flatten_alt();
        assert forall|k: int| 0 <= k < f.len() implies (#[trigger] e[k]).0 == channel_name(
            s,
            little_endian,
            f[k].channel_type,
            f[k].long_name,
        ) by {
            if k < pf.len() {
                assert(e[k] == pe[k]);
                assert(f[k] == pf[k]);
            } else {
                assert(f[k] == groups.last()[k - pf.len()]);
            }
        }
    }
}

/// Entry `k` of the entries of `tree` names channel `k` of `tree`.
proof fn lemma_tree_entries_names(s: Seq<u8>, little_endian: bool, tree: Seq<Seq<Seq<Cnblock>>>)
    ensures
        tree_entries(s, little_endian, tree).len() == tree_channels(tree).len(),
        forall|k: int|
            0 <= k < tree_channels(tree).len() ==> (#[trigger] tree_entries(
                s,
                little_endian,
                tree,
            )[k]).0 == channel_name(
                s,
                little_endian,
                tree_channels(tree)[k].channel_type,
                tree_channels(tree)[k].long_name,
            ),
    decreases tree.len(),
{
    if tree.len() > 0 {
        let prev = tree.drop_last();
        let last = tree.last();
        lemma_tree_entries_names(s, little_endian, prev);
        lemma_group_entries_names(
            s,
            little_endian,
            last,
            tree.len() - 1,
            group_count::<Cnblock>(prev),
        );
        assert(tree.flatten_alt() == prev.flatten_alt() + last);
        vstd::seq_lib::lemma_flatten_alt_concat(prev.flatten_alt(), last);
        let e = tree_entries(s, little_endian, tree);
        let pe = tree_entries(s, little_endian, prev);
        let ge = group_entries(s, little_endian, last, tree.len() - 1, group_count::<Cnblock>(prev));
        let c = tree_channels(tree);
        let pc = tree_channels(prev);
        assert(c == pc + last.flatten_alt());
        assert forall|k: int| 0 <= k < c.len() implies (#[trigger] e[k]).0 == channel_name(
            s,
            little_endian,
            c[k].channel_type,
            c[k].long_name,
        ) by {
            if k < pc.len() {
                assert(e[k] == pe[k]);
                assert(c[k] == pc[k]);
            } else {
                assert(e[k] == ge[k - pc.len()]);
                assert(c[k] == last.flatten_alt()[k - pc.len()]);
            }
        }
    }
}

/// A time channel (channel type 1) is named `time`, whatever its long name
/// link holds or points to, and its name can always be had.
pub proof fn lemma_time_channel_is_time(s: Seq<u8>, little_endian: bool, cn: Cnblock)
    requires
        cn.channel_type == 1,
    ensures
        channel_name(s, little_endian, cn.channel_type, cn.long_name) == seq!['t', 'i', 'm', 'e'],
        channel_name_readable(s, little_endian, cn.channel_type, cn.long_name),
{
}

/// In the channel list of a file, every time channel is listed under the
/// name `time`, whatever its long name link holds.
pub proof fn lemma_time_channels_listed_as_time(
    s: Seq<u8>,
    little_endian: bool,
    tree: Seq<Seq<Seq<Cnblock>>>,
    k: int,
)
    requires
        0 <= k < tree_channels(tree).len(),
        tree_channels(tree)[k].channel_type == 1,
    ensures
        tree_entries(s, little_endian, tree).len() == tree_channels(tree).len(),
        tree_entries(s, little_endian, tree)[k].0 == seq!['t', 'i', 'm', 'e'],
{
    lemma_tree_entries_names(s, little_endian, tree);
    lemma_time_channel_is_time(s, little_endian, tree_channels(tree)[k]);
}

/// Channel chains read for the channel groups `cgs[i][j]`, and channel
/// chains read for the same groups taken one after another, are the same.
proof fn lemma_channel_parts(
    s: Seq<u8>,
    little_endian: bool,
    cgs: Seq<Seq<Cgblock>>,
    tree: Seq<Seq<Seq<Cnblock>>>,
    parts: Seq<Seq<Cnblock>>,
)
    requires
        tree.len() == cgs.len(),
        forall|i: int| 0 <= i < cgs.len() ==> (#[trigger] tree[i]).len() == cgs[i].len(),
        forall|i: int, j: int|
            0 <= i < cgs.len() && 0 <= j < cgs[i].len() ==> is_chain::<Cnblock>(
                s,
                cgs[i][j].first as int,
                little_endian,
                #[trigger] tree[i][j],
            ),
        parts.len() == cgs.flatten_alt().len(),
        forall|j: int|
            0 <= j < parts.len() ==> is_chain::<Cnblock>(
                s,
                cgs.flatten_alt()[j].first as int,
                little_endian,
                #[trigger] parts[j],
            ),
    ensures
        parts == tree.flatten_alt(),
    decreases tree.len(),
{
    if tree.len() == 0 {
        assert(parts =~= tree.flatten_alt());
    } else {
        let pc = cgs.drop_last();
        let pt = tree.drop_last();
        let n = pc.flatten_alt().len() as int;
        let front = parts.subrange(0, n);
        let back = parts.subrange(n, parts.len() as int);
        assert(cgs.flatten_alt() == pc.flatten_alt() + cgs.last());
        assert forall|j: int| 0 <= j < front.len() implies is_chain::<Cnblock>(
            s,
            pc.flatten_alt()[j].first as int,
            little_endian,
            #[trigger] front[j],
        ) by {
            assert(front[j] == parts[j]);
            assert(cgs.flatten_alt()[j] == pc.flatten_alt()[j]);
        }
        assert forall|i: int, j: int|
            0 <= i < pc.len() && 0 <= j < pc[i].len() implies is_chain::<Cnblock>(
            s,
            pc[i][j].first as int,
            little_endian,
            #[trigger] pt[i][j],
        ) by {
            assert(pt[i] == tree[i]);
            assert(pc[i] == cgs[i]);
        }
        assert forall|i: int| 0 <= i < pc.len() implies (#[trigger] pt[i]).len() == pc[i].len() by {
            assert(pt[i] == tree[i]);
        }
        lemma_channel_parts(s, little_endian, pc, pt, front);
        let last = tree.last();
        assert(cgs.last().len() == last.len()) by {
            assert(tree[tree.len() - 1] == last);
        }
        assert forall|j: int| 0 <= j < back.len() implies back[j] == last[j] by {
            assert(back[j] == parts[n + j]);
            assert(cgs.flatten_alt()[n + j] == cgs.last()[j]);
            assert(is_chain::<Cnblock>(
                s,
                cgs[cgs.len() - 1][j].first as int,
                little_endian,
                tree[tree.len() - 1][j],
            ));
            lemma_checked_chain_unique::<Cnblock>(
                s,
                cgs.last()[j].first as int,
                little_endian,
                back[j],
                last[j],
            );
        }
        assert(back =~= last);
        assert(parts =~= front + back);
    }
}

/// Reading a whole file holds, in order, exactly the channels that its
/// channel list names: the list has one entry for each channel held, and
/// entry `k` carries the name of channel `k` held.
pub proof fn lemma_listed_channels_are_held(
    m: MDF3,
    dgs: Seq<Dgblock>,
    cgs: Seq<Seq<Cgblock>>,
    tree: Seq<Seq<Seq<Cnblock>>>,
)
    requires
        m.leading_blocks_read(),
        m.all_read(),
        file_tree(m.file@, dgs, cgs, tree),
    ensures
        tree_entries(m.file@, m.little_endian, tree).len() == m.channels@.len(),
        forall|k: int|
            0 <= k < m.channels@.len() ==> (#[trigger] tree_entries(
                m.file@,
                m.little_endian,
                tree,
            )[k]).0 == channel_name(
                m.file@,
                m.little_endian,
                m.channels@[k].channel_type,
                m.channels@[k].long_name,
            ),
{
    let s = m.file@;
    let le = m.little_endian;
    let held_dgs = m.data_groups@.map_values(|b: DGBLOCK| b.model());
    let held_cgs = m.channel_groups@.map_values(|b: CGBLOCK| b.model());
    let held_cns = m.channels@.map_values(|b: CNBLOCK| b.model());
    lemma_checked_chain_unique::<Dgblock>(s, first_data_group(s), le, dgs, held_dgs);
    let gparts = choose|parts: Seq<Seq<Cgblock>>|
        {
            &&& parts.len() == held_dgs.len()
            &&& forall|i: int|
                0 <= i < held_dgs.len() ==> is_chain::<Cgblock>(
                    s,
                    held_dgs[i].first as int,
                    le,
                    #[trigger] parts[i],
                )
            &&& held_cgs == parts.flatten()
        };
    assert forall|i: int| 0 <= i < cgs.len() implies gparts[i] == cgs[i] by {
        lemma_checked_chain_unique::<Cgblock>(s, dgs[i].first as int, le, gparts[i], cgs[i]);
    }
    assert(gparts =~= cgs);
    cgs.lemma_flatten_and_flatten_alt_are_equivalent();
    let cparts = choose|parts: Seq<Seq<Cnblock>>|
        {
            &&& parts.len() == held_cgs.len()
            &&& forall|j: int|
                0 <= j < held_cgs.len() ==> is_chain::<Cnblock>(
                    s,
                    held_cgs[j].first as int,
                    le,
                    #[trigger] parts[j],
                )
            &&& held_cns == parts.flatten()
        };
    lemma_channel_parts(s, le, cgs, tree, cparts);
    cparts.lemma_flatten_and_flatten_alt_are_equivalent();
    assert(held_cns == tree_channels(tree));
    lemma_tree_entries_names(s, le, tree);
    assert forall|k: int| 0 <= k < m.channels@.len() implies (#[trigger] tree_entries(
        s,
        le,
        tree,
    )[k]).0 == channel_name(s, le, m.channels@[k].channel_type, m.channels@[k].long_name) by {
        assert(held_cns[k] == m.channels@[k].model());
    }
}

/// Appends an entry for each channel of `cns`, all of data group `dg` and
/// channel group `group`.
fn push_group_channels(
    stream: &[u8],
    little_endian: bool,
    cns: &Vec<CNBLOCK>,
    dg: u64,
    group: u64,
    out: &mut Vec<MdfChannel>,
)
    requires
        indexed(old(out)@),
        forall|k: int|
            0 <= k < cns@.len() ==> channel_name_readable(
                stream@,
                little_endian,
                (#[trigger] cns@[k]).channel_type,
                cns@[k].long_name,
            ),
    ensures
        indexed(final(out)@),
        entries_of(final(out)@) == entries_of(old(out)@) + cns@.map_values(|b: CNBLOCK| b.model()).map_values(
            |cn: Cnblock|
                (
                    channel_name(stream@, little_endian, cn.channel_type, cn.long_name),
                    dg as int,
                    group as int,
                ),
        ),
{
    let ghost start = entries_of(out@);
    let ghost added = cns@.map_values(|b: CNBLOCK| b.model()).map_values(
        |cn: Cnblock|
            (channel_name(stream@, little_endian, cn.channel_type, cn.long_name), dg as int, group as int),
    );
    let mut k: usize = 0;
    while k < cns.len()
        invariant
            k <= cns@.len(),
            indexed(out@),
            forall|x: int|
                0 <= x < cns@.len() ==> channel_name_readable(
                    stream@,
                    little_endian,
                    (#[trigger] cns@[x]).channel_type,
                    cns@[x].long_name,
                ),
            added == cns@.map_values(|b: CNBLOCK| b.model()).map_values(
                |cn: Cnblock|
                    (
                        channel_name(stream@, little_endian, cn.channel_type, cn.long_name),
                        dg as int,
                        group as int,
                    ),
            ),
            entries_of(out@) == start + added.subrange(0, k as int),
        decreases cns@.len() - k,
    {
        let cn = cns[k];
        let name = cn.name(stream, little_endian);
        let channel = out.len() as u64;
        let ghost before = out@;
        out.push(MdfChannel { name, data_group: dg, channel, channel_group: group });
        proof {
            assert(entries_of(out@) =~= entries_of(before).push(added[k as int]));
            assert(start + added.subrange(0, k + 1) =~= (start + added.subrange(0, k as int)).push(
                added[k as int],
            ));
        }
        k = k + 1;
    }
    assert(added.subrange(0, cns@.len() as int) =~= added);
}


/// Appends an entry for each channel of each channel group of `cgs`, all of
/// data group `dg`; every group is added to `groups_seen`, which numbers it.
fn push_data_group_channels(
    stream: &[u8],
    little_endian: bool,
    cgs: &Vec<CGBLOCK>,
    dg: u64,
    groups_seen: &mut Vec<CGBLOCK>,
    out: &mut Vec<MdfChannel>,
)
    requires
        indexed(old(out)@),
        forall|j: int|
            0 <= j < cgs@.len() ==> cn_chain_ends(stream@, (#[trigger] cgs@[j]).first as int, little_endian),
        forall|j: int|
            0 <= j < cgs@.len() ==> cn_names_readable(
                stream@,
                (#[trigger] cgs@[j]).first as int,
                little_endian,
            ),
    ensures
        indexed(final(out)@),
        final(groups_seen)@ == old(groups_seen)@ + cgs@,
        exists|parts: Seq<Seq<Cnblock>>|
            {
                &&& parts.len() == cgs@.len()
                &&& forall|j: int|
                    0 <= j < cgs@.len() ==> is_chain::<Cnblock>(
                        stream@,
                        cgs@[j].first as int,
                        little_endian,
                        #[trigger] parts[j],
                    )
                &&& entries_of(final(out)@) == entries_of(old(out)@) + group_entries(
                    stream@,
                    little_endian,
                    parts,
                    dg as int,
                    old(groups_seen)@.len() as int,
                )
            },
{
    let ghost start = entries_of(out@);
    let ghost first_group = groups_seen@.len() as int;
    let ghost seen_before = groups_seen@;
    let ghost mut parts: Seq<Seq<Cnblock>> = Seq::empty();
    let mut j: usize = 0;
    while j < cgs.len()
        invariant
            j <= cgs@.len(),
            indexed(out@),
            forall|x: int|
                0 <= x < cgs@.len() ==> cn_chain_ends(stream@, (#[trigger] cgs@[x]).first as int, little_endian),
            forall|x: int|
                0 <= x < cgs@.len() ==> cn_names_readable(
                    stream@,
                    (#[trigger] cgs@[x]).first as int,
                    little_endian,
                ),
            groups_seen@ == seen_before + cgs@.subrange(0, j as int),
            first_group == seen_before.len(),
            parts.len() == j,
            forall|x: int|
                0 <= x < j ==> is_chain::<Cnblock>(
                    stream@,
                    cgs@[x].first as int,
                    little_endian,
                    #[trigger] parts[x],
                ),
            entries_of(out@) == start + group_entries(stream@, little_endian, parts, dg as int, first_group),
        decreases cgs@.len() - j,
    {
        let cg_block = cgs[j];
        assert(cn_chain_ends(stream@, cgs@[j as int].first as int, little_endian));
        let cns = cg_block.channels(stream, little_endian);
        let ghost part = cns@.map_values(|b: CNBLOCK| b.model());
        assert forall|k: int| 0 <= k < cns@.len() implies channel_name_readable(
            stream@,
            little_endian,
            (#[trigger] cns@[k]).channel_type,
            cns@[k].long_name,
        ) by {
            assert(cn_names_readable(stream@, cg_block.first as int, little_endian));
            assert(part[k] == cns@[k].model());
        }
        groups_seen.push(cg_block);
        let group = (groups_seen.len() - 1) as u64;
        push_group_channels(stream, little_endian, &cns, dg, group, out);
        proof {
            let old_parts = parts;
            parts = parts.push(part);
            assert(parts.drop_last() =~= old_parts);
            assert(parts.last() == part);
            assert(group as int == first_group + parts.len() - 1);
            assert(cgs@.subrange(0, j + 1) =~= cgs@.subrange(0, j as int).push(cg_block));
            assert(start + group_entries(stream@, little_endian, parts, dg as int, first_group) =~= start
                + group_entries(stream@, little_endian, old_parts, dg as int, first_group)
                + part.map_values(
                |cn: Cnblock|
                    (
                        channel_name(stream@, little_endian, cn.channel_type, cn.long_name),
                        dg as int,
                        group as int,
                    ),
            ));
        }
        j = j + 1;
    }
    assert(cgs@.subrange(0, cgs@.len() as int) =~= cgs@);
}


/// Whether records can be read as data type `d`.
fn is_record_type(d: DataType) -> (r: bool)
    ensures
        r == record_type(d),
{
    match d {
        DataType::UnsignedInt => true,
        DataType::SignedInt => true,
        DataType::Float32 => true,
        DataType::Float64 => true,
        DataType::StringNullTerm => true,
        _ => false,
    }
}

/// Whether the channel group chain at `p`, and each channel chain under it,
/// ends within `limit` blocks.
fn check_cg_tree(stream: &[u8], p: u64, little_endian: bool, limit: usize) -> (r: bool)
    ensures
        r == cg_tree_ends_within(stream@, p as int, little_endian, limit as nat),
{
    if !chain_ends_within::<Cgblock>(stream, p, little_endian, limit) {
        return false;
    }
    let cgs = read_chain::<Cgblock>(stream, p, little_endian);
    let mut j: usize = 0;
    while j < cgs.len()
        invariant
            j <= cgs@.len(),
            is_chain::<Cgblock>(stream@, p as int, little_endian, cgs@),
            forall|x: int|
                0 <= x < j ==> chain_ends::<Cnblock>(
                    stream@,
                    (#[trigger] cgs@[x]).first as int,
                    little_endian,
                    limit as nat,
                ),
        decreases cgs@.len() - j,
    {
        if !chain_ends_within::<Cnblock>(stream, cgs[j].first as u64, little_endian, limit) {
            return false;
        }
        j = j + 1;
    }
    assert forall|other: Seq<Cgblock>, j: int|
        is_chain::<Cgblock>(stream@, p as int, little_endian, other) && 0 <= j < other.len()
            implies chain_ends::<Cnblock>(
            stream@,
            (#[trigger] other[j]).first as int,
            little_endian,
            limit as nat,
        ) by {
        lemma_checked_chain_unique::<Cgblock>(stream@, p as int, little_endian, other, cgs@);
    }
    true
}

/// Whether the channel named by `channel_type` and `long_name` has a name
/// that can be read.
fn name_readable(stream: &[u8], little_endian: bool, channel_type: u16, long_name: u32) -> (r: bool)
    ensures
        r == channel_name_readable(stream@, little_endian, channel_type, long_name),
{
    if channel_type == 1 || long_name == 0 {
        return true;
    }
    TXBLOCK::is_readable(stream, long_name as usize, little_endian)
}

/// Whether every channel of the channel chain at `p` has a name that can be read.
fn cn_names_check(stream: &[u8], p: u64, little_endian: bool) -> (r: bool)
    requires
        cn_chain_ends(stream@, p as int, little_endian),
    ensures
        r == cn_names_readable(stream@, p as int, little_endian),
{
    let cns = read_chain::<Cnblock>(stream, p, little_endian);
    let mut k: usize = 0;
    while k < cns.len()
        invariant
            k <= cns@.len(),
            is_chain::<Cnblock>(stream@, p as int, little_endian, cns@),
            forall|x: int|
                0 <= x < k ==> channel_name_readable(
                    stream@,
                    little_endian,
                    (#[trigger] cns@[x]).channel_type,
                    cns@[x].long_name,
                ),
        decreases cns@.len() - k,
    {
        if !name_readable(stream, little_endian, cns[k].channel_type, cns[k].long_name) {
            return false;
        }
        k = k + 1;
    }
    assert forall|other: Seq<Cnblock>, k: int|
        is_chain::<Cnblock>(stream@, p as int, little_endian, other) && 0 <= k < other.len()
            implies channel_name_readable(
            stream@,
            little_endian,
            (#[trigger] other[k]).channel_type,
            other[k].long_name,
        ) by {
        lemma_checked_chain_unique::<Cnblock>(stream@, p as int, little_endian, other, cns@);
    }
    true
}

/// Whether every channel under the channel group chain at `p` has a name
/// that can be read.
fn cg_names_check(stream: &[u8], p: u64, little_endian: bool) -> (r: bool)
    requires
        cg_tree_ends(stream@, p as int, little_endian),
    ensures
        r == cg_names_readable(stream@, p as int, little_endian),
{
    let cgs = read_chain::<Cgblock>(stream, p, little_endian);
    let mut j: usize = 0;
    while j < cgs.len()
        invariant
            j <= cgs@.len(),
            is_chain::<Cgblock>(stream@, p as int, little_endian, cgs@),
            cg_tree_ends(stream@, p as int, little_endian),
            forall|x: int|
                0 <= x < j ==> cn_names_readable(
                    stream@,
                    (#[trigger] cgs@[x]).first as int,
                    little_endian,
                ),
        decreases cgs@.len() - j,
    {
        assert(cn_chain_ends(stream@, cgs@[j as int].first as int, little_endian));
        if !cn_names_check(stream, cgs[j].first as u64, little_endian) {
            return false;
        }
        j = j + 1;
    }
    assert forall|other: Seq<Cgblock>, j: int|
        is_chain::<Cgblock>(stream@, p as int, little_endian, other) && 0 <= j < other.len()
            implies cn_names_readable(stream@, (#[trigger] other[j]).first as int, little_endian) by {
        lemma_checked_chain_unique::<Cgblock>(stream@, p as int, little_endian, other, cgs@);
    }
    true
}

/// The channel groups of the data groups `dgs`, chain after chain.
fn read_groups(stream: &[u8], little_endian: bool, dgs: &Vec<DGBLOCK>) -> (r: Vec<CGBLOCK>)
    requires
        forall|i: int|
            0 <= i < dgs@.len() ==> cg_tree_ends(
                stream@,
                (#[trigger] dgs@[i]).first as int,
                little_endian,
            ),
    ensures
        groups_of(
            stream@,
            little_endian,
            dgs@.map_values(|b: DGBLOCK| b.model()),
            r@.map_values(|b: CGBLOCK| b.model()),
        ),
        forall|j: int|
            0 <= j < r@.len() ==> cn_chain_ends(stream@, (#[trigger] r@[j]).first as int, little_endian),
{
    let ghost models = dgs@.map_values(|b: DGBLOCK| b.model());
    let mut channel_groups: Vec<CGBLOCK> = Vec::new();
    let ghost mut parts: Seq<Seq<Cgblock>> = Seq::empty();
    let mut i: usize = 0;
    while i < dgs.len()
        invariant
            i <= dgs@.len(),
            models == dgs@.map_values(|b: DGBLOCK| b.model()),
            forall|x: int|
                0 <= x < dgs@.len() ==> cg_tree_ends(
                    stream@,
                    (#[trigger] dgs@[x]).first as int,
                    little_endian,
                ),
            parts.len() == i,
            forall|x: int|
                0 <= x < i ==> is_chain::<Cgblock>(
                    stream@,
                    models[x].first as int,
                    little_endian,
                    #[trigger] parts[x],
                ),
            channel_groups@.map_values(|b: CGBLOCK| b.model()) == parts.flatten_alt(),
            forall|y: int|
                0 <= y < channel_groups@.len() ==> cn_chain_ends(
                    stream@,
                    (#[trigger] channel_groups@[y]).first as int,
                    little_endian,
                ),
        decreases dgs@.len() - i,
    {
        let group = dgs[i];
        assert(cg_tree_ends(stream@, group.first as int, little_endian));
        let mut grp = group.read_channel_groups(stream, little_endian);
        let ghost part = grp@.map_values(|b: CGBLOCK| b.model());
        let ghost before = channel_groups@;
        assert forall|j: int| 0 <= j < grp@.len() implies cn_chain_ends(
            stream@,
            (#[trigger] grp@[j]).first as int,
            little_endian,
        ) by {
            assert(part[j] == grp@[j].model());
            assert(is_chain::<Cgblock>(stream@, group.first as int, little_endian, part));
        }
        channel_groups.append(&mut grp);
        proof {
            let old_parts = parts;
            parts = parts.push(part);
            assert(parts.drop_last() =~= old_parts);
            assert(channel_groups@.map_values(|b: CGBLOCK| b.model()) =~= before.map_values(
                |b: CGBLOCK| b.model(),
            ) + part);
            assert(models[i as int] == group.model());
        }
        i = i + 1;
    }
    proof {
        parts.lemma_flatten_and_flatten_alt_are_equivalent();
        assert(models.len() == parts.len());
    }
    channel_groups
}

/// The channels of the channel groups `cgs`, chain after chain.
fn read_channels(stream: &[u8], little_endian: bool, cgs: &Vec<CGBLOCK>) -> (r: Vec<CNBLOCK>)
    requires
        forall|j: int|
            0 <= j < cgs@.len() ==> cn_chain_ends(
                stream@,
                (#[trigger] cgs@[j]).first as int,
                little_endian,
            ),
    ensures
        channels_of(
            stream@,
            little_endian,
            cgs@.map_values(|b: CGBLOCK| b.model()),
            r@.map_values(|b: CNBLOCK| b.model()),
        ),
{
    let ghost models = cgs@.map_values(|b: CGBLOCK| b.model());
    let mut channels: Vec<CNBLOCK> = Vec::new();
    let ghost mut parts: Seq<Seq<Cnblock>> = Seq::empty();
    let mut j: usize = 0;
    while j < cgs.len()
        invariant
            j <= cgs@.len(),
            models == cgs@.map_values(|b: CGBLOCK| b.model()),
            forall|x: int|
                0 <= x < cgs@.len() ==> cn_chain_ends(
                    stream@,
                    (#[trigger] cgs@[x]).first as int,
                    little_endian,
                ),
            parts.len() == j,
            forall|x: int|
                0 <= x < j ==> is_chain::<Cnblock>(
                    stream@,
                    models[x].first as int,
                    little_endian,
                    #[trigger] parts[x],
                ),
            channels@.map_values(|b: CNBLOCK| b.model()) == parts.flatten_alt(),
        decreases cgs@.len() - j,
    {
        let grp = cgs[j];
        let mut chans = grp.channels(stream, little_endian);
        let ghost part = chans@.map_values(|b: CNBLOCK| b.model());
        let ghost before = channels@;
        channels.append(&mut chans);
        proof {
            let old_parts = parts;
            parts = parts.push(part);
            assert(parts.drop_last() =~= old_parts);
            assert(channels@.map_values(|b: CNBLOCK| b.model()) =~= before.map_values(
                |b: CNBLOCK| b.model(),
            ) + part);
            assert(models[j as int] == grp.model());
        }
        j = j + 1;
    }
    proof {
        parts.lemma_flatten_and_flatten_alt_are_equivalent();
    }
    channels
}

/// An MDF version 3 file held in memory with what was read of it: its
/// leading blocks, its data groups, and all channel groups and channels
/// under them.
#[derive(Debug, Clone)]
pub struct MDF3 {
    pub id: IDBLOCK,
    pub header: HDBLOCK,
    pub comment: TXBLOCK,
    pub data_groups: Vec<DGBLOCK>,
    pub channels: Vec<CNBLOCK>,
    pub channel_groups: Vec<CGBLOCK>,
    pub little_endian: bool,
    pub file: Vec<u8>,
}

impl MDF3 {
    /// The channel groups and channels held are those of the data groups held.
    pub open spec fn all_read(self) -> bool {
        &&& groups_of(
            self.file@,
            self.little_endian,
            self.data_groups@.map_values(|b: DGBLOCK| b.model()),
            self.channel_groups@.map_values(|b: CGBLOCK| b.model()),
        )
        &&& channels_of(
            self.file@,
            self.little_endian,
            self.channel_groups@.map_values(|b: CGBLOCK| b.model()),
            self.channels@.map_values(|b: CNBLOCK| b.model()),
        )
    }

    /// `read_channel` can read channel `channel` of channel group
    /// `channel_grp` from the data of data group `datagroup`, once the
    /// group's channel chain, read as little endian, is known to end: the
    /// indexes are held, the records lie inside the file, and the value of
    /// the channel is of a type that records hold and lies inside a record.
    pub open spec fn channel_readable(self, datagroup: int, channel_grp: int, channel: int) -> bool {
        let group = self.channel_groups@[channel_grp];
        &&& 0 <= datagroup < self.data_groups@.len()
        &&& 0 <= channel_grp < self.channel_groups@.len()
        &&& 0 <= channel < self.channels@.len()
        &&& group.record_number * group.record_size <= u32::MAX
        &&& self.data_groups@[datagroup].data_block + group.record_number * group.record_size
            <= self.file@.len()
        &&& forall|cns: Seq<Cnblock>|
            #![trigger is_chain::<Cnblock>(self.file@, group.first as int, true, cns)]
            is_chain::<Cnblock>(self.file@, group.first as int, true, cns) ==> {
                &&& channel < cns.len()
                &&& group.record_number > 0 ==> {
                    &&& record_type(cns[channel].data_type.data_type)
                    &&& self.channels@[channel].start_offset / 8
                        + cns[channel].data_type.data_type.byte_width() <= group.record_size
                }
            }
    }

    /// The leading blocks and data groups held are those of `file`.
    pub open spec fn leading_blocks_read(self) -> bool {
        let s = self.file@;
        let little_endian = file_little_endian(s);
        &&& id_fields(s, self.id.model())
        &&& self.little_endian == little_endian
        &&& hd_fields(s, 64, little_endian, self.header)
        &&& tx_fields(s, file_comment_at(s), little_endian, self.comment)
        &&& is_chain::<Dgblock>(
            s,
            first_data_group(s),
            little_endian,
            self.data_groups@.map_values(|b: DGBLOCK| b.model()),
        )
    }


    /// Whether `stream` holds an MDF version 3 file that `from_stream` can
    /// read, following each chain for at most as many blocks as the file
    /// has bytes.
    pub fn is_readable(stream: &[u8]) -> (r: bool)
        ensures
            r == mdf3_readable_within(stream@, stream@.len()),
            r ==> mdf3_readable(stream@),
    {
        if !is_id_block(stream) {
            return false;
        }
        let (_id, position, little_endian) = IDBLOCK::read(stream);
        if !(check_fits(stream, position, 208) && check_tag(stream, position, 0x48, 0x44)) {
            return false;
        }
        let (header, _pos) = HDBLOCK::read(stream, position, little_endian);
        if !TXBLOCK::is_readable(stream, header.file_comment as usize, little_endian) {
            return false;
        }
        let limit = stream.len();
        let first = header.data_group_block as u64;
        if !chain_ends_within::<Dgblock>(stream, first, little_endian, limit) {
            return false;
        }
        let dgs = read_chain::<Dgblock>(stream, first, little_endian);
        let mut i: usize = 0;
        while i < dgs.len()
            invariant
                i <= dgs@.len(),
                limit == stream@.len(),
                first == first_data_group(stream@),
                little_endian == file_little_endian(stream@),
                is_chain::<Dgblock>(stream@, first as int, little_endian, dgs@),
                forall|x: int|
                    0 <= x < i ==> cg_tree_ends_within(
                        stream@,
                        (#[trigger] dgs@[x]).first as int,
                        little_endian,
                        limit as nat,
                    ),
            decreases dgs@.len() - i,
        {
            if !check_cg_tree(stream, dgs[i].first as u64, little_endian, limit) {
                assert(!dg_tree_ends_within(stream@, first as int, little_endian, limit as nat)) by {
                    assert(is_chain::<Dgblock>(stream@, first as int, little_endian, dgs@));
                    assert(!cg_tree_ends_within(
                        stream@,
                        dgs@[i as int].first as int,
                        little_endian,
                        limit as nat,
                    ));
                }
                return false;
            }
            i = i + 1;
        }
        assert forall|other: Seq<Dgblock>, i: int|
            is_chain::<Dgblock>(stream@, first as int, little_endian, other) && 0 <= i < other.len()
                implies cg_tree_ends_within(
                stream@,
                (#[trigger] other[i]).first as int,
                little_endian,
                limit as nat,
            ) by {
            lemma_checked_chain_unique::<Dgblock>(stream@, first as int, little_endian, other, dgs@);
        }
        proof {
            lemma_dg_tree_within_ends(stream@, first as int, little_endian, limit as nat);
        }
        true
    }

    /// Whether every channel of the file held has a name that `channels`
    /// can read.
    pub fn names_are_readable(&self) -> (r: bool)
        requires
            mdf3_readable(self.file@),
        ensures
            r == names_readable(self.file@),
    {
        let stream = self.file.as_slice();
        let (_id, position, little_endian) = IDBLOCK::read(stream);
        let (header, _pos) = HDBLOCK::read(stream, position, little_endian);
        let first = header.data_group_block as u64;
        let dgs = read_chain::<Dgblock>(stream, first, little_endian);
        let mut i: usize = 0;
        while i < dgs.len()
            invariant
                i <= dgs@.len(),
                stream@ == self.file@,
                little_endian == file_little_endian(stream@),
                first == first_data_group(stream@),
                is_chain::<Dgblock>(stream@, first as int, little_endian, dgs@),
                dg_tree_ends(stream@, first as int, little_endian),
                forall|x: int|
                    0 <= x < i ==> cg_names_readable(
                        stream@,
                        (#[trigger] dgs@[x]).first as int,
                        little_endian,
                    ),
            decreases dgs@.len() - i,
        {
            assert(cg_tree_ends(stream@, dgs@[i as int].first as int, little_endian));
            if !cg_names_check(stream, dgs[i].first as u64, little_endian) {
                assert(!names_readable(stream@)) by {
                    assert(is_chain::<Dgblock>(stream@, first as int, little_endian, dgs@));
                    assert(!cg_names_readable(stream@, dgs@[i as int].first as int, little_endian));
                }
                return false;
            }
            i = i + 1;
        }
        assert forall|other: Seq<Dgblock>, i: int|
            is_chain::<Dgblock>(stream@, first as int, little_endian, other) && 0 <= i < other.len()
                implies cg_names_readable(
                stream@,
                (#[trigger] other[i]).first as int,
                little_endian,
            ) by {
            lemma_checked_chain_unique::<Dgblock>(stream@, first as int, little_endian, other, dgs@);
        }
        true
    }

    /// Whether the channel group chain of every data group held, and each
    /// channel chain under it, ends within as many blocks as the file has
    /// bytes; `read_all` needs them to end.
    pub fn groups_are_readable(&self) -> (r: bool)
        ensures
            r == forall|i: int|
                0 <= i < self.data_groups@.len() ==> cg_tree_ends_within(
                    self.file@,
                    (#[trigger] self.data_groups@[i]).first as int,
                    self.little_endian,
                    self.file@.len(),
                ),
            r ==> forall|i: int|
                0 <= i < self.data_groups@.len() ==> cg_tree_ends(
                    self.file@,
                    (#[trigger] self.data_groups@[i]).first as int,
                    self.little_endian,
                ),
    {
        let mut i: usize = 0;
        while i < self.data_groups.len()
            invariant
                i <= self.data_groups@.len(),
                forall|x: int|
                    0 <= x < i ==> cg_tree_ends_within(
                        self.file@,
                        (#[trigger] self.data_groups@[x]).first as int,
                        self.little_endian,
                        self.file@.len(),
                    ),
            decreases self.data_groups@.len() - i,
        {
            if !check_cg_tree(
                self.file.as_slice(),
                self.data_groups[i].first as u64,
                self.little_endian,
                self.file.len(),
            ) {
                return false;
            }
            i = i + 1;
        }
        assert forall|x: int| 0 <= x < self.data_groups@.len() implies cg_tree_ends(
            self.file@,
            (#[trigger] self.data_groups@[x]).first as int,
            self.little_endian,
        ) by {
            lemma_cg_tree_within_ends(
                self.file@,
                self.data_groups@[x].first as int,
                self.little_endian,
                self.file@.len(),
            );
        }
        true
    }

    /// Whether channel group `channel_grp` is held and its channel chain,
    /// read in byte order `little_endian`, ends within as many blocks as the
    /// file has bytes.
    pub fn group_is_readable(&self, channel_grp: usize, little_endian: bool) -> (r: bool)
        ensures
            r == (channel_grp < self.channel_groups@.len() && chain_ends::<Cnblock>(
                self.file@,
                self.channel_groups@[channel_grp as int].first as int,
                little_endian,
                self.file@.len(),
            )),
            r ==> channel_grp < self.channel_groups@.len() && cn_chain_ends(
                self.file@,
                self.channel_groups@[channel_grp as int].first as int,
                little_endian,
            ),
    {
        channel_grp < self.channel_groups.len() && chain_ends_within::<Cnblock>(
            self.file.as_slice(),
            self.channel_groups[channel_grp].first as u64,
            little_endian,
            self.file.len(),
        )
    }

    /// Whether `read_channel` can read channel `channel` of channel group
    /// `channel_grp` from the data of data group `datagroup`, following the
    /// group's channel chain for at most as many blocks as the file has
    /// bytes.
    pub fn channel_is_readable(&self, datagroup: usize, channel_grp: usize, channel: usize) -> (r:
        bool)
        ensures
            r == (channel_grp < self.channel_groups@.len() && chain_ends::<Cnblock>(
                self.file@,
                self.channel_groups@[channel_grp as int].first as int,
                true,
                self.file@.len(),
            ) && self.channel_readable(datagroup as int, channel_grp as int, channel as int)),
            r ==> cn_chain_ends(
                self.file@,
                self.channel_groups@[channel_grp as int].first as int,
                true,
            ),
    {
        if datagroup >= self.data_groups.len() || channel_grp >= self.channel_groups.len()
            || channel >= self.channels.len() {
            return false;
        }
        let stream = self.file.as_slice();
        let group = self.channel_groups[channel_grp];
        if !chain_ends_within::<Cnblock>(stream, group.first as u64, true, stream.len()) {
            return false;
        }
        let record_number = group.record_number as u64;
        let record_size = group.record_size as u64;
        assert(record_number * record_size <= 0xffff_ffff * 0xffff) by (nonlinear_arith)
            requires
                record_number <= 0xffff_ffff,
                record_size <= 0xffff,
        ;
        let data_length = record_number * record_size;
        if data_length > 0xffff_ffffu64 {
            return false;
        }
        let data_start = self.data_groups[datagroup].data_block as u64;
        if data_start + data_length > stream.len() as u64 {
            return false;
        }
        let cns = read_chain::<Cnblock>(stream, group.first as u64, true);
        if channel >= cns.len() {
            return false;
        }
        if record_number > 0 {
            let dtype = cns[channel].data_type;
            if !is_record_type(dtype.data_type) {
                return false;
            }
            let byte_offset = (self.channels[channel].start_offset / 8) as u64;
            if byte_offset + dtype.len() as u64 > record_size {
                return false;
            }
        }
        assert forall|other: Seq<Cnblock>|
            is_chain::<Cnblock>(self.file@, group.first as int, true, other) implies other
            == cns@ by {
            lemma_checked_chain_unique::<Cnblock>(self.file@, group.first as int, true, other, cns@);
        }
        true
    }

    /// Reads the file held in `stream`: its identification, header and
    /// comment blocks, its data groups, and every channel group and channel.
    pub fn from_stream(stream: Vec<u8>) -> (r: MDF3)
        requires
            mdf3_readable(stream@),
        ensures
            r.file@ == stream@,
            r.leading_blocks_read(),
            r.all_read(),
    {
        let (id, pos, little_endian) = IDBLOCK::read(stream.as_slice());
        let (header, _pos) = HDBLOCK::read(stream.as_slice(), pos, little_endian);
        let (comment, _pos) = TXBLOCK::read(
            stream.as_slice(),
            header.file_comment as usize,
            little_endian,
        );
        let data_groups = DGBLOCK::read_all(
            stream.as_slice(),
            little_endian,
            header.data_group_block as usize,
        );
        let mut mdf = MDF3 {
            id,
            header,
            comment,
            data_groups,
            channels: Vec::new(),
            channel_groups: Vec::new(),
            little_endian,
            file: stream,
        };
        proof {
            let s = mdf.file@;
            let dgs = mdf.data_groups@.map_values(|b: DGBLOCK| b.model());
            assert forall|i: int| 0 <= i < mdf.data_groups@.len() implies cg_tree_ends(
                s,
                (#[trigger] mdf.data_groups@[i]).first as int,
                little_endian,
            ) by {
                assert(dgs[i] == mdf.data_groups@[i].model());
            }
        }
        mdf.read_all();
        mdf
    }


    /// Every channel of the file, in file order, with its name and the
    /// indexes of its data group, of its channel group among all channel
    /// groups of the file, and of itself among all channels of the file.
    /// The file is walked afresh from its header block.
    pub fn channels(&self) -> (r: Vec<MdfChannel>)
        requires
            mdf3_readable(self.file@),
            names_readable(self.file@),
        ensures
            indexed(r@),
            exists|dgs: Seq<Dgblock>, cgs: Seq<Seq<Cgblock>>, tree: Seq<Seq<Seq<Cnblock>>>|
                {
                    &&& file_tree(self.file@, dgs, cgs, tree)
                    &&& entries_of(r@) == tree_entries(
                        self.file@,
                        file_little_endian(self.file@),
                        tree,
                    )
                },
    {
        let stream = self.file.as_slice();
        let (_id_block, position, little_endian) = IDBLOCK::read(stream);
        let (hd_block, _pos) = HDBLOCK::read(stream, position, little_endian);
        let dg = DGBLOCK::read_all(stream, little_endian, hd_block.data_group_block as usize);
        let ghost s = stream@;
        let ghost dgs = dg@.map_values(|b: DGBLOCK| b.model());
        let mut channels: Vec<MdfChannel> = Vec::new();
        let mut cg: Vec<CGBLOCK> = Vec::new();
        let ghost mut cg_parts: Seq<Seq<Cgblock>> = Seq::empty();
        let ghost mut tree: Seq<Seq<Seq<Cnblock>>> = Seq::empty();
        let mut i: usize = 0;
        while i < dg.len()
            invariant
                i <= dg@.len(),
                s == stream@,
                little_endian == file_little_endian(s),
                dgs == dg@.map_values(|b: DGBLOCK| b.model()),
                is_chain::<Dgblock>(s, first_data_group(s), little_endian, dgs),
                dg_tree_ends(s, first_data_group(s), little_endian),
                names_readable(s),
                indexed(channels@),
                cg_parts.len() == i,
                tree.len() == i,
                cg@.len() == group_count(tree),
                forall|x: int|
                    0 <= x < i ==> is_chain::<Cgblock>(
                        s,
                        dgs[x].first as int,
                        little_endian,
                        #[trigger] cg_parts[x],
                    ),
                forall|x: int| 0 <= x < i ==> (#[trigger] tree[x]).len() == cg_parts[x].len(),
                forall|x: int, y: int|
                    0 <= x < i && 0 <= y < cg_parts[x].len() ==> is_chain::<Cnblock>(
                        s,
                        cg_parts[x][y].first as int,
                        little_endian,
                        #[trigger] tree[x][y],
                    ),
                entries_of(channels@) == tree_entries(s, little_endian, tree),
            decreases dg@.len() - i,
        {
            let dg_block = dg[i];
            assert(dgs[i as int] == dg_block.model());
            assert(cg_tree_ends(s, dg_block.first as int, little_endian));
            assert(cg_names_readable(s, dg_block.first as int, little_endian));
            let cgs = dg_block.read_channel_groups(stream, little_endian);
            let ghost part = cgs@.map_values(|b: CGBLOCK| b.model());
            assert forall|j: int| 0 <= j < cgs@.len() implies cn_chain_ends(
                s,
                (#[trigger] cgs@[j]).first as int,
                little_endian,
            ) && cn_names_readable(s, cgs@[j].first as int, little_endian) by {
                assert(part[j] == cgs@[j].model());
            }
            let ghost seen = cg@.len() as int;
            push_data_group_channels(stream, little_endian, &cgs, i as u64, &mut cg, &mut channels);
            proof {
                let groups = choose|groups: Seq<Seq<Cnblock>>|
                    {
                        &&& groups.len() == cgs@.len()
                        &&& forall|j: int|
                            0 <= j < cgs@.len() ==> is_chain::<Cnblock>(
                                s,
                                cgs@[j].first as int,
                                little_endian,
                                #[trigger] groups[j],
                            )
                        &&& entries_of(channels@) == tree_entries(s, little_endian, tree)
                            + group_entries(s, little_endian, groups, i as int, seen)
                    };
                let old_tree = tree;
                let old_parts = cg_parts;
                cg_parts = cg_parts.push(part);
                tree = tree.push(groups);
                assert(tree.drop_last() =~= old_tree);
                assert(tree.last() == groups);
                assert forall|x: int, y: int|
                    0 <= x < i + 1 && 0 <= y < cg_parts[x].len() implies is_chain::<Cnblock>(
                    s,
                    cg_parts[x][y].first as int,
                    little_endian,
                    #[trigger] tree[x][y],
                ) by {
                    if x == i {
                        assert(part[y] == cgs@[y].model());
                    } else {
                        assert(cg_parts[x] == old_parts[x]);
                        assert(tree[x] == old_tree[x]);
                    }
                }
            }
            i = i + 1;
        }
        assert(file_tree(s, dgs, cg_parts, tree));
        channels
    }


    /// The index, within its channel group, of the first time channel of
    /// channel group `channel_grp`; fails where the group has none.
    pub fn find_time_channel(&self, _datagroup: usize, channel_grp: usize) -> (r: Result<
        usize,
        &'static str,
    >)
        requires
            channel_grp < self.channel_groups@.len(),
            cn_chain_ends(
                self.file@,
                self.channel_groups@[channel_grp as int].first as int,
                self.little_endian,
            ),
        ensures
            exists|cns: Seq<Cnblock>|
                {
                    &&& is_chain::<Cnblock>(
                        self.file@,
                        self.channel_groups@[channel_grp as int].first as int,
                        self.little_endian,
                        cns,
                    )
                    &&& match r {
                        Ok(i) => {
                            &&& i < cns.len()
                            &&& cns[i as int].channel_type == TIME_CHANNEL_TYPE
                            &&& forall|j: int|
                                0 <= j < i ==> (#[trigger] cns[j]).channel_type != TIME_CHANNEL_TYPE
                        },
                        Err(e) => {
                            &&& e == "No time series found for the channel selected"
                            &&& forall|j: int|
                                0 <= j < cns.len() ==> (#[trigger] cns[j]).channel_type
                                    != TIME_CHANNEL_TYPE
                        },
                    }
                },
    {
        let channel_group = self.channel_groups[channel_grp].channels(
            self.file.as_slice(),
            self.little_endian,
        );
        let ghost cns = channel_group@.map_values(|b: CNBLOCK| b.model());
        let mut i: usize = 0;
        while i < channel_group.len()
            invariant
                i <= channel_group@.len(),
                cns == channel_group@.map_values(|b: CNBLOCK| b.model()),
                is_chain::<Cnblock>(
                    self.file@,
                    self.channel_groups@[channel_grp as int].first as int,
                    self.little_endian,
                    cns,
                ),
                forall|j: int| 0 <= j < i ==> (#[trigger] cns[j]).channel_type != TIME_CHANNEL_TYPE,
            decreases channel_group@.len() - i,
        {
            assert(cns[i as int] == channel_group@[i as int].model());
            if channel_group[i].channel_type == TIME_CHANNEL_TYPE {
                return Ok(i);
            }
            i = i + 1;
        }
        assert(is_chain::<Cnblock>(
            self.file@,
            self.channel_groups@[channel_grp as int].first as int,
            self.little_endian,
            cns,
        ));
        Err("No time series found for the channel selected")
    }

    /// The values of channel `channel` in each record of channel group
    /// `channel_grp`, whose records lie at the data block of data group
    /// `datagroup`. The group's channels are read as little endian; the
    /// value's byte offset is taken from channel `channel` of all channels
    /// held, its data type from channel `channel` of the group.
    pub fn read_channel(&self, datagroup: usize, channel_grp: usize, channel: usize) -> (r: Vec<
        Record,
    >)
        requires
            cn_chain_ends(self.file@, self.channel_groups@[channel_grp as int].first as int, true),
            self.channel_readable(datagroup as int, channel_grp as int, channel as int),
        ensures
            exists|cns: Seq<Cnblock>|
                #![trigger is_chain::<Cnblock>(self.file@, self.channel_groups@[channel_grp as int].first as int, true, cns)]
                {
                    let group = self.channel_groups@[channel_grp as int];
                    let start = self.data_groups@[datagroup as int].data_block as int
                        + self.channels@[channel as int].start_offset / 8;
                    let dtype = cns[channel as int].data_type;
                    &&& is_chain::<Cnblock>(self.file@, group.first as int, true, cns)
                    &&& r@.len() == group.record_number
                    &&& forall|i: int|
                        0 <= i < r@.len() ==> is_record_of(
                            #[trigger] r@[i],
                            self.file@.subrange(
                                start + i * group.record_size,
                                start + i * group.record_size + dtype.data_type.byte_width(),
                            ),
                            dtype,
                        )
                },
    {
        let stream = self.file.as_slice();
        let group = self.channel_groups[channel_grp];
        let channels = group.channels(stream, true);
        let ghost cns = channels@.map_values(|b: CNBLOCK| b.model());
        let record_number = group.record_number;
        let record_size = group.record_size as usize;
        let data_length = (record_number * group.record_size as u32) as usize;
        let data_start = self.data_groups[datagroup].data_block as usize;
        let byte_offset = (self.channels[channel].start_offset / 8) as usize;
        assert(cns[channel as int] == channels@[channel as int].model());
        let dtype = channels[channel].data_type;
        let width = dtype.len();
        assert(is_chain::<Cnblock>(self.file@, group.first as int, true, cns));
        let ghost start = data_start + byte_offset;
        let mut extracted: Vec<Record> = Vec::new();
        let mut pos: usize = 0;
        let mut i: u32 = 0;
        while i < record_number
            invariant
                i <= record_number,
                record_number == group.record_number,
                record_size == group.record_size,
                record_number * record_size <= u32::MAX,
                data_start + record_number * record_size <= stream@.len(),
                record_number > 0 ==> record_type(dtype.data_type) && byte_offset + width
                    <= record_size,
                width == dtype.data_type.byte_width(),
                start == data_start + byte_offset,
                pos == i * record_size,
                extracted@.len() == i,
                forall|x: int|
                    0 <= x < i ==> is_record_of(
                        #[trigger] extracted@[x],
                        stream@.subrange(start + x * record_size, start + x * record_size + width),
                        dtype,
                    ),
            decreases record_number - i,
        {
            assert(pos + record_size <= record_number * record_size) by (nonlinear_arith)
                requires
                    pos == i * record_size,
                    i < record_number,
            ;
            let total = stream.len();
            assert(byte_offset + width <= record_size);
            assert(data_start + pos + byte_offset + width <= stream@.len());
            let raw = copy_bytes(stream, data_start + pos + byte_offset, width);
            let value = Record::new(raw.as_slice(), dtype);
            extracted.push(value);
            proof {
                assert(extracted@[i as int] == value);
            }
            pos = pos + record_size;
            i = i + 1;
            assert(pos == i * record_size) by (nonlinear_arith)
                requires
                    pos == (i - 1) * record_size + record_size,
            ;
        }
        extracted
    }

    /// Reads again the data groups of the file, from its header block, and
    /// keeps them in place of those held.
    pub fn list(&mut self)
        requires
            id_readable(old(self).file@),
            hd_readable(old(self).file@, 64),
            exists|fuel: nat|
                chain_ends::<Dgblock>(
                    old(self).file@,
                    first_data_group(old(self).file@),
                    file_little_endian(old(self).file@),
                    fuel,
                ),
        ensures
            final(self).id == old(self).id,
            final(self).header == old(self).header,
            final(self).comment == old(self).comment,
            final(self).channels == old(self).channels,
            final(self).channel_groups == old(self).channel_groups,
            final(self).little_endian == old(self).little_endian,
            final(self).file == old(self).file,
            is_chain::<Dgblock>(
                final(self).file@,
                first_data_group(final(self).file@),
                file_little_endian(final(self).file@),
                final(self).data_groups@.map_values(|b: DGBLOCK| b.model()),
            ),
    {
        let (_id_block, position, little_endian) = IDBLOCK::read(self.file.as_slice());
        let (hd_block, _pos) = HDBLOCK::read(self.file.as_slice(), position, little_endian);
        let dg = DGBLOCK::read_all(
            self.file.as_slice(),
            little_endian,
            hd_block.data_group_block as usize,
        );
        self.data_groups = dg;
    }

    /// The comment links of every channel group of the file, in file order,
    /// walking the file afresh from its header block.
    pub fn list_channels(&self) -> (r: Vec<u32>)
        requires
            mdf3_readable(self.file@),
        ensures
            exists|dgs: Seq<Dgblock>, cgs: Seq<Cgblock>|
                {
                    &&& is_chain::<Dgblock>(
                        self.file@,
                        first_data_group(self.file@),
                        file_little_endian(self.file@),
                        dgs,
                    )
                    &&& groups_of(self.file@, file_little_endian(self.file@), dgs, cgs)
                    &&& r@ == cgs.map_values(|b: Cgblock| b.comment)
                },
    {
        let stream = self.file.as_slice();
        let (_id_block, position, little_endian) = IDBLOCK::read(stream);
        let (hd_block, _pos) = HDBLOCK::read(stream, position, little_endian);
        let dg = DGBLOCK::read_all(stream, little_endian, hd_block.data_group_block as usize);
        let ghost dgs = dg@.map_values(|b: DGBLOCK| b.model());
        assert forall|i: int| 0 <= i < dg@.len() implies cg_tree_ends(
            stream@,
            (#[trigger] dg@[i]).first as int,
            little_endian,
        ) by {
            assert(dgs[i] == dg@[i].model());
        }
        let cg = read_groups(stream, little_endian, &dg);
        let mut comments: Vec<u32> = Vec::new();
        let mut j: usize = 0;
        while j < cg.len()
            invariant
                j <= cg@.len(),
                comments@ == cg@.map_values(|b: CGBLOCK| b.model()).map_values(
                    |b: Cgblock| b.comment,
                ).subrange(0, j as int),
            decreases cg@.len() - j,
        {
            comments.push(cg[j].comment);
            j = j + 1;
            assert(comments@ =~= cg@.map_values(|b: CGBLOCK| b.model()).map_values(
                |b: Cgblock| b.comment,
            ).subrange(0, j as int));
        }
        assert(comments@ =~= cg@.map_values(|b: CGBLOCK| b.model()).map_values(
            |b: Cgblock| b.comment,
        ));
        comments
    }

    /// Reads the channel groups of every data group held, chain after chain,
    /// and the channels of each of those groups; keeps them in place of what
    /// was held.
    pub fn read_all(&mut self)
        requires
            forall|i: int|
                0 <= i < old(self).data_groups@.len() ==> cg_tree_ends(
                    old(self).file@,
                    (#[trigger] old(self).data_groups@[i]).first as int,
                    old(self).little_endian,
                ),
        ensures
            final(self).id == old(self).id,
            final(self).header == old(self).header,
            final(self).comment == old(self).comment,
            final(self).data_groups == old(self).data_groups,
            final(self).little_endian == old(self).little_endian,
            final(self).file == old(self).file,
            final(self).all_read(),
    {
        let channel_groups = read_groups(self.file.as_slice(), self.little_endian, &self.data_groups);
        let channels = read_channels(self.file.as_slice(), self.little_endian, &channel_groups);
        self.channel_groups = channel_groups;
        self.channels = channels;
    }
}

} // verus!
