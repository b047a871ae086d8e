//! A whole MDF version 4 file held in memory: its leading blocks and the
//! chains of data groups, channel groups and channels. The file is read as
//! little endian throughout.
use crate::mdf::{entries_of, group_count, indexed, MdfChannel};
use crate::mdf4::block::{
    chain_ends, chain_ends_within, is_chain, lemma_checked_chain_unique, read_chain, Block,
};
use crate::mdf4::cg_block::Cgblock;
use crate::mdf4::cn_block::{lemma_cn_chains_agree, same_channel, Cnblock};
use crate::mdf4::dg_block::Dgblock;
use crate::mdf4::hd_block::{hd_fields, Hdblock};
use crate::mdf4::id_block::{id_fields, Idblock};
use crate::mdf4::md_block::{md_payload, md_readable, Mdblock};
use crate::mdf4::mdf4_enums::ChannelType;
use crate::mdf4::utils::until_nul;
use crate::record::Record;
use crate::utils::u64_at;
use vstd::prelude::*;
use vstd::string::StringExecFns;
use vstd::utf8::{decode_utf8, encode_utf8};

verus! {

/// Where the header block, which follows the identification block, puts the
/// first data group.
pub open spec fn first_data_group(s: Seq<u8>) -> int {
    u64_at(s, 88, true) as int
}

/// Where the header block puts the file's comment.
pub open spec fn file_comment_at(s: Seq<u8>) -> int {
    u64_at(s, 128, true) as int
}

/// The channel block `cn` has, after its attachment links, the three links
/// of a default X axis, whether or not its flags ask for one; the whole-file
/// reader takes them from every channel.
pub open spec fn cn_links_complete(cn: Cnblock) -> bool {
    cn.header.link_count >= 11 + cn.attachment_nr
}

/// The channel chain at `p` ends, and each of its channels has the links of
/// a default X axis.
pub open spec fn cn_chain_readable(s: Seq<u8>, p: int, little_endian: bool) -> bool {
    &&& exists|fuel: nat| chain_ends::<Cnblock>(s, p, little_endian, fuel)
    &&& forall|cns: Seq<Cnblock>, k: int|
        #![trigger is_chain::<Cnblock>(s, p, little_endian, cns), cns[k]]
        is_chain::<Cnblock>(s, p, little_endian, cns) && 0 <= k < cns.len() ==> cn_links_complete(
            cns[k],
        )
}

/// Like `cn_chain_readable`, with the chain ending within `limit` blocks.
pub open spec fn cn_chain_readable_within(s: Seq<u8>, p: int, little_endian: bool, limit: nat) -> bool {
    &&& chain_ends::<Cnblock>(s, p, little_endian, limit)
    &&& forall|cns: Seq<Cnblock>, k: int|
        #![trigger is_chain::<Cnblock>(s, p, little_endian, cns), cns[k]]
        is_chain::<Cnblock>(s, p, little_endian, cns) && 0 <= k < cns.len() ==> cn_links_complete(
            cns[k],
        )
}

/// The channel group chain at `p` ends, and so does the channel chain of each
/// of its groups.
pub open spec fn cg_tree_ends(s: Seq<u8>, p: int, little_endian: bool) -> bool {
    &&& exists|fuel: nat| chain_ends::<Cgblock>(s, p, little_endian, fuel)
    &&& forall|cgs: Seq<Cgblock>, j: int|
        #![trigger is_chain::<Cgblock>(s, p, little_endian, cgs), cgs[j]]
        is_chain::<Cgblock>(s, p, little_endian, cgs) && 0 <= j < cgs.len() ==> cn_chain_readable(
            s,
            cgs[j].cg_cn_first as int,
            little_endian,
        )
}

/// The data group chain at `p` ends, and so does every chain under it.
pub open spec fn dg_tree_ends(s: Seq<u8>, p: int, little_endian: bool) -> bool {
    &&& exists|fuel: nat| chain_ends::<Dgblock>(s, p, little_endian, fuel)
    &&& forall|dgs: Seq<Dgblock>, i: int|
        #![trigger is_chain::<Dgblock>(s, p, little_endian, dgs), dgs[i]]
        is_chain::<Dgblock>(s, p, little_endian, dgs) && 0 <= i < dgs.len() ==> cg_tree_ends(
            s,
            dgs[i].dg_cg_first as int,
            little_endian,
        )
}

/// The channel group chain at `p`, and the channel chain of each of its
/// groups, end within `limit` blocks each.
pub open spec fn cg_tree_ends_within(s: Seq<u8>, p: int, little_endian: bool, limit: nat) -> bool {
    &&& chain_ends::<Cgblock>(s, p, little_endian, limit)
    &&& forall|cgs: Seq<Cgblock>, j: int|
        #![trigger is_chain::<Cgblock>(s, p, little_endian, cgs), cgs[j]]
        is_chain::<Cgblock>(s, p, little_endian, cgs) && 0 <= j < cgs.len()
            ==> cn_chain_readable_within(s, cgs[j].cg_cn_first as int, little_endian, limit)
}

/// The data group chain at `p`, and every chain under it, end within
/// `limit` blocks each.
pub open spec fn dg_tree_ends_within(s: Seq<u8>, p: int, little_endian: bool, limit: nat) -> bool {
    &&& chain_ends::<Dgblock>(s, p, little_endian, limit)
    &&& forall|dgs: Seq<Dgblock>, i: int|
        #![trigger is_chain::<Dgblock>(s, p, little_endian, dgs), dgs[i]]
        is_chain::<Dgblock>(s, p, little_endian, dgs) && 0 <= i < dgs.len()
            ==> cg_tree_ends_within(s, dgs[i].dg_cg_first as int, little_endian, limit)
}

/// Chains that end within `limit` blocks end.
pub proof fn lemma_cg_tree_within_ends(s: Seq<u8>, p: int, little_endian: bool, limit: nat)
    requires
        cg_tree_ends_within(s, p, little_endian, limit),
    ensures
        cg_tree_ends(s, p, little_endian),
{
    assert forall|cgs: Seq<Cgblock>, j: int|
        is_chain::<Cgblock>(s, p, little_endian, cgs) && 0 <= j < cgs.len() implies cn_chain_readable(
        s,
        (#[trigger] cgs[j]).cg_cn_first as int,
        little_endian,
    ) by {
        assert(chain_ends::<Cnblock>(s, cgs[j].cg_cn_first as int, little_endian, limit));
        assert(cn_chain_readable_within(s, cgs[j].cg_cn_first as int, little_endian, limit));
    }
}

/// Chains that end within `limit` blocks end.
pub proof fn lemma_dg_tree_within_ends(s: Seq<u8>, p: int, little_endian: bool, limit: nat)
    requires
        dg_tree_ends_within(s, p, little_endian, limit),
    ensures
        dg_tree_ends(s, p, little_endian),
{
    assert forall|dgs: Seq<Dgblock>, i: int|
        is_chain::<Dgblock>(s, p, little_endian, dgs) && 0 <= i < dgs.len() implies cg_tree_ends(
        s,
        (#[trigger] dgs[i]).dg_cg_first as int,
        little_endian,
    ) by {
        lemma_cg_tree_within_ends(s, dgs[i].dg_cg_first as int, little_endian, limit);
    }
}

/// `s` holds an MDF version 4 file that can be read whole: identification,
/// header and comment blocks, and the data group chain with every chain
/// under it.
pub open spec fn mdf4_readable(s: Seq<u8>) -> bool {
    &&& s.len() >= 64
    &&& Hdblock::spec_readable(s, 64, true)
    &&& md_readable(s, file_comment_at(s), true)
    &&& dg_tree_ends(s, first_data_group(s), true)
}

/// Like `mdf4_readable`, with every chain ending within `limit` blocks.
pub open spec fn mdf4_readable_within(s: Seq<u8>, limit: nat) -> bool {
    &&& s.len() >= 64
    &&& Hdblock::spec_readable(s, 64, true)
    &&& md_readable(s, file_comment_at(s), true)
    &&& dg_tree_ends_within(s, first_data_group(s), true, limit)
}

/// The name of channel `cn`: `time` for the master channel, else the text
/// of the metadata block its name link points to, else empty text.
pub open spec fn channel_name(s: Seq<u8>, cn: Cnblock) -> Seq<char> {
    if cn.channel_type == ChannelType::Master {
        seq!['t', 'i', 'm', 'e']
    } else if cn.cn_tx_name != 0 {
        decode_utf8(until_nul(md_payload(s, cn.cn_tx_name as int, true)))
    } else {
        Seq::empty()
    }
}

/// The name of channel `cn` can be read: where one is needed, the block its
/// name link points to is a metadata block.
pub open spec fn channel_name_readable(s: Seq<u8>, cn: Cnblock) -> bool {
    cn.channel_type != ChannelType::Master && cn.cn_tx_name != 0 ==> md_readable(
        s,
        cn.cn_tx_name as int,
        true,
    )
}

/// Every channel of the channel chain at `p` has a name that can be read.
pub open spec fn cn_names_readable(s: Seq<u8>, p: int) -> bool {
    forall|cns: Seq<Cnblock>, k: int|
        #![trigger is_chain::<Cnblock>(s, p, true, cns), cns[k]]
        is_chain::<Cnblock>(s, p, true, cns) && 0 <= k < cns.len() ==> channel_name_readable(
            s,
            cns[k],
        )
}

/// Every channel under the channel group chain at `p` has a name that can be read.
pub open spec fn cg_names_readable(s: Seq<u8>, p: int) -> bool {
    forall|cgs: Seq<Cgblock>, j: int|
        #![trigger is_chain::<Cgblock>(s, p, true, cgs), cgs[j]]
        is_chain::<Cgblock>(s, p, true, cgs) && 0 <= j < cgs.len() ==> cn_names_readable(
            s,
            cgs[j].cg_cn_first as int,
        )
}

/// Every channel of the file `s` has a name that can be read.
pub open spec fn names_readable(s: Seq<u8>) -> bool {
    forall|dgs: Seq<Dgblock>, i: int|
        #![trigger is_chain::<Dgblock>(s, first_data_group(s), true, dgs), dgs[i]]
        is_chain::<Dgblock>(s, first_data_group(s), true, dgs) && 0 <= i < dgs.len()
            ==> cg_names_readable(s, dgs[i].dg_cg_first as int)
}

/// `cgs` are the channel groups of the data groups `dgs`, chain after chain.
pub open spec fn groups_of(s: Seq<u8>, little_endian: bool, dgs: Seq<Dgblock>, cgs: Seq<Cgblock>) -> bool {
    exists|parts: Seq<Seq<Cgblock>>|
        {
            &&& parts.len() == dgs.len()
            &&& forall|i: int|
                0 <= i < dgs.len() ==> is_chain::<Cgblock>(
                    s,
                    dgs[i].dg_cg_first as int,
                    little_endian,
                    #[trigger] parts[i],
                )
            &&& cgs == parts.flatten()
        }
}

/// `cns` are the channels of the channel groups `cgs`, chain after chain.
pub open spec fn channels_of(s: Seq<u8>, little_endian: bool, cgs: Seq<Cgblock>, cns: Seq<Cnblock>) -> bool {
    exists|parts: Seq<Seq<Cnblock>>|
        {
            &&& parts.len() == cgs.len()
            &&& forall|j: int|
                0 <= j < cgs.len() ==> is_chain::<Cnblock>(
                    s,
                    cgs[j].cg_cn_first as int,
                    little_endian,
                    #[trigger] parts[j],
                )
            &&& cns == parts.flatten()
        }
}

/// `dgs` are the data groups of the file `s`; `cgs[i]` the channel groups of
/// data group `i`, and `tree[i][j]` the channels of its channel group `j`.
pub open spec fn file_tree(
    s: Seq<u8>,
    dgs: Seq<Dgblock>,
    cgs: Seq<Seq<Cgblock>>,
    tree: Seq<Seq<Seq<Cnblock>>>,
) -> bool {
    &&& is_chain::<Dgblock>(s, first_data_group(s), true, dgs)
    &&& cgs.len() == dgs.len()
    &&& tree.len() == dgs.len()
    &&& forall|i: int|
        0 <= i < dgs.len() ==> is_chain::<Cgblock>(
            s,
            dgs[i].dg_cg_first as int,
            true,
            #[trigger] cgs[i],
        )
    &&& forall|i: int| 0 <= i < dgs.len() ==> (#[trigger] tree[i]).len() == cgs[i].len()
    &&& forall|i: int, j: int|
        0 <= i < dgs.len() && 0 <= j < cgs[i].len() ==> is_chain::<Cnblock>(
            s,
            cgs[i][j].cg_cn_first as int,
            true,
            #[trigger] tree[i][j],
        )
}

/// Name, data group index and channel group index of each channel of the
/// channel groups `groups` of data group `dg`, the first of them being
/// channel group `first_group` of the file.
pub open spec fn group_entries(
    s: Seq<u8>,
    groups: Seq<Seq<Cnblock>>,
    dg: int,
    first_group: int,
) -> Seq<(Seq<char>, int, int)>
    decreases groups.len(),
{
    if groups.len() == 0 {
        Seq::empty()
    } else {
        group_entries(s, groups.drop_last(), dg, first_group) + groups.last().map_values(
            |cn: Cnblock| (channel_name(s, cn), dg, first_group + groups.len() - 1),
        )
    }
}

/// Name, data group index and channel group index of each channel under the
/// data groups of `tree`, in file order.
pub open spec fn tree_entries(s: Seq<u8>, tree: Seq<Seq<Seq<Cnblock>>>) -> Seq<(Seq<char>, int, int)>
    decreases tree.len(),
{
    if tree.len() == 0 {
        Seq::empty()
    } else {
        tree_entries(s, tree.drop_last()) + group_entries(
            s,
            tree.last(),
            tree.len() - 1,
            group_count::<Cnblock>(tree.drop_last()),
        )
    }
}

/// The channels under the data groups of `tree`, in file order.
pub open spec fn tree_channels(tree: Seq<Seq<Seq<Cnblock>>>) -> Seq<Cnblock> {
    tree.flatten_alt().flatten_alt()
}

/// `a` and `b` hold the same channels, one by one.
pub open spec fn same_channels(a: Seq<Cnblock>, b: Seq<Cnblock>) -> bool {
    a.len() == b.len() && forall|k: int| 0 <= k < a.len() ==> same_channel(#[trigger] a[k], b[k])
}

/// Entry `k` of the entries of `groups` names channel `k` of `groups`,
/// group after group.
proof fn lemma_group_entries_names(s: Seq<u8>, groups: Seq<Seq<Cnblock>>, dg: int, first_group: int)
    ensures
        group_entries(s, groups, dg, first_group).len() == groups.flatten_alt().len(),
        forall|k: int|
            0 <= k < groups.flatten_alt().len() ==> (#[trigger] group_entries(
                s,
                groups,
                dg,
                first_group,
            )[k]).0 == channel_name(s, groups.flatten_alt()[k]),
    decreases groups.len(),
{
    if groups.len() > 0 {
        let prev = groups.drop_last();
        lemma_group_entries_names(s, prev, dg, first_group);
        let e = group_entries(s, groups, dg, first_group);
        let pe = group_entries(s, prev, dg, first_group);
        let f = groups.flatten_alt();
        let pf = prev.flatten_alt();
        assert forall|k: int| 0 <= k < f.len() implies (#[trigger] e[k]).0 == channel_name(
            s,
            f[k],
        ) by {
            if k < pf.len() {
                assert(e[k] == pe[k]);
                assert(f[k] == pf[k]);
            } else {
                assert(f[k] == groups.last()[k - pf.len()]);
            }
        }
    }
}

/// Entry `k` of the entries of `tree` names channel `k` of `tree`.
proof fn lemma_tree_entries_names(s: Seq<u8>, tree: Seq<Seq<Seq<Cnblock>>>)
    ensures
        tree_entries(s, tree).len() == tree_channels(tree).len(),
        forall|k: int|
            0 <= k < tree_channels(tree).len() ==> (#[trigger] tree_entries(s, tree)[k]).0
                == channel_name(s, tree_channels(tree)[k]),
    decreases tree.len(),
{
    if tree.len() > 0 {
        let prev = tree.drop_last();
        let last = tree.last();
        lemma_tree_entries_names(s, prev);
        lemma_group_entries_names(s, last, tree.len() - 1, group_count::<Cnblock>(prev));
        assert(tree.flatten_alt() == prev.flatten_alt() + last);
        vstd::seq_lib::lemma_flatten_alt_concat(prev.flatten_alt(), last);
        let e = tree_entries(s, tree);
        let pe = tree_entries(s, prev);
        let ge = group_entries(s, last, tree.len() - 1, group_count::<Cnblock>(prev));
        let c = tree_channels(tree);
        let pc = tree_channels(prev);
        assert(c == pc + last.flatten_alt());
        assert forall|k: int| 0 <= k < c.len() implies (#[trigger] e[k]).0 == channel_name(
            s,
            c[k],
        ) by {
            if k < pc.len() {
                assert(e[k] == pe[k]);
                assert(c[k] == pc[k]);
            } else {
                assert(e[k] == ge[k - pc.len()]);
                assert(c[k] == last.flatten_alt()[k - pc.len()]);
            }
        }
    }
}

/// A master channel is named `time`, whatever its name link holds or points
/// to, and its name can always be had.
pub proof fn lemma_master_channel_is_time(s: Seq<u8>, cn: Cnblock)
    requires
        cn.channel_type == ChannelType::Master,
    ensures
        channel_name(s, cn) == seq!['t', 'i', 'm', 'e'],
        channel_name_readable(s, cn),
{
}

/// In the channel list of a file, every master channel is listed under the
/// name `time`, whatever its name link holds.
pub proof fn lemma_master_channels_listed_as_time(s: Seq<u8>, tree: Seq<Seq<Seq<Cnblock>>>, k: int)
    requires
        0 <= k < tree_channels(tree).len(),
        tree_channels(tree)[k].channel_type == ChannelType::Master,
    ensures
        tree_entries(s, tree).len() == tree_channels(tree).len(),
        tree_entries(s, tree)[k].0 == seq!['t', 'i', 'm', 'e'],
{
    lemma_tree_entries_names(s, tree);
    lemma_master_channel_is_time(s, tree_channels(tree)[k]);
}

/// Channel chains read for the channel groups `cgs[i][j]`, and channel
/// chains read for the same groups taken one after another, hold the same
/// channels.
proof fn lemma_channel_parts(
    s: Seq<u8>,
    little_endian: bool,
    cgs: Seq<Seq<Cgblock>>,
    tree: Seq<Seq<Seq<Cnblock>>>,
    parts: Seq<Seq<Cnblock>>,
)
    requires
        tree.len() == cgs.len(),
        forall|i: int| 0 <= i < cgs.len() ==> (#[trigger] tree[i]).len() == cgs[i].len(),
        forall|i: int, j: int|
            0 <= i < cgs.len() && 0 <= j < cgs[i].len() ==> is_chain::<Cnblock>(
                s,
                cgs[i][j].cg_cn_first as int,
                little_endian,
                #[trigger] tree[i][j],
            ),
        parts.len() == cgs.flatten_alt().len(),
        forall|j: int|
            0 <= j < parts.len() ==> is_chain::<Cnblock>(
                s,
                cgs.flatten_alt()[j].cg_cn_first as int,
                little_endian,
                #[trigger] parts[j],
            ),
    ensures
        parts.len() == tree.flatten_alt().len(),
        forall|j: int|
            0 <= j < parts.len() ==> same_channels(#[trigger] parts[j], tree.flatten_alt()[j]),
    decreases tree.len(),
{
    if tree.len() > 0 {
        let pc = cgs.drop_last();
        let pt = tree.drop_last();
        let n = pc.flatten_alt().len() as int;
        let front = parts.subrange(0, n);
        assert(cgs.flatten_alt() == pc.flatten_alt() + cgs.last());
        assert(tree.flatten_alt() == pt.flatten_alt() + tree.last());
        assert forall|j: int| 0 <= j < front.len() implies is_chain::<Cnblock>(
            s,
            pc.flatten_alt()[j].cg_cn_first as int,
            little_endian,
            #[trigger] front[j],
        ) by {
            assert(front[j] == parts[j]);
            assert(cgs.flatten_alt()[j] == pc.flatten_alt()[j]);
        }
        assert forall|i: int, j: int|
            0 <= i < pc.len() && 0 <= j < pc[i].len() implies is_chain::<Cnblock>(
            s,
            pc[i][j].cg_cn_first as int,
            little_endian,
            #[trigger] pt[i][j],
        ) by {
            assert(pt[i] == tree[i]);
            assert(pc[i] == cgs[i]);
        }
        assert forall|i: int| 0 <= i < pc.len() implies (#[trigger] pt[i]).len() == pc[i].len() by {
            assert(pt[i] == tree[i]);
        }
        lemma_channel_parts(s, little_endian, pc, pt, front);
        let last = tree.last();
        assert(cgs.last().len() == last.len()) by {
            assert(tree[tree.len() - 1] == last);
        }
        assert forall|j: int| 0 <= j < parts.len() implies same_channels(
            #[trigger] parts[j],
            tree.flatten_alt()[j],
        ) by {
            if j < n {
                assert(parts[j] == front[j]);
                assert(tree.flatten_alt()[j] == pt.flatten_alt()[j]);
            } else {
                assert(cgs.flatten_alt()[j] == cgs.last()[j - n]);
                assert(tree.flatten_alt()[j] == last[j - n]);
                assert(is_chain::<Cnblock>(
                    s,
                    cgs[cgs.len() - 1][j - n].cg_cn_first as int,
                    little_endian,
                    tree[tree.len() - 1][j - n],
                ));
                lemma_cn_chains_agree(
                    s,
                    cgs.last()[j - n].cg_cn_first as int,
                    little_endian,
                    parts[j],
                    last[j - n],
                );
            }
        }
    }
}

/// Sequences of channel chains that hold the same channels, chain by chain,
/// hold the same channels once joined.
proof fn lemma_joined_same_channels(a: Seq<Seq<Cnblock>>, b: Seq<Seq<Cnblock>>)
    requires
        a.len() == b.len(),
        forall|j: int| 0 <= j < a.len() ==> same_channels(#[trigger] a[j], b[j]),
    ensures
        same_channels(a.flatten_alt(), b.flatten_alt()),
    decreases a.len(),
{
    if a.len() > 0 {
        let pa = a.drop_last();
        let pb = b.drop_last();
        assert forall|j: int| 0 <= j < pa.len() implies same_channels(#[trigger] pa[j], pb[j]) by {
            assert(pa[j] == a[j]);
            assert(pb[j] == b[j]);
        }
        lemma_joined_same_channels(pa, pb);
        assert(same_channels(a.last(), b.last())) by {
            assert(a.last() == a[a.len() - 1]);
            assert(b.last() == b[b.len() - 1]);
        }
        let fa = a.flatten_alt();
        let fb = b.flatten_alt();
        let n = pa.flatten_alt().len() as int;
        assert forall|k: int| 0 <= k < fa.len() implies same_channel(#[trigger] fa[k], fb[k]) by {
            if k < n {
                assert(fa[k] == pa.flatten_alt()[k]);
                assert(fb[k] == pb.flatten_alt()[k]);
            } else {
                assert(fa[k] == a.last()[k - n]);
                assert(fb[k] == b.last()[k - n]);
            }
        }
    }
}

/// Reading a whole file holds, in order, exactly the channels that its
/// channel list names: the list has one entry for each channel held, and
/// entry `k` carries the name of channel `k` held.
pub proof fn lemma_listed_channels_are_held(
    m: MDF4,
    dgs: Seq<Dgblock>,
    cgs: Seq<Seq<Cgblock>>,
    tree: Seq<Seq<Seq<Cnblock>>>,
)
    requires
        m.leading_blocks_read(),
        m.all_read(),
        file_tree(m.file@, dgs, cgs, tree),
    ensures
        tree_entries(m.file@, tree).len() == m.channels@.len(),
        forall|k: int|
            0 <= k < m.channels@.len() ==> (#[trigger] tree_entries(m.file@, tree)[k]).0
                == channel_name(m.file@, m.channels@[k]),
{
    let s = m.file@;
    let le = m.little_endian;
    lemma_checked_chain_unique::<Dgblock>(s, first_data_group(s), le, dgs, m.data_groups@);
    let gparts = choose|parts: Seq<Seq<Cgblock>>|
        {
            &&& parts.len() == m.data_groups@.len()
            &&& forall|i: int|
                0 <= i < m.data_groups@.len() ==> is_chain::<Cgblock>(
                    s,
                    m.data_groups@[i].dg_cg_first as int,
                    le,
                    #[trigger] parts[i],
                )
            &&& m.channel_groups@ == parts.flatten()
        };
    assert forall|i: int| 0 <= i < cgs.len() implies gparts[i] == cgs[i] by {
        lemma_checked_chain_unique::<Cgblock>(s, dgs[i].dg_cg_first as int, le, gparts[i], cgs[i]);
    }
    assert(gparts =~= cgs);
    cgs.lemma_flatten_and_flatten_alt_are_equivalent();
    let cparts = choose|parts: Seq<Seq<Cnblock>>|
        {
            &&& parts.len() == m.channel_groups@.len()
            &&& forall|j: int|
                0 <= j < m.channel_groups@.len() ==> is_chain::<Cnblock>(
                    s,
                    m.channel_groups@[j].cg_cn_first as int,
                    le,
                    #[trigger] parts[j],
                )
            &&& m.channels@ == parts.flatten()
        };
    lemma_channel_parts(s, le, cgs, tree, cparts);
    lemma_joined_same_channels(cparts, tree.flatten_alt());
    cparts.lemma_flatten_and_flatten_alt_are_equivalent();
    lemma_tree_entries_names(s, tree);
    assert forall|k: int| 0 <= k < m.channels@.len() implies (#[trigger] tree_entries(s, tree)[k]).0
        == channel_name(s, m.channels@[k]) by {
        assert(same_channel(m.channels@[k], tree_channels(tree)[k]));
    }
}

/// The name of channel `cn`, as `channel_name` gives it.
fn read_channel_name(stream: &[u8], cn: &Cnblock) -> (r: String)
    requires
        channel_name_readable(stream@, *cn),
    ensures
        r@ == channel_name(stream@, *cn),
{
    broadcast use vstd::utf8::encode_utf8_decode_utf8;

    match cn.channel_type {
        ChannelType::Master => {
            let name = String::from_str("time");
            proof {
                reveal_strlit("time");
            }
            assert(name@ =~= seq!['t', 'i', 'm', 'e']);
            name
        },
        _ => {
            if cn.cn_tx_name != 0 {
                let total = stream.len();
                let (_, md) = Mdblock::read(stream, cn.cn_tx_name as usize, true);
                assert(decode_utf8(encode_utf8(md.md_data@)) == md.md_data@);
                md.md_data
            } else {
                String::new()
            }
        },
    }
}

/// Whether the channel `cn` has a name that can be read.
fn name_readable(stream: &[u8], cn: &Cnblock) -> (r: bool)
    ensures
        r == channel_name_readable(stream@, *cn),
{
    match cn.channel_type {
        ChannelType::Master => true,
        _ => cn.cn_tx_name == 0 || (cn.cn_tx_name <= stream.len() as u64 && Mdblock::is_readable(
            stream,
            cn.cn_tx_name as usize,
            true,
        )),
    }
}

/// Appends an entry for each channel of `cns`, all of data group `dg` and
/// channel group `group`.
fn push_group_channels(
    stream: &[u8],
    cns: &Vec<Cnblock>,
    dg: u64,
    group: u64,
    out: &mut Vec<MdfChannel>,
)
    requires
        indexed(old(out)@),
        forall|k: int| 0 <= k < cns@.len() ==> channel_name_readable(stream@, #[trigger] cns@[k]),
    ensures
        indexed(final(out)@),
        entries_of(final(out)@) == entries_of(old(out)@) + cns@.map_values(
            |cn: Cnblock| (channel_name(stream@, cn), dg as int, group as int),
        ),
{
    let ghost start = entries_of(out@);
    let ghost added = cns@.map_values(
        |cn: Cnblock| (channel_name(stream@, cn), dg as int, group as int),
    );
    let mut k: usize = 0;
    while k < cns.len()
        invariant
            k <= cns@.len(),
            indexed(out@),
            forall|x: int| 0 <= x < cns@.len() ==> channel_name_readable(stream@, #[trigger] cns@[x]),
            added == cns@.map_values(
                |cn: Cnblock| (channel_name(stream@, cn), dg as int, group as int),
            ),
            entries_of(out@) == start + added.subrange(0, k as int),
        decreases cns@.len() - k,
    {
        let name = read_channel_name(stream, &cns[k]);
        let channel = out.len() as u64;
        let ghost before = out@;
        out.push(MdfChannel { name, data_group: dg, channel, channel_group: group });
        proof {
            assert(entries_of(out@) =~= entries_of(before).push(added[k as int]));
            assert(start + added.subrange(0, k + 1) =~= (start + added.subrange(0, k as int)).push(
                added[k as int],
            ));
        }
        k = k + 1;
    }
    assert(added.subrange(0, cns@.len() as int) =~= added);
}

/// Appends an entry for each channel of each channel group of `cgs`, all of
/// data group `dg`; every group is added to `groups_seen`, which numbers it.
fn push_data_group_channels(
    stream: &[u8],
    cgs: &Vec<Cgblock>,
    dg: u64,
    groups_seen: &mut Vec<Cgblock>,
    out: &mut Vec<MdfChannel>,
)
    requires
        indexed(old(out)@),
        forall|j: int|
            0 <= j < cgs@.len() ==> cn_chain_readable(stream@, (#[trigger] cgs@[j]).cg_cn_first as int, true),
        forall|j: int|
            0 <= j < cgs@.len() ==> cn_names_readable(stream@, (#[trigger] cgs@[j]).cg_cn_first as int),
    ensures
        indexed(final(out)@),
        final(groups_seen)@ == old(groups_seen)@ + cgs@,
        exists|parts: Seq<Seq<Cnblock>>|
            {
                &&& parts.len() == cgs@.len()
                &&& forall|j: int|
                    0 <= j < cgs@.len() ==> is_chain::<Cnblock>(
                        stream@,
                        cgs@[j].cg_cn_first as int,
                        true,
                        #[trigger] parts[j],
                    )
                &&& entries_of(final(out)@) == entries_of(old(out)@) + group_entries(
                    stream@,
                    parts,
                    dg as int,
                    old(groups_seen)@.len() as int,
                )
            },
{
    let ghost start = entries_of(out@);
    let ghost first_group = groups_seen@.len() as int;
    let ghost seen_before = groups_seen@;
    let ghost mut parts: Seq<Seq<Cnblock>> = Seq::empty();
    let mut j: usize = 0;
    while j < cgs.len()
        invariant
            j <= cgs@.len(),
            indexed(out@),
            forall|x: int|
                0 <= x < cgs@.len() ==> cn_chain_readable(stream@, (#[trigger] cgs@[x]).cg_cn_first as int, true),
            forall|x: int|
                0 <= x < cgs@.len() ==> cn_names_readable(stream@, (#[trigger] cgs@[x]).cg_cn_first as int),
            groups_seen@ == seen_before + cgs@.subrange(0, j as int),
            first_group == seen_before.len(),
            parts.len() == j,
            forall|x: int|
                0 <= x < j ==> is_chain::<Cnblock>(
                    stream@,
                    cgs@[x].cg_cn_first as int,
                    true,
                    #[trigger] parts[x],
                ),
            entries_of(out@) == start + group_entries(stream@, parts, dg as int, first_group),
        decreases cgs@.len() - j,
    {
        let cg_block = cgs[j];
        assert(cn_chain_readable(stream@, cgs@[j as int].cg_cn_first as int, true));
        let cns = read_chain::<Cnblock>(stream, cg_block.cg_cn_first, true);
        let ghost part = cns@;
        assert(cn_names_readable(stream@, cg_block.cg_cn_first as int));
        groups_seen.push(cg_block);
        let group = (groups_seen.len() - 1) as u64;
        push_group_channels(stream, &cns, dg, group, out);
        proof {
            let old_parts = parts;
            parts = parts.push(part);
            assert(parts.drop_last() =~= old_parts);
            assert(parts.last() == part);
            assert(cgs@.subrange(0, j + 1) =~= cgs@.subrange(0, j as int).push(cg_block));
            assert(start + group_entries(stream@, parts, dg as int, first_group) =~= start
                + group_entries(stream@, old_parts, dg as int, first_group) + part.map_values(
                |cn: Cnblock| (channel_name(stream@, cn), dg as int, group as int),
            ));
        }
        j = j + 1;
    }
    assert(cgs@.subrange(0, cgs@.len() as int) =~= cgs@);
}

/// The channel groups of the data groups `dgs`, chain after chain.
fn read_groups(stream: &[u8], little_endian: bool, dgs: &Vec<Dgblock>) -> (r: Vec<Cgblock>)
    requires
        forall|i: int|
            0 <= i < dgs@.len() ==> cg_tree_ends(
                stream@,
                (#[trigger] dgs@[i]).dg_cg_first as int,
                little_endian,
            ),
    ensures
        groups_of(stream@, little_endian, dgs@, r@),
        forall|j: int|
            0 <= j < r@.len() ==> cn_chain_readable(
                stream@,
                (#[trigger] r@[j]).cg_cn_first as int,
                little_endian,
            ),
{
    let mut channel_groups: Vec<Cgblock> = Vec::new();
    let ghost mut parts: Seq<Seq<Cgblock>> = Seq::empty();
    let mut i: usize = 0;
    while i < dgs.len()
        invariant
            i <= dgs@.len(),
            forall|x: int|
                0 <= x < dgs@.len() ==> cg_tree_ends(
                    stream@,
                    (#[trigger] dgs@[x]).dg_cg_first as int,
                    little_endian,
                ),
            parts.len() == i,
            forall|x: int|
                0 <= x < i ==> is_chain::<Cgblock>(
                    stream@,
                    dgs@[x].dg_cg_first as int,
                    little_endian,
                    #[trigger] parts[x],
                ),
            channel_groups@ == parts.flatten_alt(),
            forall|y: int|
                0 <= y < channel_groups@.len() ==> cn_chain_readable(
                    stream@,
                    (#[trigger] channel_groups@[y]).cg_cn_first as int,
                    little_endian,
                ),
        decreases dgs@.len() - i,
    {
        let group = dgs[i];
        assert(cg_tree_ends(stream@, group.dg_cg_first as int, little_endian));
        let mut grp = read_chain::<Cgblock>(stream, group.dg_cg_first, little_endian);
        let ghost part = grp@;
        let ghost before = channel_groups@;
        channel_groups.append(&mut grp);
        proof {
            let old_parts = parts;
            parts = parts.push(part);
            assert(parts.drop_last() =~= old_parts);
        }
        i = i + 1;
    }
    proof {
        parts.lemma_flatten_and_flatten_alt_are_equivalent();
    }
    channel_groups
}

/// The channels of the channel groups `cgs`, chain after chain.
fn read_channels(stream: &[u8], little_endian: bool, cgs: &Vec<Cgblock>) -> (r: Vec<Cnblock>)
    requires
        forall|j: int|
            0 <= j < cgs@.len() ==> cn_chain_readable(
                stream@,
                (#[trigger] cgs@[j]).cg_cn_first as int,
                little_endian,
            ),
    ensures
        channels_of(stream@, little_endian, cgs@, r@),
{
    let mut channels: Vec<Cnblock> = Vec::new();
    let ghost mut parts: Seq<Seq<Cnblock>> = Seq::empty();
    let mut j: usize = 0;
    while j < cgs.len()
        invariant
            j <= cgs@.len(),
            forall|x: int|
                0 <= x < cgs@.len() ==> cn_chain_readable(
                    stream@,
                    (#[trigger] cgs@[x]).cg_cn_first as int,
                    little_endian,
                ),
            parts.len() == j,
            forall|x: int|
                0 <= x < j ==> is_chain::<Cnblock>(
                    stream@,
                    cgs@[x].cg_cn_first as int,
                    little_endian,
                    #[trigger] parts[x],
                ),
            channels@ == parts.flatten_alt(),
        decreases cgs@.len() - j,
    {
        let grp = cgs[j];
        let mut chans = read_chain::<Cnblock>(stream, grp.cg_cn_first, little_endian);
        let ghost part = chans@;
        channels.append(&mut chans);
        proof {
            let old_parts = parts;
            parts = parts.push(part);
            assert(parts.drop_last() =~= old_parts);
        }
        j = j + 1;
    }
    proof {
        parts.lemma_flatten_and_flatten_alt_are_equivalent();
    }
    channels
}

/// Whether the channel chain at `p` ends within `limit` blocks and each of
/// its channels has the links of a default X axis.
fn check_cn_chain(stream: &[u8], p: u64, little_endian: bool, limit: usize) -> (r: bool)
    ensures
        r == cn_chain_readable_within(stream@, p as int, little_endian, limit as nat),
{
    if !chain_ends_within::<Cnblock>(stream, p, little_endian, limit) {
        return false;
    }
    let cns = read_chain::<Cnblock>(stream, p, little_endian);
    let mut k: usize = 0;
    while k < cns.len()
        invariant
            k <= cns@.len(),
            is_chain::<Cnblock>(stream@, p as int, little_endian, cns@),
            chain_ends::<Cnblock>(stream@, p as int, little_endian, limit as nat),
            forall|x: int| 0 <= x < k ==> cn_links_complete(#[trigger] cns@[x]),
        decreases cns@.len() - k,
    {
        if cns[k].header.link_count < 11 + cns[k].attachment_nr as u64 {
            assert(!cn_links_complete(cns@[k as int]));
            return false;
        }
        k = k + 1;
    }
    assert forall|other: Seq<Cnblock>, k: int|
        is_chain::<Cnblock>(stream@, p as int, little_endian, other) && 0 <= k < other.len()
            implies cn_links_complete(#[trigger] other[k]) by {
        lemma_cn_chains_agree(stream@, p as int, little_endian, other, cns@);
        assert(same_channel(other[k], cns@[k]));
    }
    true
}

/// Whether the channel group chain at `p`, and each channel chain under it,
/// ends within `limit` blocks.
fn check_cg_tree(stream: &[u8], p: u64, little_endian: bool, limit: usize) -> (r: bool)
    ensures
        r == cg_tree_ends_within(stream@, p as int, little_endian, limit as nat),
{
    if !chain_ends_within::<Cgblock>(stream, p, little_endian, limit) {
        return false;
    }
    let cgs = read_chain::<Cgblock>(stream, p, little_endian);
    let mut j: usize = 0;
    while j < cgs.len()
        invariant
            j <= cgs@.len(),
            is_chain::<Cgblock>(stream@, p as int, little_endian, cgs@),
            forall|x: int|
                0 <= x < j ==> cn_chain_readable_within(
                    stream@,
                    (#[trigger] cgs@[x]).cg_cn_first as int,
                    little_endian,
                    limit as nat,
                ),
        decreases cgs@.len() - j,
    {
        if !check_cn_chain(stream, cgs[j].cg_cn_first, little_endian, limit) {
            return false;
        }
        j = j + 1;
    }
    assert forall|other: Seq<Cgblock>, j: int|
        is_chain::<Cgblock>(stream@, p as int, little_endian, other) && 0 <= j < other.len()
            implies cn_chain_readable_within(
            stream@,
            (#[trigger] other[j]).cg_cn_first as int,
            little_endian,
            limit as nat,
        ) by {
        lemma_checked_chain_unique::<Cgblock>(stream@, p as int, little_endian, other, cgs@);
    }
    true
}

/// Whether every channel of the channel chain at `p` has a name that can be read.
fn cn_names_check(stream: &[u8], p: u64) -> (r: bool)
    requires
        cn_chain_readable(stream@, p as int, true),
    ensures
        r == cn_names_readable(stream@, p as int),
{
    let cns = read_chain::<Cnblock>(stream, p, true);
    let mut k: usize = 0;
    while k < cns.len()
        invariant
            k <= cns@.len(),
            is_chain::<Cnblock>(stream@, p as int, true, cns@),
            forall|x: int| 0 <= x < k ==> channel_name_readable(stream@, #[trigger] cns@[x]),
        decreases cns@.len() - k,
    {
        if !name_readable(stream, &cns[k]) {
            return false;
        }
        k = k + 1;
    }
    assert forall|other: Seq<Cnblock>, k: int|
        is_chain::<Cnblock>(stream@, p as int, true, other) && 0 <= k < other.len()
            implies channel_name_readable(stream@, #[trigger] other[k]) by {
        lemma_cn_chains_agree(stream@, p as int, true, other, cns@);
        assert(same_channel(other[k], cns@[k]));
    }
    true
}

/// Whether every channel under the channel group chain at `p` has a name
/// that can be read.
fn cg_names_check(stream: &[u8], p: u64) -> (r: bool)
    requires
        cg_tree_ends(stream@, p as int, true),
    ensures
        r == cg_names_readable(stream@, p as int),
{
    let cgs = read_chain::<Cgblock>(stream, p, true);
    let mut j: usize = 0;
    while j < cgs.len()
        invariant
            j <= cgs@.len(),
            is_chain::<Cgblock>(stream@, p as int, true, cgs@),
            cg_tree_ends(stream@, p as int, true),
            forall|x: int|
                0 <= x < j ==> cn_names_readable(stream@, (#[trigger] cgs@[x]).cg_cn_first as int),
        decreases cgs@.len() - j,
    {
        assert(cn_chain_readable(stream@, cgs@[j as int].cg_cn_first as int, true));
        if !cn_names_check(stream, cgs[j].cg_cn_first) {
            return false;
        }
        j = j + 1;
    }
    assert forall|other: Seq<Cgblock>, j: int|
        is_chain::<Cgblock>(stream@, p as int, true, other) && 0 <= j < other.len()
            implies cn_names_readable(stream@, (#[trigger] other[j]).cg_cn_first as int) by {
        lemma_checked_chain_unique::<Cgblock>(stream@, p as int, true, other, cgs@);
    }
    true
}

/// An MDF version 4 file held in memory with what was read of it: its
/// leading blocks, its data groups, and all channel groups and channels
/// under them.
#[derive(Debug, Clone)]
pub struct MDF4 {
    pub id: Idblock,
    pub header: Hdblock,
    pub comment: Mdblock,
    pub data_groups: Vec<Dgblock>,
    pub channels: Vec<Cnblock>,
    pub channel_groups: Vec<Cgblock>,
    pub little_endian: bool,
    pub file: Vec<u8>,
}

impl MDF4 {
    /// The channel groups and channels held are those of the data groups held.
    pub open spec fn all_read(self) -> bool {
        &&& groups_of(self.file@, self.little_endian, self.data_groups@, self.channel_groups@)
        &&& channels_of(self.file@, self.little_endian, self.channel_groups@, self.channels@)
    }

    /// The leading blocks and data groups held are those of `file`, read as
    /// little endian.
    pub open spec fn leading_blocks_read(self) -> bool {
        let s = self.file@;
        &&& id_fields(s, self.id)
        &&& self.little_endian
        &&& hd_fields(s, 64, true, self.header)
        &&& encode_utf8(self.comment.md_data@) == until_nul(md_payload(s, file_comment_at(s), true))
        &&& is_chain::<Dgblock>(s, first_data_group(s), true, self.data_groups@)
    }

    /// Whether `stream` holds an MDF version 4 file that `from_stream` can
    /// read, following each chain for at most as many blocks as the file
    /// has bytes.
    pub fn is_readable(stream: &[u8]) -> (r: bool)
        ensures
            r == mdf4_readable_within(stream@, stream@.len()),
            r ==> mdf4_readable(stream@),
    {
        if stream.len() < 64 || !<Hdblock as Block>::is_readable(stream, 64, true) {
            return false;
        }
        let (_pos, header) = <Hdblock as Block>::read(stream, 64, true);
        if header.hd_md_comment > stream.len() as u64 || !Mdblock::is_readable(
            stream,
            header.hd_md_comment as usize,
            true,
        ) {
            return false;
        }
        let limit = stream.len();
        let first = header.hd_dg_first;
        if !chain_ends_within::<Dgblock>(stream, first, true, limit) {
            return false;
        }
        let dgs = read_chain::<Dgblock>(stream, first, true);
        let mut i: usize = 0;
        while i < dgs.len()
            invariant
                i <= dgs@.len(),
                limit == stream@.len(),
                first == first_data_group(stream@),
                is_chain::<Dgblock>(stream@, first as int, true, dgs@),
                forall|x: int|
                    0 <= x < i ==> cg_tree_ends_within(
                        stream@,
                        (#[trigger] dgs@[x]).dg_cg_first as int,
                        true,
                        limit as nat,
                    ),
            decreases dgs@.len() - i,
        {
            if !check_cg_tree(stream, dgs[i].dg_cg_first, true, limit) {
                assert(!dg_tree_ends_within(stream@, first as int, true, limit as nat)) by {
                    assert(is_chain::<Dgblock>(stream@, first as int, true, dgs@));
                    assert(!cg_tree_ends_within(
                        stream@,
                        dgs@[i as int].dg_cg_first as int,
                        true,
                        limit as nat,
                    ));
                }
                return false;
            }
            i = i + 1;
        }
        assert forall|other: Seq<Dgblock>, i: int|
            is_chain::<Dgblock>(stream@, first as int, true, other) && 0 <= i < other.len()
                implies cg_tree_ends_within(
                stream@,
                (#[trigger] other[i]).dg_cg_first as int,
                true,
                limit as nat,
            ) by {
            lemma_checked_chain_unique::<Dgblock>(stream@, first as int, true, other, dgs@);
        }
        proof {
            lemma_dg_tree_within_ends(stream@, first as int, true, limit as nat);
        }
        true
    }

    /// Whether every channel of the file held has a name that `channels`
    /// can read.
    pub fn names_are_readable(&self) -> (r: bool)
        requires
            mdf4_readable(self.file@),
        ensures
            r == names_readable(self.file@),
    {
        let stream = self.file.as_slice();
        let (_pos, header) = <Hdblock as Block>::read(stream, 64, true);
        let first = header.hd_dg_first;
        let dgs = read_chain::<Dgblock>(stream, first, true);
        let mut i: usize = 0;
        while i < dgs.len()
            invariant
                i <= dgs@.len(),
                stream@ == self.file@,
                first == first_data_group(stream@),
                is_chain::<Dgblock>(stream@, first as int, true, dgs@),
                dg_tree_ends(stream@, first as int, true),
                forall|x: int|
                    0 <= x < i ==> cg_names_readable(stream@, (#[trigger] dgs@[x]).dg_cg_first as int),
            decreases dgs@.len() - i,
        {
            assert(cg_tree_ends(stream@, dgs@[i as int].dg_cg_first as int, true));
            if !cg_names_check(stream, dgs[i].dg_cg_first) {
                assert(!names_readable(stream@)) by {
                    assert(is_chain::<Dgblock>(stream@, first as int, true, dgs@));
                    assert(!cg_names_readable(stream@, dgs@[i as int].dg_cg_first as int));
                }
                return false;
            }
            i = i + 1;
        }
        assert forall|other: Seq<Dgblock>, i: int|
            is_chain::<Dgblock>(stream@, first as int, true, other) && 0 <= i < other.len()
                implies cg_names_readable(stream@, (#[trigger] other[i]).dg_cg_first as int) by {
            lemma_checked_chain_unique::<Dgblock>(stream@, first as int, true, other, dgs@);
        }
        true
    }

    /// Whether the channel group chain of every data group held, and each
    /// channel chain under it, ends within as many blocks as the file has
    /// bytes; `read_all` needs them to end.
    pub fn groups_are_readable(&self) -> (r: bool)
        ensures
            r == forall|i: int|
                0 <= i < self.data_groups@.len() ==> cg_tree_ends_within(
                    self.file@,
                    (#[trigger] self.data_groups@[i]).dg_cg_first as int,
                    self.little_endian,
                    self.file@.len(),
                ),
            r ==> forall|i: int|
                0 <= i < self.data_groups@.len() ==> cg_tree_ends(
                    self.file@,
                    (#[trigger] self.data_groups@[i]).dg_cg_first as int,
                    self.little_endian,
                ),
    {
        let mut i: usize = 0;
        while i < self.data_groups.len()
            invariant
                i <= self.data_groups@.len(),
                forall|x: int|
                    0 <= x < i ==> cg_tree_ends_within(
                        self.file@,
                        (#[trigger] self.data_groups@[x]).dg_cg_first as int,
                        self.little_endian,
                        self.file@.len(),
                    ),
            decreases self.data_groups@.len() - i,
        {
            if !check_cg_tree(
                self.file.as_slice(),
                self.data_groups[i].dg_cg_first,
                self.little_endian,
                self.file.len(),
            ) {
                return false;
            }
            i = i + 1;
        }
        assert forall|x: int| 0 <= x < self.data_groups@.len() implies cg_tree_ends(
            self.file@,
            (#[trigger] self.data_groups@[x]).dg_cg_first as int,
            self.little_endian,
        ) by {
            lemma_cg_tree_within_ends(
                self.file@,
                self.data_groups@[x].dg_cg_first as int,
                self.little_endian,
                self.file@.len(),
            );
        }
        true
    }

    /// Whether channel group `channel_grp` is held and its channel chain,
    /// read in the byte order of the file held, ends within as many blocks
    /// as the file has bytes.
    pub fn group_is_readable(&self, channel_grp: usize) -> (r: bool)
        ensures
            r == (channel_grp < self.channel_groups@.len() && cn_chain_readable_within(
                self.file@,
                self.channel_groups@[channel_grp as int].cg_cn_first as int,
                self.little_endian,
                self.file@.len(),
            )),
            r ==> channel_grp < self.channel_groups@.len() && cn_chain_readable(
                self.file@,
                self.channel_groups@[channel_grp as int].cg_cn_first as int,
                self.little_endian,
            ),
    {
        if channel_grp >= self.channel_groups.len() {
            return false;
        }
        let r = check_cn_chain(
            self.file.as_slice(),
            self.channel_groups[channel_grp].cg_cn_first,
            self.little_endian,
            self.file.len(),
        );
        if r {
            assert(chain_ends::<Cnblock>(
                self.file@,
                self.channel_groups@[channel_grp as int].cg_cn_first as int,
                self.little_endian,
                self.file@.len() as nat,
            ));
        }
        r
    }

    /// Reads the file held in `stream` as little endian: its identification,
    /// header and comment blocks, its data groups, and every channel group
    /// and channel.
    pub fn from_stream(stream: Vec<u8>) -> (r: MDF4)
        requires
            mdf4_readable(stream@),
        ensures
            r.file@ == stream@,
            r.leading_blocks_read(),
            r.all_read(),
    {
        let little_endian = true;
        let (pos, id) = <Idblock as Block>::read(stream.as_slice(), 0, little_endian);
        let (_pos, header) = <Hdblock as Block>::read(stream.as_slice(), pos, little_endian);
        let total = stream.len();
        let (_pos, comment) = Mdblock::read(
            stream.as_slice(),
            header.hd_md_comment as usize,
            little_endian,
        );
        let data_groups = read_chain::<Dgblock>(stream.as_slice(), header.hd_dg_first, little_endian);
        let mut mdf = MDF4 {
            id,
            header,
            comment,
            data_groups,
            channels: Vec::new(),
            channel_groups: Vec::new(),
            little_endian,
            file: stream,
        };
        mdf.read_all();
        mdf
    }

    /// Every channel of the file, in file order, with its name and the
    /// indexes of its data group, of its channel group among all channel
    /// groups of the file, and of itself among all channels of the file.
    /// The file is walked afresh from its header block, as little endian.
    pub fn channels(&self) -> (r: Vec<MdfChannel>)
        requires
            mdf4_readable(self.file@),
            names_readable(self.file@),
        ensures
            indexed(r@),
            exists|dgs: Seq<Dgblock>, cgs: Seq<Seq<Cgblock>>, tree: Seq<Seq<Seq<Cnblock>>>|
                {
                    &&& file_tree(self.file@, dgs, cgs, tree)
                    &&& entries_of(r@) == tree_entries(self.file@, tree)
                },
    {
        let stream = self.file.as_slice();
        let (position, _id_block) = <Idblock as Block>::read(stream, 0, true);
        let (_pos, hd_block) = <Hdblock as Block>::read(stream, position, true);
        let dg = read_chain::<Dgblock>(stream, hd_block.hd_dg_first, true);
        let ghost s = stream@;
        let mut channels: Vec<MdfChannel> = Vec::new();
        let mut cg: Vec<Cgblock> = Vec::new();
        let ghost mut cg_parts: Seq<Seq<Cgblock>> = Seq::empty();
        let ghost mut tree: Seq<Seq<Seq<Cnblock>>> = Seq::empty();
        let mut i: usize = 0;
        while i < dg.len()
            invariant
                i <= dg@.len(),
                s == stream@,
                is_chain::<Dgblock>(s, first_data_group(s), true, dg@),
                dg_tree_ends(s, first_data_group(s), true),
                names_readable(s),
                indexed(channels@),
                cg_parts.len() == i,
                tree.len() == i,
                cg@.len() == group_count::<Cnblock>(tree),
                forall|x: int|
                    0 <= x < i ==> is_chain::<Cgblock>(
                        s,
                        dg@[x].dg_cg_first as int,
                        true,
                        #[trigger] cg_parts[x],
                    ),
                forall|x: int| 0 <= x < i ==> (#[trigger] tree[x]).len() == cg_parts[x].len(),
                forall|x: int, y: int|
                    0 <= x < i && 0 <= y < cg_parts[x].len() ==> is_chain::<Cnblock>(
                        s,
                        cg_parts[x][y].cg_cn_first as int,
                        true,
                        #[trigger] tree[x][y],
                    ),
                entries_of(channels@) == tree_entries(s, tree),
            decreases dg@.len() - i,
        {
            let dg_block = dg[i];
            assert(cg_tree_ends(s, dg_block.dg_cg_first as int, true));
            assert(cg_names_readable(s, dg_block.dg_cg_first as int));
            let cgs = read_chain::<Cgblock>(stream, dg_block.dg_cg_first, true);
            let ghost part = cgs@;
            let ghost seen = cg@.len() as int;
            push_data_group_channels(stream, &cgs, i as u64, &mut cg, &mut channels);
            proof {
                let groups = choose|groups: Seq<Seq<Cnblock>>|
                    {
                        &&& groups.len() == cgs@.len()
                        &&& forall|j: int|
                            0 <= j < cgs@.len() ==> is_chain::<Cnblock>(
                                s,
                                cgs@[j].cg_cn_first as int,
                                true,
                                #[trigger] groups[j],
                            )
                        &&& entries_of(channels@) == tree_entries(s, tree) + group_entries(
                            s,
                            groups,
                            i as int,
                            seen,
                        )
                    };
                let old_tree = tree;
                let old_parts = cg_parts;
                cg_parts = cg_parts.push(part);
                tree = tree.push(groups);
                assert(tree.drop_last() =~= old_tree);
                assert(tree.last() == groups);
                assert forall|x: int, y: int|
                    0 <= x < i + 1 && 0 <= y < cg_parts[x].len() implies is_chain::<Cnblock>(
                    s,
                    cg_parts[x][y].cg_cn_first as int,
                    true,
                    #[trigger] tree[x][y],
                ) by {
                    if x < i {
                        assert(cg_parts[x] == old_parts[x]);
                        assert(tree[x] == old_tree[x]);
                    }
                }
            }
            i = i + 1;
        }
        assert(file_tree(s, dg@, cg_parts, tree));
        channels
    }

    /// The index, within its channel group, of the first master channel of
    /// channel group `channel_grp`; fails where the group has none.
    pub fn find_time_channel(&self, _datagroup: usize, channel_grp: usize) -> (r: Result<
        usize,
        &'static str,
    >)
        requires
            channel_grp < self.channel_groups@.len(),
            cn_chain_readable(
                self.file@,
                self.channel_groups@[channel_grp as int].cg_cn_first as int,
                self.little_endian,
            ),
        ensures
            exists|cns: Seq<Cnblock>|
                {
                    &&& is_chain::<Cnblock>(
                        self.file@,
                        self.channel_groups@[channel_grp as int].cg_cn_first as int,
                        self.little_endian,
                        cns,
                    )
                    &&& match r {
                        Ok(i) => {
                            &&& i < cns.len()
                            &&& cns[i as int].channel_type == ChannelType::Master
                            &&& forall|j: int|
                                0 <= j < i ==> (#[trigger] cns[j]).channel_type
                                    != ChannelType::Master
                        },
                        Err(e) => {
                            &&& e == "No time series found for the channel selected"
                            &&& forall|j: int|
                                0 <= j < cns.len() ==> (#[trigger] cns[j]).channel_type
                                    != ChannelType::Master
                        },
                    }
                },
    {
        let channel_group = read_chain::<Cnblock>(
            self.file.as_slice(),
            self.channel_groups[channel_grp].cg_cn_first,
            self.little_endian,
        );
        let mut i: usize = 0;
        while i < channel_group.len()
            invariant
                i <= channel_group@.len(),
                is_chain::<Cnblock>(
                    self.file@,
                    self.channel_groups@[channel_grp as int].cg_cn_first as int,
                    self.little_endian,
                    channel_group@,
                ),
                forall|j: int|
                    0 <= j < i ==> (#[trigger] channel_group@[j]).channel_type
                        != ChannelType::Master,
            decreases channel_group@.len() - i,
        {
            match channel_group[i].channel_type {
                ChannelType::Master => {
                    return Ok(i);
                },
                _ => {},
            }
            i = i + 1;
        }
        Err("No time series found for the channel selected")
    }

    /// Reading the values of a channel is not offered for this version:
    /// gives no records.
    pub fn read_channel(&self, _datagroup: usize, _channel_grp: usize, _channel: usize) -> (r: Vec<
        Record,
    >)
        ensures
            r@.len() == 0,
    {
        Vec::new()
    }

    /// Reads the channel groups of every data group held, chain after chain,
    /// and the channels of each of those groups; keeps them in place of what
    /// was held.
    pub fn read_all(&mut self)
        requires
            forall|i: int|
                0 <= i < old(self).data_groups@.len() ==> cg_tree_ends(
                    old(self).file@,
                    (#[trigger] old(self).data_groups@[i]).dg_cg_first as int,
                    old(self).little_endian,
                ),
        ensures
            final(self).id == old(self).id,
            final(self).header == old(self).header,
            final(self).comment == old(self).comment,
            final(self).data_groups == old(self).data_groups,
            final(self).little_endian == old(self).little_endian,
            final(self).file == old(self).file,
            final(self).all_read(),
    {
        let channel_groups = read_groups(self.file.as_slice(), self.little_endian, &self.data_groups);
        let channels = read_channels(self.file.as_slice(), self.little_endian, &channel_groups);
        self.channel_groups = channel_groups;
        self.channels = channels;
    }

    /// Reads again the data groups of the file, from its header block, as
    /// little endian, and keeps them in place of those held.
    pub fn list(&mut self)
        requires
            old(self).file@.len() >= 64,
            Hdblock::spec_readable(old(self).file@, 64, true),
            exists|fuel: nat|
                chain_ends::<Dgblock>(
                    old(self).file@,
                    first_data_group(old(self).file@),
                    true,
                    fuel,
                ),
        ensures
            final(self).id == old(self).id,
            final(self).header == old(self).header,
            final(self).comment == old(self).comment,
            final(self).channels == old(self).channels,
            final(self).channel_groups == old(self).channel_groups,
            final(self).little_endian == old(self).little_endian,
            final(self).file == old(self).file,
            is_chain::<Dgblock>(
                final(self).file@,
                first_data_group(final(self).file@),
                true,
                final(self).data_groups@,
            ),
    {
        let (position, _id_block) = <Idblock as Block>::read(self.file.as_slice(), 0, true);
        let (_pos, hd_block) = <Hdblock as Block>::read(self.file.as_slice(), position, true);
        let dg = read_chain::<Dgblock>(self.file.as_slice(), hd_block.hd_dg_first, true);
        self.data_groups = dg;
    }

    /// The comment links of every channel group of the file, in file order,
    /// walking the file afresh from its header block, as little endian.
    pub fn list_channels(&self) -> (r: Vec<u64>)
        requires
            mdf4_readable(self.file@),
        ensures
            exists|dgs: Seq<Dgblock>, cgs: Seq<Cgblock>|
                {
                    &&& is_chain::<Dgblock>(self.file@, first_data_group(self.file@), true, dgs)
                    &&& groups_of(self.file@, true, dgs, cgs)
                    &&& r@ == cgs.map_values(|b: Cgblock| b.cg_md_comment)
                },
    {
        let stream = self.file.as_slice();
        let (position, _id_block) = <Idblock as Block>::read(stream, 0, true);
        let (_pos, hd_block) = <Hdblock as Block>::read(stream, position, true);
        let dg = read_chain::<Dgblock>(stream, hd_block.hd_dg_first, true);
        let cg = read_groups(stream, true, &dg);
        let mut comments: Vec<u64> = Vec::new();
        let mut j: usize = 0;
        while j < cg.len()
            invariant
                j <= cg@.len(),
                comments@ == cg@.map_values(|b: Cgblock| b.cg_md_comment).subrange(0, j as int),
            decreases cg@.len() - j,
        {
            comments.push(cg[j].cg_md_comment);
            j = j + 1;
            assert(comments@ =~= cg@.map_values(|b: Cgblock| b.cg_md_comment).subrange(0, j as int));
        }
        assert(comments@ =~= cg@.map_values(|b: Cgblock| b.cg_md_comment));
        comments
    }
}

} // verus!
