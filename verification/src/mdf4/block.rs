//! What every block of an MDF file offers: reading it at a position, and
//! following the link from one block of a chain to the next.
use vstd::prelude::*;

verus! {

/// A block of an MDF version 4 file.
pub trait Block: Sized {
    /// `self` holds what `new` gives.
    spec fn spec_is_new(&self) -> bool;

    /// `self` holds what `default` gives.
    spec fn spec_is_default(&self) -> bool;

    /// The bytes at `position` hold a block of this kind that `read` accepts.
    spec fn spec_readable(stream: Seq<u8>, position: int, little_endian: bool) -> bool;

    /// Reading at `position` gives `block` and stops at `end`.
    spec fn spec_read_result(
        stream: Seq<u8>,
        position: int,
        little_endian: bool,
        end: int,
        block: Self,
    ) -> bool;

    /// `byte_len` is defined for this block.
    spec fn spec_has_byte_len(&self) -> bool;

    /// Number of bytes the block takes in a file.
    spec fn spec_byte_len(&self) -> nat;

    fn new() -> (r: Self)
        ensures
            r.spec_is_new(),
    ;

    fn default() -> (r: Self)
        ensures
            r.spec_is_default(),
    ;

    /// Whether `read` accepts the bytes at `position`.
    fn is_readable(stream: &[u8], position: usize, little_endian: bool) -> (r: bool)
        ensures
            r == Self::spec_readable(stream@, position as int, little_endian),
    ;

    fn read(stream: &[u8], position: usize, little_endian: bool) -> (r: (usize, Self))
        requires
            Self::spec_readable(stream@, position as int, little_endian),
        ensures
            Self::spec_read_result(stream@, position as int, little_endian, r.0 as int, r.1),
    ;

    fn byte_len(&self) -> (r: usize)
        requires
            self.spec_has_byte_len(),
        ensures
            r as nat == self.spec_byte_len(),
    ;
}

/// A block that links to the next block of the same kind; link 0 ends the chain.
pub trait LinkedBlock: Sized {
    /// Address of the next block of the chain.
    spec fn spec_next_link(&self) -> int;

    /// The bytes at `position` hold a block of this kind that can be read.
    spec fn spec_link_readable(stream: Seq<u8>, position: int, little_endian: bool) -> bool;

    /// The link to the next block, as the block at `position` stores it.
    spec fn spec_link_at(stream: Seq<u8>, position: int, little_endian: bool) -> int;

    /// `block` is what reading at `position` gives.
    spec fn spec_block_at(stream: Seq<u8>, position: int, little_endian: bool, block: Self) -> bool;

    proof fn lemma_link_of_block(stream: Seq<u8>, position: int, little_endian: bool, block: Self)
        requires
            Self::spec_block_at(stream, position, little_endian, block),
        ensures
            block.spec_next_link() == Self::spec_link_at(stream, position, little_endian),
    ;

    fn next(&self, stream: &[u8], little_endian: bool) -> (r: Option<Self>)
        requires
            self.spec_next_link() != 0 ==> Self::spec_link_readable(
                stream@,
                self.spec_next_link(),
                little_endian,
            ),
        ensures
            r is None <==> self.spec_next_link() == 0,
            r matches Some(b) ==> Self::spec_block_at(
                stream@,
                self.spec_next_link(),
                little_endian,
                b,
            ),
    ;
}

/// The chain that starts at `position` ends (reaches link 0) within `fuel`
/// blocks, and every block on the way can be read.
pub open spec fn chain_ends<T: LinkedBlock>(
    stream: Seq<u8>,
    position: int,
    little_endian: bool,
    fuel: nat,
) -> bool
    decreases fuel,
{
    position == 0 || (fuel > 0 && T::spec_link_readable(stream, position, little_endian)
        && chain_ends::<T>(
        stream,
        T::spec_link_at(stream, position, little_endian),
        little_endian,
        (fuel - 1) as nat,
    ))
}

/// `blocks` are, in order, the blocks of the chain that starts at `position`.
pub open spec fn is_chain<T: LinkedBlock>(
    stream: Seq<u8>,
    position: int,
    little_endian: bool,
    blocks: Seq<T>,
) -> bool
    decreases blocks.len(),
{
    if position == 0 {
        blocks.len() == 0
    } else {
        blocks.len() > 0 && T::spec_block_at(stream, position, little_endian, blocks[0])
            && is_chain::<T>(stream, blocks[0].spec_next_link(), little_endian, blocks.drop_first())
    }
}

/// Reading a chain gives one sequence of blocks only.
pub proof fn lemma_chain_unique<T: LinkedBlock>(
    stream: Seq<u8>,
    position: int,
    little_endian: bool,
    a: Seq<T>,
    b: Seq<T>,
)
    requires
        forall|p: int, x: T, y: T|
            T::spec_block_at(stream, p, little_endian, x) && T::spec_block_at(
                stream,
                p,
                little_endian,
                y,
            ) ==> x == y,
        is_chain::<T>(stream, position, little_endian, a),
        is_chain::<T>(stream, position, little_endian, b),
    ensures
        a == b,
    decreases a.len(),
{
    if position != 0 {
        lemma_chain_unique::<T>(
            stream,
            a[0].spec_next_link(),
            little_endian,
            a.drop_first(),
            b.drop_first(),
        );
        assert(a =~= seq![a[0]] + a.drop_first());
        assert(b =~= seq![b[0]] + b.drop_first());
    } else {
        assert(a =~= b);
    }
}

/// `first` followed by the blocks of the chain its link starts.
pub fn collect_chain<T: LinkedBlock>(first: T, stream: &[u8], little_endian: bool) -> (r: Vec<T>)
    requires
        exists|fuel: nat| chain_ends::<T>(stream@, first.spec_next_link(), little_endian, fuel),
    ensures
        r@.len() >= 1,
        r@[0] == first,
        is_chain::<T>(stream@, first.spec_next_link(), little_endian, r@.drop_first()),
{
    let ghost start = first.spec_next_link();
    let ghost mut fuel: nat = choose|fuel: nat|
        chain_ends::<T>(stream@, first.spec_next_link(), little_endian, fuel);
    let ghost mut pending: int = start;
    let mut cur = first.next(stream, little_endian);
    let mut all: Vec<T> = Vec::new();
    all.push(first);
    assert(all@.drop_first() =~= Seq::<T>::empty());
    assert forall|rest: Seq<T>| is_chain::<T>(stream@, pending, little_endian, rest) implies is_chain::<
        T,
    >(stream@, start, little_endian, all@.drop_first() + rest) by {
        assert(all@.drop_first() + rest =~= rest);
    }
    loop
        invariant
            all@.len() >= 1,
            all@[0] == first,
            start == first.spec_next_link(),
            chain_ends::<T>(stream@, pending, little_endian, fuel),
            cur is None <==> pending == 0,
            cur matches Some(b) ==> T::spec_block_at(stream@, pending, little_endian, b),
            forall|rest: Seq<T>|
                is_chain::<T>(stream@, pending, little_endian, rest) ==> is_chain::<T>(
                    stream@,
                    start,
                    little_endian,
                    all@.drop_first() + rest,
                ),
        ensures
            all@.len() >= 1,
            all@[0] == first,
            is_chain::<T>(stream@, start, little_endian, all@.drop_first()),
        decreases fuel,
    {
        match cur {
            None => {
                assert(is_chain::<T>(stream@, pending, little_endian, Seq::<T>::empty()));
                assert(all@.drop_first() + Seq::<T>::empty() =~= all@.drop_first());
                break ;
            },
            Some(b) => {
                proof {
                    T::lemma_link_of_block(stream@, pending, little_endian, b);
                    let link = b.spec_next_link();
                    assert(chain_ends::<T>(stream@, link, little_endian, (fuel - 1) as nat));
                    if link != 0 {
                        assert(T::spec_link_readable(stream@, link, little_endian));
                    }
                }
                let following = b.next(stream, little_endian);
                let ghost old_all = all@;
                let ghost old_pending = pending;
                let ghost link = b.spec_next_link();
                all.push(b);
                proof {
                    assert forall|rest: Seq<T>|
                        is_chain::<T>(stream@, link, little_endian, rest) implies is_chain::<T>(
                        stream@,
                        start,
                        little_endian,
                        all@.drop_first() + rest,
                    ) by {
                        let longer = seq![b] + rest;
                        assert(longer.drop_first() =~= rest);
                        assert(longer[0] == b);
                        assert(is_chain::<T>(stream@, old_pending, little_endian, longer));
                        assert(all@.drop_first() + rest =~= old_all.drop_first() + longer);
                    }
                    pending = link;
                    fuel = (fuel - 1) as nat;
                }
                cur = following;
            },
        }
    }
    all
}

/// A linked block whose chains can be checked and read from any position.
pub trait CheckedLink: LinkedBlock {
    /// Whether a block of this kind can be read at `position`.
    fn link_readable(stream: &[u8], position: u64, little_endian: bool) -> (r: bool)
        ensures
            r == Self::spec_link_readable(stream@, position as int, little_endian),
    ;

    /// The block at `position`.
    fn read_link(stream: &[u8], position: u64, little_endian: bool) -> (r: Self)
        requires
            Self::spec_link_readable(stream@, position as int, little_endian),
        ensures
            Self::spec_block_at(stream@, position as int, little_endian, r),
    ;

    /// The address of the next block of the chain.
    fn next_link(&self) -> (r: u64)
        ensures
            r as int == self.spec_next_link(),
    ;
}

/// A checked block that the bytes at its position determine whole.
pub trait UniqueLink: CheckedLink {
    /// The bytes at a position hold one block only.
    proof fn lemma_block_unique(stream: Seq<u8>, position: int, little_endian: bool, a: Self, b: Self)
        requires
            Self::spec_block_at(stream, position, little_endian, a),
            Self::spec_block_at(stream, position, little_endian, b),
        ensures
            a == b,
    ;
}

/// Whether the chain at `position` ends within `limit` blocks.
pub fn chain_ends_within<T: CheckedLink>(
    stream: &[u8],
    position: u64,
    little_endian: bool,
    limit: usize,
) -> (r: bool)
    ensures
        r == chain_ends::<T>(stream@, position as int, little_endian, limit as nat),
{
    let mut pos = position;
    let mut left = limit;
    loop
        invariant
            chain_ends::<T>(stream@, position as int, little_endian, limit as nat) == chain_ends::<T>(
                stream@,
                pos as int,
                little_endian,
                left as nat,
            ),
        decreases left,
    {
        if pos == 0 {
            return true;
        }
        if left == 0 {
            return false;
        }
        if !T::link_readable(stream, pos, little_endian) {
            return false;
        }
        let block = T::read_link(stream, pos, little_endian);
        proof {
            T::lemma_link_of_block(stream@, pos as int, little_endian, block);
        }
        pos = block.next_link();
        left = left - 1;
    }
}

/// The blocks of the chain at `position`, in order.
pub fn read_chain<T: CheckedLink>(stream: &[u8], position: u64, little_endian: bool) -> (r: Vec<T>)
    requires
        exists|fuel: nat| chain_ends::<T>(stream@, position as int, little_endian, fuel),
    ensures
        is_chain::<T>(stream@, position as int, little_endian, r@),
{
    if position == 0 {
        let none: Vec<T> = Vec::new();
        return none;
    }
    let ghost fuel = choose|fuel: nat| chain_ends::<T>(stream@, position as int, little_endian, fuel);
    let first = T::read_link(stream, position, little_endian);
    proof {
        T::lemma_link_of_block(stream@, position as int, little_endian, first);
        assert(chain_ends::<T>(stream@, first.spec_next_link(), little_endian, (fuel - 1) as nat));
    }
    let all = collect_chain(first, stream, little_endian);
    assert(all@.drop_first() == all@.subrange(1, all@.len() as int));
    all
}

/// A chain of checked blocks is read one way only.
pub proof fn lemma_checked_chain_unique<T: UniqueLink>(
    stream: Seq<u8>,
    position: int,
    little_endian: bool,
    a: Seq<T>,
    b: Seq<T>,
)
    requires
        is_chain::<T>(stream, position, little_endian, a),
        is_chain::<T>(stream, position, little_endian, b),
    ensures
        a == b,
{
    assert forall|p: int, x: T, y: T|
        T::spec_block_at(stream, p, little_endian, x) && T::spec_block_at(
            stream,
            p,
            little_endian,
            y,
        ) implies x == y by {
        T::lemma_block_unique(stream, p, little_endian, x, y);
    }
    lemma_chain_unique::<T>(stream, position, little_endian, a, b);
}

/// A block that holds, or points to, the measured data.
pub trait DataBlock {
    /// The measured data of the block can be had.
    spec fn spec_has_data(&self) -> bool;

    /// The measured data of the block.
    spec fn spec_data(&self) -> Seq<u8>;

    fn data_array(&self, stream: &[u8], little_endian: bool) -> (r: Vec<u8>)
        requires
            self.spec_has_data(),
        ensures
            r@ == self.spec_data(),
    ;
}

} // verus!
