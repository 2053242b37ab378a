//! The block store: append-only block records, queryable by latest index and
//! by hash, with the structural chain check.

use vstd::prelude::*;
use vstd::string::*;
use crate::block_entity::{BlockEntity, BlockView};
use crate::ordering::{
    first_match, insert_by_key, lemma_first_match, lemma_insert_by_key,
    lemma_insert_by_key_splice, lemma_sort_by_key, sort_by_key, sorted_by_key,
};
use crate::text::{dec_digits, u64_to_dec};

verus! {

/// The predicate picking blocks with the given hash.
pub open spec fn by_hash(h: Seq<char>) -> spec_fn(BlockView) -> bool {
    |b: BlockView| b.hash == h
}

/// The block index, as the sort key for the chain check.
pub open spec fn index_key() -> spec_fn(BlockView) -> int {
    |b: BlockView| b.index as int
}

/// The position of the latest block: the first block carrying the maximal
/// index, or `-1` for an empty store.
pub open spec fn latest_pos(s: Seq<BlockView>) -> int
    decreases s.len(),
{
    if s.len() == 0 {
        -1
    } else {
        let p = latest_pos(s.drop_last());
        if p < 0 || s[p].index < s.last().index {
            s.len() - 1
        } else {
            p
        }
    }
}

/// `latest_pos` points at a block whose index is maximal.
pub proof fn lemma_latest_pos(s: Seq<BlockView>)
    ensures
        s.len() == 0 ==> latest_pos(s) < 0,
        s.len() > 0 ==> {
            &&& 0 <= latest_pos(s) < s.len()
            &&& forall|i: int|
                0 <= i < s.len() ==> (#[trigger] s[i]).index <= s[latest_pos(s)].index
        },
    decreases s.len(),
{
    if s.len() == 0 {
    } else {
        lemma_latest_pos(s.drop_last());
        let p = latest_pos(s.drop_last());
        assert forall|i: int|
            0 <= i < s.len() implies (#[trigger] s[i]).index <= s[latest_pos(s)].index by {
            if i < s.len() - 1 {
                assert(s.drop_last()[i] == s[i]);
                if p >= 0 {
                    assert(s.drop_last()[p] == s[p]);
                }
            }
        }
    }
}

/// Adjacent blocks are linked: each block names its predecessor's hash.
pub open spec fn chain_linked(s: Seq<BlockView>) -> bool {
    forall|i: int| 1 <= i < s.len() ==> (#[trigger] s[i]).previous_hash == s[i - 1].hash
}

/// The message `is_chain_valid` reports for a break at the block with the
/// given index.
pub open spec fn chain_broken_msg(index: u64) -> Seq<char> {
    "Chain broken at block index "@ + dec_digits(index as nat)
}

/// Position `i` of the index-ordered chain `t` is the first broken back-link,
/// and `m` names it.
pub open spec fn chain_break_at(t: Seq<BlockView>, i: int, m: Seq<char>) -> bool {
    &&& 1 <= i < t.len()
    &&& t[i].previous_hash != t[i - 1].hash
    &&& forall|j: int| 1 <= j < i ==> (#[trigger] t[j]).previous_hash == t[j - 1].hash
    &&& m == chain_broken_msg(t[i].index)
}

/// `m` names the first broken back-link of the index-ordered chain of
/// `blocks`.
pub open spec fn chain_break_reported(blocks: Seq<BlockView>, m: Seq<char>) -> bool {
    exists|i: int| chain_break_at(sort_by_key(index_key(), blocks), i, m)
}

pub struct BlockRepository {
    items: Vec<BlockEntity>,
    next_id: u64,
}

impl View for BlockRepository {
    type V = Seq<BlockView>;

    closed spec fn view(&self) -> Seq<BlockView> {
        self.items@.map_values(|b: BlockEntity| b@)
    }
}

impl BlockRepository {
    /// The next id the store will assign.
    pub closed spec fn spec_next_id(&self) -> u64 {
        self.next_id
    }

    /// Every stored record carries an id below the id counter.
    pub open spec fn wf(&self) -> bool {
        forall|i: int|
            0 <= i < self@.len() ==> (#[trigger] self@[i].id) is Some && self@[i].id->0
                < self.spec_next_id()
    }

    /// An empty store.
    pub fn creation() -> (r: Self)
        ensures
            r.wf(),
            r@ == Seq::<BlockView>::empty(),
            r.spec_next_id() == 1,
    {
        let r = Self { items: Vec::new(), next_id: 1 };
        proof {
            assert(r@ =~= Seq::<BlockView>::empty());
        }
        r
    }

    /// Returns the block with the highest index, if any block exists.
    pub fn find_latest(&self) -> (r: Result<Option<BlockEntity>, String>)
        ensures
            match r {
                Ok(Some(b)) => self@.len() > 0 && b@ == self@[latest_pos(self@)],
                Ok(None) => self@.len() == 0,
                Err(_) => false,
            },
    {
        let n = self.items.len();
        if n == 0 {
            return Ok(None);
        }
        let mut best: usize = 0;
        proof {
            assert(self@.take(1).drop_last() =~= self@.take(0));
            assert(self@.take(1).last() == self@[0]);
            assert(self@.take(0).len() == 0);
            assert(latest_pos(self@.take(0)) == -1);
            assert(latest_pos(self@.take(1)) == 0);
        }
        for i in 1..n
            invariant
                n == self.items@.len(),
                self@.len() == n,
                0 < i <= n,
                0 <= best < i,
                best == latest_pos(self@.take(i as int)),
        {
            proof {
                assert(self@.take(i + 1).drop_last() =~= self@.take(i as int));
                assert(self@.take(i + 1).last() == self@[i as int]);
                assert(self@.take(i as int)[best as int] == self@[best as int]);
            }
            if self.items[best].index < self.items[i].index {
                best = i;
            }
        }
        proof {
            assert(self@.take(n as int) =~= self@);
        }
        Ok(Some(self.items[best].duplicate()))
    }

    /// Looks a block up by its hash; returns the first match in store order.
    pub fn find_by_hash(&self, hash: String) -> (r: Result<Option<BlockEntity>, String>)
        ensures
            match r {
                Ok(Some(b)) => {
                    let k = first_match(self@, by_hash(hash@));
                    k >= 0 && b@ == self@[k]
                },
                Ok(None) => first_match(self@, by_hash(hash@)) < 0,
                Err(_) => false,
            },
    {
        let n = self.items.len();
        for i in 0..n
            invariant
                n == self.items@.len(),
                self@.len() == n,
                forall|j: int| 0 <= j < i ==> (#[trigger] self@[j]).hash != hash@,
        {
            if self.items[i].hash == hash {
                proof {
                    lemma_first_match(self@, by_hash(hash@));
                    assert(by_hash(hash@)(self@[i as int]));
                    assert(first_match(self@, by_hash(hash@)) == i);
                }
                return Ok(Some(self.items[i].duplicate()));
            }
        }
        proof {
            lemma_first_match(self@, by_hash(hash@));
        }
        Ok(None)
    }

    /// Persists a new block record and returns its assigned id.
    pub fn insert(&mut self, block: BlockEntity) -> (r: Result<u64, String>)
        requires
            old(self).wf(),
        ensures
            final(self).wf(),
            match r {
                Ok(id) => {
                    &&& old(self).spec_next_id() < u64::MAX
                    &&& id == old(self).spec_next_id()
                    &&& final(self)@ == old(self)@.push(BlockView { id: Some(id), ..block@ })
                    &&& final(self).spec_next_id() == old(self).spec_next_id() + 1
                },
                Err(_) => {
                    &&& old(self).spec_next_id() == u64::MAX
                    &&& final(self)@ == old(self)@
                    &&& final(self).spec_next_id() == old(self).spec_next_id()
                },
            },
    {
        if self.next_id == u64::MAX {
            return Err(String::from_str("id space exhausted"));
        }
        let id = self.next_id;
        self.next_id = id + 1;
        let mut stored = block;
        stored.id = Some(id);
        self.items.push(stored);
        proof {
            assert(final(self)@ =~= old(self)@.push(BlockView { id: Some(id), ..block@ }));
        }
        Ok(id)
    }

    /// Returns the index of the latest block, or 0 when no block exists.
    pub fn get_last_index(&self) -> (r: Result<u64, String>)
        ensures
            match r {
                Ok(idx) => if self@.len() == 0 {
                    idx == 0
                } else {
                    idx == self@[latest_pos(self@)].index
                },
                Err(_) => false,
            },
    {
        match self.find_latest() {
            Ok(Some(block)) => Ok(block.index),
            Ok(None) => Ok(0),
            Err(e) => Err(e),
        }
    }

    /// Orders the stored blocks by ascending index and checks that each one
    /// names its predecessor's hash.  On the first mismatch, reports the
    /// index of the block whose back-link is broken.
    #[verifier::rlimit(50)]
    pub fn is_chain_valid(&self) -> (r: Result<(), String>)
        ensures
            r is Ok ==> chain_linked(sort_by_key(index_key(), self@)),
            r is Err ==> chain_break_reported(self@, (r->Err_0)@),
    {
        let ghost t = sort_by_key(index_key(), self@);
        // collect the blocks sorted by ascending index
        let mut blocks: Vec<BlockEntity> = Vec::new();
        let n = self.items.len();
        for i in 0..n
            invariant
                n == self.items@.len(),
                self@.len() == n,
                blocks@.map_values(|b: BlockEntity| b@) == sort_by_key(
                    index_key(),
                    self@.take(i as int),
                ),
                sorted_by_key(index_key(), blocks@.map_values(|b: BlockEntity| b@)),
        {
            let ghost sorted_prefix = blocks@.map_values(|b: BlockEntity| b@);
            proof {
                assert(self@.take(i + 1).drop_last() =~= self@.take(i as int));
                assert(self@.take(i + 1).last() == self@[i as int]);
                assert(sort_by_key(index_key(), self@.take(i + 1)) == insert_by_key(
                    index_key(),
                    self@[i as int],
                    sort_by_key(index_key(), self@.take(i as int)),
                ));
            }
            let b = &self.items[i];
            let mut j: usize = 0;
            while j < blocks.len() && blocks[j].index <= b.index
                invariant
                    0 <= j <= blocks@.len(),
                    i < self@.len(),
                    b@ == self@[i as int],
                    sorted_prefix == blocks@.map_values(|x: BlockEntity| x@),
                    sorted_prefix.len() == blocks@.len(),
                    forall|k: int|
                        0 <= k < j ==> (#[trigger] sorted_prefix[k]).index <= self@[i as int].index,
                decreases blocks@.len() - j,
            {
                j += 1;
            }
            proof {
                lemma_insert_by_key_splice(index_key(), self@[i as int], sorted_prefix, j as int);
                lemma_insert_by_key(index_key(), self@[i as int], sorted_prefix);
            }
            blocks.insert(j, b.duplicate());
            proof {
                assert(blocks@.map_values(|x: BlockEntity| x@) =~= sorted_prefix.take(j as int)
                    + seq![self@[i as int]] + sorted_prefix.skip(j as int));
                assert(blocks@.map_values(|x: BlockEntity| x@) == insert_by_key(
                    index_key(),
                    self@[i as int],
                    sorted_prefix,
                ));
            }
        }
        proof {
            assert(self@.take(n as int) =~= self@);
        }
        // check the back-links pairwise
        let m = blocks.len();
        let mut i: usize = 1;
        while i < m
            invariant
                m == blocks@.len(),
                t == sort_by_key(index_key(), self@),
                blocks@.map_values(|b: BlockEntity| b@) == t,
                t.len() == m,
                1 <= i,
                forall|j: int| 1 <= j < i ==> (#[trigger] t[j]).previous_hash == t[j - 1].hash,
            decreases m - i,
        {
            if !(blocks[i].previous_hash == blocks[i - 1].hash) {
                let mut msg = String::from_str("Chain broken at block index ");
                let d = u64_to_dec(blocks[i].index);
                msg.append(d.as_str());
                proof {
                    assert(t[i as int].previous_hash != t[i - 1].hash);
                    assert(msg@ == chain_broken_msg(t[i as int].index));
                    assert(chain_break_at(t, i as int, msg@));
                    assert(chain_break_reported(self@, msg@));
                }
                return Err(msg);
            }
            i += 1;
        }
        Ok(())
    }
}

} // verus!
