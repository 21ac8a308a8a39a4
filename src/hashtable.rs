//! A chained hash table keyed by byte strings, with a fixed number of chains.

use crate::format::bytes_eq;
use crate::provider::{first_match, lemma_first_match, lemma_first_match_bounds};
use vstd::prelude::*;

verus! {

/// The number of chains.
pub const HASH_TABLE_SIZE: usize = 503;

/// A key byte read as a signed C `char` and widened to 32 bits.
pub open spec fn widened(b: u8) -> int {
    if b >= 128 {
        b + 4294967040
    } else {
        b as int
    }
}

/// The 32-bit hash of the first `n` bytes of `key`: each step multiplies by
/// 33 and adds the next byte, modulo 2^32.
pub open spec fn hash_prefix(key: Seq<u8>, n: int) -> int
    decreases n,
{
    if n <= 0 {
        0
    } else {
        (hash_prefix(key, n - 1) * 33 + widened(key[n - 1])) % 4294967296
    }
}

/// The chain that `key` belongs to.
pub open spec fn hash_of(key: Seq<u8>) -> int {
    hash_prefix(key, key.len() as int) % (HASH_TABLE_SIZE as int)
}

/// The chain of `key`.
pub fn get_hash(key: &[u8]) -> (r: usize)
    ensures
        r == hash_of(key@),
        r < HASH_TABLE_SIZE,
{
    let mut h: u64 = 0;
    let mut i: usize = 0;
    while i < key.len()
        invariant
            i <= key@.len(),
            h == hash_prefix(key@, i as int),
            h < 4294967296,
        decreases key@.len() - i,
    {
        let b = key[i];
        let w: u64 = if b >= 128 {
            b as u64 + 4294967040
        } else {
            b as u64
        };
        h = (h * 33 + w) % 4294967296;
        i = i + 1;
    }
    (h % 503) as usize
}

/// The number of entries over all chains.
pub open spec fn total<V>(b: Seq<Seq<(Seq<u8>, V)>>) -> int
    decreases b.len(),
{
    if b.len() == 0 {
        0
    } else {
        total(b.drop_last()) + b.last().len()
    }
}

/// Replacing one chain changes the number of entries by the difference of
/// the chains' lengths.
pub proof fn lemma_total_update<V>(b: Seq<Seq<(Seq<u8>, V)>>, i: int, c: Seq<(Seq<u8>, V)>)
    requires
        0 <= i < b.len(),
    ensures
        total(b.update(i, c)) == total(b) - b[i].len() + c.len(),
    decreases b.len(),
{
    let u = b.update(i, c);
    if i == b.len() - 1 {
        assert(u.drop_last() =~= b.drop_last());
    } else {
        assert(u.drop_last() =~= b.drop_last().update(i, c));
        lemma_total_update(b.drop_last(), i, c);
    }
}

/// The chain after `(key, value)` is inserted: it replaces the first entry
/// with that key, or goes at the end.
pub open spec fn chain_insert<V>(c: Seq<(Seq<u8>, V)>, key: Seq<u8>, value: V) -> Seq<(Seq<u8>, V)> {
    match first_match(c, key) {
        Some(i) => c.update(i, (key, value)),
        None => c.push((key, value)),
    }
}

/// A position in the table: a chain and an entry of it.
pub struct HtIter {
    pub index: usize,
    pub pos: usize,
}

/// `it` designates an entry of `b`.
pub open spec fn iter_valid<V>(b: Seq<Seq<(Seq<u8>, V)>>, it: HtIter) -> bool {
    it.index < b.len() && it.pos < b[it.index as int].len()
}

/// A hash table of values keyed by byte strings.
pub struct HtTable<V> {
    count: usize,
    table: Vec<Vec<(Vec<u8>, V)>>,
}

/// A chain, over plain values.
pub open spec fn chain_view<V>(c: Seq<(Vec<u8>, V)>) -> Seq<(Seq<u8>, V)> {
    c.map_values(|e: (Vec<u8>, V)| (e.0@, e.1))
}

impl<V> View for HtTable<V> {
    type V = Seq<Seq<(Seq<u8>, V)>>;

    closed spec fn view(&self) -> Seq<Seq<(Seq<u8>, V)>> {
        self.table@.map_values(|c: Vec<(Vec<u8>, V)>| chain_view(c@))
    }
}

impl<V> HtTable<V> {
    /// The table's invariant: it has its chains, and its count is the
    /// number of entries.
    pub closed spec fn wf(&self) -> bool {
        self@.len() == HASH_TABLE_SIZE && self.count == total(self@)
    }

    /// An empty table.
    pub fn new() -> (r: HtTable<V>)
        ensures
            r.wf(),
            r@ == Seq::new(HASH_TABLE_SIZE as nat, |i: int| Seq::<(Seq<u8>, V)>::empty()),
    {
        let mut table: Vec<Vec<(Vec<u8>, V)>> = Vec::new();
        let mut i: usize = 0;
        while i < HASH_TABLE_SIZE
            invariant
                i <= HASH_TABLE_SIZE,
                table@.len() == i,
                forall|k: int| 0 <= k < i ==> (#[trigger] table@[k])@.len() == 0,
            decreases HASH_TABLE_SIZE - i,
        {
            table.push(Vec::new());
            i = i + 1;
        }
        let r = HtTable { count: 0, table };
        assert forall|k: int| 0 <= k < HASH_TABLE_SIZE implies r@[k] =~= Seq::<(Seq<u8>, V)>::empty() by {
            assert(r@[k] == chain_view(r.table@[k]@));
        }
        assert(r@ =~= Seq::new(HASH_TABLE_SIZE as nat, |i: int| Seq::<(Seq<u8>, V)>::empty()));
        proof {
            lemma_total_empty(r@);
        }
        r
    }

    /// Removes every entry.
    pub fn clear(&mut self)
        ensures
            final(self).wf(),
            final(self)@ == Seq::new(HASH_TABLE_SIZE as nat, |i: int| Seq::<(Seq<u8>, V)>::empty()),
    {
        *self = HtTable::new();
    }

    /// The number of entries.
    pub fn size(&self) -> (r: usize)
        requires
            self.wf(),
        ensures
            r == total(self@),
    {
        self.count
    }

    /// The value of the first entry with key `key` in its chain.
    pub fn lookup(&self, key: &[u8]) -> (r: Option<&V>)
        requires
            self.wf(),
        ensures
            r is Some == first_match(self@[hash_of(key@)], key@) is Some,
            r is Some ==> *r->Some_0 == self@[hash_of(key@)][first_match(
                self@[hash_of(key@)],
                key@,
            )->Some_0].1,
    {
        let h = get_hash(key);
        match find(&self.table[h], key) {
            Some(i) => Some(&self.table[h][i].1),
            None => None,
        }
    }

    /// Inserts `value` under `key`, over the value of an entry with that key.
    pub fn insert(&mut self, key: Vec<u8>, value: V)
        requires
            old(self).wf(),
            total(old(self)@) < usize::MAX,
        ensures
            final(self).wf(),
            final(self)@ == old(self)@.update(
                hash_of(key@),
                chain_insert(old(self)@[hash_of(key@)], key@, value),
            ),
    {
        let h = get_hash(key.as_slice());
        let mut chain: Vec<(Vec<u8>, V)> = Vec::new();
        self.table.set_and_swap(h, &mut chain);
        let ghost c = chain_view(chain@);
        match find(&chain, key.as_slice()) {
            Some(i) => {
                chain.set(i, (key, value));
            },
            None => {
                chain.push((key, value));
                self.count = self.count + 1;
            },
        }
        assert(chain_view(chain@) =~= chain_insert(c, key@, value));
        self.table.set(h, chain);
        proof {
            assert(self@ =~= old(self)@.update(h as int, chain_insert(c, key@, value)));
            lemma_total_update(old(self)@, h as int, chain_insert(c, key@, value));
        }
    }

    /// Appends an entry at the end of the chain of `key`, whatever it holds.
    pub fn append(&mut self, key: Vec<u8>, value: V)
        requires
            old(self).wf(),
            total(old(self)@) < usize::MAX,
        ensures
            final(self).wf(),
            final(self)@ == old(self)@.update(hash_of(key@), old(self)@[hash_of(key@)].push((key@, value))),
    {
        let h = get_hash(key.as_slice());
        let mut chain: Vec<(Vec<u8>, V)> = Vec::new();
        self.table.set_and_swap(h, &mut chain);
        let ghost c = chain_view(chain@);
        let ghost k = key@;
        chain.push((key, value));
        self.count = self.count + 1;
        assert(chain_view(chain@) =~= c.push((k, value)));
        self.table.set(h, chain);
        proof {
            assert(self@ =~= old(self)@.update(h as int, c.push((k, value))));
            lemma_total_update(old(self)@, h as int, c.push((k, value)));
        }
    }

    /// Removes the first entry with key `key`; whether there was one.
    pub fn remove(&mut self, key: &[u8]) -> (r: bool)
        requires
            old(self).wf(),
        ensures
            final(self).wf(),
            r == first_match(old(self)@[hash_of(key@)], key@) is Some,
            r ==> final(self)@ == old(self)@.update(
                hash_of(key@),
                old(self)@[hash_of(key@)].remove(first_match(old(self)@[hash_of(key@)], key@)->Some_0),
            ),
            !r ==> final(self)@ == old(self)@,
    {
        let h = get_hash(key);
        match find(&self.table[h], key) {
            Some(i) => {
                let mut chain: Vec<(Vec<u8>, V)> = Vec::new();
                self.table.set_and_swap(h, &mut chain);
                let ghost c = chain_view(chain@);
                chain.remove(i);
                assert(chain_view(chain@) =~= c.remove(i as int));
                self.table.set(h, chain);
                proof {
                    assert(self@ =~= old(self)@.update(h as int, c.remove(i as int)));
                    lemma_total_update(old(self)@, h as int, c.remove(i as int));
                    lemma_total_nonneg(self@);
                }
                self.count = self.count - 1;
                true
            },
            None => false,
        }
    }

    /// The first entry of the table, if it has any.
    pub fn set_iter(&self) -> (r: Option<HtIter>)
        requires
            self.wf(),
        ensures
            r matches Some(it) ==> iter_valid(self@, it) && it.pos == 0,
            r matches Some(it) ==> forall|k: int| 0 <= k < it.index ==> (#[trigger] self@[k]).len() == 0,
            r is None ==> forall|k: int| 0 <= k < self@.len() ==> (#[trigger] self@[k]).len() == 0,
    {
        self.first_from(0)
    }

    /// The first entry in a chain at or after `start`.
    fn first_from(&self, start: usize) -> (r: Option<HtIter>)
        requires
            self.wf(),
            start <= HASH_TABLE_SIZE,
        ensures
            r matches Some(it) ==> iter_valid(self@, it) && it.pos == 0 && start <= it.index,
            r matches Some(it) ==> forall|k: int| start <= k < it.index ==> (#[trigger] self@[k]).len() == 0,
            r is None ==> forall|k: int| start <= k < self@.len() ==> (#[trigger] self@[k]).len() == 0,
    {
        let mut i: usize = start;
        while i < HASH_TABLE_SIZE
            invariant
                start <= i <= HASH_TABLE_SIZE,
                self@.len() == HASH_TABLE_SIZE,
                self.table@.len() == HASH_TABLE_SIZE,
                forall|k: int| start <= k < i ==> (#[trigger] self@[k]).len() == 0,
            decreases HASH_TABLE_SIZE - i,
        {
            assert(self@[i as int].len() == self.table@[i as int]@.len());
            if self.table[i].len() > 0 {
                return Some(HtIter { index: i, pos: 0 });
            }
            i = i + 1;
        }
        None
    }

    /// Moves `it` to the next entry, in chain order and then table order;
    /// whether there is one.
    pub fn iter_next(&self, it: &mut HtIter) -> (r: bool)
        requires
            self.wf(),
            iter_valid(self@, *old(it)),
        ensures
            old(it).pos + 1 < self@[old(it).index as int].len() ==> r && final(it).index == old(it).index
                && final(it).pos == old(it).pos + 1,
            old(it).pos + 1 >= self@[old(it).index as int].len() && r ==> iter_valid(self@, *final(it))
                && final(it).pos == 0 && old(it).index < final(it).index && forall|k: int|
                old(it).index < k < final(it).index ==> (#[trigger] self@[k]).len() == 0,
            old(it).pos + 1 >= self@[old(it).index as int].len() && !r ==> forall|k: int|
                old(it).index < k < self@.len() ==> (#[trigger] self@[k]).len() == 0,
    {
        assert(self@[it.index as int].len() == self.table@[it.index as int]@.len());
        let n = self.table[it.index].len();
        if n - it.pos > 1 {
            it.pos = it.pos + 1;
            return true;
        }
        match self.first_from(it.index + 1) {
            Some(next) => {
                *it = next;
                true
            },
            None => false,
        }
    }

    /// The key of the entry at `it`.
    pub fn iter_getkey(&self, it: &HtIter) -> (r: &[u8])
        requires
            self.wf(),
            iter_valid(self@, *it),
        ensures
            r@ == self@[it.index as int][it.pos as int].0,
    {
        assert(self@[it.index as int] == chain_view(self.table@[it.index as int]@));
        self.table[it.index][it.pos].0.as_slice()
    }

    /// The value of the entry at `it`.
    pub fn iter_getval(&self, it: &HtIter) -> (r: &V)
        requires
            self.wf(),
            iter_valid(self@, *it),
        ensures
            *r == self@[it.index as int][it.pos as int].1,
    {
        assert(self@[it.index as int] == chain_view(self.table@[it.index as int]@));
        &self.table[it.index][it.pos].1
    }
}

/// No table holds fewer than no entries.
proof fn lemma_total_nonneg<V>(b: Seq<Seq<(Seq<u8>, V)>>)
    ensures
        total(b) >= 0,
    decreases b.len(),
{
    if b.len() > 0 {
        lemma_total_nonneg(b.drop_last());
    }
}

/// A table of empty chains holds no entry.
proof fn lemma_total_empty<V>(b: Seq<Seq<(Seq<u8>, V)>>)
    requires
        forall|k: int| 0 <= k < b.len() ==> (#[trigger] b[k]).len() == 0,
    ensures
        total(b) == 0,
    decreases b.len(),
{
    if b.len() > 0 {
        lemma_total_empty(b.drop_last());
    }
}

/// The position of the first entry of `chain` with key `key`.
fn find<V>(chain: &Vec<(Vec<u8>, V)>, key: &[u8]) -> (r: Option<usize>)
    ensures
        r matches Some(i) ==> first_match(chain_view(chain@), key@) == Some(i as int),
        r matches Some(i) ==> i < chain@.len(),
        r is None ==> first_match(chain_view(chain@), key@) is None,
{
    let ghost c = chain_view(chain@);
    let mut i: usize = 0;
    while i < chain.len()
        invariant
            i <= chain@.len(),
            c == chain_view(chain@),
            forall|k: int| 0 <= k < i ==> c[k].0 != key@,
        decreases chain@.len() - i,
    {
        if bytes_eq(chain[i].0.as_slice(), key) {
            proof {
                lemma_first_match(c, key@, i as int);
            }
            return Some(i);
        }
        i = i + 1;
    }
    proof {
        lemma_first_match(c, key@, i as int);
    }
    None
}

} // verus!
