//! Small association containers keyed by 64-bit identifiers, with full
//! mathematical views: a map, a set, and a multimap keyed by a pair. They
//! keep insertion order, which the commit path relies on.
use vstd::prelude::*;

verus! {

/// True when no key occurs twice among the entries.
pub open spec fn keys_unique<V>(s: Seq<(u64, V)>) -> bool {
    forall|i: int, j: int| 0 <= i < j < s.len() ==> (#[trigger] s[i]).0 != (#[trigger] s[j]).0
}

/// True when some entry carries the key.
pub open spec fn has_key<V>(s: Seq<(u64, V)>, k: u64) -> bool {
    exists|i: int| 0 <= i < s.len() && (#[trigger] s[i]).0 == k
}

/// The position of the entry carrying the key.
pub open spec fn index_of_key<V>(s: Seq<(u64, V)>, k: u64) -> int {
    choose|i: int| 0 <= i < s.len() && (#[trigger] s[i]).0 == k
}

/// The map an entry sequence stands for.
pub open spec fn map_of<V>(s: Seq<(u64, V)>) -> Map<u64, V> {
    Map::new(|k: u64| has_key(s, k), |k: u64| s[index_of_key(s, k)].1)
}

/// An insertion-ordered map from 64-bit keys to values.
#[derive(Clone, Debug)]
pub struct KMap<V> {
    entries: Vec<(u64, V)>,
}

impl<V> KMap<V> {
    /// The entries in insertion order.
    pub closed spec fn s(&self) -> Seq<(u64, V)> {
        self.entries@
    }

    /// The map the container stands for.
    pub open spec fn m(&self) -> Map<u64, V> {
        map_of(self.s())
    }

    /// Every key occurs once.
    pub closed spec fn wf(&self) -> bool {
        keys_unique(self.entries@)
    }

    pub open spec fn spec_len(&self) -> nat {
        self.s().len()
    }

    pub fn new() -> (r: KMap<V>)
        ensures
            r.wf(),
            r.s() == Seq::<(u64, V)>::empty(),
            r.m() == Map::<u64, V>::empty(),
    {
        let r = KMap { entries: Vec::new() };
        proof {
            assert(r.m() =~= Map::<u64, V>::empty());
        }
        r
    }

    pub fn len(&self) -> (r: usize)
        ensures
            r == self.spec_len(),
    {
        self.entries.len()
    }

    pub fn is_empty(&self) -> (r: bool)
        ensures
            r == (self.spec_len() == 0),
    {
        self.entries.len() == 0
    }

    /// The position of the key's entry, if the key is present.
    fn find(&self, k: u64) -> (r: Option<usize>)
        ensures
            match r {
                Some(i) => i < self.s().len() && self.s()[i as int].0 == k,
                None => !has_key(self.s(), k),
            },
    {
        let mut i: usize = 0;
        while i < self.entries.len()
            invariant
                i <= self.s().len(),
                forall|j: int| 0 <= j < i ==> (#[trigger] self.s()[j]).0 != k,
            decreases self.s().len() - i,
        {
            if self.entries[i].0 == k {
                return Some(i);
            }
            i = i + 1;
        }
        None
    }

    pub fn contains_key(&self, k: u64) -> (r: bool)
        ensures
            r == self.m().dom().contains(k),
    {
        self.find(k).is_some()
    }

    pub fn get(&self, k: u64) -> (r: Option<&V>)
        requires
            self.wf(),
        ensures
            match r {
                Some(v) => self.m().dom().contains(k) && *v == self.m()[k],
                None => !self.m().dom().contains(k),
            },
    {
        match self.find(k) {
            Some(i) => {
                proof {
                    let w = index_of_key(self.s(), k);
                    assert(0 <= w < self.s().len() && self.s()[w].0 == k);
                    assert(w == i);
                }
                Some(&self.entries[i].1)
            },
            None => None,
        }
    }

    /// Binds the key to the value: replaces the old entry in place, or
    /// appends a new one.
    pub fn insert(&mut self, k: u64, v: V)
        requires
            old(self).wf(),
        ensures
            final(self).wf(),
            final(self).m() == old(self).m().insert(k, v),
            final(self).m().dom().contains(k),
            old(self).m().dom().contains(k) ==> final(self).s().len() == old(self).s().len(),
            !old(self).m().dom().contains(k) ==> final(self).s() == old(self).s().push((k, v)),
    {
        let found = self.find(k);
        match found {
            Some(i) => {
                self.entries[i] = (k, v);
                proof {
                    let snew = self.s();
                    let sold = old(self).s();
                    assert forall|k2: u64| has_key(snew, k2) == has_key(sold, k2) by {
                        if has_key(sold, k2) {
                            let w = index_of_key(sold, k2);
                            assert(0 <= w < sold.len() && sold[w].0 == k2);
                            if w == i {
                                assert(snew[i as int].0 == k2);
                            } else {
                                assert(snew[w].0 == k2);
                            }
                            assert(has_key(snew, k2));
                        }
                        if has_key(snew, k2) {
                            let w = index_of_key(snew, k2);
                            assert(0 <= w < snew.len() && snew[w].0 == k2);
                            if w == i {
                                assert(sold[w].0 == k2);
                            } else {
                                assert(sold[w].0 == k2);
                            }
                            assert(has_key(sold, k2));
                        }
                    }
                    assert forall|k2: u64| has_key(snew, k2) implies snew[index_of_key(snew, k2)].1
                        == old(self).m().insert(k, v)[k2] by {
                        let w = index_of_key(snew, k2);
                        assert(0 <= w < snew.len() && snew[w].0 == k2);
                        if k2 == k {
                            assert(w == i);
                        } else {
                            assert(w != i);
                            let wo = index_of_key(sold, k2);
                            assert(0 <= wo < sold.len() && sold[wo].0 == k2);
                            assert(wo == w);
                        }
                    }
                    assert(self.m() =~= old(self).m().insert(k, v));
                }
            },
            None => {
                self.entries.push((k, v));
                proof {
                    let snew = self.s();
                    let sold = old(self).s();
                    assert(snew =~= sold.push((k, v)));
                    assert forall|k2: u64| has_key(snew, k2) implies (k2 == k || has_key(
                        sold,
                        k2,
                    )) by {
                        let w = index_of_key(snew, k2);
                        assert(0 <= w < snew.len() && snew[w].0 == k2);
                        if w < sold.len() {
                            assert(sold[w].0 == k2);
                        }
                    }
                    assert forall|k2: u64| has_key(sold, k2) implies has_key(snew, k2) by {
                        let w = index_of_key(sold, k2);
                        assert(0 <= w < sold.len() && sold[w].0 == k2);
                        assert(snew[w].0 == k2);
                    }
                    assert(has_key(snew, k)) by {
                        assert(snew[sold.len() as int].0 == k);
                    }
                    assert forall|k2: u64| has_key(snew, k2) implies snew[index_of_key(snew, k2)].1
                        == old(self).m().insert(k, v)[k2] by {
                        let w = index_of_key(snew, k2);
                        assert(0 <= w < snew.len() && snew[w].0 == k2);
                        if k2 == k {
                            assert(!has_key(sold, k2));
                            assert(w == sold.len());
                        } else {
                            assert(w < sold.len());
                            let wo = index_of_key(sold, k2);
                            assert(0 <= wo < sold.len() && sold[wo].0 == k2);
                            assert(wo == w);
                        }
                    }
                    assert(self.m() =~= old(self).m().insert(k, v));
                }
            },
        }
    }

    /// Unbinds the key, keeping the order of the other entries.
    pub fn remove(&mut self, k: u64)
        requires
            old(self).wf(),
        ensures
            final(self).wf(),
            final(self).m() == old(self).m().remove(k),
            final(self).s().len() <= old(self).s().len(),
    {
        let found = self.find(k);
        match found {
            Some(i) => {
                self.entries.remove(i);
                proof {
                    let snew = self.s();
                    let sold = old(self).s();
                    assert forall|k2: u64| has_key(snew, k2) implies has_key(sold, k2) && k2
                        != k by {
                        let w = index_of_key(snew, k2);
                        assert(0 <= w < snew.len() && snew[w].0 == k2);
                        if w < i {
                            assert(sold[w].0 == k2);
                        } else {
                            assert(sold[w + 1].0 == k2);
                        }
                    }
                    assert forall|k2: u64| has_key(sold, k2) && k2 != k implies has_key(
                        snew,
                        k2,
                    ) by {
                        let w = index_of_key(sold, k2);
                        assert(0 <= w < sold.len() && sold[w].0 == k2);
                        assert(w != i);
                        if w < i {
                            assert(snew[w].0 == k2);
                        } else {
                            assert(snew[w - 1].0 == k2);
                        }
                    }
                    assert forall|k2: u64| has_key(snew, k2) implies snew[index_of_key(snew, k2)].1
                        == old(self).m().remove(k)[k2] by {
                        let w = index_of_key(snew, k2);
                        assert(0 <= w < snew.len() && snew[w].0 == k2);
                        let wo = index_of_key(sold, k2);
                        assert(0 <= wo < sold.len() && sold[wo].0 == k2);
                        if w < i {
                            assert(wo == w);
                        } else {
                            assert(sold[w + 1].0 == k2);
                            assert(wo == w + 1);
                        }
                    }
                    assert(self.m() =~= old(self).m().remove(k));
                }
            },
            None => {
                proof {
                    assert(self.m() =~= old(self).m().remove(k));
                }
            },
        }
    }

    /// The entry at a position, in insertion order.
    pub fn entry_at(&self, i: usize) -> (r: &(u64, V))
        requires
            i < self.spec_len(),
        ensures
            *r == self.s()[i as int],
    {
        &self.entries[i]
    }

    pub fn clear(&mut self)
        ensures
            final(self).wf(),
            final(self).s() == Seq::<(u64, V)>::empty(),
            final(self).m() == Map::<u64, V>::empty(),
    {
        self.entries = Vec::new();
        proof {
            assert(self.m() =~= Map::<u64, V>::empty());
        }
    }
}


#[derive(Clone, Debug)]
pub struct KSet {
    entries: Vec<u64>,
}

impl KSet {
    pub closed spec fn s(&self) -> Seq<u64> {
        self.entries@
    }

    pub open spec fn set(&self) -> Set<u64> {
        Set::new(|k: u64| self.s().contains(k))
    }

    pub closed spec fn wf(&self) -> bool {
        forall|i: int, j: int|
            0 <= i < j < self.entries@.len() ==> self.entries@[i] != self.entries@[j]
    }

    pub fn new() -> (r: KSet)
        ensures
            r.wf(),
            r.set() == Set::<u64>::empty(),
    {
        let r = KSet { entries: Vec::new() };
        proof {
            assert(r.set() =~= Set::<u64>::empty());
        }
        r
    }

    pub fn contains(&self, k: u64) -> (r: bool)
        ensures
            r == self.set().contains(k),
    {
        let mut i: usize = 0;
        while i < self.entries.len()
            invariant
                i <= self.s().len(),
                forall|j: int| 0 <= j < i ==> self.s()[j] != k,
            decreases self.s().len() - i,
        {
            if self.entries[i] == k {
                return true;
            }
            i = i + 1;
        }
        false
    }

    pub fn insert(&mut self, k: u64) -> (added: bool)
        requires
            old(self).wf(),
        ensures
            final(self).wf(),
            final(self).set() == old(self).set().insert(k),
            added == !old(self).set().contains(k),
    {
        if self.contains(k) {
            proof {
                assert(self.set() =~= old(self).set().insert(k));
            }
            false
        } else {
            self.entries.push(k);
            proof {
                assert(self.s() =~= old(self).s().push(k));
                assert forall|k2: u64| self.s().contains(k2) implies (k2 == k || old(
                    self,
                ).s().contains(k2)) by {
                    let w = choose|w: int| 0 <= w < self.s().len() && self.s()[w] == k2;
                    if w < old(self).s().len() {
                        assert(old(self).s()[w] == k2);
                    }
                }
                assert forall|k2: u64| old(self).s().contains(k2) implies self.s().contains(
                    k2,
                ) by {
                    let w = choose|w: int| 0 <= w < old(self).s().len() && old(self).s()[w] == k2;
                    assert(self.s()[w] == k2);
                }
                assert(self.s().contains(k)) by {
                    assert(self.s()[old(self).s().len() as int] == k);
                }
                assert(self.set() =~= old(self).set().insert(k));
            }
            true
        }
    }

    pub fn remove(&mut self, k: u64) -> (removed: bool)
        requires
            old(self).wf(),
        ensures
            final(self).wf(),
            final(self).set() == old(self).set().remove(k),
            removed == old(self).set().contains(k),
    {
        let mut i: usize = 0;
        while i < self.entries.len()
            invariant
                i <= self.s().len(),
                self.s() == old(self).s(),
                old(self).wf(),
                forall|j: int| 0 <= j < i ==> self.s()[j] != k,
            decreases self.s().len() - i,
        {
            if self.entries[i] == k {
                self.entries.remove(i);
                proof {
                    let snew = self.s();
                    let sold = old(self).s();
                    assert forall|k2: u64| snew.contains(k2) implies sold.contains(k2) && k2
                        != k by {
                        let w = choose|w: int| 0 <= w < snew.len() && snew[w] == k2;
                        if w < i {
                            assert(sold[w] == k2);
                        } else {
                            assert(sold[w + 1] == k2);
                        }
                    }
                    assert forall|k2: u64| sold.contains(k2) && k2 != k implies snew.contains(
                        k2,
                    ) by {
                        let w = choose|w: int| 0 <= w < sold.len() && sold[w] == k2;
                        assert(w != i);
                        if w < i {
                            assert(snew[w] == k2);
                        } else {
                            assert(snew[w - 1] == k2);
                        }
                    }
                    assert(self.set() =~= old(self).set().remove(k));
                }
                return true;
            }
            i = i + 1;
        }
        proof {
            assert(!self.s().contains(k));
            assert(self.set() =~= old(self).set().remove(k));
        }
        false
    }
}


/// True when no value occurs twice.
pub open spec fn nodup(s: Seq<u64>) -> bool {
    forall|i: int, j: int| 0 <= i < j < s.len() ==> s[i] != s[j]
}

/// The sequence with every occurrence of `v` taken out, order kept.
pub open spec fn seq_without(s: Seq<u64>, v: u64) -> Seq<u64>
    decreases s.len(),
{
    if s.len() == 0 {
        Seq::empty()
    } else if s.last() == v {
        seq_without(s.drop_last(), v)
    } else {
        seq_without(s.drop_last(), v).push(s.last())
    }
}

/// What `seq_without` holds: the original values except `v`, still without
/// duplicates when the original had none.
pub proof fn lemma_seq_without_props(s: Seq<u64>, v: u64)
    ensures
        forall|x: u64| seq_without(s, v).contains(x) <==> (s.contains(x) && x != v),
        nodup(s) ==> nodup(seq_without(s, v)),
        seq_without(s, v).len() <= s.len(),
    decreases s.len(),
{
    if s.len() == 0 {
    } else {
        let d = s.drop_last();
        lemma_seq_without_props(d, v);
        let r = seq_without(s, v);
        assert forall|x: u64| s.contains(x) implies (d.contains(x) || x == s.last()) by {
            let w = choose|w: int| 0 <= w < s.len() && s[w] == x;
            if w < d.len() {
                assert(d[w] == x);
            }
        }
        assert forall|x: u64| d.contains(x) implies s.contains(x) by {
            let w = choose|w: int| 0 <= w < d.len() && d[w] == x;
            assert(s[w] == x);
        }
        if s.last() != v {
            assert(s.contains(s.last())) by {
                assert(s[s.len() - 1] == s.last());
            }
            assert forall|x: u64| r.contains(x) implies (s.contains(x) && x != v) by {
                let w = choose|w: int| 0 <= w < r.len() && r[w] == x;
                if w < r.len() - 1 {
                    assert(seq_without(d, v)[w] == x);
                }
            }
            assert forall|x: u64| s.contains(x) && x != v implies r.contains(x) by {
                let rd = seq_without(d, v);
                if d.contains(x) {
                    assert(rd.contains(x));
                    let w = choose|w: int| 0 <= w < rd.len() && rd[w] == x;
                    assert(r[w] == x);
                } else {
                    assert(x == s.last());
                    assert(r[r.len() - 1] == x);
                }
            }
            if nodup(s) {
                assert(nodup(d));
                assert(!d.contains(s.last())) by {
                    if d.contains(s.last()) {
                        let w = choose|w: int| 0 <= w < d.len() && d[w] == s.last();
                        assert(s[w] == s[s.len() - 1]);
                    }
                }
                assert(nodup(r)) by {
                    let rd = seq_without(d, v);
                    assert(nodup(rd));
                    assert(!rd.contains(s.last()));
                    assert forall|i: int, j: int| 0 <= i < j < r.len() implies r[i] != r[j] by {
                        if j < r.len() - 1 {
                            assert(rd[i] == r[i] && rd[j] == r[j]);
                        } else {
                            assert(r[j] == s.last());
                            assert(rd[i] == r[i]);
                            assert(rd.contains(rd[i]));
                        }
                    }
                }
            }
        } else {
            assert(r == seq_without(d, v));
            assert forall|x: u64| r.contains(x) implies (s.contains(x) && x != v) by {
                assert(seq_without(d, v).contains(x));
                assert(d.contains(x) && x != v);
                assert(s.contains(x));
            }
            assert forall|x: u64| s.contains(x) && x != v implies r.contains(x) by {
                assert(d.contains(x) || x == s.last());
                assert(d.contains(x));
            }
        }
    }
}

fn vec_contains(list: &Vec<u64>, v: u64) -> (r: bool)
    ensures
        r == list@.contains(v),
{
    let mut i: usize = 0;
    while i < list.len()
        invariant
            i <= list@.len(),
            forall|j: int| 0 <= j < i ==> list@[j] != v,
        decreases list@.len() - i,
    {
        if list[i] == v {
            return true;
        }
        i = i + 1;
    }
    false
}

/// A copy of the list with every occurrence of `v` taken out.
fn vec_without(list: &Vec<u64>, v: u64) -> (r: Vec<u64>)
    ensures
        r@ == seq_without(list@, v),
{
    let mut out: Vec<u64> = Vec::new();
    let mut i: usize = 0;
    while i < list.len()
        invariant
            i <= list@.len(),
            out@ == seq_without(list@.subrange(0, i as int), v),
        decreases list@.len() - i,
    {
        let x = list[i];
        if x != v {
            out.push(x);
        }
        i = i + 1;
        proof {
            let pre = list@.subrange(0, i as int);
            assert(pre.drop_last() =~= list@.subrange(0, i - 1));
            assert(pre.last() == list@[i - 1]);
        }
    }
    proof {
        assert(list@.subrange(0, list@.len() as int) =~= list@);
    }
    out
}

pub open spec fn phas_key(s: Seq<((u64, u64), Vec<u64>)>, k: (u64, u64)) -> bool {
    exists|i: int| 0 <= i < s.len() && (#[trigger] s[i]).0 == k
}

pub open spec fn pindex_of_key(s: Seq<((u64, u64), Vec<u64>)>, k: (u64, u64)) -> int {
    choose|i: int| 0 <= i < s.len() && (#[trigger] s[i]).0 == k
}

pub open spec fn pkeys_unique(s: Seq<((u64, u64), Vec<u64>)>) -> bool {
    forall|i: int, j: int| 0 <= i < j < s.len() ==> (#[trigger] s[i]).0 != (#[trigger] s[j]).0
}

/// The multimap an entry sequence stands for.
pub open spec fn pmap_of(s: Seq<((u64, u64), Vec<u64>)>) -> Map<(u64, u64), Seq<u64>> {
    Map::new(|k: (u64, u64)| phas_key(s, k), |k: (u64, u64)| s[pindex_of_key(s, k)].1@)
}

/// An insertion-ordered multimap from a key pair to a duplicate-free list of
/// 64-bit values.
#[derive(Clone, Debug)]
pub struct PairMap {
    entries: Vec<((u64, u64), Vec<u64>)>,
}

impl PairMap {
    pub closed spec fn s(&self) -> Seq<((u64, u64), Vec<u64>)> {
        self.entries@
    }

    /// The multimap the container stands for.
    pub open spec fn m(&self) -> Map<(u64, u64), Seq<u64>> {
        pmap_of(self.s())
    }

    /// Every key occurs once and no list repeats a value.
    pub closed spec fn wf(&self) -> bool {
        &&& pkeys_unique(self.entries@)
        &&& forall|i: int| 0 <= i < self.entries@.len() ==> nodup((#[trigger] self.entries@[i]).1@)
    }

    /// Every list in the multimap is free of duplicates.
    pub proof fn lemma_lists_nodup(&self, k: (u64, u64))
        requires
            self.wf(),
            self.m().dom().contains(k),
        ensures
            nodup(self.m()[k]),
    {
        let w = pindex_of_key(self.s(), k);
        assert(0 <= w < self.s().len() && self.s()[w].0 == k);
    }

    pub fn new() -> (r: PairMap)
        ensures
            r.wf(),
            r.m() == Map::<(u64, u64), Seq<u64>>::empty(),
    {
        let r = PairMap { entries: Vec::new() };
        proof {
            assert(r.m() =~= Map::<(u64, u64), Seq<u64>>::empty());
        }
        r
    }

    fn find(&self, k: (u64, u64)) -> (r: Option<usize>)
        ensures
            match r {
                Some(i) => i < self.s().len() && self.s()[i as int].0 == k,
                None => !phas_key(self.s(), k),
            },
    {
        let mut i: usize = 0;
        while i < self.entries.len()
            invariant
                i <= self.s().len(),
                forall|j: int| 0 <= j < i ==> (#[trigger] self.s()[j]).0 != k,
            decreases self.s().len() - i,
        {
            let e = &self.entries[i];
            if e.0.0 == k.0 && e.0.1 == k.1 {
                return Some(i);
            }
            i = i + 1;
        }
        None
    }

    /// The values filed under the key, in insertion order.
    pub fn get_vec(&self, k: (u64, u64)) -> (r: Option<&Vec<u64>>)
        requires
            self.wf(),
        ensures
            match r {
                Some(list) => self.m().dom().contains(k) && list@ == self.m()[k],
                None => !self.m().dom().contains(k),
            },
    {
        match self.find(k) {
            Some(i) => {
                proof {
                    let w = pindex_of_key(self.s(), k);
                    assert(0 <= w < self.s().len() && self.s()[w].0 == k);
                    assert(w == i);
                }
                Some(&self.entries[i].1)
            },
            None => None,
        }
    }

    /// Files `v` under `k` unless it is already there.
    pub fn add(&mut self, k: (u64, u64), v: u64)
        requires
            old(self).wf(),
        ensures
            final(self).wf(),
            final(self).m().dom() == old(self).m().dom().insert(k),
            final(self).m()[k] == if old(self).m().dom().contains(k) {
                if old(self).m()[k].contains(v) {
                    old(self).m()[k]
                } else {
                    old(self).m()[k].push(v)
                }
            } else {
                seq![v]
            },
            forall|k2: (u64, u64)|
                k2 != k && old(self).m().dom().contains(k2) ==> final(self).m()[k2] == old(
                    self,
                ).m()[k2],
    {
        let found = self.find(k);
        match found {
            Some(i) => {
                let mut list = self.entries[i].1.clone();
                if !vec_contains(&list, v) {
                    list.push(v);
                }
                let ghost newlist = list@;
                self.entries[i] = (k, list);
                proof {
                    let snew = self.s();
                    let sold = old(self).s();
                    let w = pindex_of_key(sold, k);
                    assert(0 <= w < sold.len() && sold[w].0 == k);
                    assert(w == i);
                    assert forall|k2: (u64, u64)| phas_key(snew, k2) == phas_key(sold, k2) by {
                        if phas_key(sold, k2) {
                            let u = pindex_of_key(sold, k2);
                            assert(0 <= u < sold.len() && sold[u].0 == k2);
                            if u == i {
                                assert(snew[u].0 == k2);
                            } else {
                                assert(snew[u].0 == k2);
                            }
                            assert(phas_key(snew, k2));
                        }
                        if phas_key(snew, k2) {
                            let u = pindex_of_key(snew, k2);
                            assert(0 <= u < snew.len() && snew[u].0 == k2);
                            assert(sold[u].0 == k2);
                            assert(phas_key(sold, k2));
                        }
                    }
                    assert(final(self).m().dom() =~= old(self).m().dom().insert(k));
                    assert forall|k2: (u64, u64)| phas_key(snew, k2) implies snew[pindex_of_key(
                        snew,
                        k2,
                    )].1@ == (if k2 == k {
                        newlist
                    } else {
                        old(self).m()[k2]
                    }) by {
                        let u = pindex_of_key(snew, k2);
                        assert(0 <= u < snew.len() && snew[u].0 == k2);
                        if k2 == k {
                            assert(u == i);
                        } else {
                            assert(u != i);
                            let uo = pindex_of_key(sold, k2);
                            assert(0 <= uo < sold.len() && sold[uo].0 == k2);
                            assert(uo == u);
                        }
                    }
                }
            },
            None => {
                let mut list: Vec<u64> = Vec::new();
                list.push(v);
                self.entries.push((k, list));
                proof {
                    let snew = self.s();
                    let sold = old(self).s();
                    assert forall|k2: (u64, u64)| phas_key(snew, k2) implies (k2 == k || phas_key(
                        sold,
                        k2,
                    )) by {
                        let u = pindex_of_key(snew, k2);
                        assert(0 <= u < snew.len() && snew[u].0 == k2);
                        if u < sold.len() {
                            assert(sold[u].0 == k2);
                        }
                    }
                    assert forall|k2: (u64, u64)| phas_key(sold, k2) implies phas_key(
                        snew,
                        k2,
                    ) by {
                        let u = pindex_of_key(sold, k2);
                        assert(0 <= u < sold.len() && sold[u].0 == k2);
                        assert(snew[u].0 == k2);
                    }
                    assert(phas_key(snew, k)) by {
                        assert(snew[sold.len() as int].0 == k);
                    }
                    assert(final(self).m().dom() =~= old(self).m().dom().insert(k));
                    assert forall|k2: (u64, u64)| phas_key(snew, k2) implies snew[pindex_of_key(
                        snew,
                        k2,
                    )].1@ == (if k2 == k {
                        seq![v]
                    } else {
                        old(self).m()[k2]
                    }) by {
                        let u = pindex_of_key(snew, k2);
                        assert(0 <= u < snew.len() && snew[u].0 == k2);
                        if k2 == k {
                            assert(!phas_key(sold, k2));
                            assert(u == sold.len());
                            assert(snew[u].1@ =~= seq![v]);
                        } else {
                            assert(u < sold.len());
                            let uo = pindex_of_key(sold, k2);
                            assert(0 <= uo < sold.len() && sold[uo].0 == k2);
                            assert(uo == u);
                        }
                    }
                }
            },
        }
    }

    /// Takes the value out of every list it occurs in.
    pub fn remove_value(&mut self, v: u64)
        requires
            old(self).wf(),
        ensures
            final(self).wf(),
            final(self).m().dom() == old(self).m().dom(),
            forall|k: (u64, u64)| #[trigger]
                old(self).m().dom().contains(k) ==> final(self).m()[k] == seq_without(
                    old(self).m()[k],
                    v,
                ),
    {
        let mut i: usize = 0;
        while i < self.entries.len()
            invariant
                i <= self.s().len(),
                self.s().len() == old(self).s().len(),
                old(self).wf(),
                forall|j: int|
                    0 <= j < self.s().len() ==> (#[trigger] self.s()[j]).0 == old(self).s()[j].0,
                forall|j: int|
                    0 <= j < i ==> (#[trigger] self.s()[j]).1@ == seq_without(
                        old(self).s()[j].1@,
                        v,
                    ),
                forall|j: int|
                    i <= j < self.s().len() ==> (#[trigger] self.s()[j]).1@ == old(
                        self,
                    ).s()[j].1@,
            decreases self.s().len() - i,
        {
            let key = self.entries[i].0;
            let filtered = vec_without(&self.entries[i].1, v);
            proof {
                assert(self.s()[i as int].0 == old(self).s()[i as int].0);
            }
            self.entries[i] = (key, filtered);
            i = i + 1;
        }
        proof {
            let snew = self.s();
            let sold = old(self).s();
            assert forall|j: int| 0 <= j < snew.len() implies nodup(
                (#[trigger] snew[j]).1@,
            ) by {
                lemma_seq_without_props(sold[j].1@, v);
            }
            assert forall|k: (u64, u64)| phas_key(snew, k) == phas_key(sold, k) by {
                if phas_key(sold, k) {
                    let u = pindex_of_key(sold, k);
                    assert(0 <= u < sold.len() && sold[u].0 == k);
                    assert(snew[u].0 == k);
                    assert(phas_key(snew, k));
                }
                if phas_key(snew, k) {
                    let u = pindex_of_key(snew, k);
                    assert(0 <= u < snew.len() && snew[u].0 == k);
                    assert(sold[u].0 == k);
                    assert(phas_key(sold, k));
                }
            }
            assert(final(self).m().dom() =~= old(self).m().dom());
            assert forall|k: (u64, u64)| phas_key(sold, k) implies snew[pindex_of_key(snew, k)].1@
                == seq_without(sold[pindex_of_key(sold, k)].1@, v) by {
                let u = pindex_of_key(snew, k);
                assert(0 <= u < snew.len() && snew[u].0 == k);
                let uo = pindex_of_key(sold, k);
                assert(0 <= uo < sold.len() && sold[uo].0 == k);
                assert(uo == u);
            }
        }
    }
}

} // verus!
