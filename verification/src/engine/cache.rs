use crate::engine::buffer::Buffer;
use vstd::prelude::*;
use vstd::string::*;

verus! {

/// What a rendered buffer is filed under: the source image and the size it
/// was rendered at.
#[derive(Debug, Clone, PartialEq, Eq, Hash)]
pub struct CacheKey {
    path: String,
    width: u32,
    height: u32,
}

impl View for CacheKey {
    type V = (Seq<char>, u32, u32);

    closed spec fn view(&self) -> (Seq<char>, u32, u32) {
        (self.path@, self.width, self.height)
    }
}

impl CacheKey {
    pub fn new(path: &str, width: u32, height: u32) -> (key: CacheKey)
        ensures
            key@ == (path@, width, height),
    {
        CacheKey { path: path.to_owned(), width, height }
    }

    /// Whether two keys name the same image at the same size.
    pub fn same(&self, other: &CacheKey) -> (r: bool)
        ensures
            r == (self@ == other@),
    {
        self.width == other.width && self.height == other.height && self.path == other.path
    }

    pub fn path(&self) -> (path: &str)
        ensures
            path@ == self@.0,
    {
        self.path.as_str()
    }

    pub fn width(&self) -> (w: u32)
        ensures
            w == self@.1,
    {
        self.width
    }

    pub fn height(&self) -> (h: u32)
        ensures
            h == self@.2,
    {
        self.height
    }
}

/// Whether `entries` files something under `key`.
pub open spec fn filed(entries: Seq<(CacheKey, Buffer)>, key: (Seq<char>, u32, u32)) -> bool {
    exists|i: int| 0 <= i < entries.len() && (#[trigger] entries[i]).0@ == key
}

/// A position at which `entries` files `key`.
pub open spec fn position(entries: Seq<(CacheKey, Buffer)>, key: (Seq<char>, u32, u32)) -> int {
    choose|i: int| 0 <= i < entries.len() && (#[trigger] entries[i]).0@ == key
}

/// Whether no key is filed twice.
pub open spec fn distinct_keys(entries: Seq<(CacheKey, Buffer)>) -> bool {
    forall|i: int, j: int|
        0 <= i < j < entries.len() ==> (#[trigger] entries[i]).0@ != (#[trigger] entries[j]).0@
}

/// The map that `entries` stands for.
pub open spec fn as_map(entries: Seq<(CacheKey, Buffer)>) -> Map<(Seq<char>, u32, u32), Buffer> {
    Map::new(
        |key: (Seq<char>, u32, u32)| filed(entries, key),
        |key: (Seq<char>, u32, u32)| entries[position(entries, key)].1,
    )
}

/// Rendered buffers by source image and size. Entries are never evicted;
/// filing under a key that is present replaces the buffer.
pub struct Cache {
    buffers: Vec<(CacheKey, Buffer)>,
}

impl View for Cache {
    type V = Map<(Seq<char>, u32, u32), Buffer>;

    closed spec fn view(&self) -> Map<(Seq<char>, u32, u32), Buffer> {
        as_map(self.buffers@)
    }
}

impl Default for Cache {
    fn default() -> (cache: Cache)
        ensures
            cache.wf(),
            cache@ == Map::<(Seq<char>, u32, u32), Buffer>::empty(),
    {
        Cache::new()
    }
}

impl Cache {
    /// What holds of every cache between calls: no key is filed twice.
    pub closed spec fn wf(&self) -> bool {
        distinct_keys(self.buffers@)
    }

    /// An empty cache.
    pub fn new() -> (cache: Cache)
        ensures
            cache.wf(),
            cache@ == Map::<(Seq<char>, u32, u32), Buffer>::empty(),
    {
        let cache = Cache { buffers: Vec::new() };
        assert(cache@ =~= Map::<(Seq<char>, u32, u32), Buffer>::empty());
        cache
    }

    fn find(&self, key: &CacheKey) -> (at: Option<usize>)
        ensures
            match at {
                Some(i) => i < self.buffers@.len() && self.buffers@[i as int].0@ == key@,
                None => !filed(self.buffers@, key@),
            },
    {
        let mut i: usize = 0;
        while i < self.buffers.len()
            invariant
                0 <= i <= self.buffers.len(),
                forall|j: int| 0 <= j < i ==> (#[trigger] self.buffers@[j]).0@ != key@,
            decreases self.buffers.len() - i,
        {
            if self.buffers[i].0.same(key) {
                return Some(i);
            }
            i += 1;
        }
        None
    }

    /// The buffer filed under `key`, if there is one. The cache is not
    /// changed.
    pub fn get(&self, key: &CacheKey) -> (buffer: Option<&Buffer>)
        requires
            self.wf(),
        ensures
            match buffer {
                Some(b) => self@.contains_key(key@) && *b == self@[key@],
                None => !self@.contains_key(key@),
            },
    {
        match self.find(key) {
            Some(i) => {
                proof {
                    let p = position(self.buffers@, key@);
                    if p != i as int {
                        if p < i {
                            assert(self.buffers@[p].0@ != self.buffers@[i as int].0@);
                        } else {
                            assert(self.buffers@[i as int].0@ != self.buffers@[p].0@);
                        }
                    }
                }
                Some(&self.buffers[i].1)
            },
            None => None,
        }
    }

    /// Files `buffer` under `key`, in place of what was filed there before.
    /// All other entries stay.
    pub fn insert(&mut self, key: CacheKey, buffer: Buffer)
        requires
            old(self).wf(),
        ensures
            final(self).wf(),
            final(self)@ == old(self)@.insert(key@, buffer),
    {
        let ghost before = self.buffers@;
        match self.find(&key) {
            Some(i) => {
                self.buffers[i].1 = buffer;
                proof {
                    let after = self.buffers@;
                    assert(after.len() == before.len());
                    assert forall|j: int| 0 <= j < after.len() implies (#[trigger] after[j]).0@
                        == before[j].0@ by {}
                    lemma_as_map_update(before, after, i as int, buffer);
                }
            },
            None => {
                let ghost k = key@;
                self.buffers.push((key, buffer));
                proof {
                    let after = self.buffers@;
                    assert forall|a: int, b: int| 0 <= a < b < after.len() implies (
                    #[trigger] after[a]).0@ != (#[trigger] after[b]).0@ by {
                        if b == before.len() {
                            assert(after[a] == before[a]);
                        } else {
                            assert(after[a] == before[a]);
                            assert(after[b] == before[b]);
                        }
                    }
                    lemma_as_map_push(before, after, k, buffer);
                }
            },
        }
    }

    /// Number of entries.
    pub fn len(&self) -> (n: usize)
        requires
            self.wf(),
        ensures
            n == self@.dom().len(),
            self@.dom().finite(),
    {
        proof {
            lemma_as_map_len(self.buffers@);
        }
        self.buffers.len()
    }

    /// Whether the cache has no entry.
    pub fn is_empty(&self) -> (r: bool)
        requires
            self.wf(),
        ensures
            r == (self@.dom().len() == 0),
            self@.dom().finite(),
    {
        self.len() == 0
    }
}

proof fn lemma_position_unique(entries: Seq<(CacheKey, Buffer)>, i: int)
    requires
        distinct_keys(entries),
        0 <= i < entries.len(),
    ensures
        position(entries, entries[i].0@) == i,
{
    let p = position(entries, entries[i].0@);
    if p < i {
        assert(entries[p].0@ != entries[i].0@);
    } else if i < p {
        assert(entries[i].0@ != entries[p].0@);
    }
}

proof fn lemma_as_map_update(
    before: Seq<(CacheKey, Buffer)>,
    after: Seq<(CacheKey, Buffer)>,
    i: int,
    buffer: Buffer,
)
    requires
        distinct_keys(before),
        0 <= i < before.len(),
        after.len() == before.len(),
        forall|j: int| 0 <= j < after.len() ==> (#[trigger] after[j]).0@ == before[j].0@,
        forall|j: int| 0 <= j < after.len() && j != i ==> (#[trigger] after[j]).1 == before[j].1,
        after[i].1 == buffer,
    ensures
        distinct_keys(after),
        as_map(after) == as_map(before).insert(before[i].0@, buffer),
{
    assert forall|a: int, b: int| 0 <= a < b < after.len() implies (#[trigger] after[a]).0@ != (
    #[trigger] after[b]).0@ by {
        assert(before[a].0@ != before[b].0@);
    }
    let want = as_map(before).insert(before[i].0@, buffer);
    assert forall|k: (Seq<char>, u32, u32)| as_map(after).dom().contains(k)
        <==> want.dom().contains(k) by {
        if filed(after, k) {
            let j = position(after, k);
            assert(before[j].0@ == k);
        }
        if filed(before, k) {
            let j = position(before, k);
            assert(after[j].0@ == k);
        }
        if k == before[i].0@ {
            assert(after[i].0@ == k);
        }
    }
    assert forall|k: (Seq<char>, u32, u32)| as_map(after).dom().contains(k) implies as_map(
        after,
    )[k] == want[k] by {
        let j = position(after, k);
        lemma_position_unique(after, j);
        assert(before[j].0@ == k);
        lemma_position_unique(before, j);
    }
    assert(as_map(after) =~= want);
}

proof fn lemma_as_map_push(
    before: Seq<(CacheKey, Buffer)>,
    after: Seq<(CacheKey, Buffer)>,
    key: (Seq<char>, u32, u32),
    buffer: Buffer,
)
    requires
        distinct_keys(before),
        distinct_keys(after),
        !filed(before, key),
        after.len() == before.len() + 1,
        forall|j: int| 0 <= j < before.len() ==> #[trigger] after[j] == before[j],
        after[before.len() as int].0@ == key,
        after[before.len() as int].1 == buffer,
    ensures
        as_map(after) == as_map(before).insert(key, buffer),
{
    let want = as_map(before).insert(key, buffer);
    let n = before.len() as int;
    assert forall|k: (Seq<char>, u32, u32)| as_map(after).dom().contains(k)
        <==> want.dom().contains(k) by {
        if filed(after, k) {
            let j = position(after, k);
            if j < n {
                assert(before[j].0@ == k);
            }
        }
        if filed(before, k) {
            let j = position(before, k);
            assert(after[j].0@ == k);
        }
        if k == key {
            assert(after[n].0@ == k);
        }
    }
    assert forall|k: (Seq<char>, u32, u32)| as_map(after).dom().contains(k) implies as_map(
        after,
    )[k] == want[k] by {
        let j = position(after, k);
        lemma_position_unique(after, j);
        if j < n {
            assert(before[j].0@ == k);
            lemma_position_unique(before, j);
        }
    }
    assert(as_map(after) =~= want);
}

proof fn lemma_as_map_len(entries: Seq<(CacheKey, Buffer)>)
    requires
        distinct_keys(entries),
    ensures
        as_map(entries).dom().finite(),
        as_map(entries).dom().len() == entries.len(),
    decreases entries.len(),
{
    if entries.len() == 0 {
        assert(as_map(entries).dom() =~= Set::<(Seq<char>, u32, u32)>::empty());
    } else {
        let before = entries.drop_last();
        let last = entries.last();
        assert forall|a: int, b: int| 0 <= a < b < before.len() implies (#[trigger] before[a]).0@
            != (#[trigger] before[b]).0@ by {
            assert(entries[a].0@ != entries[b].0@);
        }
        lemma_as_map_len(before);
        if filed(before, last.0@) {
            let j = position(before, last.0@);
            assert(entries[j].0@ != entries[entries.len() - 1].0@);
        }
        lemma_as_map_push(before, entries, last.0@, last.1);
        assert(as_map(entries).dom() =~= as_map(before).dom().insert(last.0@));
        assert(!as_map(before).dom().contains(last.0@));
    }
}

} // verus!
