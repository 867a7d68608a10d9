//! The source/tag state machine: the registry of published scenes.
//!
//! The state owns the mapping from scene id to scene, the reverse mapping
//! from root entity to scene id, the monotonic id counter, and the mapping
//! from source tag to the set of scene ids loaded from that source. All
//! commands are applied one at a time, so every mutation here is serialized
//! by construction. Work that only the embedding program can do — reading
//! the filesystem, spawning a watcher task, unpublishing an asset — is
//! returned as [`PlatterAction`] values for it to perform.

use crate::arguments::Directory;
use crate::ids::Tag;
use crate::scene::Scene;
use vstd::prelude::*;

verus! {

/// Initialization options of the state machine.
#[derive(Debug, Clone, Copy)]
pub struct PlatterInit {
    /// What constitutes a large buffer: smaller payloads may be sent inline.
    pub size_large_limit: u64,
    /// Rescale content by this factor (a single-precision bit pattern).
    pub resize: u32,
    /// Offset content by this vector (single-precision bit patterns).
    pub offset: [u32; 3],
}

/// An instruction to the platter state machine.
#[derive(Debug)]
pub enum PlatterCommand {
    /// Load a file from disk, with an optional tag.
    LoadFile(String, Option<Tag>),
    /// Start watching a directory.
    WatchDirectory(Directory),
    /// Clear a tag.
    ClearTag(Tag),
}

/// Work the state machine asks the embedding program to perform.
#[derive(Debug)]
pub enum PlatterAction {
    /// Read this filesystem item, import it, and hand the published scene
    /// back through [`PlatterState::add_object`] under the given tag.
    Import(String, Option<Tag>),
    /// Start a directory watcher feeding commands back under this tag.
    SpawnWatcher(Directory, Tag),
    /// Remove this asset from the HTTP store.
    Unpublish(u128),
}

/// One watched source: its tag, whether only the latest scene is kept, and
/// the ids of the scenes currently loaded from it.
#[derive(Debug)]
pub struct SourceEntry {
    pub tag: Tag,
    pub exclusive: bool,
    pub scenes: Vec<u32>,
}

/// The scene id the reverse map binds an entity to, at the first binding.
pub open spec fn lookup_root(rm: Seq<(usize, u32)>, ent: usize) -> Option<u32>
    decreases rm.len(),
{
    if rm.len() == 0 {
        None
    } else if rm[0].0 == ent {
        Some(rm[0].1)
    } else {
        lookup_root(rm.drop_first(), ent)
    }
}

/// Whether some scene in the registry carries this id.
pub open spec fn has_id(items: Seq<(u32, Scene)>, id: u32) -> bool {
    exists|i: int| 0 <= i < items.len() && (#[trigger] items[i]).0 == id
}

/// The index of the scene carrying this id (meaningful when ids are unique
/// and the id is present).
pub open spec fn item_index_of(items: Seq<(u32, Scene)>, id: u32) -> int {
    choose|i: int| 0 <= i < items.len() && (#[trigger] items[i]).0 == id
}

/// The asset ids published under one scene id, or nothing when the id is
/// not in the registry.
pub open spec fn published_of(items: Seq<(u32, Scene)>, id: u32) -> Seq<u128> {
    if has_id(items, id) {
        items[item_index_of(items, id)].1.published@
    } else {
        Seq::empty()
    }
}

/// The asset ids published under a list of scene ids, in list order.
pub open spec fn assets_of(items: Seq<(u32, Scene)>, ids: Seq<u32>) -> Seq<u128>
    decreases ids.len(),
{
    if ids.len() == 0 {
        Seq::empty()
    } else {
        assets_of(items, ids.drop_last()) + published_of(items, ids.last())
    }
}

/// No asset id is recorded under two scenes, nor twice under one.
pub open spec fn assets_disjoint(items: Seq<(u32, Scene)>) -> bool {
    &&& forall|i: int|
        0 <= i < items.len() ==> (#[trigger] items[i]).1.published@.no_duplicates()
    &&& forall|i: int, j: int, a: int, b: int|
        0 <= i < items.len() && 0 <= j < items.len() && i != j && 0 <= a
            < items[i].1.published@.len() && 0 <= b < items[j].1.published@.len()
            ==> #[trigger] items[i].1.published@[a] != #[trigger] items[j].1.published@[b]
}

/// The keeper predicate of a removal: an entry stays when its id is not
/// among the removed ones.
pub open spec fn keep_item(ids: Seq<u32>) -> spec_fn((u32, Scene)) -> bool {
    |p: (u32, Scene)| !ids.contains(p.0)
}

/// The keeper predicate of the reverse map under the same removal.
pub open spec fn keep_root(ids: Seq<u32>) -> spec_fn((usize, u32)) -> bool {
    |p: (usize, u32)| !ids.contains(p.1)
}

/// Scene ids are pairwise distinct in the registry.
pub open spec fn unique_ids(items: Seq<(u32, Scene)>) -> bool {
    forall|i: int, j: int|
        0 <= i < items.len() && 0 <= j < items.len() && i != j ==> (#[trigger] items[i]).0 != (
        #[trigger] items[j]).0
}

/// Elements of a filtered sequence are elements of the original.
proof fn lemma_filter_subset<A>(s: Seq<A>, pred: spec_fn(A) -> bool)
    ensures
        forall|i: int| 0 <= i < s.filter(pred).len() ==> s.contains(#[trigger] s.filter(pred)[i]),
    decreases s.len(),
{
    reveal(Seq::filter);
    if s.len() > 0 {
        lemma_filter_subset(s.drop_last(), pred);
        let f = s.filter(pred);
        let fd = s.drop_last().filter(pred);
        assert forall|i: int| 0 <= i < f.len() implies s.contains(f[i]) by {
            if i < fd.len() {
                assert(fd[i] == f[i]);
                assert(s.drop_last().contains(fd[i]));
                let j = choose|j: int| 0 <= j < s.drop_last().len() && s.drop_last()[j] == fd[i];
                assert(s[j] == f[i]);
            } else {
                assert(f[i] == s.last());
                assert(s[s.len() - 1] == f[i]);
            }
        }
    }
}

/// Removing a set of scenes keeps ids unique, keeps asset sets disjoint,
/// and keeps every scene whose id was not removed.
proof fn lemma_removal(items: Seq<(u32, Scene)>, ids: Seq<u32>)
    requires
        unique_ids(items),
        assets_disjoint(items),
    ensures
        unique_ids(items.filter(keep_item(ids))),
        assets_disjoint(items.filter(keep_item(ids))),
        forall|id: u32|
            #![trigger has_id(items.filter(keep_item(ids)), id)]
            has_id(items, id) && !ids.contains(id) ==> has_id(items.filter(keep_item(ids)), id),
        forall|i: int|
            0 <= i < items.filter(keep_item(ids)).len() ==> items.contains(
                #[trigger] items.filter(keep_item(ids))[i],
            ),
{
    broadcast use vstd::seq_lib::group_seq_lib_default;

    let f = items.filter(keep_item(ids));
    lemma_filter_subset(items, keep_item(ids));
    // indices in the original for every filtered element
    assert forall|p: int, q: int|
        0 <= p < f.len() && 0 <= q < f.len() && p != q implies f[p].0 != f[q].0 by {
        lemma_filter_unique_step(items, ids, p, q);
    }
    assert forall|id: u32|
        #![trigger has_id(f, id)]
        has_id(items, id) && !ids.contains(id) implies has_id(f, id) by {
        let i = choose|i: int| 0 <= i < items.len() && (#[trigger] items[i]).0 == id;
        assert(keep_item(ids)(items[i]));
        items.lemma_filter_contains(keep_item(ids), i);
        let j = choose|j: int| 0 <= j < f.len() && f[j] == items[i];
        assert(f[j].0 == id);
    }
    assert forall|i: int| 0 <= i < f.len() implies (#[trigger] f[i]).1.published@.no_duplicates() by {
        let oi = choose|j: int| 0 <= j < items.len() && items[j] == f[i];
        assert(items[oi].1.published@.no_duplicates());
    }
    assert forall|i: int, j: int, a: int, b: int|
        0 <= i < f.len() && 0 <= j < f.len() && i != j && 0 <= a < f[i].1.published@.len() && 0 <= b
            < f[j].1.published@.len() implies #[trigger] f[i].1.published@[a]
        != #[trigger] f[j].1.published@[b] by {
        let oi = choose|q: int| 0 <= q < items.len() && items[q] == f[i];
        let oj = choose|q: int| 0 <= q < items.len() && items[q] == f[j];
        assert(f[i].0 != f[j].0);
        assert(oi != oj);
        assert(items[oi].1.published@[a] != items[oj].1.published@[b]);
    }
}

/// Two distinct positions of a filtered registry carry distinct ids.
proof fn lemma_filter_unique_step(items: Seq<(u32, Scene)>, ids: Seq<u32>, p: int, q: int)
    requires
        unique_ids(items),
        0 <= p < items.filter(keep_item(ids)).len(),
        0 <= q < items.filter(keep_item(ids)).len(),
        p != q,
    ensures
        items.filter(keep_item(ids))[p].0 != items.filter(keep_item(ids))[q].0,
    decreases items.len(),
{
    reveal(Seq::filter);
    let f = items.filter(keep_item(ids));
    let fd = items.drop_last().filter(keep_item(ids));
    lemma_filter_subset(items.drop_last(), keep_item(ids));
    if p < fd.len() && q < fd.len() {
        lemma_filter_unique_step(items.drop_last(), ids, p, q);
        assert(fd[p] == f[p]);
        assert(fd[q] == f[q]);
    } else {
        // one of them is the appended last element
        let (lo, hi) = if p < q {
            (p, q)
        } else {
            (q, p)
        };
        assert(hi == f.len() - 1 && f[hi] == items.last());
        assert(fd[lo] == f[lo]);
        assert(items.drop_last().contains(fd[lo]));
        let j = choose|j: int|
            0 <= j < items.drop_last().len() && items.drop_last()[j] == fd[lo];
        assert(items[j] == f[lo]);
        assert(items[j].0 != items[items.len() - 1].0);
    }
}

/// Every asset collected for a list of scene ids is published under one of
/// those ids.
proof fn lemma_assets_of_mem(items: Seq<(u32, Scene)>, ids: Seq<u32>, x: u128)
    requires
        assets_of(items, ids).contains(x),
    ensures
        exists|k: int| 0 <= k < ids.len() && published_of(items, #[trigger] ids[k]).contains(x),
    decreases ids.len(),
{
    if ids.len() > 0 {
        let a = assets_of(items, ids.drop_last());
        let b = published_of(items, ids.last());
        let w = choose|w: int| 0 <= w < (a + b).len() && (a + b)[w] == x;
        if w < a.len() {
            assert(a[w] == x);
            assert(a.contains(x));
            lemma_assets_of_mem(items, ids.drop_last(), x);
            let k = choose|k: int|
                0 <= k < ids.drop_last().len() && published_of(
                    items,
                    #[trigger] ids.drop_last()[k],
                ).contains(x);
            assert(ids[k] == ids.drop_last()[k]);
            assert(published_of(items, ids[k]).contains(x));
        } else {
            assert(b[w - a.len()] == x);
            assert(b.contains(x));
            assert(published_of(items, ids[ids.len() - 1]).contains(x));
        }
    }
}

/// With distinct scene ids and disjoint asset sets, collecting the assets
/// of a duplicate-free id list collects each asset once.
proof fn lemma_assets_of_no_dup(items: Seq<(u32, Scene)>, ids: Seq<u32>)
    requires
        unique_ids(items),
        assets_disjoint(items),
        ids.no_duplicates(),
    ensures
        assets_of(items, ids).no_duplicates(),
    decreases ids.len(),
{
    if ids.len() > 0 {
        let dl = ids.drop_last();
        assert(dl.no_duplicates());
        lemma_assets_of_no_dup(items, dl);
        let a = assets_of(items, dl);
        let b = published_of(items, ids.last());
        if has_id(items, ids.last()) {
            let ii = item_index_of(items, ids.last());
            assert(0 <= ii < items.len() && items[ii].0 == ids.last());
            assert(b.no_duplicates());
        } else {
            assert(b.len() == 0);
        }
        assert forall|x: u128| a.contains(x) implies !b.contains(x) by {
            if b.contains(x) {
                lemma_assets_of_mem(items, dl, x);
                let k = choose|k: int|
                    0 <= k < dl.len() && published_of(items, #[trigger] dl[k]).contains(x);
                let id1 = dl[k];
                let id2 = ids.last();
                assert(ids[k] == id1 && ids[ids.len() - 1] == id2);
                assert(id1 != id2);
                assert(has_id(items, id1) && has_id(items, id2));
                let i1 = item_index_of(items, id1);
                let i2 = item_index_of(items, id2);
                assert(0 <= i1 < items.len() && items[i1].0 == id1);
                assert(0 <= i2 < items.len() && items[i2].0 == id2);
                assert(i1 != i2);
                let a1 = choose|w: int|
                    0 <= w < items[i1].1.published@.len() && items[i1].1.published@[w] == x;
                let a2 = choose|w: int|
                    0 <= w < items[i2].1.published@.len() && items[i2].1.published@[w] == x;
                assert(items[i1].1.published@[a1] != items[i2].1.published@[a2]);
            }
        }
        assert forall|p: int, q: int|
            0 <= p < (a + b).len() && 0 <= q < (a + b).len() && p != q implies (a + b)[p] != (a
            + b)[q] by {
            if p < a.len() && q < a.len() {
            } else if p >= a.len() && q >= a.len() {
            } else {
                let (pa, pb) = if p < a.len() {
                    (p, q)
                } else {
                    (q, p)
                };
                assert(a.contains((a + b)[pa]));
                if (a + b)[pa] == (a + b)[pb] {
                    assert(b.contains((a + b)[pa]));
                }
            }
        }
    }
}

/// Our server state.
pub struct PlatterState {
    /// Initial options.
    pub init: PlatterInit,
    /// Each file roughly maps to a scene; each scene gets an id.
    pub items: Vec<(u32, Scene)>,
    /// Root entities map back to the scene they belong to.
    pub root_to_item: Vec<(usize, u32)>,
    /// The next scene id to use: a monotonic counter.
    pub next_item_id: u32,
    /// Scenes grouped by the source they were loaded from.
    pub source_map: Vec<SourceEntry>,
}

impl PlatterState {
    /// Registry invariant: scene ids are unique and below the counter,
    /// tags are unique, every scene id recorded under a tag names a scene
    /// of the registry and belongs to that one tag alone, and no published
    /// asset id is recorded twice.
    pub open spec fn wf(self) -> bool {
        &&& forall|i: int, j: int|
            0 <= i < self.items@.len() && 0 <= j < self.items@.len() && i != j ==> (
            #[trigger] self.items@[i]).0 != (#[trigger] self.items@[j]).0
        &&& forall|i: int|
            0 <= i < self.items@.len() ==> ((#[trigger] self.items@[i]).0 as int)
                < self.next_item_id as int
        &&& forall|i: int, j: int|
            0 <= i < self.source_map@.len() && 0 <= j < self.source_map@.len() && i != j ==> (
            #[trigger] self.source_map@[i]).tag != (#[trigger] self.source_map@[j]).tag
        &&& forall|i: int|
            0 <= i < self.source_map@.len() ==> (#[trigger] self.source_map@[i]).scenes@.no_duplicates()
        &&& forall|i: int, k: int|
            0 <= i < self.source_map@.len() && 0 <= k < self.source_map@[i].scenes@.len()
                ==> has_id(self.items@, #[trigger] self.source_map@[i].scenes@[k])
        &&& forall|i: int, j: int, a: int, b: int|
            0 <= i < self.source_map@.len() && 0 <= j < self.source_map@.len() && i != j && 0 <= a
                < self.source_map@[i].scenes@.len() && 0 <= b
                < self.source_map@[j].scenes@.len() ==> #[trigger] self.source_map@[i].scenes@[a]
                != #[trigger] self.source_map@[j].scenes@[b]
        &&& assets_disjoint(self.items@)
    }

    /// A fresh, empty state.
    pub fn new(init: PlatterInit) -> (s: PlatterState)
        ensures
            s.wf(),
            s.init == init,
            s.items@.len() == 0,
            s.root_to_item@.len() == 0,
            s.next_item_id == 0,
            s.source_map@.len() == 0,
    {
        PlatterState {
            init,
            items: Vec::new(),
            root_to_item: Vec::new(),
            next_item_id: 0,
            source_map: Vec::new(),
        }
    }

    /// Obtain the next scene id.
    fn get_next_scene_id(&mut self) -> (id: u32)
        requires
            old(self).next_item_id < 0xffff_ffff,
        ensures
            id == old(self).next_item_id,
            final(self).next_item_id == old(self).next_item_id + 1,
            final(self).init == old(self).init,
            final(self).items == old(self).items,
            final(self).root_to_item == old(self).root_to_item,
            final(self).source_map == old(self).source_map,
    {
        let ret = self.next_item_id;
        self.next_item_id = self.next_item_id + 1;
        ret
    }

    /// Given an entity reference, get the id of the scene it roots.
    pub fn find_id(&self, ent: usize) -> (r: Option<u32>)
        ensures
            r == lookup_root(self.root_to_item@, ent),
    {
        let mut i: usize = 0;
        proof {
            assert(self.root_to_item@.subrange(0, self.root_to_item@.len() as int)
                =~= self.root_to_item@);
        }
        while i < self.root_to_item.len()
            invariant
                i <= self.root_to_item@.len(),
                lookup_root(self.root_to_item@, ent) == lookup_root(
                    self.root_to_item@.subrange(i as int, self.root_to_item@.len() as int),
                    ent,
                ),
            decreases self.root_to_item@.len() - i,
        {
            let ghost rest = self.root_to_item@.subrange(i as int, self.root_to_item@.len() as int);
            proof {
                assert(rest[0] == self.root_to_item@[i as int]);
                assert(rest.drop_first() =~= self.root_to_item@.subrange(
                    i + 1,
                    self.root_to_item@.len() as int,
                ));
            }
            if self.root_to_item[i].0 == ent {
                return Some(self.root_to_item[i].1);
            }
            i = i + 1;
        }
        None
    }

    /// The registry position of a scene id.
    pub(crate) fn find_item(&self, id: u32) -> (r: Option<usize>)
        ensures
            match r {
                Some(i) => i < self.items@.len() && self.items@[i as int].0 == id,
                None => !has_id(self.items@, id),
            },
    {
        let mut i: usize = 0;
        while i < self.items.len()
            invariant
                i <= self.items@.len(),
                forall|j: int| 0 <= j < i ==> (#[trigger] self.items@[j]).0 != id,
            decreases self.items@.len() - i,
        {
            if self.items[i].0 == id {
                return Some(i);
            }
            i = i + 1;
        }
        None
    }

    /// The position of a tag in the source map.
    fn find_source(&self, t: &Tag) -> (r: Option<usize>)
        ensures
            match r {
                Some(i) => i < self.source_map@.len() && self.source_map@[i as int].tag == *t,
                None => forall|i: int|
                    0 <= i < self.source_map@.len() ==> (#[trigger] self.source_map@[i]).tag != *t,
            },
    {
        let mut i: usize = 0;
        while i < self.source_map.len()
            invariant
                i <= self.source_map@.len(),
                forall|j: int| 0 <= j < i ==> (#[trigger] self.source_map@[j]).tag != *t,
            decreases self.source_map@.len() - i,
        {
            if self.source_map[i].tag.0 == t.0 {
                return Some(i);
            }
            i = i + 1;
        }
        None
    }
}

impl PlatterState {
    /// Remove the given scenes from the registry and the reverse map, and
    /// collect every asset id published under them, in id-list order.
    fn remove_scene_set(&mut self, ids: &Vec<u32>) -> (r: Vec<u128>)
        requires
            unique_ids(old(self).items@),
        ensures
            r@ == assets_of(old(self).items@, ids@),
            final(self).items@ == old(self).items@.filter(keep_item(ids@)),
            final(self).root_to_item@ == old(self).root_to_item@.filter(keep_root(ids@)),
            final(self).init == old(self).init,
            final(self).next_item_id == old(self).next_item_id,
            final(self).source_map == old(self).source_map,
    {
        let ghost oi = self.items@;
        // collect the assets first, while the registry still holds them
        let mut r: Vec<u128> = Vec::new();
        let mut k: usize = 0;
        while k < ids.len()
            invariant
                k <= ids@.len(),
                unique_ids(self.items@),
                self.items@ == oi,
                r@ == assets_of(self.items@, ids@.subrange(0, k as int)),
            decreases ids@.len() - k,
        {
            let id = ids[k];
            match self.find_item(id) {
                Some(i) => {
                    proof {
                        assert(has_id(self.items@, id));
                        let ii = item_index_of(self.items@, id);
                        assert(0 <= ii < self.items@.len() && self.items@[ii].0 == id);
                        assert(ii == i);
                    }
                    let mut w: usize = 0;
                    let ghost base = r@;
                    while w < self.items[i].1.published.len()
                        invariant
                            i < self.items@.len(),
                            w <= self.items@[i as int].1.published@.len(),
                            self.items@ == oi,
                            r@ == base + self.items@[i as int].1.published@.subrange(
                                0,
                                w as int,
                            ),
                        decreases self.items@[i as int].1.published@.len() - w,
                    {
                        r.push(self.items[i].1.published[w]);
                        proof {
                            assert(self.items@[i as int].1.published@.subrange(0, w + 1)
                                =~= self.items@[i as int].1.published@.subrange(0, w as int).push(
                                self.items@[i as int].1.published@[w as int],
                            ));
                            assert(r@ =~= base + self.items@[i as int].1.published@.subrange(
                                0,
                                w + 1,
                            ));
                        }
                        w = w + 1;
                    }
                    proof {
                        assert(self.items@[i as int].1.published@.subrange(
                            0,
                            self.items@[i as int].1.published@.len() as int,
                        ) =~= self.items@[i as int].1.published@);
                        assert(ids@.subrange(0, k + 1).drop_last() =~= ids@.subrange(0, k as int));
                        assert(ids@.subrange(0, k + 1).last() == id);
                        assert(published_of(self.items@, id) == self.items@[i as int].1.published@);
                    }
                },
                None => {
                    proof {
                        assert(ids@.subrange(0, k + 1).drop_last() =~= ids@.subrange(0, k as int));
                        assert(ids@.subrange(0, k + 1).last() == id);
                        assert(published_of(self.items@, id) =~= Seq::<u128>::empty());
                        assert(r@ =~= r@ + Seq::<u128>::empty());
                    }
                },
            }
            k = k + 1;
        }
        proof {
            assert(ids@.subrange(0, ids@.len() as int) =~= ids@);
        }
        // drop the scenes from the registry
        let mut kept: Vec<(u32, Scene)> = Vec::new();
        let mut i: usize = 0;
        proof {
            reveal(Seq::filter);
            assert(oi.subrange(0, 0) =~= Seq::<(u32, Scene)>::empty());
        }
        while i < self.items.len()
            invariant
                i <= self.items@.len(),
                self.items@.len() == oi.len(),
                forall|q: int| i <= q < oi.len() ==> self.items@[q] == oi[q],
                kept@ == oi.subrange(0, i as int).filter(keep_item(ids@)),
                self.root_to_item == old(self).root_to_item,
                self.init == old(self).init,
                self.next_item_id == old(self).next_item_id,
                self.source_map == old(self).source_map,
            decreases self.items@.len() - i,
        {
            let mut tmp: (u32, Scene) = (
                0u32,
                Scene {
                    position: [0u32, 0u32, 0u32],
                    rotation: [0u32, 0u32, 0u32, 0u32],
                    scale: [0u32, 0u32, 0u32],
                    published: Vec::new(),
                    root: crate::scene::SceneObject { parts: Vec::new(), children: Vec::new() },
                },
            );
            core::mem::swap(&mut tmp, &mut self.items[i]);
            let keep = !contains_id(ids, tmp.0);
            proof {
                reveal(Seq::filter);
                assert(oi.subrange(0, i + 1).drop_last() =~= oi.subrange(0, i as int));
                assert(oi.subrange(0, i + 1).last() == oi[i as int]);
                assert(keep_item(ids@)(oi[i as int]) == !ids@.contains(oi[i as int].0));
            }
            if keep {
                kept.push(tmp);
            }
            i = i + 1;
        }
        proof {
            assert(oi.subrange(0, oi.len() as int) =~= oi);
        }
        self.items = kept;
        // drop the reverse-map entries of the removed scenes
        let ghost orm = self.root_to_item@;
        let mut kept_roots: Vec<(usize, u32)> = Vec::new();
        let mut j: usize = 0;
        proof {
            reveal(Seq::filter);
            assert(orm.subrange(0, 0) =~= Seq::<(usize, u32)>::empty());
        }
        while j < self.root_to_item.len()
            invariant
                j <= self.root_to_item@.len(),
                self.root_to_item@ == orm,
                orm == old(self).root_to_item@,
                kept_roots@ == orm.subrange(0, j as int).filter(keep_root(ids@)),
                self.items@ == oi.filter(keep_item(ids@)),
                self.init == old(self).init,
                self.next_item_id == old(self).next_item_id,
                self.source_map == old(self).source_map,
            decreases self.root_to_item@.len() - j,
        {
            let p = self.root_to_item[j];
            let keep = !contains_id(ids, p.1);
            proof {
                reveal(Seq::filter);
                assert(orm.subrange(0, j + 1).drop_last() =~= orm.subrange(0, j as int));
                assert(orm.subrange(0, j + 1).last() == orm[j as int]);
                assert(keep_root(ids@)(orm[j as int]) == !ids@.contains(orm[j as int].1));
            }
            if keep {
                kept_roots.push(p);
            }
            j = j + 1;
        }
        proof {
            assert(orm.subrange(0, orm.len() as int) =~= orm);
        }
        self.root_to_item = kept_roots;
        r
    }
}

/// Exec membership test on a scene-id list.
fn contains_id(ids: &Vec<u32>, x: u32) -> (r: bool)
    ensures
        r == ids@.contains(x),
{
    let mut i: usize = 0;
    while i < ids.len()
        invariant
            i <= ids@.len(),
            forall|j: int| 0 <= j < i ==> ids@[j] != x,
        decreases ids@.len() - i,
    {
        if ids[i] == x {
            proof {
                assert(ids@.contains(x));
            }
            return true;
        }
        i = i + 1;
    }
    proof {
        assert(!ids@.contains(x));
    }
    false
}

impl PlatterState {
    /// Clear all objects with the same source tag: the tag's entry leaves
    /// the source map, its scenes leave the registry, and the caller
    /// receives every asset id that was published under them — each
    /// exactly once — to unpublish. Clearing an unknown tag does nothing.
    pub fn clear_source(&mut self, source: Tag) -> (r: Option<Vec<u128>>)
        requires
            old(self).wf(),
        ensures
            final(self).wf(),
            final(self).init == old(self).init,
            final(self).next_item_id == old(self).next_item_id,
            (forall|i: int|
                0 <= i < old(self).source_map@.len() ==> (#[trigger] old(self).source_map@[i]).tag
                    != source) ==> r is None && *final(self) == *old(self),
            forall|i: int|
                0 <= i < old(self).source_map@.len() && (#[trigger] old(self).source_map@[i]).tag == source ==> {
                    &&& r matches Some(assets) && assets@ == assets_of(
                        old(self).items@,
                        old(self).source_map@[i].scenes@,
                    ) && assets@.no_duplicates()
                    &&& final(self).source_map@ == old(self).source_map@.remove(i)
                    &&& final(self).items@ == old(self).items@.filter(
                        keep_item(old(self).source_map@[i].scenes@),
                    )
                    &&& final(self).root_to_item@ == old(self).root_to_item@.filter(
                        keep_root(old(self).source_map@[i].scenes@),
                    )
                },
            forall|j: int|
                0 <= j < final(self).source_map@.len() ==> (#[trigger] final(self).source_map@[j]).tag != source,
    {
        match self.find_source(&source) {
            None => None,
            Some(i) => {
                let entry = self.source_map.remove(i);
                let ghost ids = entry.scenes@;
                let assets = self.remove_scene_set(&entry.scenes);
                proof {
                    let oi = old(self).items@;
                    let osm = old(self).source_map@;
                    lemma_removal(oi, ids);
                    lemma_assets_of_no_dup(oi, ids);
                    let f = oi.filter(keep_item(ids));
                    lemma_filter_subset(oi, keep_item(ids));
                    // every remaining scene id stays below the counter
                    assert forall|q: int|
                        0 <= q < f.len() implies ((#[trigger] f[q]).0 as int) < old(self).next_item_id as int by {
                        let w = choose|w: int| 0 <= w < oi.len() && oi[w] == f[q];
                        assert(oi[w].0 == f[q].0);
                    }
                    // remaining entries keep their tags distinct and their
                    // scenes present
                    assert(self.source_map@ == osm.remove(i as int));
                    assert forall|p: int, q: int, a: int, b: int|
                        0 <= p < self.source_map@.len() && 0 <= q < self.source_map@.len() && p
                            != q && 0 <= a < self.source_map@[p].scenes@.len() && 0 <= b
                            < self.source_map@[q].scenes@.len() implies #[trigger] self.source_map@[p].scenes@[a]
                        != #[trigger] self.source_map@[q].scenes@[b] by {
                        let p0 = if p < i { p } else { p + 1 };
                        let q0 = if q < i { q } else { q + 1 };
                        assert(self.source_map@[p] == osm[p0]);
                        assert(self.source_map@[q] == osm[q0]);
                        assert(osm[p0].scenes@[a] != osm[q0].scenes@[b]);
                    }
                    assert forall|p: int, k: int|
                        0 <= p < self.source_map@.len() && 0 <= k
                            < self.source_map@[p].scenes@.len() implies has_id(
                        self.items@,
                        #[trigger] self.source_map@[p].scenes@[k],
                    ) by {
                        let p0 = if p < i { p } else { p + 1 };
                        assert(self.source_map@[p] == osm[p0]);
                        let id = osm[p0].scenes@[k];
                        assert(has_id(oi, id));
                        if ids.contains(id) {
                            let w = choose|w: int| 0 <= w < ids.len() && ids[w] == id;
                            assert(osm[i as int].scenes@[w] == osm[p0].scenes@[k]);
                            assert(false);
                        }
                    }
                    assert forall|j: int|
                        0 <= j < self.source_map@.len() implies (#[trigger] self.source_map@[j]).tag
                        != source by {
                        let j0 = if j < i { j } else { j + 1 };
                        assert(self.source_map@[j] == osm[j0]);
                    }
                    assert(self.wf());
                }
                Some(assets)
            },
        }
    }

    /// Add a freshly converted scene to the registry under a new id, record
    /// it under the given tag where the tag is known, and — where the tag
    /// keeps only the latest scene — remove every other scene previously
    /// recorded under it first, handing back those scenes' published asset
    /// ids for the caller to unpublish.
    pub fn add_object(&mut self, o: Scene, source: Option<Tag>) -> (r: (u32, Vec<u128>))
        requires
            old(self).wf(),
            old(self).next_item_id < 0xffff_ffff,
            o.root.parts@.len() >= 1,
            o.published@.no_duplicates(),
            forall|i: int, a: int, b: int|
                0 <= i < old(self).items@.len() && 0 <= a < old(self).items@[i].1.published@.len() && 0 <= b < o.published@.len()
                    ==> #[trigger] old(self).items@[i].1.published@[a] != #[trigger] o.published@[b],
        ensures
            final(self).wf(),
            r.0 == old(self).next_item_id,
            final(self).next_item_id == old(self).next_item_id + 1,
            final(self).init == old(self).init,
            has_id(final(self).items@, r.0),
            final(self).items@.last() == (r.0, o),
            final(self).root_to_item@.last() == (o.root.parts@[0], r.0),
            source is None ==> r.1@.len() == 0 && final(self).source_map == old(self).source_map
                && final(self).items@ == old(self).items@.push((r.0, o)),
            source matches Some(t) ==> {
                &&& (forall|i: int|
                    0 <= i < old(self).source_map@.len() ==> (#[trigger] old(self).source_map@[i]).tag != t) ==> r.1@.len() == 0 && final(self).source_map
                    == old(self).source_map && final(self).items@ == old(self).items@.push(
                    (r.0, o),
                )
                &&& forall|i: int|
                    0 <= i < old(self).source_map@.len() && (#[trigger] old(self).source_map@[i]).tag == t && !old(self).source_map@[i].exclusive ==> {
                        &&& r.1@.len() == 0
                        &&& final(self).items@ == old(self).items@.push((r.0, o))
                        &&& final(self).source_map@[i].scenes@ == old(self).source_map@[i].scenes@.push(r.0)
                    }
                &&& forall|i: int|
                    0 <= i < old(self).source_map@.len() && (#[trigger] old(self).source_map@[i]).tag == t && old(self).source_map@[i].exclusive ==> {
                        &&& r.1@ == assets_of(old(self).items@, old(self).source_map@[i].scenes@)
                        &&& r.1@.no_duplicates()
                        &&& final(self).items@ == old(self).items@.filter(
                            keep_item(old(self).source_map@[i].scenes@),
                        ).push((r.0, o))
                        &&& final(self).source_map@[i].scenes@ == seq![r.0]
                    }
            },
    {
        let id = self.get_next_scene_id();
        let ent = o.root.parts[0];
        let mut unpub: Vec<u128> = Vec::new();
        let ghost oi = old(self).items@;
        let ghost osm = old(self).source_map@;
        proof {
            lemma_entry_ids_bound(*old(self));
        }
        if let Some(t) = source {
            match self.find_source(&t) {
                Some(i) => {
                    if self.source_map[i].exclusive {
                        let mut ids: Vec<u32> = Vec::new();
                        core::mem::swap(&mut ids, &mut self.source_map[i].scenes);
                        unpub = self.remove_scene_set(&ids);
                        proof {
                            lemma_removal(oi, ids@);
                            lemma_assets_of_no_dup(oi, ids@);
                            lemma_filter_subset(oi, keep_item(ids@));
                        }
                        self.source_map[i].scenes.push(id);
                        proof {
                            assert(self.source_map@[i as int].scenes@ =~= seq![id]);
                        }
                    } else {
                        self.source_map[i].scenes.push(id);
                    }
                },
                None => {},
            }
        }
        self.root_to_item.push((ent, id));
        let ghost pre = self.items@;
        self.items.push((id, o));
        proof {
            // the registry before the final push is the old registry or the
            // old registry with the replaced scenes filtered out; either
            // way its entries are entries of the old registry
            assert forall|q: int| 0 <= q < pre.len() implies oi.contains(#[trigger] pre[q]) by {
                if pre =~= oi {
                    assert(oi[q] == pre[q]);
                }
            }
            assert(unique_ids(pre));
            assert forall|q: int, w: int|
                0 <= q < self.items@.len() && 0 <= w < self.items@.len() && q != w implies (
            #[trigger] self.items@[q]).0 != (#[trigger] self.items@[w]).0 by {
                let lo = if q < pre.len() { q } else { w };
                if lo < pre.len() && (q >= pre.len() || w >= pre.len()) {
                    let v = choose|v: int| 0 <= v < oi.len() && oi[v] == pre[lo];
                    assert(oi[v].0 == pre[lo].0);
                }
            }
            assert forall|q: int|
                0 <= q < self.items@.len() implies ((#[trigger] self.items@[q]).0 as int)
                < self.next_item_id as int by {
                if q < pre.len() {
                    let v = choose|v: int| 0 <= v < oi.len() && oi[v] == pre[q];
                    assert(oi[v].0 == pre[q].0);
                }
            }
            assert forall|q: int|
                0 <= q < self.items@.len() implies (
            #[trigger] self.items@[q]).1.published@.no_duplicates() by {
                if q < pre.len() {
                    let v = choose|v: int| 0 <= v < oi.len() && oi[v] == pre[q];
                    assert(oi[v].1.published@.no_duplicates());
                }
            }
            assert forall|q: int, w: int, a: int, b: int|
                0 <= q < self.items@.len() && 0 <= w < self.items@.len() && q != w && 0 <= a
                    < self.items@[q].1.published@.len() && 0 <= b
                    < self.items@[w].1.published@.len() implies #[trigger] self.items@[q].1.published@[a]
                != #[trigger] self.items@[w].1.published@[b] by {
                if q < pre.len() && w < pre.len() {
                    let vq = choose|v: int| 0 <= v < oi.len() && oi[v] == pre[q];
                    let vw = choose|v: int| 0 <= v < oi.len() && oi[v] == pre[w];
                    assert(pre[q].0 != pre[w].0);
                    assert(vq != vw);
                    assert(oi[vq].1.published@[a] != oi[vw].1.published@[b]);
                } else {
                    let lo = if q < pre.len() { q } else { w };
                    if lo < pre.len() {
                        let v = choose|v: int| 0 <= v < oi.len() && oi[v] == pre[lo];
                        assert(oi[v] == pre[lo]);
                    }
                }
            }
            // tag entries: every recorded id is the fresh one or one that
            // the registry still carries
            assert forall|p: int, k: int|
                0 <= p < self.source_map@.len() && 0 <= k
                    < self.source_map@[p].scenes@.len() implies has_id(
                self.items@,
                #[trigger] self.source_map@[p].scenes@[k],
            ) by {
                let v = self.source_map@[p].scenes@[k];
                if v == id {
                    assert(self.items@[self.items@.len() - 1].0 == id);
                } else {
                    assert(has_id(pre, v));
                    let w = choose|w: int| 0 <= w < pre.len() && (#[trigger] pre[w]).0 == v;
                    assert(self.items@[w].0 == v);
                }
            }
            assert forall|p: int|
                0 <= p < self.source_map@.len() implies (
            #[trigger] self.source_map@[p]).scenes@.no_duplicates() by {}
            assert(self.wf());
            assert(self.items@.last() == (id, o));
            assert(has_id(self.items@, id));
        }
        (id, unpub)
    }
}

/// The actions unpublishing each of the given assets, in order.
pub open spec fn unpublish_acts(assets: Seq<u128>) -> Seq<PlatterAction> {
    assets.map_values(|a: u128| PlatterAction::Unpublish(a))
}

impl PlatterState {
    /// Register a watched source: a fresh tag, marked exclusive when only
    /// the latest scene of the source is to be kept, with no scenes yet.
    /// (A random-tag collision resets the colliding entry, as a map insert
    /// would.)
    fn register_watch(&mut self, exclusive: bool) -> (t: Tag)
        requires
            old(self).wf(),
        ensures
            final(self).wf(),
            final(self).items == old(self).items,
            final(self).root_to_item == old(self).root_to_item,
            final(self).init == old(self).init,
            final(self).next_item_id == old(self).next_item_id,
            exists|i: int|
                0 <= i < final(self).source_map@.len() && (#[trigger] final(self).source_map@[i]).tag == t && final(self).source_map@[i].exclusive == exclusive
                    && final(self).source_map@[i].scenes@.len() == 0,
    {
        let t = Tag::new();
        let entry = SourceEntry { tag: Tag(t.0), exclusive, scenes: Vec::new() };
        match self.find_source(&t) {
            Some(i) => {
                self.source_map[i] = entry;
                proof {
                    assert(self.source_map@[i as int].tag == t);
                }
            },
            None => {
                let ghost n = self.source_map@.len() as int;
                self.source_map.push(entry);
                proof {
                    assert(self.source_map@[n].tag == t);
                }
            },
        }
        t
    }
}

/// Handle a command and mutate the platter state. Filesystem reads, watcher
/// spawns and asset removals come back as actions for the caller: a
/// `LoadFile` asks for an import, a `WatchDirectory` registers the source
/// and asks for a watcher (the caller validates that the directory exists
/// before sending the command), and a `ClearTag` removes the tag's scenes
/// and asks that each asset published under them be removed once.
pub fn handle_command(this: &mut PlatterState, c: PlatterCommand) -> (acts: Vec<PlatterAction>)
    requires
        old(this).wf(),
    ensures
        final(this).wf(),
        final(this).init == old(this).init,
        c matches PlatterCommand::LoadFile(f, t) ==> *final(this) == *old(this) && acts@ == seq![
            PlatterAction::Import(f, t),
        ],
        c matches PlatterCommand::WatchDirectory(d) ==> {
            &&& final(this).items == old(this).items
            &&& final(this).next_item_id == old(this).next_item_id
            &&& exists|i: int|
                0 <= i < final(this).source_map@.len() && acts@ == seq![
                    PlatterAction::SpawnWatcher(d, (#[trigger] final(this).source_map@[i]).tag),
                ] && final(this).source_map@[i].exclusive == d.latest_only && final(this).source_map@[i].scenes@.len() == 0
        },
        c matches PlatterCommand::ClearTag(t) ==> {
            &&& (forall|i: int|
                0 <= i < old(this).source_map@.len() ==> (#[trigger] old(this).source_map@[i]).tag
                    != t) ==> acts@.len() == 0 && *final(this) == *old(this)
            &&& forall|i: int|
                0 <= i < old(this).source_map@.len() && (#[trigger] old(this).source_map@[i]).tag
                    == t ==> acts@ == unpublish_acts(
                    assets_of(old(this).items@, old(this).source_map@[i].scenes@),
                )
            &&& forall|j: int|
                0 <= j < final(this).source_map@.len() ==> (#[trigger] final(this).source_map@[j]).tag != t
        },
{
    match c {
        PlatterCommand::LoadFile(f, s_id) => {
            let mut acts: Vec<PlatterAction> = Vec::new();
            acts.push(PlatterAction::Import(f, s_id));
            proof {
                assert(acts@ =~= seq![acts@[0]]);
            }
            acts
        },
        PlatterCommand::WatchDirectory(dir) => {
            let t = this.register_watch(dir.latest_only);
            let mut acts: Vec<PlatterAction> = Vec::new();
            acts.push(PlatterAction::SpawnWatcher(dir, Tag(t.0)));
            proof {
                assert(acts@ =~= seq![acts@[0]]);
            }
            acts
        },
        PlatterCommand::ClearTag(tag) => {
            let mut acts: Vec<PlatterAction> = Vec::new();
            match this.clear_source(tag) {
                None => {},
                Some(assets) => {
                    let mut k: usize = 0;
                    while k < assets.len()
                        invariant
                            k <= assets@.len(),
                            acts@ == unpublish_acts(assets@.subrange(0, k as int)),
                        decreases assets@.len() - k,
                    {
                        acts.push(PlatterAction::Unpublish(assets[k]));
                        proof {
                            assert(assets@.subrange(0, k + 1) =~= assets@.subrange(
                                0,
                                k as int,
                            ).push(assets@[k as int]));
                            assert(acts@ =~= unpublish_acts(assets@.subrange(0, k + 1)));
                        }
                        k = k + 1;
                    }
                    proof {
                        assert(assets@.subrange(0, assets@.len() as int) =~= assets@);
                    }
                },
            }
            acts
        },
    }
}

/// Every scene id recorded under a tag is below the id counter.
proof fn lemma_entry_ids_bound(s: PlatterState)
    requires
        s.wf(),
    ensures
        forall|p: int, k: int|
            0 <= p < s.source_map@.len() && 0 <= k < s.source_map@[p].scenes@.len() ==> ((
            #[trigger] s.source_map@[p].scenes@[k]) as int) < s.next_item_id as int,
{
    assert forall|p: int, k: int|
        0 <= p < s.source_map@.len() && 0 <= k < s.source_map@[p].scenes@.len() implies ((
    #[trigger] s.source_map@[p].scenes@[k]) as int) < s.next_item_id as int by {
        let id = s.source_map@[p].scenes@[k];
        assert(has_id(s.items@, id));
        let w = choose|w: int| 0 <= w < s.items@.len() && (#[trigger] s.items@[w]).0 == id;
        assert((s.items@[w].0 as int) < s.next_item_id as int);
    }
}

} // verus!
