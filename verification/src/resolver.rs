//! Name resolution: one walk over the tree builds a mapping from short
//! identifiers to the canonical paths they stand for. First write wins,
//! except for inherent methods, which overwrite unconditionally.

use vstd::prelude::*;
use vstd::string::*;
use crate::ast::{
    Crate, CrateV, ImplItem, ImplItemKind, ImplItemKindV, ImplItemV, Item, ItemKind, ItemKindV,
    ItemV, impl_item_view, impl_items_view, item_view, items_view, lemma_impl_items_view,
    lemma_items_view,
};
use crate::strings::{ends_star, spec_ends_star, spec_split_cc, split_cc};

verus! {

/// The mathematical content of the mapping: key/value pairs in insertion
/// order, keys unique.
pub type Pairs = Seq<(Seq<char>, Seq<char>)>;

/// Index of the first pair whose key is `k`, or `-1` if there is none.
pub open spec fn map_idx(m: Pairs, k: Seq<char>) -> int
    decreases m.len(),
{
    if m.len() == 0 {
        -1
    } else if m[0].0 == k {
        0
    } else {
        let r = map_idx(m.drop_first(), k);
        if r < 0 {
            -1
        } else {
            r + 1
        }
    }
}

pub open spec fn map_has(m: Pairs, k: Seq<char>) -> bool {
    map_idx(m, k) >= 0
}

pub open spec fn map_get(m: Pairs, k: Seq<char>) -> Seq<char> {
    m[map_idx(m, k)].1
}

pub proof fn lemma_map_idx(m: Pairs, k: Seq<char>)
    ensures
        map_idx(m, k) >= 0 ==> 0 <= map_idx(m, k) < m.len() && m[map_idx(m, k)].0 == k,
        map_idx(m, k) >= 0 ==> forall|j: int| 0 <= j < map_idx(m, k) ==> m[j].0 != k,
        map_idx(m, k) < 0 ==> forall|j: int| 0 <= j < m.len() ==> m[j].0 != k,
    decreases m.len(),
{
    if m.len() > 0 {
        lemma_map_idx(m.drop_first(), k);
        assert(forall|j: int| 1 <= j < m.len() ==> m.drop_first()[j - 1] == m[j]);
    }
}

/// Adds the pair only where the key is still unbound.
pub open spec fn spec_insert_if_absent(m: Pairs, k: Seq<char>, v: Seq<char>) -> Pairs {
    if map_has(m, k) {
        m
    } else {
        m.push((k, v))
    }
}

/// Binds the key, replacing an existing binding in place.
pub open spec fn spec_overwrite(m: Pairs, k: Seq<char>, v: Seq<char>) -> Pairs {
    if map_has(m, k) {
        m.update(map_idx(m, k), (k, v))
    } else {
        m.push((k, v))
    }
}

/// The rule applied for one item that names a path: empty keys take the last
/// segment of the value; a glob value synthesises its key from the last two
/// segments; anything else binds the key itself — in every case only if the
/// value is non-empty and, except for methods, only if the key is unbound.
pub open spec fn spec_add_path(m: Pairs, key: Seq<char>, val: Seq<char>) -> Pairs {
    if key.len() == 0 && val.len() > 0 {
        spec_insert_if_absent(m, spec_split_cc(val).last(), val)
    } else if val.len() > 0 && spec_ends_star(val) {
        let ks = spec_split_cc(val);
        let last = ks.last();
        let sec2 = if ks.len() >= 2 {
            ks[ks.len() - 2]
        } else {
            Seq::empty()
        };
        spec_insert_if_absent(m, sec2 + last, val)
    } else if val.len() > 0 && !map_has(m, key) {
        m.push((key, val))
    } else {
        m
    }
}

/// Effect of walking one sequence of impl items.
pub open spec fn spec_resolve_impl_items(m: Pairs, iis: Seq<ImplItemV>) -> Pairs
    decreases iis.len(),
{
    if iis.len() == 0 {
        m
    } else {
        let m1 = match iis[0].kind {
            ImplItemKindV::Method(_) => spec_overwrite(m, iis[0].ident, iis[0].ident),
            ImplItemKindV::Other => m,
        };
        spec_resolve_impl_items(m1, iis.drop_first())
    }
}

/// Effect of walking one item, children included.
pub open spec fn spec_resolve_item(m: Pairs, it: ItemV) -> Pairs
    decreases it, 0int,
{
    match it.kind {
        ItemKindV::Fn(_) => spec_add_path(m, it.ident, it.ident),
        ItemKindV::ExternCrate(o) => match o {
            Option::Some(name) => spec_add_path(m, it.ident, name),
            Option::None => m,
        },
        ItemKindV::Use(prefix) => spec_add_path(m, it.ident, prefix),
        ItemKindV::Impl(iis) => spec_resolve_impl_items(m, iis),
        ItemKindV::ModItem(sub) => spec_resolve_items(m, sub.items),
        ItemKindV::Other => m,
    }
}

/// Effect of walking a sequence of items in order.
pub open spec fn spec_resolve_items(m: Pairs, items: Seq<ItemV>) -> Pairs
    decreases items, 1int,
{
    if items.len() == 0 {
        m
    } else {
        spec_resolve_items(spec_resolve_item(m, items[0]), items.drop_first())
    }
}

/// The mapping that one resolver pass over a whole tree builds.
pub open spec fn spec_resolve_crate(c: CrateV) -> Pairs {
    spec_resolve_items(Seq::empty(), c.module.items)
}

/// The mapping from short names to canonical paths, in insertion order.
pub struct PathMap {
    pub entries: Vec<(String, String)>,
}

impl View for PathMap {
    type V = Pairs;

    open spec fn view(&self) -> Pairs {
        Seq::new(self.entries@.len(), |i: int| (self.entries@[i].0@, self.entries@[i].1@))
    }
}

impl PathMap {
    pub fn new() -> (r: PathMap)
        ensures
            r@ == Pairs::empty(),
    {
        let r = PathMap { entries: Vec::new() };
        proof {
            assert(r@ =~= Pairs::empty());
        }
        r
    }

    /// The canonical path bound to `key`, if any.
    pub fn get(&self, key: &String) -> (r: Option<&String>)
        ensures
            match r {
                Option::Some(v) => map_has(self@, key@) && v@ == map_get(self@, key@),
                Option::None => !map_has(self@, key@),
            },
    {
        proof {
            lemma_map_idx(self@, key@);
        }
        let n = self.entries.len();
        let mut i: usize = 0;
        while i < n
            invariant
                n == self.entries@.len(),
                0 <= i <= n,
                forall|j: int| 0 <= j < i ==> self@[j].0 != key@,
                map_idx(self@, key@) >= 0 ==> 0 <= map_idx(self@, key@) < n && self@[map_idx(
                    self@,
                    key@,
                )].0 == key@,
                map_idx(self@, key@) >= 0 ==> forall|j: int|
                    0 <= j < map_idx(self@, key@) ==> self@[j].0 != key@,
                map_idx(self@, key@) < 0 ==> forall|j: int| 0 <= j < n ==> self@[j].0 != key@,
            decreases n - i,
        {
            if self.entries[i].0.eq(key) {
                proof {
                    let i0 = i as int;
                    let idx = map_idx(self@, key@);
                    assert(self@[i0].0 == key@);
                    if idx < 0 {
                        assert(self@[i0].0 != key@);
                    } else if idx < i0 {
                        assert(self@[idx].0 != key@);
                    } else if idx > i0 {
                        assert(self@[i0].0 != key@);
                    }
                    assert(idx == i0);
                }
                return Some(&self.entries[i].1);
            }
            i = i + 1;
        }
        None
    }

    /// Adds the binding only where the key is still unbound.
    pub fn insert_if_absent(&mut self, key: String, val: String)
        ensures
            final(self)@ == spec_insert_if_absent(old(self)@, key@, val@),
    {
        let present = match self.get(&key) {
            Option::Some(_) => true,
            Option::None => false,
        };
        if !present {
            self.entries.push((key, val));
            proof {
                assert(self@ =~= spec_insert_if_absent(old(self)@, key@, val@));
            }
        }
    }

    /// Binds the key, replacing an existing binding in place.
    pub fn overwrite(&mut self, key: String, val: String)
        ensures
            final(self)@ == spec_overwrite(old(self)@, key@, val@),
    {
        proof {
            lemma_map_idx(self@, key@);
        }
        let n = self.entries.len();
        let mut i: usize = 0;
        while i < n
            invariant
                n == self.entries@.len(),
                0 <= i <= n,
                forall|j: int| 0 <= j < i ==> self@[j].0 != key@,
                self == old(self),
                map_idx(self@, key@) >= 0 ==> 0 <= map_idx(self@, key@) < n && self@[map_idx(
                    self@,
                    key@,
                )].0 == key@,
                map_idx(self@, key@) >= 0 ==> forall|j: int|
                    0 <= j < map_idx(self@, key@) ==> self@[j].0 != key@,
                map_idx(self@, key@) < 0 ==> forall|j: int| 0 <= j < n ==> self@[j].0 != key@,
            decreases n - i,
        {
            if self.entries[i].0.eq(&key) {
                proof {
                    let i0 = i as int;
                    let idx = map_idx(self@, key@);
                    assert(self@[i0].0 == key@);
                    if idx < 0 {
                        assert(self@[i0].0 != key@);
                    } else if idx < i0 {
                        assert(self@[idx].0 != key@);
                    } else if idx > i0 {
                        assert(self@[i0].0 != key@);
                    }
                    assert(idx == i0);
                }
                self.entries[i] = (key, val);
                proof {
                    assert(self@ =~= spec_overwrite(old(self)@, key@, val@));
                }
                return ;
            }
            i = i + 1;
        }
        self.entries.push((key, val));
        proof {
            assert(self@ =~= spec_overwrite(old(self)@, key@, val@));
        }
    }

    /// An independent copy with the same contents.
    pub fn duplicate(&self) -> (r: PathMap)
        ensures
            r@ == self@,
    {
        let mut entries: Vec<(String, String)> = Vec::new();
        let n = self.entries.len();
        let mut i: usize = 0;
        while i < n
            invariant
                n == self.entries@.len(),
                0 <= i <= n,
                entries@.len() == i,
                forall|j: int| 0 <= j < i ==> entries@[j] == self.entries@[j],
            decreases n - i,
        {
            let k = self.entries[i].0.clone();
            let v = self.entries[i].1.clone();
            entries.push((k, v));
            i = i + 1;
        }
        let r = PathMap { entries };
        proof {
            assert(r@ =~~= self@);
        }
        r
    }
}

/// Builds the short-name-to-canonical-path mapping for a tree.
pub struct PathResolver {
    pub resolv_paths: PathMap,
}

impl PathResolver {
    /// A resolver with an empty mapping.
    pub fn new() -> (r: PathResolver)
        ensures
            r.resolv_paths@ == Pairs::empty(),
    {
        PathResolver { resolv_paths: PathMap::new() }
    }

    /// Applies the path rule for one `(key, value)` seen during the walk.
    fn add_path(&mut self, key: String, val: String)
        ensures
            final(self).resolv_paths@ == spec_add_path(old(self).resolv_paths@, key@, val@),
    {
        let val_empty = val.as_str().is_empty();
        if key.as_str().is_empty() && !val_empty {
            let segs = split_cc(val.as_str());
            let new_key = segs[segs.len() - 1].clone();
            proof {
                assert(new_key@ == spec_split_cc(val@).last());
            }
            self.resolv_paths.insert_if_absent(new_key, val);
        } else if !val_empty && ends_star(val.as_str()) {
            let mut segs = split_cc(val.as_str());
            let last = match segs.pop() {
                Option::Some(l) => l,
                Option::None => String::new(),
            };
            let sec_2_last = match segs.pop() {
                Option::Some(l) => l,
                Option::None => String::new(),
            };
            let new_key = sec_2_last.concat(last.as_str());
            proof {
                let ks = spec_split_cc(val@);
                let sec2 = if ks.len() >= 2 {
                    ks[ks.len() - 2]
                } else {
                    Seq::<char>::empty()
                };
                assert(new_key@ == sec2 + ks.last());
            }
            self.resolv_paths.insert_if_absent(new_key, val);
        } else if !val_empty {
            let present = match self.resolv_paths.get(&key) {
                Option::Some(_) => true,
                Option::None => false,
            };
            if !present {
                self.resolv_paths.insert_if_absent(key, val);
            }
        }
    }

    /// Walks the impl items of one `impl` block.
    fn visit_impl_items(&mut self, iis: &Vec<ImplItem>)
        ensures
            final(self).resolv_paths@ == spec_resolve_impl_items(
                old(self).resolv_paths@,
                impl_items_view(iis@),
            ),
    {
        proof {
            lemma_impl_items_view(iis@);
        }
        let ghost m0 = self.resolv_paths@;
        let ghost vs = impl_items_view(iis@);
        proof {
            assert(vs.skip(0) =~= vs);
        }
        let n = iis.len();
        let mut i: usize = 0;
        while i < n
            invariant
                n == iis@.len(),
                vs == impl_items_view(iis@),
                vs.len() == n,
                forall|j: int| 0 <= j < n ==> vs[j] == impl_item_view(iis@[j]),
                0 <= i <= n,
                spec_resolve_impl_items(m0, vs) == spec_resolve_impl_items(
                    self.resolv_paths@,
                    vs.skip(i as int),
                ),
            decreases n - i,
        {
            proof {
                assert(vs.skip(i as int).len() > 0);
                assert(vs.skip(i as int)[0] == vs[i as int]);
                assert(vs.skip(i as int).drop_first() =~= vs.skip(i as int + 1));
            }
            match &iis[i].kind {
                ImplItemKind::Method(_) => {
                    let k = iis[i].ident.clone();
                    let v = iis[i].ident.clone();
                    self.resolv_paths.overwrite(k, v);
                },
                ImplItemKind::Other => {},
            }
            i = i + 1;
        }
        proof {
            assert(vs.skip(n as int) =~= Seq::<ImplItemV>::empty());
        }
    }

    /// Walks one item and everything below it.
    fn visit_item(&mut self, item: &Item)
        ensures
            final(self).resolv_paths@ == spec_resolve_item(old(self).resolv_paths@, item@),
        decreases item,
    {
        match &item.kind {
            ItemKind::Fn(_) => {
                let k = item.ident.clone();
                let v = item.ident.clone();
                self.add_path(k, v);
            },
            ItemKind::ExternCrate(o) => {
                match o {
                    Option::Some(name) => {
                        let k = item.ident.clone();
                        self.add_path(k, name.clone());
                    },
                    Option::None => {},
                }
            },
            ItemKind::Use(prefix) => {
                let k = item.ident.clone();
                self.add_path(k, prefix.clone());
            },
            ItemKind::Impl(iis) => {
                self.visit_impl_items(iis);
            },
            ItemKind::ModItem(sub) => {
                self.visit_items(&sub.items);
            },
            ItemKind::Other => {},
        }
    }

    /// Walks a sequence of items in order.
    fn visit_items(&mut self, items: &Vec<Item>)
        ensures
            final(self).resolv_paths@ == spec_resolve_items(
                old(self).resolv_paths@,
                items_view(items@),
            ),
        decreases items@,
    {
        proof {
            lemma_items_view(items@);
        }
        let ghost m0 = self.resolv_paths@;
        let ghost vs = items_view(items@);
        proof {
            assert(vs.skip(0) =~= vs);
        }
        let n = items.len();
        let mut i: usize = 0;
        while i < n
            invariant
                n == items@.len(),
                vs == items_view(items@),
                vs.len() == n,
                forall|j: int| 0 <= j < n ==> vs[j] == item_view(items@[j]),
                0 <= i <= n,
                spec_resolve_items(m0, vs) == spec_resolve_items(
                    self.resolv_paths@,
                    vs.skip(i as int),
                ),
            decreases n - i,
        {
            proof {
                assert(vs.skip(i as int).len() > 0);
                assert(vs.skip(i as int)[0] == vs[i as int]);
                assert(vs.skip(i as int).drop_first() =~= vs.skip(i as int + 1));
            }
            self.visit_item(&items[i]);
            i = i + 1;
        }
        proof {
            assert(vs.skip(n as int) =~= Seq::<ItemV>::empty());
        }
    }

    /// Walks the whole tree once and hands out the mapping it built. On a
    /// fresh resolver the result is exactly `spec_resolve_crate(krate@)`.
    pub fn find_resolv_paths(&mut self, krate: &Crate) -> (r: PathMap)
        ensures
            final(self).resolv_paths@ == spec_resolve_items(
                old(self).resolv_paths@,
                krate@.module.items,
            ),
            r@ == final(self).resolv_paths@,
    {
        self.visit_items(&krate.module.items);
        self.resolv_paths.duplicate()
    }
}

} // verus!
