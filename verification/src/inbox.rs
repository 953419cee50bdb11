//! The inbox: items by id, in a hash map, with the order in which they came.

use vstd::prelude::*;
use vstd::hash_map::StringHashMap;
use crate::item::{Item, ItemInfo, info_of, info_of_item, is_live, item_is_live};
use crate::headers::str_eq;
use crate::ids::{counter_id, counter_id_of, lemma_counter_id_missing};
use crate::outside::is_hyphenated_uuid;

verus! {

pub struct Inbox {
    map: StringHashMap<Item>,
    /// The ids of the items, each once, in the order they were added.
    order: Vec<String>,
}

impl View for Inbox {
    type V = Map<Seq<char>, Item>;

    closed spec fn view(&self) -> Map<Seq<char>, Item> {
        self.map@
    }
}

/// The items of `m` that are still live at `now`.
pub open spec fn live_part(m: Map<Seq<char>, Item>, now: u64) -> Map<Seq<char>, Item> {
    m.filter_keys(|k: Seq<char>| is_live(m[k], now))
}

/// `l` lists the items of `m`: each entry is what the listing shows of the item
/// with its id, every item appears, once, and newer items come first.
pub open spec fn lists_newest_first(l: Seq<ItemInfo>, m: Map<Seq<char>, Item>) -> bool {
    &&& forall|i: int|
        0 <= i < l.len() ==> m.contains_key(#[trigger] l[i].id@) && l[i] == info_of(m[l[i].id@])
    &&& forall|k: Seq<char>| #[trigger]
        m.contains_key(k) ==> exists|i: int| 0 <= i < l.len() && l[i].id@ == k
    &&& forall|i: int, j: int| 0 <= i < j < l.len() ==> l[i].id@ != l[j].id@
    &&& forall|i: int, j: int| 0 <= i < j < l.len() ==> l[i].created >= l[j].created
}

/// Filtering keeps what satisfies the predicate, and keeps a sequence free of
/// repeats.
pub proof fn lemma_filter_facts(s: Seq<Seq<char>>, pred: spec_fn(Seq<char>) -> bool)
    ensures
        forall|x: Seq<char>| #[trigger] s.filter(pred).contains(x) <==> s.contains(x) && pred(x),
        s.no_duplicates() ==> s.filter(pred).no_duplicates(),
    decreases s.len(),
{
    if s.len() > 0 {
        let t = s.drop_last();
        let e = s.last();
        lemma_filter_facts(t, pred);
        assert(s =~= t.push(e));
        t.lemma_filter_push(e, pred);
        assert forall|x: Seq<char>| #[trigger] s.filter(pred).contains(x) <==> s.contains(x) && pred(
            x,
        ) by {
            if s.contains(x) && x != e {
                let i = choose|i: int| 0 <= i < s.len() && s[i] == x;
                assert(t[i] == x);
            }
            if t.contains(x) {
                let i = choose|i: int| 0 <= i < t.len() && t[i] == x;
                assert(s[i] == x);
            }
            if pred(e) {
                assert(s.filter(pred) == t.filter(pred).push(e));
                if t.filter(pred).contains(x) {
                    let i = choose|i: int| 0 <= i < t.filter(pred).len() && t.filter(pred)[i] == x;
                    assert(s.filter(pred)[i] == x);
                }
                if s.filter(pred).contains(x) && x != e {
                    let i = choose|i: int| 0 <= i < s.filter(pred).len() && s.filter(pred)[i] == x;
                    assert(t.filter(pred)[i] == x);
                }
                assert(s.filter(pred)[t.filter(pred).len() as int] == e);
            }
            assert(s[s.len() - 1] == e);
        }
        if s.no_duplicates() {
            assert(t.no_duplicates()) by {
                assert forall|i: int, j: int| 0 <= i < t.len() && 0 <= j < t.len() && i != j implies t[i]
                    != t[j] by {
                    assert(t[i] == s[i] && t[j] == s[j]);
                }
            }
            if pred(e) {
                assert(!t.contains(e)) by {
                    if t.contains(e) {
                        let i = choose|i: int| 0 <= i < t.len() && t[i] == e;
                        assert(s[i] == s[s.len() - 1]);
                    }
                }
                assert(!t.filter(pred).contains(e));
                let f = t.filter(pred).push(e);
                assert forall|i: int, j: int| 0 <= i < f.len() && 0 <= j < f.len() && i != j implies f[i]
                    != f[j] by {
                    if i == f.len() - 1 {
                        assert(t.filter(pred)[j] == f[j]);
                    } else if j == f.len() - 1 {
                        assert(t.filter(pred)[i] == f[i]);
                    } else {
                        assert(t.filter(pred)[i] == f[i]);
                        assert(t.filter(pred)[j] == f[j]);
                    }
                }
            }
        }
    }
}

impl Inbox {
    /// The ids of the items, in the order they came.
    pub closed spec fn ids(&self) -> Seq<Seq<char>> {
        self.order@.map_values(|s: String| s@)
    }

    /// The inbox is consistent: the order holds each key of the map once, and
    /// each item sits under its own id.
    pub closed spec fn wf(&self) -> bool {
        &&& self.ids().no_duplicates()
        &&& forall|k: Seq<char>| #[trigger] self.map@.contains_key(k) <==> self.ids().contains(k)
        &&& forall|k: Seq<char>| #[trigger] self.map@.contains_key(k) ==> self.map@[k].id@ == k
    }

    /// Items sit under their own ids.
    pub proof fn lemma_ids(&self)
        requires
            self.wf(),
        ensures
            forall|k: Seq<char>| #[trigger] self@.contains_key(k) ==> self@[k].id@ == k,
    {
    }

    /// The inbox holds finitely many items.
    pub proof fn lemma_finite(&self)
        requires
            self.wf(),
        ensures
            self@.dom().finite(),
    {
        assert(self@.dom() =~= self.ids().to_set());
        vstd::seq_lib::seq_to_set_is_finite(self.ids());
    }

    pub fn new() -> (r: Inbox)
        ensures
            r.wf(),
            r@ == Map::<Seq<char>, Item>::empty(),
    {
        let r = Inbox { map: StringHashMap::new(), order: Vec::new() };
        assert(r.ids() =~= Seq::<Seq<char>>::empty());
        r
    }

    /// Puts `item` under its id, replacing what was there.
    pub fn insert(&mut self, item: Item)
        requires
            old(self).wf(),
        ensures
            final(self).wf(),
            final(self)@ == old(self)@.insert(item.id@, item),
    {
        let id = item.id.clone();
        let ghost old_ids = self.ids();
        if !self.map.contains_key(id.as_str()) {
            self.order.push(id.clone());
            proof {
                assert(self.ids() =~= old_ids.push(id@));
                assert(!old_ids.contains(id@));
                assert forall|i: int, j: int|
                    0 <= i < self.ids().len() && 0 <= j < self.ids().len() && i != j implies self.ids()[i]
                    != self.ids()[j] by {
                    if i < old_ids.len() && j < old_ids.len() {
                        assert(old_ids[i] == self.ids()[i] && old_ids[j] == self.ids()[j]);
                    } else if i < old_ids.len() {
                        assert(old_ids[i] == self.ids()[i]);
                    } else {
                        assert(old_ids[j] == self.ids()[j]);
                    }
                }
                assert forall|k: Seq<char>| old_ids.contains(k) implies #[trigger] self.ids().contains(k) by {
                    let i = choose|i: int| 0 <= i < old_ids.len() && old_ids[i] == k;
                    assert(self.ids()[i] == k);
                }
                assert(self.ids()[old_ids.len() as int] == id@);
                assert forall|k: Seq<char>| #[trigger] self.ids().contains(k) implies k == id@ || old_ids.contains(k) by {
                    let i = choose|i: int| 0 <= i < self.ids().len() && self.ids()[i] == k;
                    if i < old_ids.len() {
                        assert(old_ids[i] == k);
                    }
                }
            }
        }
        self.map.insert(id, item);
    }

    /// An id that no item has: `drawn` when it is free, else the first id
    /// counted out (see `counter_id`) that is free.
    pub fn fresh_id(&self, drawn: String) -> (id: String)
        requires
            self.wf(),
            is_hyphenated_uuid(drawn@),
        ensures
            is_hyphenated_uuid(id@),
            !self@.contains_key(id@),
            !self@.contains_key(drawn@) ==> id@ == drawn@,
    {
        if !self.map.contains_key(drawn.as_str()) {
            return drawn;
        }
        let n: u64 = self.order.len() as u64;
        let mut k: u64 = 0;
        while k < n
            invariant
                self.wf(),
                n == self.ids().len(),
                k <= n,
                self@.contains_key(drawn@),
                forall|j: u64| j < k ==> self@.contains_key(#[trigger] counter_id(j)),
            decreases n - k,
        {
            let c = counter_id_of(k);
            if !self.map.contains_key(c.as_str()) {
                return c;
            }
            k += 1;
        }
        proof {
            self.lemma_finite();
            assert(self@.dom() =~= self.ids().to_set());
            self.ids().unique_seq_to_set();
            lemma_counter_id_missing(self@.dom());
        }
        counter_id_of(n)
    }

    /// Whether an item has this id.
    pub fn contains(&self, id: &str) -> (r: bool)
        ensures
            r == self@.contains_key(id@),
    {
        self.map.contains_key(id)
    }

    /// The item with this id.
    pub fn get(&self, id: &str) -> (r: Option<&Item>)
        ensures
            match r {
                Some(it) => self@.contains_key(id@) && *it == self@[id@],
                None => !self@.contains_key(id@),
            },
    {
        self.map.get(id)
    }

    /// Removes the item with this id; says whether there was one.
    pub fn remove(&mut self, id: &str) -> (r: bool)
        requires
            old(self).wf(),
        ensures
            final(self).wf(),
            r == old(self)@.contains_key(id@),
            final(self)@ == old(self)@.remove(id@),
    {
        if !self.map.contains_key(id) {
            proof {
                assert(self.map@.remove(id@) =~= self.map@);
            }
            return false;
        }
        let ghost old_ids = self.ids();
        let mut i: usize = 0;
        while i < self.order.len() && !str_eq(self.order[i].as_str(), id)
            invariant
                self.wf(),
                self.map@.contains_key(id@),
                self.ids() == old_ids,
                i <= self.order.len(),
                forall|j: int| 0 <= j < i ==> old_ids[j] != id@,
            decreases self.order.len() - i,
        {
            assert(old_ids[i as int] == self.order@[i as int]@);
            i += 1;
        }
        if i >= self.order.len() {
            proof {
                assert(old_ids.contains(id@));
                let j = choose|j: int| 0 <= j < old_ids.len() && old_ids[j] == id@;
                assert(false);
            }
            return false;
        }
        assert(old_ids[i as int] == id@);
        self.order.remove(i);
        self.map.remove(id);
        proof {
            let ni = self.ids();
            assert(ni =~= old_ids.remove(i as int));
            assert forall|a: int, b: int|
                0 <= a < ni.len() && 0 <= b < ni.len() && a != b implies ni[a] != ni[b] by {
                let a0 = if a < i {
                    a
                } else {
                    a + 1
                };
                let b0 = if b < i {
                    b
                } else {
                    b + 1
                };
                assert(ni[a] == old_ids[a0]);
                assert(ni[b] == old_ids[b0]);
            }
            assert forall|k: Seq<char>| #[trigger] self.map@.contains_key(k) <==> ni.contains(k) by {
                if ni.contains(k) {
                    let a = choose|a: int| 0 <= a < ni.len() && ni[a] == k;
                    let a0 = if a < i {
                        a
                    } else {
                        a + 1
                    };
                    assert(ni[a] == old_ids[a0]);
                    assert(old_ids.contains(k));
                }
                if self.map@.contains_key(k) {
                    assert(old_ids.contains(k));
                    let j = choose|j: int| 0 <= j < old_ids.len() && old_ids[j] == k;
                    if j < i {
                        assert(ni[j] == k);
                    } else {
                        assert(j != i);
                        assert(ni[j - 1] == k);
                    }
                }
            }
        }
        true
    }

    /// Removes every item.
    pub fn clear(&mut self)
        ensures
            final(self).wf(),
            final(self)@ == Map::<Seq<char>, Item>::empty(),
    {
        self.map.clear();
        self.order.clear();
        assert(self.ids() =~= Seq::<Seq<char>>::empty());
    }

    /// Removes the items that have expired by `now`.
    #[verifier::rlimit(30)]
    pub fn reap(&mut self, now: u64)
        requires
            old(self).wf(),
        ensures
            final(self).wf(),
            final(self)@ == live_part(old(self)@, now),
    {
        let ghost old_map = self.map@;
        let ghost old_ids = self.ids();
        let ghost pred = |k: Seq<char>| is_live(old_map[k], now);
        let n = self.order.len();
        let mut kept: Vec<String> = Vec::new();
        let mut i: usize = 0;
        while i < n
            invariant
                n == old_ids.len(),
                i <= n,
                pred == (|k: Seq<char>| is_live(old_map[k], now)),
                self.ids() == old_ids,
                old_ids.no_duplicates(),
                forall|k: Seq<char>| #[trigger] old_map.contains_key(k) <==> old_ids.contains(k),
                forall|k: Seq<char>| #[trigger]
                    self.map@.contains_key(k) ==> old_map.contains_key(k) && self.map@[k]
                        == old_map[k],
                forall|k: Seq<char>|
                    old_map.contains_key(k) ==> (#[trigger] self.map@.contains_key(k) <==> (pred(k)
                        || !old_ids.take(i as int).contains(k))),
                kept@.map_values(|s: String| s@) == old_ids.take(i as int).filter(pred),
            decreases n - i,
        {
            let id = self.order[i].clone();
            proof {
                assert(id@ == old_ids[i as int]);
                assert(old_ids.contains(id@));
                assert(old_ids.take(i + 1) =~= old_ids.take(i as int).push(id@));
                old_ids.take(i as int).lemma_filter_push(id@, pred);
                assert forall|k: Seq<char>| #[trigger] old_ids.take(i + 1).contains(k) <==> (old_ids.take(
                    i as int,
                ).contains(k) || k == id@) by {
                    if old_ids.take(i + 1).contains(k) {
                        let a = choose|a: int| 0 <= a < i + 1 && #[trigger] old_ids.take(i + 1)[a] == k;
                        if a < i {
                            assert(old_ids.take(i as int)[a] == k);
                        }
                    }
                    if old_ids.take(i as int).contains(k) {
                        let a = choose|a: int| 0 <= a < i && #[trigger] old_ids.take(i as int)[a] == k;
                        assert(old_ids.take(i + 1)[a] == k);
                    }
                    assert(old_ids.take(i + 1)[i as int] == id@);
                }
                assert(!old_ids.take(i as int).contains(id@)) by {
                    if old_ids.take(i as int).contains(id@) {
                        let a = choose|a: int| 0 <= a < i && #[trigger] old_ids.take(i as int)[a] == id@;
                        assert(old_ids[a] == old_ids[i as int]);
                    }
                }
                assert(self.map@.contains_key(id@));
            }
            let live = match self.map.get(id.as_str()) {
                Some(it) => item_is_live(it, now),
                None => false,
            };
            let ghost before = kept@;
            let ghost before_map = self.map@;
            proof {
                assert(self.map@[id@] == old_map[id@]);
                assert(live == is_live(old_map[id@], now));
                assert(live == pred(id@));
            }
            if live {
                kept.push(id);
                proof {
                    assert(kept@.map_values(|s: String| s@) =~= before.map_values(|s: String| s@).push(
                        old_ids[i as int],
                    ));
                }
            } else {
                self.map.remove(id.as_str());
            }
            proof {
                assert(old_ids.take(i + 1).filter(pred) == old_ids.take(i as int).filter(pred)
                    .push(id@) || !pred(id@));
                assert forall|k: Seq<char>|
                    old_map.contains_key(k) implies (#[trigger] self.map@.contains_key(k) <==> (pred(k)
                    || !old_ids.take(i + 1).contains(k))) by {
                    if k != id@ {
                        assert(self.map@.contains_key(k) == before_map.contains_key(k));
                    }
                }
            }
            i += 1;
        }
        self.order = kept;
        proof {
            assert(old_ids.take(n as int) =~= old_ids);
            lemma_filter_facts(old_ids, pred);
            let target = live_part(old_map, now);
            assert(self.map@ =~= target);
        }
    }

    /// What the listing shows of every item, newest first.
    #[verifier::rlimit(40)]
    pub fn list(&self) -> (r: Vec<ItemInfo>)
        requires
            self.wf(),
        ensures
            lists_newest_first(r@, self@),
    {
        let ghost ids = self.ids();
        let ghost m = self.map@;
        let n = self.order.len();
        let mut out: Vec<ItemInfo> = Vec::new();
        let mut i: usize = 0;
        while i < n
            invariant
                self.wf(),
                ids == self.ids(),
                m == self.map@,
                n == ids.len(),
                i <= n,
                forall|a: int|
                    0 <= a < out.len() ==> m.contains_key(#[trigger] out@[a].id@) && out@[a]
                        == info_of(m[out@[a].id@]) && ids.take(i as int).contains(out@[a].id@),
                forall|j: int|
                    #![trigger ids[j]]
                    0 <= j < i ==> exists|a: int|
                        #![trigger out@[a]]
                        0 <= a < out.len() && out@[a].id@ == ids[j],
                forall|a: int, b: int| 0 <= a < b < out.len() ==> out@[a].id@ != out@[b].id@,
                forall|a: int, b: int| 0 <= a < b < out.len() ==> out@[a].created >= out@[b].created,
            decreases n - i,
        {
            proof {
                assert(ids[i as int] == self.order@[i as int]@);
                assert(ids.contains(ids[i as int]));
            }
            let info = match self.map.get(self.order[i].as_str()) {
                Some(it) => info_of_item(it),
                None => {
                    proof {
                        assert(false);
                    }
                    return out;
                },
            };
            let ghost x = info;
            let mut p: usize = 0;
            while p < out.len() && out[p].created >= info.created
                invariant
                    p <= out.len(),
                    info == x,
                    forall|a: int| 0 <= a < p ==> out@[a].created >= x.created,
                decreases out.len() - p,
            {
                p += 1;
            }
            let ghost old_out = out@;
            proof {
                assert(x.id@ == ids[i as int]);
                // The new id is not yet listed.
                assert forall|a: int| 0 <= a < old_out.len() implies old_out[a].id@ != x.id@ by {
                    if old_out[a].id@ == x.id@ {
                        let j = choose|j: int| 0 <= j < i && #[trigger] ids.take(i as int)[j] == x.id@;
                        assert(ids[j] == ids[i as int]);
                    }
                }
                if p < old_out.len() {
                    assert(old_out[p as int].created < x.created);
                }
            }
            out.insert(p, info);
            proof {
                old_out.insert_ensures(p as int, x);
                let t1 = ids.take(i as int);
                let t2 = ids.take(i + 1);
                assert forall|k: Seq<char>| t1.contains(k) implies #[trigger] t2.contains(k) by {
                    let j = choose|j: int| 0 <= j < i && #[trigger] t1[j] == k;
                    assert(t2[j] == k);
                }
                assert(t2[i as int] == x.id@);
                assert forall|a: int|
                    0 <= a < out.len() implies m.contains_key(#[trigger] out@[a].id@) && out@[a]
                    == info_of(m[out@[a].id@]) && t2.contains(out@[a].id@) by {
                    if a < p {
                        assert(out@[a] == old_out[a]);
                    } else if a > p {
                        assert(out@[a] == old_out[a - 1]);
                    }
                }
                assert forall|j: int| #![trigger ids[j]] 0 <= j < i + 1 implies exists|a: int|
                    #![trigger out@[a]]
                    0 <= a < out.len() && out@[a].id@ == ids[j] by {
                    if j == i {
                        assert(out@[p as int].id@ == ids[j]);
                    } else {
                        let a = choose|a: int| #![trigger old_out[a]] 0 <= a < old_out.len() && old_out[a].id@ == ids[j];
                        if a < p {
                            assert(out@[a] == old_out[a]);
                        } else {
                            assert(out@[a + 1] == old_out[a]);
                        }
                    }
                }
                assert forall|a: int, b: int| 0 <= a < b < out.len() implies out@[a].id@ != out@[b].id@
                    && out@[a].created >= out@[b].created by {
                    if a < p && b < p {
                        assert(out@[a] == old_out[a] && out@[b] == old_out[b]);
                    } else if a < p && b == p {
                        assert(out@[a] == old_out[a]);
                    } else if a < p {
                        assert(out@[a] == old_out[a] && out@[b] == old_out[b - 1]);
                    } else if a == p {
                        assert(out@[b] == old_out[b - 1]);
                        assert(old_out[p as int].created >= old_out[b - 1].created || b - 1 == p);
                    } else {
                        assert(out@[a] == old_out[a - 1] && out@[b] == old_out[b - 1]);
                    }
                }
            }
            i += 1;
        }
        proof {
            assert(ids.take(n as int) =~= ids);
            assert forall|k: Seq<char>| #[trigger] m.contains_key(k) implies exists|a: int|
                0 <= a < out.len() && out@[a].id@ == k by {
                assert(ids.contains(k));
                let j = choose|j: int| 0 <= j < n && ids[j] == k;
                let a = choose|a: int| #![trigger out@[a]] 0 <= a < out.len() && out@[a].id@ == ids[j];
                assert(out@[a].id@ == k);
            }
        }
        out
    }
}

} // verus!
