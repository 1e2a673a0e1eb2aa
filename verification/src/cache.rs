//! What was read for layers and styles, held by name until it expires.
use crate::features::GeoJson;
use crate::render_option::RenderOption;
use vstd::prelude::*;

verus! {

/// Until when an entry is held. Moments are counted in ticks of a clock
/// that never runs backwards.
#[derive(Clone, Copy, Debug, PartialEq, Eq, Structural)]
pub enum Expiration {
    /// For ever.
    Never,
    /// Until this moment has passed.
    At(u64),
}

impl Expiration {
    /// Whether the moment of expiry has passed at `instant`.
    pub fn is_expired(&self, instant: u64) -> (r: bool)
        ensures
            r == self.expired_at(instant),
    {
        match self {
            Expiration::Never => false,
            Expiration::At(moment) => *moment < instant,
        }
    }

    /// Whether the moment of expiry has passed at `instant`.
    pub open spec fn expired_at(self, instant: u64) -> bool {
        self matches Expiration::At(moment) && moment < instant
    }

    /// Expiry a span of ticks after a moment, or never if the clock cannot
    /// count that far.
    pub fn after(now: u64, span: u64) -> (r: Expiration)
        ensures
            r == (if now + span <= u64::MAX {
                Expiration::At((now + span) as u64)
            } else {
                Expiration::Never
            }),
    {
        if span <= u64::MAX - now {
            Expiration::At(now + span)
        } else {
            Expiration::Never
        }
    }
}

/// Where an entry was read from.
#[derive(Clone, Copy, Debug, PartialEq, Eq, Structural)]
pub enum DataKind {
    File,
    Link,
}

/// What is held under a name.
#[derive(Debug, PartialEq)]
pub struct CacheEntry<T> {
    pub name: String,
    pub inner: T,
    pub kind: DataKind,
    pub expiration: Expiration,
}

/// Whether no two entries have the same name.
pub open spec fn distinct<T>(entries: Seq<CacheEntry<T>>) -> bool {
    forall|i: int, j: int|
        0 <= i < j < entries.len() ==> (#[trigger] entries[i]).name@ != (#[trigger] entries[j]).name@
}

/// Whether the entry at `i` has the name.
pub open spec fn held_at<T>(entries: Seq<CacheEntry<T>>, name: Seq<char>, i: int) -> bool {
    0 <= i < entries.len() && entries[i].name@ == name
}

/// Whether an entry has the name.
pub open spec fn holds<T>(entries: Seq<CacheEntry<T>>, name: Seq<char>) -> bool {
    exists|i: int| held_at(entries, name, i)
}

/// Of the first `n` entries, those not expired at `now`, in order.
pub open spec fn unexpired_upto<T>(entries: Seq<CacheEntry<T>>, now: u64, n: nat) -> Seq<
    CacheEntry<T>,
>
    decreases n,
{
    if n == 0 || n > entries.len() {
        Seq::empty()
    } else if entries[n - 1].expiration.expired_at(now) {
        unexpired_upto(entries, now, (n - 1) as nat)
    } else {
        unexpired_upto(entries, now, (n - 1) as nat).push(entries[n - 1])
    }
}

/// Entries held by name: no name occurs twice.
#[derive(Debug)]
pub struct Cache<T> {
    entries: Vec<CacheEntry<T>>,
}

impl<T> View for Cache<T> {
    type V = Seq<CacheEntry<T>>;

    closed spec fn view(&self) -> Seq<CacheEntry<T>> {
        self.entries@
    }
}

impl<T> Cache<T> {
    /// Whether no name occurs twice: every cache is made so and stays so.
    pub open spec fn wf(&self) -> bool {
        distinct(self@)
    }

    /// A cache that holds nothing.
    pub fn new() -> (r: Cache<T>)
        ensures
            r@.len() == 0,
            r.wf(),
    {
        Cache { entries: Vec::new() }
    }

    /// The entries in the order in which they are held.
    pub fn entries(&self) -> (r: &Vec<CacheEntry<T>>)
        ensures
            r@ == self@,
    {
        &self.entries
    }

    /// The entry of a name, if one is held.
    pub fn get(&self, name: &String) -> (r: Option<&CacheEntry<T>>)
        ensures
            match r {
                Some(entry) => exists|i: int| held_at(self@, name@, i) && *entry == self@[i],
                None => !holds(self@, name@),
            },
    {
        let mut i: usize = 0;
        while i < self.entries.len()
            invariant
                i <= self.entries.len(),
                forall|k: int| 0 <= k < i ==> !held_at(self.entries@, name@, k),
            decreases self.entries.len() - i,
        {
            if self.entries[i].name == *name {
                assert(held_at(self@, name@, i as int));
                return Some(&self.entries[i]);
            }
            i += 1;
        }
        None
    }

    /// Holds an entry under its name, in place of the one that was held
    /// under that name if there was one.
    pub fn insert(&mut self, entry: CacheEntry<T>)
        requires
            old(self).wf(),
        ensures
            final(self).wf(),
            holds(old(self)@, entry.name@) ==> exists|i: int|
                held_at(old(self)@, entry.name@, i) && final(self)@ == old(self)@.update(i, entry),
            !holds(old(self)@, entry.name@) ==> final(self)@ == old(self)@.push(entry),
    {
        let mut i: usize = 0;
        while i < self.entries.len()
            invariant
                i <= self.entries.len(),
                self.entries@ == old(self).entries@,
                distinct(self.entries@),
                forall|k: int| 0 <= k < i ==> !held_at(self.entries@, entry.name@, k),
            decreases self.entries.len() - i,
        {
            if self.entries[i].name == entry.name {
                let ghost before = self.entries@;
                assert(held_at(before, entry.name@, i as int));
                self.entries.remove(i);
                self.entries.insert(i, entry);
                assert(self.entries@ =~= before.update(i as int, entry));
                assert(distinct(self.entries@)) by {
                    assert forall|a: int, b: int| 0 <= a < b < self.entries@.len() implies (
                    #[trigger] self.entries@[a]).name@ != (#[trigger] self.entries@[b]).name@ by {
                        assert(self.entries@[a].name@ == before[a].name@);
                        assert(self.entries@[b].name@ == before[b].name@);
                    }
                }
                return ;
            }
            i += 1;
        }
        let ghost before = self.entries@;
        self.entries.push(entry);
        assert(distinct(self.entries@)) by {
            assert forall|a: int, b: int| 0 <= a < b < self.entries@.len() implies (
            #[trigger] self.entries@[a]).name@ != (#[trigger] self.entries@[b]).name@ by {
                if b == before.len() {
                    assert(!held_at(before, entry.name@, a));
                } else {
                    assert(self.entries@[a] == before[a]);
                    assert(self.entries@[b] == before[b]);
                }
            }
        }
        assert(!holds(old(self)@, entry.name@)) by {
            assert forall|k: int| !held_at(old(self)@, entry.name@, k) by {}
        }
    }

    /// Lets go of every entry that is expired at `now`; the others stay in
    /// their order.
    pub fn check_expired(&mut self, now: u64)
        requires
            old(self).wf(),
        ensures
            final(self).wf(),
            final(self)@ == unexpired_upto(old(self)@, now, old(self)@.len()),
    {
        let ghost before = self.entries@;
        let mut i: usize = 0;
        let mut seen: usize = 0;
        let total: usize = self.entries.len();
        assert(self.entries@ =~= unexpired_upto(before, now, 0) + before.skip(0));
        while seen < total
            invariant
                seen <= total,
                i <= seen,
                total == before.len(),
                distinct(self.entries@),
                i == unexpired_upto(before, now, seen as nat).len(),
                self.entries@ == unexpired_upto(before, now, seen as nat) + before.skip(seen as int),
            decreases total - seen,
        {
            let ghost kept = unexpired_upto(before, now, seen as nat);
            assert(self.entries@[i as int] == before[seen as int]);
            if self.entries[i].expiration.is_expired(now) {
                let ghost held = self.entries@;
                self.entries.remove(i);
                assert(self.entries@ =~= kept + before.skip(seen + 1));
                assert(distinct(self.entries@)) by {
                    assert forall|a: int, b: int| 0 <= a < b < self.entries@.len() implies (
                    #[trigger] self.entries@[a]).name@ != (#[trigger] self.entries@[b]).name@ by {
                        let a0 = if a < i { a } else { a + 1 };
                        let b0 = if b < i { b } else { b + 1 };
                        assert(self.entries@[a] == held[a0]);
                        assert(self.entries@[b] == held[b0]);
                    }
                }
            } else {
                assert(self.entries@ =~= kept.push(before[seen as int]) + before.skip(seen + 1));
                i += 1;
            }
            seen += 1;
        }
        assert(before.skip(total as int) =~= Seq::<CacheEntry<T>>::empty());
        assert(self.entries@ =~= unexpired_upto(before, now, total as nat));
    }
}

/// What was read for layers and for styles.
#[derive(Debug)]
pub struct DataCache {
    pub layer_map: Cache<GeoJson>,
    pub style_map: Cache<RenderOption>,
}

impl Default for DataCache {
    fn default() -> (r: Self)
        ensures
            r.layer_map@.len() == 0,
            r.style_map@.len() == 0,
            r.layer_map.wf(),
            r.style_map.wf(),
    {
        DataCache { layer_map: Cache::new(), style_map: Cache::new() }
    }
}

impl DataCache {
    /// Lets go of every layer and every style that is expired at `now`.
    pub fn check_expired_cache(&mut self, now: u64)
        requires
            old(self).layer_map.wf(),
            old(self).style_map.wf(),
        ensures
            final(self).layer_map.wf(),
            final(self).style_map.wf(),
            final(self).layer_map@ == unexpired_upto(
                old(self).layer_map@,
                now,
                old(self).layer_map@.len(),
            ),
            final(self).style_map@ == unexpired_upto(
                old(self).style_map@,
                now,
                old(self).style_map@.len(),
            ),
    {
        self.layer_map.check_expired(now);
        self.style_map.check_expired(now);
    }

    /// The layer held under a name, if there is one.
    pub fn layer_cache(&self, name: &String) -> (r: Option<&GeoJson>)
        ensures
            match r {
                Some(layer) => exists|i: int|
                    held_at(self.layer_map@, name@, i) && *layer == self.layer_map@[i].inner,
                None => !holds(self.layer_map@, name@),
            },
    {
        match self.layer_map.get(name) {
            Some(entry) => Some(&entry.inner),
            None => None,
        }
    }

    /// The style held under a name, if there is one.
    pub fn style_cache(&self, name: &String) -> (r: Option<&RenderOption>)
        ensures
            match r {
                Some(style) => exists|i: int|
                    held_at(self.style_map@, name@, i) && *style == self.style_map@[i].inner,
                None => !holds(self.style_map@, name@),
            },
    {
        match self.style_map.get(name) {
            Some(entry) => Some(&entry.inner),
            None => None,
        }
    }
}

} // verus!
