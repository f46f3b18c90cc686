//! Time-bounded caches in front of the expensive directory enumerations.
//!
//! A cached value is served while it is at most thirty seconds old; an
//! expired entry is treated as absent and overwritten on the next store,
//! never proactively purged.  The printer list is cached globally, media
//! lists per printer name.

use vstd::prelude::*;
use crate::options::{MediaOption, PrinterInfo};

verus! {

/// How long a cache entry stays valid, in milliseconds.
pub const CACHE_TTL_MS: u64 = 30000;

/// A cached value and the time it was fetched.
pub struct CacheEntry<T> {
    pub value: T,
    pub fetched_at_ms: u64,
}

/// A lookup at `now_ms` may serve an entry fetched at `fetched_at_ms` while
/// at most the TTL has passed.
pub open spec fn entry_live(fetched_at_ms: u64, now_ms: u64) -> bool {
    fetched_at_ms <= now_ms <= fetched_at_ms + CACHE_TTL_MS
}

/// A lookup twenty-nine seconds after the fetch is served from the cache; one
/// thirty-one seconds after it is not, and falls through to a fresh query.
pub proof fn lemma_cache_ttl_window(fetched_at_ms: u64)
    requires
        fetched_at_ms + 31000 <= u64::MAX,
    ensures
        entry_live(fetched_at_ms, (fetched_at_ms + 29000) as u64),
        !entry_live(fetched_at_ms, (fetched_at_ms + 31000) as u64),
{
}

/// The global printer-list cache.
pub struct PrinterCache {
    pub entry: Option<CacheEntry<Vec<PrinterInfo>>>,
}

impl PrinterCache {
    /// A cache with nothing in it.
    pub fn new() -> (r: PrinterCache)
        ensures
            r.entry is None,
    {
        PrinterCache { entry: None }
    }

    /// Serve the printer list while the entry is live; an expired or absent
    /// entry yields nothing and the caller queries the system.
    pub fn lookup(&self, now_ms: u64) -> (r: Option<&Vec<PrinterInfo>>)
        ensures
            match r {
                Some(v) => match self.entry {
                    Some(e) => entry_live(e.fetched_at_ms, now_ms) && v == &e.value,
                    None => false,
                },
                None => match self.entry {
                    Some(e) => !entry_live(e.fetched_at_ms, now_ms),
                    None => true,
                },
            },
    {
        match &self.entry {
            Some(e) => {
                if e.fetched_at_ms <= now_ms && now_ms - e.fetched_at_ms <= CACHE_TTL_MS {
                    Some(&e.value)
                } else {
                    None
                }
            },
            None => None,
        }
    }

    /// Store a freshly enumerated printer list.
    pub fn store(&mut self, value: Vec<PrinterInfo>, now_ms: u64)
        ensures
            match final (self).entry {
                Some(e) => e.value == value && e.fetched_at_ms == now_ms,
                None => false,
            },
    {
        self.entry = Some(CacheEntry { value, fetched_at_ms: now_ms });
    }
}

/// The first entry under `key`, if any; keys are unique, so it is the only
/// one.
pub open spec fn media_lookup(
    es: Seq<(String, CacheEntry<Vec<MediaOption>>)>,
    key: Seq<char>,
) -> Option<CacheEntry<Vec<MediaOption>>>
    decreases es.len(),
{
    if es.len() == 0 {
        None
    } else if es[0].0@ == key {
        Some(es[0].1)
    } else {
        media_lookup(es.subrange(1, es.len() as int), key)
    }
}

/// The per-printer media cache.
pub struct MediaCache {
    pub entries: Vec<(String, CacheEntry<Vec<MediaOption>>)>,
}

impl MediaCache {
    /// Every printer name keys at most one entry.
    pub open spec fn wf(self) -> bool {
        forall|i: int, j: int|
            0 <= i < j < self.entries@.len() ==> (#[trigger] self.entries@[i]).0@ != (
            #[trigger] self.entries@[j]).0@
    }

    /// A cache with nothing in it.
    pub fn new() -> (r: MediaCache)
        ensures
            r.wf(),
            r.entries@.len() == 0,
    {
        MediaCache { entries: Vec::new() }
    }

    /// Serve the media list of one printer while its entry is live.
    pub fn lookup(&self, printer: &str, now_ms: u64) -> (r: Option<&Vec<MediaOption>>)
        requires
            self.wf(),
        ensures
            match r {
                Some(v) => match media_lookup(self.entries@, printer@) {
                    Some(e) => entry_live(e.fetched_at_ms, now_ms) && v == &e.value,
                    None => false,
                },
                None => match media_lookup(self.entries@, printer@) {
                    Some(e) => !entry_live(e.fetched_at_ms, now_ms),
                    None => true,
                },
            },
    {
        assert(self.entries@.subrange(0, self.entries@.len() as int) =~= self.entries@);
        let mut i: usize = 0;
        while i < self.entries.len()
            invariant
                i <= self.entries@.len(),
                forall|k: int| 0 <= k < i ==> (#[trigger] self.entries@[k]).0@ != printer@,
                media_lookup(self.entries@, printer@) == media_lookup(
                    self.entries@.subrange(i as int, self.entries@.len() as int),
                    printer@,
                ),
            decreases self.entries@.len() - i,
        {
            proof {
                let tail = self.entries@.subrange(i as int, self.entries@.len() as int);
                assert(tail[0] == self.entries@[i as int]);
                assert(tail.subrange(1, tail.len() as int) =~= self.entries@.subrange(
                    i + 1,
                    self.entries@.len() as int,
                ));
            }
            let entry = &self.entries[i];
            if entry.0 == printer.to_owned() {
                let e = &self.entries[i];
                if e.1.fetched_at_ms <= now_ms && now_ms - e.1.fetched_at_ms <= CACHE_TTL_MS {
                    return Some(&e.1.value);
                } else {
                    return None;
                }
            }
            i = i + 1;
        }
        proof {
            let tail = self.entries@.subrange(i as int, self.entries@.len() as int);
            assert(tail.len() == 0);
        }
        None
    }

    /// Store the media list of one printer, replacing its old entry and
    /// leaving the entries of every other printer untouched.
    pub fn store(&mut self, printer: String, value: Vec<MediaOption>, now_ms: u64)
        requires
            old(self).wf(),
        ensures
            final (self).wf(),
            match media_lookup(final (self).entries@, printer@) {
                Some(e) => e.value == value && e.fetched_at_ms == now_ms,
                None => false,
            },
            forall|k: Seq<char>|
                k != printer@ ==> #[trigger] media_lookup(final (self).entries@, k)
                    == media_lookup(old(self).entries@, k),
    {
        let n = self.entries.len();
        let mut i: usize = 0;
        while i < n
            invariant
                n == self.entries@.len(),
                self.wf(),
                i <= n,
                self == old(self),
                forall|k: int| 0 <= k < i ==> (#[trigger] self.entries@[k]).0@ != printer@,
            decreases n - i,
        {
            let entry = &self.entries[i];
            if entry.0 == printer {
                let ghost pre = self.entries@;
                let new_entry = (printer, CacheEntry { value, fetched_at_ms: now_ms });
                self.entries.set(i, new_entry);
                proof {
                    lemma_media_lookup_replace(pre, self.entries@, i as int);
                }
                return ;
            }
            i = i + 1;
        }
        let ghost pre = self.entries@;
        let new_entry = (printer, CacheEntry { value, fetched_at_ms: now_ms });
        self.entries.push(new_entry);
        proof {
            lemma_media_lookup_append(pre, self.entries@);
        }
    }
}

proof fn lemma_media_lookup_replace(
    pre: Seq<(String, CacheEntry<Vec<MediaOption>>)>,
    post: Seq<(String, CacheEntry<Vec<MediaOption>>)>,
    i: int,
)
    requires
        0 <= i < pre.len(),
        post == pre.update(i, post[i]),
        post[i].0@ == pre[i].0@,
        forall|a: int, b: int| 0 <= a < b < pre.len() ==> pre[a].0@ != pre[b].0@,
        forall|k: int| 0 <= k < i ==> pre[k].0@ != pre[i].0@,
    ensures
        media_lookup(post, pre[i].0@) == Some(post[i].1),
        forall|k: Seq<char>|
            k != pre[i].0@ ==> #[trigger] media_lookup(post, k) == media_lookup(pre, k),
        forall|a: int, b: int| 0 <= a < b < post.len() ==> post[a].0@ != post[b].0@,
    decreases pre.len(),
{
    if i == 0 {
        assert forall|k: Seq<char>| k != pre[0].0@ implies #[trigger] media_lookup(post, k)
            == media_lookup(pre, k) by {
            assert(post.subrange(1, post.len() as int) =~= pre.subrange(1, pre.len() as int));
        }
    } else {
        let pre_tail = pre.subrange(1, pre.len() as int);
        let post_tail = post.subrange(1, post.len() as int);
        assert(post_tail =~= pre_tail.update(i - 1, post[i]));
        assert(post[0] == pre[0]);
        lemma_media_lookup_replace(pre_tail, post_tail, i - 1);
        assert(pre_tail[i - 1] == pre[i]);
        assert(post_tail[i - 1] == post[i]);
        assert(pre[0].0@ != pre[i].0@);
        assert(media_lookup(post, pre[i].0@) == media_lookup(post_tail, pre[i].0@));
        assert forall|k: Seq<char>| k != pre[i].0@ implies #[trigger] media_lookup(post, k)
            == media_lookup(pre, k) by {
            if k == pre[0].0@ {
                assert(media_lookup(post, k) == Some(post[0].1));
                assert(media_lookup(pre, k) == Some(pre[0].1));
            } else {
                assert(media_lookup(post, k) == media_lookup(post_tail, k));
                assert(media_lookup(pre, k) == media_lookup(pre_tail, k));
            }
        }
    }
}

proof fn lemma_media_lookup_append(
    pre: Seq<(String, CacheEntry<Vec<MediaOption>>)>,
    post: Seq<(String, CacheEntry<Vec<MediaOption>>)>,
)
    requires
        post == pre.push(post.last()),
        post.len() == pre.len() + 1,
        forall|a: int, b: int| 0 <= a < b < pre.len() ==> pre[a].0@ != pre[b].0@,
        forall|k: int| 0 <= k < pre.len() ==> pre[k].0@ != post.last().0@,
    ensures
        media_lookup(post, post.last().0@) == Some(post.last().1),
        forall|k: Seq<char>|
            k != post.last().0@ ==> #[trigger] media_lookup(post, k) == media_lookup(pre, k),
        forall|a: int, b: int| 0 <= a < b < post.len() ==> post[a].0@ != post[b].0@,
    decreases pre.len(),
{
    if pre.len() == 0 {
        assert(post[0] == post.last());
        assert forall|k: Seq<char>| k != post.last().0@ implies #[trigger] media_lookup(post, k)
            == media_lookup(pre, k) by {
            assert(post.subrange(1, post.len() as int) =~= pre);
        }
    } else {
        let pre_tail = pre.subrange(1, pre.len() as int);
        let post_tail = post.subrange(1, post.len() as int);
        assert(post_tail =~= pre_tail.push(post.last()));
        assert(post[0] == pre[0]);
        assert(post_tail.last() == post.last());
        lemma_media_lookup_append(pre_tail, post_tail);
        assert(pre[0].0@ != post.last().0@);
        assert(media_lookup(post, post.last().0@) == media_lookup(post_tail, post.last().0@));
        assert forall|k: Seq<char>| k != post.last().0@ implies #[trigger] media_lookup(post, k)
            == media_lookup(pre, k) by {
            if k == pre[0].0@ {
                assert(media_lookup(post, k) == Some(post[0].1));
                assert(media_lookup(pre, k) == Some(pre[0].1));
            } else {
                assert(media_lookup(post, k) == media_lookup(post_tail, k));
                assert(media_lookup(pre, k) == media_lookup(pre_tail, k));
            }
        }
    }
}


} // verus!
