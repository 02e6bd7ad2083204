//! The state of the asynchronous directory search: the debounce deadline of
//! the query being typed, the generation that tells fresh results from stale
//! ones, the cancellation flag of the search running, and the cache of the
//! directories found below the current directory.
//!
//! Time is read by the caller: every operation that depends on it takes the
//! current time as milliseconds on a monotonic clock of the caller's choosing.
use vstd::prelude::*;

use std::sync::atomic::AtomicBool;
use std::sync::atomic::Ordering;
use std::sync::Arc;

use crate::paths::{paths_equal, spec_paths_equal};
use crate::walker::DirEntryItem;

verus! {

/// What a finished search sends back: the generation it was started in, the
/// directory it searched and the directories it found.
pub struct SearchResult {
    pub generation: u64,
    pub root: String,
    pub entries: Vec<DirEntryItem>,
}

/// What a search is started with: the generation to send back, and the flag
/// that tells it to stop.
pub struct SearchTicket {
    pub generation: u64,
    pub cancel: Arc<AtomicBool>,
}

pub struct SearchState {
    pub find_debounce_ms: u64,
    pub find_cache: Vec<DirEntryItem>,
    pub find_cache_root: String,
    pub find_cache_loaded: bool,
    /// When the debounced search is due, in the caller's milliseconds.
    pub find_deadline: Option<u64>,
    pub generation: u64,
    pub cancel: Option<Arc<AtomicBool>>,
}

/// Whether a search result is taken: a query is being searched, the result
/// belongs to the current generation, and it searched the current directory.
pub open spec fn accepts(gen: u64, r: SearchResult, current_dir: Seq<char>, query: Seq<char>) -> bool {
    query.len() > 0 && r.generation == gen && spec_paths_equal(r.root@, current_dir)
}

impl SearchState {
    /// A state with no search run, nothing cached and no deadline.
    pub fn new(debounce_ms: u64) -> (r: SearchState)
        ensures
            r.find_debounce_ms == debounce_ms,
            r.find_cache@.len() == 0,
            r.find_cache_root@.len() == 0,
            !r.find_cache_loaded,
            r.find_deadline is None,
            r.generation == 0,
            r.cancel is None,
    {
        SearchState {
            find_debounce_ms: debounce_ms,
            find_cache: Vec::new(),
            find_cache_root: String::new(),
            find_cache_loaded: false,
            find_deadline: None,
            generation: 0,
            cancel: None,
        }
    }

    /// Tells the running search, if any, to stop, and forgets it.
    pub fn cancel(&mut self)
        ensures
            final(self).cancel is None,
            final(self).find_debounce_ms == old(self).find_debounce_ms,
            final(self).find_cache == old(self).find_cache,
            final(self).find_cache_root == old(self).find_cache_root,
            final(self).find_cache_loaded == old(self).find_cache_loaded,
            final(self).find_deadline == old(self).find_deadline,
            final(self).generation == old(self).generation,
    {
        if let Some(flag) = self.cancel.take() {
            flag.store(true, Ordering::Relaxed);
        }
    }

    /// Starts a new generation: the running search is cancelled, the cache
    /// emptied and the deadline dropped.
    pub fn invalidate(&mut self)
        ensures
            final(self).generation == old(self).generation.wrapping_add(1),
            final(self).cancel is None,
            final(self).find_cache@.len() == 0,
            final(self).find_cache_root@.len() == 0,
            !final(self).find_cache_loaded,
            final(self).find_deadline is None,
            final(self).find_debounce_ms == old(self).find_debounce_ms,
    {
        self.generation = self.generation.wrapping_add(1);
        self.cancel();
        self.find_cache.clear();
        self.find_cache_root = String::new();
        self.find_cache_loaded = false;
        self.find_deadline = None;
    }

    /// Restarts the debounce for `query` at time `now_ms`: the running search
    /// is cancelled; the search falls due `find_debounce_ms` later, or never
    /// for an empty query.
    pub fn set_deadline(&mut self, query: &str, now_ms: u64)
        requires
            now_ms + old(self).find_debounce_ms <= u64::MAX,
        ensures
            final(self).cancel is None,
            final(self).find_deadline == (if query@.len() == 0 {
                None
            } else {
                Some((now_ms + old(self).find_debounce_ms) as u64)
            }),
            final(self).find_debounce_ms == old(self).find_debounce_ms,
            final(self).find_cache == old(self).find_cache,
            final(self).find_cache_root == old(self).find_cache_root,
            final(self).find_cache_loaded == old(self).find_cache_loaded,
            final(self).generation == old(self).generation,
    {
        self.cancel();
        if query.is_empty() {
            self.find_deadline = None;
        } else {
            self.find_deadline = Some(now_ms + self.find_debounce_ms);
        }
    }

    /// Whether the debounced search is due at time `now_ms`.
    pub fn is_due(&self, now_ms: u64) -> (r: bool)
        ensures
            r == (self.find_deadline is Some && now_ms >= self.find_deadline->0),
    {
        match self.find_deadline {
            Some(d) => now_ms >= d,
            None => false,
        }
    }

    /// How long the event loop may wait at time `now_ms`, in milliseconds:
    /// until the deadline but at most 50, or 50 when there is none.
    pub fn poll_timeout(&self, now_ms: u64) -> (r: u64)
        ensures
            r == match self.find_deadline {
                Some(d) => if d > now_ms {
                    if d - now_ms < 50 {
                        (d - now_ms) as u64
                    } else {
                        50
                    }
                } else {
                    0
                },
                None => 50,
            },
    {
        let base: u64 = 50;
        match self.find_deadline {
            Some(d) => {
                let left = d.saturating_sub(now_ms);
                if left < base {
                    left
                } else {
                    base
                }
            },
            None => base,
        }
    }

    /// Starts a search of the current generation: a fresh cancellation flag is
    /// kept as the running search's, and the ticket to hand the search is
    /// returned.
    pub fn start_search(&mut self) -> (t: SearchTicket)
        ensures
            t.generation == old(self).generation,
            final(self).cancel is Some,
            final(self).find_debounce_ms == old(self).find_debounce_ms,
            final(self).find_cache == old(self).find_cache,
            final(self).find_cache_root == old(self).find_cache_root,
            final(self).find_cache_loaded == old(self).find_cache_loaded,
            final(self).find_deadline == old(self).find_deadline,
            final(self).generation == old(self).generation,
    {
        let flag = Arc::new(AtomicBool::new(false));
        let worker = Arc::clone(&flag);
        self.cancel = Some(flag);
        SearchTicket { generation: self.generation, cancel: worker }
    }

    /// Takes the results that have come in, oldest first, until one is
    /// accepted: results of another generation or directory, or any result
    /// while the query is empty, are dropped. The accepted one becomes the
    /// cache, and the search is no longer running. Results after it wait for
    /// the next call.
    pub fn receive_results(&mut self, current_dir: &str, query: &str, inbox: &mut Vec<SearchResult>) -> (r: bool)
        ensures
            r == exists|k: int| 0 <= k < old(inbox)@.len() && accepts(old(self).generation, #[trigger] old(inbox)@[k], current_dir@, query@),
            r ==> exists|k: int|
                0 <= k < old(inbox)@.len()
                && accepts(old(self).generation, old(inbox)@[k], current_dir@, query@)
                && (forall|j: int| 0 <= j < k ==> !accepts(old(self).generation, #[trigger] old(inbox)@[j], current_dir@, query@))
                && final(inbox)@ == old(inbox)@.skip(k + 1)
                && final(self).find_cache == old(inbox)@[k].entries
                && final(self).find_cache_root == old(inbox)@[k].root
                && final(self).find_cache_loaded
                && final(self).cancel is None
                && final(self).find_debounce_ms == old(self).find_debounce_ms
                && final(self).find_deadline == old(self).find_deadline
                && final(self).generation == old(self).generation,
            !r ==> final(inbox)@.len() == 0 && *final(self) == *old(self),
    {
        let ghost q = inbox@;
        assert(q == old(inbox)@);
        let mut taken: usize = 0;
        let qlen = inbox.len();
        let nonempty = !query.is_empty();
        while inbox.len() > 0
            invariant
                taken + inbox@.len() == qlen,
                qlen == q.len(),
                q == old(inbox)@,
                nonempty == (query@.len() > 0),
                inbox@ == q.skip(taken as int),
                *self == *old(self),
                forall|j: int| 0 <= j < taken ==> !accepts(self.generation, #[trigger] q[j], current_dir@, query@),
            decreases inbox.len(),
        {
            let res = inbox.remove(0);
            assert(res == q[taken as int]);
            assert(inbox@ =~= q.skip(taken + 1));
            if nonempty && res.generation == self.generation && paths_equal(res.root.as_str(), current_dir) {
                let ghost k = taken as int;
                self.find_cache = res.entries;
                self.find_cache_root = res.root;
                self.find_cache_loaded = true;
                self.cancel = None;
                assert(accepts(old(self).generation, q[k], current_dir@, query@));
                assert(old(inbox)@[k] == q[k]);
                assert(inbox@ == old(inbox)@.skip(k + 1));
                return true;
            }
            taken = taken + 1;
        }
        assert forall|k: int| 0 <= k < q.len() implies !accepts(old(self).generation, #[trigger] q[k], current_dir@, query@) by {
            assert(k < taken);
        }
        false
    }
}

} // verus!
