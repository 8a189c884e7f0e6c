//! Watching a directory: which changes count, how they are gathered, and
//! when a reindex runs (after the changes settle, and not too often).
//!
//! The watcher and the clock are the caller's; it feeds each event and
//! clock reading here and performs the action that comes back.

use vstd::prelude::*;
use crate::text::{contains, str_contains, str_eq};

verus! {

/// Seconds without new changes before reindexing.
pub const DEFAULT_DEBOUNCE_SECS: u64 = 2;
/// Fewest seconds between two reindexes.
pub const MIN_REINDEX_INTERVAL_SECS: u64 = 5;

/// Watches a directory and reindexes it on change.
#[derive(Debug, Clone)]
pub struct Watcher {
    pub root: String,
    /// Seconds without new changes before reindexing.
    pub debounce_secs: u64,
    /// Fewest seconds between two reindexes.
    pub min_reindex_interval_secs: u64,
}

impl Watcher {
    /// A watcher with the default intervals.
    pub fn new(root: &str) -> (w: Watcher)
        ensures
            w.root@ == root@,
            w.debounce_secs == 2,
            w.min_reindex_interval_secs == 5,
    {
        Watcher {
            root: String::from_str(root),
            debounce_secs: DEFAULT_DEBOUNCE_SECS,
            min_reindex_interval_secs: MIN_REINDEX_INTERVAL_SECS,
        }
    }

    /// A watcher that waits `debounce_secs` for changes to settle; reindexes
    /// are at least that far apart, and at least five seconds.
    pub fn with_debounce(root: &str, debounce_secs: u64) -> (w: Watcher)
        ensures
            w.root@ == root@,
            w.debounce_secs == debounce_secs,
            w.min_reindex_interval_secs == if debounce_secs > 5 { debounce_secs } else { 5 },
    {
        let min = if debounce_secs > MIN_REINDEX_INTERVAL_SECS { debounce_secs } else { MIN_REINDEX_INTERVAL_SECS };
        Watcher { root: String::from_str(root), debounce_secs, min_reindex_interval_secs: min }
    }

    /// How long to wait for the next event, in seconds: a minute when
    /// nothing is pending, else the debounce interval.
    pub fn wait_secs(&self, state: &WatchState) -> (s: u64)
        ensures
            s == if state.pending@.len() == 0 { 60 } else { self.debounce_secs },
    {
        if state.pending.len() == 0 {
            60
        } else {
            self.debounce_secs
        }
    }

    /// What to do after an event, with the clock at `now_ms` (milliseconds
    /// on a monotonic clock): reindex when changes are pending, none came
    /// for the debounce interval, and the last reindex is long enough ago;
    /// the pending changes are then dropped.
    pub fn decide(&self, state: &mut WatchState, now_ms: u64) -> (a: WatchAction)
        requires
            old(state).well_formed(),
        ensures
            final(state).well_formed(),
            ({
                let due = old(state).pending@.len() > 0 && settled(old(state).last_event_ms, now_ms, self.debounce_secs)
                    && rested(old(state).last_reindex_ms, now_ms, self.min_reindex_interval_secs);
                if due {
                    &&& a == WatchAction::Reindex { changed: old(state).pending@.len() as usize }
                    &&& final(state).pending@.len() == 0
                    &&& final(state).last_event_ms is None
                    &&& final(state).last_reindex_ms == old(state).last_reindex_ms
                } else {
                    &&& a == WatchAction::Wait
                    &&& *final(state) == *old(state)
                }
            }),
    {
        if state.pending.len() == 0 {
            return WatchAction::Wait;
        }
        let should = match state.last_event_ms {
            Some(t) => elapsed_at_least(t, now_ms, self.debounce_secs),
            None => false,
        };
        let can = match state.last_reindex_ms {
            Some(t) => elapsed_at_least(t, now_ms, self.min_reindex_interval_secs),
            None => true,
        };
        if should && can {
            let changed = state.pending.len();
            state.pending = Vec::new();
            state.last_event_ms = None;
            WatchAction::Reindex { changed }
        } else {
            WatchAction::Wait
        }
    }
}

/// Whether at least `secs` seconds passed from `from_ms` to `now_ms`
/// (no time passes when the clock reads earlier).
pub open spec fn at_least(from_ms: u64, now_ms: u64, secs: u64) -> bool {
    (if now_ms >= from_ms { now_ms - from_ms } else { 0 }) >= secs * 1000
}

/// Whether changes have settled: the last change is long enough ago.
pub open spec fn settled(last_event: Option<u64>, now_ms: u64, debounce_secs: u64) -> bool {
    match last_event {
        Some(t) => at_least(t, now_ms, debounce_secs),
        None => false,
    }
}

/// Whether the last reindex, if any, is long enough ago.
pub open spec fn rested(last_reindex: Option<u64>, now_ms: u64, min_secs: u64) -> bool {
    match last_reindex {
        Some(t) => at_least(t, now_ms, min_secs),
        None => true,
    }
}

/// Reindexing is spaced out: after a reindex at `last`, none is due before
/// the minimum interval has passed, and after a change at `event` none is
/// due before the debounce time has passed.
pub proof fn law_reindex_spacing(last: u64, event: u64, now: u64, min_secs: u64, debounce_secs: u64)
    ensures
        now >= last && now - last < min_secs * 1000 ==> !rested(Some(last), now, min_secs),
        now >= event && now - event < debounce_secs * 1000 ==> !settled(Some(event), now, debounce_secs),
{
}

/// Whether at least `secs` seconds passed from `from_ms` to `now_ms`.
pub fn elapsed_at_least(from_ms: u64, now_ms: u64, secs: u64) -> (b: bool)
    ensures
        b == at_least(from_ms, now_ms, secs),
{
    let elapsed: u128 = if now_ms >= from_ms { (now_ms - from_ms) as u128 } else { 0 };
    elapsed >= (secs as u128) * 1000
}

/// Kinds of file-system events.
#[derive(Debug, Clone, Copy, PartialEq, Eq, Structural)]
pub enum ChangeKind {
    Create,
    Modify,
    Remove,
    Access,
    Other,
}

/// Whether an event of this kind calls for a reindex.
pub fn should_reindex(kind: ChangeKind) -> (b: bool)
    ensures
        b == (kind == ChangeKind::Create || kind == ChangeKind::Modify || kind == ChangeKind::Remove),
{
    match kind {
        ChangeKind::Create | ChangeKind::Modify | ChangeKind::Remove => true,
        _ => false,
    }
}

/// What the watcher does next.
#[derive(Debug, Clone, Copy, PartialEq, Eq, Structural)]
pub enum WatchAction {
    /// Keep waiting for events.
    Wait,
    /// Reindex now; this many paths changed.
    Reindex { changed: usize },
}

/// Changes gathered since the last reindex.
#[derive(Debug, Clone)]
pub struct WatchState {
    /// Changed paths, each once.
    pub pending: Vec<String>,
    /// When the last relevant change arrived.
    pub last_event_ms: Option<u64>,
    /// When the last reindex finished.
    pub last_reindex_ms: Option<u64>,
}

/// Views of strings.
pub open spec fn path_views(v: Seq<String>) -> Seq<Seq<char>> {
    v.map_values(|s: String| s@)
}

impl WatchState {
    /// No path appears twice.
    pub open spec fn well_formed(&self) -> bool {
        forall|i: int, j: int| 0 <= i < j < self.pending@.len() ==> self.pending@[i]@ != self.pending@[j]@
    }

    /// Nothing pending, nothing done yet.
    pub fn new() -> (s: WatchState)
        ensures
            s.well_formed(),
            s.pending@.len() == 0,
            s.last_event_ms is None,
            s.last_reindex_ms is None,
    {
        WatchState { pending: Vec::new(), last_event_ms: None, last_reindex_ms: None }
    }

    /// Records an event of `kind` on `paths` at `now_ms`: relevant events
    /// add their paths (except those inside the index directory) and mark
    /// the time; others change nothing.
    pub fn record(&mut self, kind: ChangeKind, paths: &[String], now_ms: u64)
        requires
            old(self).well_formed(),
        ensures
            final(self).well_formed(),
            final(self).last_reindex_ms == old(self).last_reindex_ms,
            !(kind == ChangeKind::Create || kind == ChangeKind::Modify || kind == ChangeKind::Remove) ==> *final(self) == *old(self),
            (kind == ChangeKind::Create || kind == ChangeKind::Modify || kind == ChangeKind::Remove) ==> {
                &&& final(self).last_event_ms == Some(now_ms)
                &&& forall|p: Seq<char>| path_views(final(self).pending@).contains(p) <==>
                    (path_views(old(self).pending@).contains(p)
                        || (path_views(paths@).contains(p) && !contains(p, ".cgrep"@)))
            },
    {
        if !should_reindex(kind) {
            return;
        }
        let ghost before = path_views(self.pending@);
        let mut i: usize = 0;
        while i < paths.len()
            invariant
                i <= paths@.len(),
                self.well_formed(),
                self.last_reindex_ms == old(self).last_reindex_ms,
                before == path_views(old(self).pending@),
                forall|p: Seq<char>| #[trigger] path_views(self.pending@).contains(p) <==>
                    (before.contains(p) || (path_views(paths@).take(i as int).contains(p) && !contains(p, ".cgrep"@))),
            decreases paths@.len() - i,
        {
            let ghost prefix = path_views(paths@).take(i as int);
            let ghost next = path_views(paths@).take(i + 1);
            assert(next =~= prefix.push(paths@[i as int]@));
            let ghost cur = path_views(self.pending@);
            assert forall|q: Seq<char>| #[trigger] cur.contains(q) <==> (before.contains(q) || (prefix.contains(q) && !contains(q, ".cgrep"@))) by {
                assert(path_views(self.pending@).contains(q) == cur.contains(q));
            }
            let p = &paths[i];
            let excluded = str_contains(p.as_str(), ".cgrep");
            if !excluded {
                let mut seen = false;
                let mut k: usize = 0;
                while k < self.pending.len()
                    invariant
                        k <= self.pending@.len(),
                        seen <==> exists|m: int| 0 <= m < k && self.pending@[m]@ == p@,
                    decreases self.pending@.len() - k,
                {
                    if !seen && str_eq(self.pending[k].as_str(), p.as_str()) {
                        seen = true;
                    }
                    k += 1;
                }
                if !seen {
                    let ghost old_pending = self.pending@;
                    self.pending.push(p.clone());
                    proof {
                        assert(path_views(self.pending@) =~= cur.push(p@));
                        assert forall|a: int, b: int| 0 <= a < b < self.pending@.len() implies self.pending@[a]@ != self.pending@[b]@ by {
                            if b == old_pending.len() {
                                assert(self.pending@[a] == old_pending[a]);
                            }
                        }
                    }
                } else {
                    proof {
                        let m = choose|m: int| 0 <= m < self.pending@.len() && self.pending@[m]@ == p@;
                        assert(cur[m] == p@);
                        assert(cur.contains(p@));
                    }
                }
            }
            proof {
                let now = path_views(self.pending@);
                assert(now == cur || (now == cur.push(p@) && !contains(p@, ".cgrep"@)));
                assert(!excluded ==> cur.contains(p@) || now == cur.push(p@));
                assert forall|q: Seq<char>| now.contains(q) <==>
                    (before.contains(q) || (next.contains(q) && !contains(q, ".cgrep"@))) by {
                    if next.contains(q) {
                        let j = choose|j: int| 0 <= j < next.len() && next[j] == q;
                        if j < prefix.len() {
                            assert(prefix[j] == q);
                        } else {
                            assert(q == p@);
                        }
                    }
                    if prefix.contains(q) {
                        let j = choose|j: int| 0 <= j < prefix.len() && prefix[j] == q;
                        assert(next[j] == q);
                    }
                    if q == p@ {
                        assert(next[i as int] == q);
                    }
                    if now == cur.push(p@) {
                        if now.contains(q) {
                            let j = choose|j: int| 0 <= j < now.len() && now[j] == q;
                            if j < cur.len() {
                                assert(cur[j] == q);
                            }
                        }
                        if cur.contains(q) {
                            let j = choose|j: int| 0 <= j < cur.len() && cur[j] == q;
                            assert(now[j] == q);
                        }
                        if q == p@ {
                            assert(now[cur.len() as int] == q);
                        }
                    }
                }
            }
            i += 1;
        }
        assert(path_views(paths@).take(paths@.len() as int) =~= path_views(paths@));
        self.last_event_ms = Some(now_ms);
        assert forall|q: Seq<char>| path_views(self.pending@).contains(q) <==>
            (path_views(old(self).pending@).contains(q) || (path_views(paths@).contains(q) && !contains(q, ".cgrep"@))) by {
            assert(path_views(paths@).take(paths@.len() as int) == path_views(paths@));
        }
    }

    /// Records that a reindex finished at `now_ms`.
    pub fn reindexed(&mut self, now_ms: u64)
        requires
            old(self).well_formed(),
        ensures
            final(self).well_formed(),
            final(self).pending == old(self).pending,
            final(self).last_event_ms == old(self).last_event_ms,
            final(self).last_reindex_ms == Some(now_ms),
    {
        self.last_reindex_ms = Some(now_ms);
    }
}

} // verus!
