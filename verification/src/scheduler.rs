//! The debounced save scheduler.
//!
//! Each tick the scheduler compares the store's change marker with the
//! marker at the last save. A dirty store is not saved immediately: the
//! save is held until a minimum interval has passed since the previous
//! save, so rapid successive mutations coalesce into one write. A shutdown
//! signal overrides the debounce and forces an immediate save of pending
//! changes; a store that was never mutated since load is never saved.
//!
//! Deciding a save and acknowledging it are separate steps: the markers
//! move only when the backend's save is confirmed as successful, so a
//! failed save leaves the store dirty and the flush is retried.

use vstd::prelude::*;

verus! {

/// The scheduler's state: the change marker at the last successful save,
/// when that save happened, and the debounce interval.
pub struct SaveScheduler {
    /// Value of the store's change marker when the last save succeeded (or
    /// the marker's value at load, if nothing was saved yet).
    pub last_saved_counter: u64,
    /// Time of the last successful save, in ticks of the host's clock (or
    /// the load time, if nothing was saved yet).
    pub last_save_time: u64,
    /// Minimum time between two saves.
    pub min_interval: u64,
}

/// One observation handed to the scheduler: the store's current change
/// marker, the current time, whether the process is shutting down, and —
/// for the tick-level model — whether the backend's save, if one was
/// attempted, succeeded.
pub ghost struct TickView {
    pub change_counter: u64,
    pub now: u64,
    pub shutting_down: bool,
    pub save_ok: bool,
}

impl SaveScheduler {
    /// The store has changed since the last successful save.
    pub open spec fn spec_dirty(self, change_counter: u64) -> bool {
        change_counter > self.last_saved_counter
    }

    /// Whether this tick triggers a save: only a dirty store is saved, and
    /// only once the debounce interval has passed since the previous save,
    /// unless the process is shutting down.
    pub open spec fn spec_should_save(
        self,
        change_counter: u64,
        now: u64,
        shutting_down: bool,
    ) -> bool {
        self.spec_dirty(change_counter) && (shutting_down || now - self.last_save_time
            >= self.min_interval)
    }

    /// The state after a save is acknowledged as successful: both markers
    /// move to the observed values.
    pub open spec fn spec_confirmed(self, change_counter: u64, now: u64) -> SaveScheduler {
        SaveScheduler {
            last_saved_counter: change_counter,
            last_save_time: now,
            min_interval: self.min_interval,
        }
    }

    /// One whole tick: the pair of the next state and whether a save was
    /// attempted. A triggered save moves the markers only when the backend
    /// succeeded; a triggered save that failed leaves the scheduler — and
    /// so the pending dirty state — exactly as it was.
    pub open spec fn spec_tick(self, t: TickView) -> (SaveScheduler, bool) {
        if self.spec_should_save(t.change_counter, t.now, t.shutting_down) {
            if t.save_ok {
                (self.spec_confirmed(t.change_counter, t.now), true)
            } else {
                (self, true)
            }
        } else {
            (self, false)
        }
    }

    /// The state and the number of attempted saves after a whole sequence
    /// of ticks.
    pub open spec fn spec_run(self, ticks: Seq<TickView>) -> (SaveScheduler, nat)
        decreases ticks.len(),
    {
        if ticks.len() == 0 {
            (self, 0)
        } else {
            let (s1, n1) = self.spec_run(ticks.drop_last());
            let (s2, saved) = s1.spec_tick(ticks.last());
            (s2, n1 + if saved {
                1nat
            } else {
                0nat
            })
        }
    }

    /// A fresh scheduler: nothing is pending, as if a save had just
    /// happened at the given marker and time.
    pub fn new(min_interval: u64, change_counter: u64, now: u64) -> (r: SaveScheduler)
        ensures
            r.last_saved_counter == change_counter,
            r.last_save_time == now,
            r.min_interval == min_interval,
    {
        SaveScheduler { last_saved_counter: change_counter, last_save_time: now, min_interval }
    }

    /// Whether this tick should trigger a save. The decision changes no
    /// state: the markers move only in [`SaveScheduler::confirm_saved`],
    /// once the backend reports success.
    pub fn should_save(&self, change_counter: u64, now: u64, shutting_down: bool) -> (r: bool)
        requires
            now >= self.last_save_time,
        ensures
            r == self.spec_should_save(change_counter, now, shutting_down),
    {
        if change_counter <= self.last_saved_counter {
            return false;
        }
        if shutting_down {
            return true;
        }
        now - self.last_save_time >= self.min_interval
    }

    /// Acknowledges a save that the backend completed successfully: the
    /// Dirty-to-Idle transition. Both markers advance, so the saved state
    /// no longer counts as dirty. A save that failed is simply never
    /// confirmed, which leaves the scheduler untouched and the changes
    /// pending.
    pub fn confirm_saved(&mut self, change_counter: u64, now: u64)
        ensures
            *final(self) == old(self).spec_confirmed(change_counter, now),
            !final(self).spec_dirty(change_counter),
    {
        self.last_saved_counter = change_counter;
        self.last_save_time = now;
    }
}

/// A store that was not mutated since the last successful save (or since
/// load) is never saved, shutdown included.
pub proof fn lemma_clean_store_never_saves(s: SaveScheduler, t: TickView)
    requires
        t.change_counter <= s.last_saved_counter,
    ensures
        !s.spec_should_save(t.change_counter, t.now, t.shutting_down),
        s.spec_tick(t) == (s, false),
{
}

/// A triggered save whose backend write failed changes nothing: the
/// scheduler keeps its markers, the store still counts as dirty, and the
/// very same observation triggers the save again — the flush is retried
/// until a save succeeds or the process ends.
pub proof fn lemma_failed_save_is_retried(s: SaveScheduler, t: TickView)
    requires
        s.spec_should_save(t.change_counter, t.now, t.shutting_down),
        !t.save_ok,
    ensures
        s.spec_tick(t) == (s, true),
        s.spec_tick(t).0.spec_dirty(t.change_counter),
        s.spec_tick(t).0.spec_should_save(t.change_counter, t.now, t.shutting_down),
{
}

/// Debounce: however many mutations arrive while the debounce interval
/// since the previous save has not yet passed, no save is attempted and the
/// scheduler is left exactly as it was — the mutations coalesce.
pub proof fn lemma_burst_coalesces(s: SaveScheduler, ticks: Seq<TickView>)
    requires
        forall|i: int|
            0 <= i < ticks.len() ==> (#[trigger] ticks[i]).now - s.last_save_time < s.min_interval
                && !ticks[i].shutting_down,
    ensures
        s.spec_run(ticks) == (s, 0nat),
    decreases ticks.len(),
{
    if ticks.len() > 0 {
        assert(forall|i: int|
            0 <= i < ticks.drop_last().len() ==> ticks.drop_last()[i] == ticks[i]);
        lemma_burst_coalesces(s, ticks.drop_last());
        assert(ticks.last() == ticks[ticks.len() - 1]);
    }
}

/// Debounce, second half: after a coalesced burst of mutations, the first
/// tick at or past the debounce interval triggers exactly one save for the
/// whole burst, and once that save succeeds, a further tick with no further
/// mutation saves nothing.
pub proof fn lemma_burst_then_single_save(
    s: SaveScheduler,
    ticks: Seq<TickView>,
    flush: TickView,
    after: TickView,
)
    requires
        forall|i: int|
            0 <= i < ticks.len() ==> (#[trigger] ticks[i]).now - s.last_save_time < s.min_interval
                && !ticks[i].shutting_down,
        flush.change_counter > s.last_saved_counter,
        flush.now - s.last_save_time >= s.min_interval,
        flush.save_ok,
        after.change_counter == flush.change_counter,
    ensures
        s.spec_run(ticks.push(flush)).1 == 1,
        s.spec_run(ticks.push(flush).push(after)).1 == 1,
{
    lemma_burst_coalesces(s, ticks);
    assert(ticks.push(flush).drop_last() =~= ticks);
    let s1 = s.spec_tick(flush).0;
    assert(s.spec_run(ticks.push(flush)) == (s1, 1nat));
    assert(ticks.push(flush).push(after).drop_last() =~= ticks.push(flush));
    lemma_clean_store_never_saves(s1, after);
}

/// Spacing mutations beyond the debounce interval defeats the coalescing:
/// every tick of such a run (its saves succeeding) triggers its own save,
/// so there are as many saves as ticks.
pub proof fn lemma_spaced_mutations_each_save(s: SaveScheduler, ticks: Seq<TickView>)
    requires
        forall|i: int| 0 <= i < ticks.len() ==> (#[trigger] ticks[i]).save_ok,
        forall|i: int|
            0 <= i < ticks.len() ==> (#[trigger] ticks[i]).change_counter > (
            if i == 0 {
                s.last_saved_counter
            } else {
                ticks[i - 1].change_counter
            }),
        forall|i: int|
            0 <= i < ticks.len() ==> (#[trigger] ticks[i]).now >= (
            if i == 0 {
                s.last_save_time
            } else {
                ticks[i - 1].now
            }) + s.min_interval,
    ensures
        s.spec_run(ticks).1 == ticks.len(),
        ticks.len() > 0 ==> s.spec_run(ticks).0.last_saved_counter == ticks.last().change_counter
            && s.spec_run(ticks).0.last_save_time == ticks.last().now
            && s.spec_run(ticks).0.min_interval == s.min_interval,
        ticks.len() == 0 ==> s.spec_run(ticks).0 == s,
    decreases ticks.len(),
{
    if ticks.len() > 0 {
        let prefix = ticks.drop_last();
        assert(forall|i: int| 0 <= i < prefix.len() ==> prefix[i] == ticks[i]);
        lemma_spaced_mutations_each_save(s, prefix);
        let s1 = s.spec_run(prefix).0;
        let t = ticks.last();
        assert(t == ticks[ticks.len() - 1]);
        if prefix.len() == 0 {
            assert(s1 == s);
        } else {
            assert(s1.last_saved_counter == prefix.last().change_counter);
            assert(prefix.last() == ticks[ticks.len() - 2]);
        }
        assert(s1.spec_should_save(t.change_counter, t.now, t.shutting_down));
    }
}

/// Shutdown flush: a pending dirty state plus a shutdown signal triggers a
/// save at once, even while the debounce interval has not passed, and a
/// successful flush settles the pending state: repeating the shutdown tick
/// saves nothing more, so the flush happens exactly once.
pub proof fn lemma_shutdown_flushes(s: SaveScheduler, t: TickView)
    requires
        t.change_counter > s.last_saved_counter,
        t.shutting_down,
    ensures
        s.spec_should_save(t.change_counter, t.now, t.shutting_down),
        s.spec_tick(t).1,
        t.save_ok ==> !s.spec_tick(t).0.spec_should_save(t.change_counter, t.now, t.shutting_down),
{
}

} // verus!
