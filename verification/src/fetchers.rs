//! The state-diff tracker: decides which observed busy/idle states are new
//! and must be persisted.
//!
//! The tracker owns the in-memory map from runner id to last-known busy flag.
//! Feeding it a snapshot stages one transition record for every runner whose
//! flag changed or that was never seen before, in snapshot order, and
//! advances the map; runners that disappear from the fleet keep their stale
//! entry, because the source of truth is the transition history, not current
//! membership. The tracker never performs I/O itself: the caller persists
//! the staged records.

use crate::gh_api::{RunnerList, RunnerView};
use crate::models::{later, NewRunnersSaturation, NewTransitionView, RunnersSaturationScheme, StoredTransitionView};
use std::collections::HashMap;
use vstd::prelude::*;

verus! {

broadcast use vstd::std_specs::hash::group_hash_axioms;

/// Some stored record exists for runner id `rid`.
pub open spec fn some_record_for(recs: Seq<StoredTransitionView>, rid: u64) -> bool {
    exists|i: int| 0 <= i < recs.len() && recs[i].rid == rid
}

/// `recs[i]` is a most recent record for its runner id within `recs`: no
/// record for the same runner was written later.
pub open spec fn is_most_recent(recs: Seq<StoredTransitionView>, i: int) -> bool {
    &&& 0 <= i < recs.len()
    &&& forall|j: int|
        0 <= j < recs.len() && recs[j].rid == recs[i].rid ==> !later(#[trigger] recs[j], recs[i])
}

/// The store's surrogate key is a primary key: no two records share it.
pub open spec fn distinct_surrogate_ids(recs: Seq<StoredTransitionView>) -> bool {
    forall|i: int, j: int|
        0 <= i < recs.len() && 0 <= j < recs.len() && i != j ==> recs[i].id != recs[j].id
}

/// A runner's observed flag is news to a tracker map `m`: the runner was
/// never seen, or its flag differs from the last-known one.
pub open spec fn runner_changed(m: Map<u64, bool>, id: u64, busy: bool) -> bool {
    !m.contains_key(id) || m[id] != busy
}

/// The staged record for one observed runner.
pub open spec fn record_of(r: RunnerView, now: i64) -> NewTransitionView {
    NewTransitionView { rid: r.id, name: r.name, busy: r.busy, created_at: now }
}

/// The tracker map after feeding the runners `rs` to the map `m`, in order:
/// every id present in `rs` maps to its (last) observed flag, every other
/// entry of `m` is retained.
pub open spec fn tracked_after(m: Map<u64, bool>, rs: Seq<RunnerView>) -> Map<u64, bool>
    decreases rs.len(),
{
    if rs.len() == 0 {
        m
    } else {
        tracked_after(m, rs.drop_last()).insert(rs.last().id, rs.last().busy)
    }
}

/// The records staged while feeding the runners `rs` to the map `m`, in
/// snapshot order: one per runner whose flag was news to the map as it stood
/// when that runner was reached.
pub open spec fn staged_after(m: Map<u64, bool>, rs: Seq<RunnerView>, now: i64) -> Seq<
    NewTransitionView,
>
    decreases rs.len(),
{
    if rs.len() == 0 {
        Seq::empty()
    } else {
        let prev = staged_after(m, rs.drop_last(), now);
        let m_prev = tracked_after(m, rs.drop_last());
        if runner_changed(m_prev, rs.last().id, rs.last().busy) {
            prev.push(record_of(rs.last(), now))
        } else {
            prev
        }
    }
}

/// Runner id `rid` occurs in the snapshot `rs`.
pub open spec fn present(rs: Seq<RunnerView>, rid: u64) -> bool
    decreases rs.len(),
{
    rs.len() > 0 && (rs.last().id == rid || present(rs.drop_last(), rid))
}

/// The busy flag the snapshot `rs` observes for runner id `rid` (its last
/// occurrence, if ids repeat); meaningful only when `present(rs, rid)`.
pub open spec fn observed_flag(rs: Seq<RunnerView>, rid: u64) -> bool
    decreases rs.len(),
{
    if rs.len() == 0 {
        arbitrary()
    } else if rs.last().id == rid {
        rs.last().busy
    } else {
        observed_flag(rs.drop_last(), rid)
    }
}

/// The busy flags staged for runner id `rid`, in staging order.
pub open spec fn flags_for(s: Seq<NewTransitionView>, rid: u64) -> Seq<bool>
    decreases s.len(),
{
    if s.len() == 0 {
        Seq::empty()
    } else {
        let prev = flags_for(s.drop_last(), rid);
        if s.last().rid == rid {
            prev.push(s.last().busy)
        } else {
            prev
        }
    }
}

/// The busy flags one snapshot emits for runner id `rid` against map `m`:
/// one flag when the runner is present and its flag is news, none otherwise.
pub open spec fn snap_flags(m: Map<u64, bool>, rs: Seq<RunnerView>, rid: u64) -> Seq<bool> {
    if present(rs, rid) && runner_changed(m, rid, observed_flag(rs, rid)) {
        seq![observed_flag(rs, rid)]
    } else {
        Seq::empty()
    }
}

/// The tracker map after feeding a whole run of snapshots, oldest first.
pub open spec fn run_tracked(m: Map<u64, bool>, snaps: Seq<Seq<RunnerView>>) -> Map<u64, bool>
    decreases snaps.len(),
{
    if snaps.len() == 0 {
        m
    } else {
        tracked_after(run_tracked(m, snaps.drop_last()), snaps.last())
    }
}

/// The busy flags emitted for runner id `rid` over a whole run of snapshots.
/// (Which flags are emitted does not depend on the observation times, so
/// none appear here; [`lemma_snapshot_flags`] ties this to the staged
/// records of each snapshot.)
pub open spec fn run_flags(m: Map<u64, bool>, snaps: Seq<Seq<RunnerView>>, rid: u64) -> Seq<bool>
    decreases snaps.len(),
{
    if snaps.len() == 0 {
        Seq::empty()
    } else {
        run_flags(m, snaps.drop_last(), rid) + snap_flags(
            run_tracked(m, snaps.drop_last()),
            snaps.last(),
            rid,
        )
    }
}

/// The busy flags runner id `rid` shows over a run of snapshots, one per
/// snapshot in which it is present: the raw sample sequence, before
/// deduplication.
pub open spec fn observations(snaps: Seq<Seq<RunnerView>>, rid: u64) -> Seq<bool>
    decreases snaps.len(),
{
    if snaps.len() == 0 {
        Seq::empty()
    } else {
        observations(snaps.drop_last(), rid) + (if present(snaps.last(), rid) {
            seq![observed_flag(snaps.last(), rid)]
        } else {
            Seq::empty()
        })
    }
}

/// What a map knows of runner id `rid`.
pub open spec fn prior_flag(m: Map<u64, bool>, rid: u64) -> Option<bool> {
    if m.contains_key(rid) {
        Some(m[rid])
    } else {
        None
    }
}

/// The last-known flag after seeing `obs` on top of prior knowledge.
pub open spec fn last_flag(prior: Option<bool>, obs: Seq<bool>) -> Option<bool> {
    if obs.len() > 0 {
        Some(obs.last())
    } else {
        prior
    }
}

/// The number of positions of `obs` whose flag differs from the value
/// observed just before it, counting "no prior observation" as a difference.
pub open spec fn change_count(prior: Option<bool>, obs: Seq<bool>) -> nat
    decreases obs.len(),
{
    if obs.len() == 0 {
        0
    } else {
        change_count(prior, obs.drop_last()) + (if last_flag(prior, obs.drop_last()) == Some(
            obs.last(),
        ) {
            0nat
        } else {
            1nat
        })
    }
}

/// What feeding `rs` does to the entry for one runner id: its flag becomes
/// the observed one when present, and is untouched when absent.
pub proof fn lemma_tracked_at(m: Map<u64, bool>, rs: Seq<RunnerView>, rid: u64)
    ensures
        prior_flag(tracked_after(m, rs), rid) == (if present(rs, rid) {
            Some(observed_flag(rs, rid))
        } else {
            prior_flag(m, rid)
        }),
    decreases rs.len(),
{
    if rs.len() > 0 {
        lemma_tracked_at(m, rs.drop_last(), rid);
    }
}

/// `present` is occurrence: some index of `rs` carries the id.
pub proof fn lemma_present_iff(rs: Seq<RunnerView>, rid: u64)
    ensures
        present(rs, rid) <==> exists|i: int| 0 <= i < rs.len() && rs[i].id == rid,
    decreases rs.len(),
{
    if rs.len() > 0 {
        lemma_present_iff(rs.drop_last(), rid);
        if rs.last().id == rid {
            assert(rs[rs.len() - 1].id == rid);
        }
        if exists|i: int| 0 <= i < rs.len() && rs[i].id == rid {
            let i: int = choose|i: int| 0 <= i < rs.len() && rs[i].id == rid;
            if i < rs.len() - 1 {
                assert(rs.drop_last()[i].id == rid);
            }
        }
    }
}

/// Per-runner content of the staged records of one snapshot: against map
/// `m`, a snapshot with unique ids stages for runner id `rid` exactly one
/// flag when the runner is present with news, and none otherwise — whatever
/// the observation time.
pub proof fn lemma_snapshot_flags(m: Map<u64, bool>, rs: Seq<RunnerView>, now: i64, rid: u64)
    requires
        crate::gh_api::distinct_ids(rs),
    ensures
        flags_for(staged_after(m, rs, now), rid) == snap_flags(m, rs, rid),
    decreases rs.len(),
{
    if rs.len() == 0 {
        assert(flags_for(staged_after(m, rs, now), rid) =~= snap_flags(m, rs, rid));
    } else {
        let dr = rs.drop_last();
        let last = rs.last();
        assert(crate::gh_api::distinct_ids(dr)) by {
            assert(forall|i: int| 0 <= i < dr.len() ==> dr[i] == rs[i]);
        }
        lemma_snapshot_flags(m, dr, now, rid);
        let m_prev = tracked_after(m, dr);
        let prev = staged_after(m, dr, now);
        if last.id == rid {
            assert(!present(dr, rid)) by {
                lemma_present_iff(dr, rid);
                assert(rs[rs.len() - 1].id == rid);
                assert(forall|i: int| 0 <= i < dr.len() ==> dr[i] == rs[i]);
            }
            lemma_tracked_at(m, dr, rid);
            if runner_changed(m_prev, last.id, last.busy) {
                assert(staged_after(m, rs, now) == prev.push(record_of(last, now)));
                assert(flags_for(prev.push(record_of(last, now)), rid) =~= snap_flags(
                    m,
                    rs,
                    rid,
                )) by {
                    assert(prev.push(record_of(last, now)).drop_last() =~= prev);
                }
            } else {
                assert(snap_flags(m, rs, rid) =~= Seq::<bool>::empty());
            }
        } else {
            assert(present(rs, rid) == present(dr, rid));
            if runner_changed(m_prev, last.id, last.busy) {
                assert(prev.push(record_of(last, now)).drop_last() =~= prev);
            }
        }
    }
}

/// After feeding a snapshot with unique ids, the map agrees with every
/// runner it listed.
pub proof fn lemma_tracked_agrees(m: Map<u64, bool>, rs: Seq<RunnerView>)
    requires
        crate::gh_api::distinct_ids(rs),
    ensures
        forall|i: int|
            0 <= i < rs.len() ==> {
                let after = tracked_after(m, rs);
                after.contains_key(#[trigger] rs[i].id) && after[rs[i].id] == rs[i].busy
            },
    decreases rs.len(),
{
    if rs.len() > 0 {
        let dr = rs.drop_last();
        assert(crate::gh_api::distinct_ids(dr)) by {
            assert(forall|i: int| 0 <= i < dr.len() ==> dr[i] == rs[i]);
        }
        lemma_tracked_agrees(m, dr);
        assert forall|i: int| 0 <= i < rs.len() implies {
            let after = tracked_after(m, rs);
            after.contains_key(#[trigger] rs[i].id) && after[rs[i].id] == rs[i].busy
        } by {
            if i < rs.len() - 1 {
                assert(dr[i] == rs[i]);
                assert(rs[i].id != rs.last().id);
            }
        }
    }
}

/// Feeding a snapshot the map already agrees with stages nothing and leaves
/// the map unchanged.
pub proof fn lemma_agreeing_feed(m: Map<u64, bool>, rs: Seq<RunnerView>, now: i64)
    requires
        forall|i: int|
            0 <= i < rs.len() ==> m.contains_key(#[trigger] rs[i].id) && m[rs[i].id]
                == rs[i].busy,
    ensures
        staged_after(m, rs, now) == Seq::<NewTransitionView>::empty(),
        tracked_after(m, rs) == m,
    decreases rs.len(),
{
    if rs.len() > 0 {
        let dr = rs.drop_last();
        assert(forall|i: int| 0 <= i < dr.len() ==> dr[i] == rs[i]);
        lemma_agreeing_feed(m, dr, now);
        assert(rs[rs.len() - 1] == rs.last());
        assert(!runner_changed(m, rs.last().id, rs.last().busy));
        assert(tracked_after(m, rs) =~= m);
    } else {
        assert(staged_after(m, rs, now) =~= Seq::<NewTransitionView>::empty());
    }
}

/// Idempotent re-poll: feeding the same snapshot (with unique runner ids)
/// twice in a row stages nothing the second time and leaves the map where
/// the first feed put it — whatever observation time the re-poll carries.
pub proof fn lemma_repoll_idempotent(m: Map<u64, bool>, rs: Seq<RunnerView>, now: i64)
    requires
        crate::gh_api::distinct_ids(rs),
    ensures
        staged_after(tracked_after(m, rs), rs, now) == Seq::<NewTransitionView>::empty(),
        tracked_after(tracked_after(m, rs), rs) == tracked_after(m, rs),
{
    lemma_tracked_agrees(m, rs);
    lemma_agreeing_feed(tracked_after(m, rs), rs, now);
}

/// Empty-snapshot resilience: an empty snapshot stages no transitions and
/// leaves the tracked map exactly as it was.
pub proof fn lemma_empty_snapshot(m: Map<u64, bool>, now: i64)
    ensures
        tracked_after(m, Seq::<RunnerView>::empty()) == m,
        staged_after(m, Seq::<RunnerView>::empty(), now) == Seq::<NewTransitionView>::empty(),
{
}

/// Over a whole run, the map's entry for one runner id is the last flag it
/// was observed with, or the seed value if it was never observed.
pub proof fn lemma_run_tracked_at(m: Map<u64, bool>, snaps: Seq<Seq<RunnerView>>, rid: u64)
    ensures
        prior_flag(run_tracked(m, snaps), rid) == last_flag(
            prior_flag(m, rid),
            observations(snaps, rid),
        ),
    decreases snaps.len(),
{
    if snaps.len() > 0 {
        let dr = snaps.drop_last();
        lemma_run_tracked_at(m, dr, rid);
        lemma_tracked_at(run_tracked(m, dr), snaps.last(), rid);
        if present(snaps.last(), rid) {
            assert(observations(snaps, rid).last() == observed_flag(snaps.last(), rid));
        } else {
            assert(observations(snaps, rid) =~= observations(dr, rid));
        }
    }
}

/// Dedup invariant: over any run of snapshots, the number of flags emitted
/// for a runner id equals the number of its observations that differ from
/// the value observed just before them, counting "no prior observation" as
/// a difference.
pub proof fn lemma_dedup_count(m: Map<u64, bool>, snaps: Seq<Seq<RunnerView>>, rid: u64)
    ensures
        run_flags(m, snaps, rid).len() == change_count(
            prior_flag(m, rid),
            observations(snaps, rid),
        ),
    decreases snaps.len(),
{
    if snaps.len() > 0 {
        let dr = snaps.drop_last();
        let prior = prior_flag(m, rid);
        let obs_d = observations(dr, rid);
        lemma_dedup_count(m, dr, rid);
        lemma_run_tracked_at(m, dr, rid);
        let pre = run_tracked(m, dr);
        if present(snaps.last(), rid) {
            let f = observed_flag(snaps.last(), rid);
            let obs = observations(snaps, rid);
            assert(obs =~= obs_d.push(f));
            assert(obs.drop_last() =~= obs_d);
            assert(runner_changed(pre, rid, f) <==> last_flag(prior, obs_d) != Some(f));
        } else {
            assert(observations(snaps, rid) =~= obs_d);
            assert(run_flags(m, snaps, rid) =~= run_flags(m, dr, rid));
        }
    }
}

/// No consecutive duplicates: over any run of snapshots, the flags emitted
/// for one runner id never repeat back to back; the first emitted flag
/// differs from the seed value; and the map ends holding the last emitted
/// flag (or the seed, when nothing was emitted) — the in-memory truth stays
/// consistent with the persisted log.
///
/// Reading the stored log back ordered by creation time (ties broken by
/// surrogate key) matches this staging order as long as the wall clock does
/// not step backwards between cycles; nothing any process states can
/// promise more of a wall clock.
pub proof fn lemma_no_consecutive_duplicates(
    m: Map<u64, bool>,
    snaps: Seq<Seq<RunnerView>>,
    rid: u64,
)
    ensures
        ({
            let e = run_flags(m, snaps, rid);
            &&& forall|i: int| 0 < i < e.len() ==> #[trigger] e[i] != e[i - 1]
            &&& (e.len() > 0 ==> prior_flag(run_tracked(m, snaps), rid) == Some(e.last()))
            &&& (e.len() > 0 ==> (prior_flag(m, rid) matches Some(g) ==> e[0] != g))
            &&& (e.len() == 0 ==> prior_flag(run_tracked(m, snaps), rid) == prior_flag(m, rid))
        }),
    decreases snaps.len(),
{
    if snaps.len() > 0 {
        let dr = snaps.drop_last();
        lemma_no_consecutive_duplicates(m, dr, rid);
        lemma_tracked_at(run_tracked(m, dr), snaps.last(), rid);
        let pre = run_tracked(m, dr);
        let e_d = run_flags(m, dr, rid);
        let e = run_flags(m, snaps, rid);
        if present(snaps.last(), rid) && runner_changed(pre, rid, observed_flag(snaps.last(), rid)) {
            let f = observed_flag(snaps.last(), rid);
            assert(e =~= e_d.push(f));
            assert forall|i: int| 0 < i < e.len() implies #[trigger] e[i] != e[i - 1] by {
                if i < e.len() - 1 {
                    assert(e[i] == e_d[i] && e[i - 1] == e_d[i - 1]);
                }
            }
        } else {
            assert(e =~= e_d);
        }
    }
}

/// Relies on chrono::Utc::now for the current wall-clock time, converted to
/// epoch milliseconds. Nothing can be promised about the value the clock
/// returns. The call panics only when the system clock stands before the
/// Unix epoch or beyond chrono's representable range (some 262,000 years
/// out); no input of this library can cause either.
#[verifier::external_body]
fn now_millis() -> i64 {
    chrono::Utc::now().timestamp_millis()
}

/// In-memory map from runner id to last-known busy flag, seeded from the
/// transition store at startup and evolved by [`StateDiffTracker::diff`].
pub struct StateDiffTracker {
    state: HashMap<u64, bool>,
}

impl View for StateDiffTracker {
    type V = Map<u64, bool>;

    closed spec fn view(&self) -> Map<u64, bool> {
        self.state@
    }
}

impl StateDiffTracker {
    /// A tracker with no prior observations: every runner in the first
    /// snapshot will stage a baseline record.
    pub fn new() -> (t: StateDiffTracker)
        ensures
            t@ == Map::<u64, bool>::empty(),
    {
        StateDiffTracker { state: HashMap::new() }
    }

    /// Rebuild the tracker from the transition history: for every runner id
    /// with a stored record, take the busy flag of its most recent record
    /// (highest creation timestamp, ties broken by highest surrogate key).
    /// Runner ids without records stay absent.
    pub fn load(records: &Vec<RunnersSaturationScheme>) -> (t: StateDiffTracker)
        requires
            distinct_surrogate_ids(records.deep_view()),
        ensures
            forall|rid: u64|
                t@.contains_key(rid) <==> some_record_for(records.deep_view(), rid),
            forall|i: int|
                is_most_recent(records.deep_view(), i) ==> t@.contains_key(
                    #[trigger] records.deep_view()[i].rid,
                ) && t@[records.deep_view()[i].rid] == records.deep_view()[i].busy,
    {
        let ghost recs = records.deep_view();
        let mut state: HashMap<u64, bool> = HashMap::new();
        let mut best: HashMap<u64, (i64, i32)> = HashMap::new();
        let ghost mut w: Map<u64, int> = Map::empty();
        let n: usize = records.len();
        for k in 0..n
            invariant
                n == records.len(),
                recs == records.deep_view(),
                recs.len() == n,
                distinct_surrogate_ids(recs),
                state@.dom() == best@.dom(),
                forall|rid: u64|
                    #[trigger] state@.contains_key(rid) <==> exists|i: int|
                        0 <= i < k && recs[i].rid == rid,
                forall|rid: u64|
                    #[trigger] state@.contains_key(rid) ==> {
                        &&& w.contains_key(rid)
                        &&& 0 <= w[rid] < k
                        &&& recs[w[rid]].rid == rid
                        &&& state@[rid] == recs[w[rid]].busy
                        &&& best@[rid] == (recs[w[rid]].created_at, recs[w[rid]].id)
                        &&& forall|j: int|
                            0 <= j < k && recs[j].rid == rid ==> !later(
                                #[trigger] recs[j],
                                recs[w[rid]],
                            )
                    },
        {
            let rec = &records[k];
            proof {
                assert(records.deep_view()[k as int] == records[k as int].deep_view());
            }
            let take = match best.get(&rec.rid) {
                Some(b) => rec.created_at > b.0 || (rec.created_at == b.0 && rec.id > b.1),
                None => true,
            };
            if take {
                state.insert(rec.rid, rec.busy);
                best.insert(rec.rid, (rec.created_at, rec.id));
                proof {
                    w = w.insert(rec.rid, k as int);
                }
            }
            proof {
                assert forall|rid: u64| #[trigger] state@.contains_key(rid) implies exists|i: int|
                    0 <= i < k + 1 && recs[i].rid == rid by {
                    if rid == rec.rid {
                        assert(recs[k as int].rid == rid);
                    }
                }
            }
        }
        let t = StateDiffTracker { state };
        proof {
            assert forall|i: int| is_most_recent(recs, i) implies t@.contains_key(
                #[trigger] recs[i].rid,
            ) && t@[recs[i].rid] == recs[i].busy by {
                let rid = recs[i].rid;
                assert(t@.contains_key(rid));
                let wi: int = w[rid];
                assert(!later(recs[i], recs[wi]));
                assert(!later(recs[wi], recs[i]));
                if wi != i {
                    assert(recs[wi].id != recs[i].id);
                }
            }
        }
        t
    }

    /// The last-known busy flag for one runner id, if it was ever observed.
    pub fn last_known(&self, rid: u64) -> (f: Option<bool>)
        ensures
            f == prior_flag(self@, rid),
    {
        match self.state.get(&rid) {
            Some(b) => Some(*b),
            None => None,
        }
    }

    /// Compare a snapshot against the last-known flags: stage one transition
    /// record for every runner seen for the first time or seen with a
    /// changed flag, in snapshot order, and advance the map to the observed
    /// flags. An empty snapshot stages nothing and leaves the map alone.
    pub fn diff(&mut self, snapshot: &RunnerList, now: i64) -> (staged: Vec<NewRunnersSaturation>)
        ensures
            final(self)@ == tracked_after(old(self)@, snapshot@),
            staged.deep_view() == staged_after(old(self)@, snapshot@, now),
    {
        let ghost m0 = self@;
        let ghost rs = snapshot@;
        let mut staged: Vec<NewRunnersSaturation> = Vec::new();
        proof {
            assert(rs.take(0) =~= Seq::<RunnerView>::empty());
            assert(staged.deep_view() =~= staged_after(m0, rs.take(0), now));
        }
        let n: usize = snapshot.runners.len();
        for k in 0..n
            invariant
                n == rs.len(),
                rs == snapshot@,
                self@ == tracked_after(m0, rs.take(k as int)),
                staged.deep_view() == staged_after(m0, rs.take(k as int), now),
        {
            let r = &snapshot.runners[k];
            proof {
                assert(rs.take(k + 1).drop_last() =~= rs.take(k as int));
                assert(rs.take(k + 1).last() == rs[k as int]);
                assert(snapshot.runners.deep_view()[k as int] == snapshot.runners[k as int].deep_view());
            }
            let changed = match self.state.get(&r.id) {
                Some(old_value) => *old_value != r.busy,
                None => true,
            };
            if changed {
                staged.push(
                    NewRunnersSaturation {
                        rid: r.id,
                        name: r.name.clone(),
                        busy: r.busy,
                        created_at: now,
                    },
                );
                self.state.insert(r.id, r.busy);
                proof {
                    assert(staged.deep_view() =~= staged_after(m0, rs.take(k + 1), now));
                }
            } else {
                proof {
                    assert(self@.insert(rs[k as int].id, rs[k as int].busy) =~= self@);
                    assert(self@ == tracked_after(m0, rs.take(k + 1)));
                }
            }
        }
        proof {
            assert(rs.take(n as int) =~= rs);
        }
        staged
    }

    /// Observe a snapshot at the current wall-clock time: stamp it, then
    /// compare and stage exactly as [`StateDiffTracker::diff`] does. The map
    /// advances independently of what the clock said; only the staged
    /// records' timestamps depend on it.
    pub fn observe(&mut self, snapshot: &RunnerList) -> (staged: Vec<NewRunnersSaturation>)
        ensures
            final(self)@ == tracked_after(old(self)@, snapshot@),
            exists|t: i64| staged.deep_view() == staged_after(old(self)@, snapshot@, t),
    {
        let now = now_millis();
        let staged = self.diff(snapshot, now);
        proof {
            assert(staged.deep_view() == staged_after(old(self)@, snapshot@, now));
        }
        staged
    }
}

} // verus!
