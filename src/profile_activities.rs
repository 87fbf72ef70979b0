//! Activity counters: how often each profile has asked for a match.
use vstd::prelude::*;
use crate::error::BotError;
use crate::profile::fresh_id;
use crate::store::{Database, activities_unique, count_of};

verus! {

/// The activity counter of the profile `viewer_id`.
#[derive(Clone, Copy, Debug, PartialEq, Eq, Structural)]
pub struct ProfileActivity {
    pub viewer_id: u128,
    pub activity_count: u64,
}

/// Whether some counter belongs to `id`.
pub open spec fn has_counter(acts: Seq<ProfileActivity>, id: u128) -> bool {
    exists|i: int| 0 <= i < acts.len() && (#[trigger] acts[i]).viewer_id == id
}

/// Row `i` ranks first among the rows whose profile is `eligible`: no eligible
/// row has a higher count, and every earlier eligible row has a lower one (ties
/// go to the row stored first).
pub open spec fn ranks_first(acts: Seq<ProfileActivity>, i: int, eligible: spec_fn(u128) -> bool) -> bool {
    &&& 0 <= i < acts.len()
    &&& eligible(acts[i].viewer_id)
    &&& forall|j: int|
        0 <= j < acts.len() && eligible(#[trigger] acts[j].viewer_id) ==> acts[j].activity_count
            <= acts[i].activity_count
    &&& forall|j: int|
        0 <= j < i && eligible(#[trigger] acts[j].viewer_id) ==> acts[j].activity_count
            < acts[i].activity_count
}

/// One more than `c`, held at the largest `u64`.
pub open spec fn bumped(c: int) -> int {
    if c < u64::MAX {
        c + 1
    } else {
        c
    }
}

/// One match request by `id`, seen from its counter: the row returned is the
/// one before the request (count 1 for a first request), the stored count goes
/// up by one, and the counter exists afterwards.
pub open spec fn activity_step(
    before: Seq<ProfileActivity>,
    after: Seq<ProfileActivity>,
    id: u128,
    r: ProfileActivity,
) -> bool {
    &&& r.viewer_id == id
    &&& r.activity_count == if !has_counter(before, id) {
        1
    } else {
        count_of(before, id)
    }
    &&& count_of(after, id) == bumped(count_of(before, id))
    &&& has_counter(after, id)
}

/// Counting: after `n` requests by one profile that had no counter, its stored
/// count is `n`, and request `k` (from 0) returned the count before it: 1 for
/// the first two, then 2, 3, and so on. Each call of `upsert_and_increment`
/// makes one `activity_step`, so `tables` are the counter
/// tables between the calls and `rs` what the calls returned.
pub proof fn lemma_activity_counts(tables: Seq<Seq<ProfileActivity>>, rs: Seq<ProfileActivity>, id: u128)
    requires
        tables.len() == rs.len() + 1,
        rs.len() <= u64::MAX,
        !has_counter(tables[0], id),
        forall|k: int| 0 <= k < rs.len() ==> activity_step(tables[k], tables[k + 1], id, #[trigger] rs[k]),
    ensures
        count_of(tables[rs.len() as int], id) == rs.len(),
        forall|k: int| 0 <= k < rs.len() ==> (#[trigger] rs[k]).activity_count == if k == 0 {
            1
        } else {
            k
        },
    decreases rs.len(),
{
    lemma_count_absent(tables[0], id);
    if rs.len() > 0 {
        let m = rs.len() - 1;
        lemma_activity_counts(tables.take(m + 1), rs.take(m), id);
        assert(tables.take(m + 1)[m] == tables[m]);
        assert(activity_step(tables[m], tables[m + 1], id, rs[m]));
        if m > 0 {
            assert(activity_step(tables[m - 1], tables[m], id, rs[m - 1]));
        }
        assert forall|k: int| 0 <= k < rs.len() implies (#[trigger] rs[k]).activity_count == if k == 0 {
            1
        } else {
            k
        } by {
            if k < m {
                assert(rs.take(m)[k] == rs[k]);
            }
        }
    }
}

/// The most active row is unique, so asking twice with no write in between
/// gives the same counter.
pub proof fn lemma_ranks_first_unique(acts: Seq<ProfileActivity>, i: int, j: int, eligible: spec_fn(u128) -> bool)
    requires
        ranks_first(acts, i, eligible),
        ranks_first(acts, j, eligible),
    ensures
        i == j,
{
    if i < j {
        assert(acts[i].activity_count < acts[j].activity_count);
    } else if j < i {
        assert(acts[j].activity_count < acts[i].activity_count);
    }
}

pub open spec fn any_profile() -> spec_fn(u128) -> bool {
    |id: u128| true
}

/// With unique ids, the stored count of the profile at row `i` is that row's count.
pub proof fn lemma_count_at(acts: Seq<ProfileActivity>, i: int)
    requires
        activities_unique(acts),
        0 <= i < acts.len(),
    ensures
        count_of(acts, acts[i].viewer_id) == acts[i].activity_count,
    decreases acts.len(),
{
    if i < acts.len() - 1 {
        let t = acts.drop_last();
        assert(acts[acts.len() - 1].viewer_id != acts[i].viewer_id);
        assert(t[i] == acts[i]);
        assert forall|a: int, b: int|
            0 <= a < t.len() && 0 <= b < t.len() && a != b implies #[trigger] t[a].viewer_id
            != #[trigger] t[b].viewer_id by {
            assert(t[a] == acts[a] && t[b] == acts[b]);
        }
        lemma_count_at(t, i);
    }
}

/// A profile without a counter has count zero.
pub proof fn lemma_count_absent(acts: Seq<ProfileActivity>, id: u128)
    requires
        !has_counter(acts, id),
    ensures
        count_of(acts, id) == 0,
    decreases acts.len(),
{
    if acts.len() > 0 {
        let t = acts.drop_last();
        assert(acts[acts.len() - 1].viewer_id != id);
        assert forall|j: int| 0 <= j < t.len() implies (#[trigger] t[j]).viewer_id != id by {
            assert(t[j] == acts[j]);
        }
        lemma_count_absent(t, id);
    }
}

/// Counts read off a table after one row changed or one was added.
proof fn lemma_counts_after(old_acts: Seq<ProfileActivity>, new_acts: Seq<ProfileActivity>, id: u128)
    requires
        activities_unique(old_acts),
        activities_unique(new_acts),
        new_acts.len() >= old_acts.len(),
        forall|j: int| 0 <= j < old_acts.len() ==> (#[trigger] new_acts[j]).viewer_id == old_acts[j].viewer_id,
        forall|j: int| 0 <= j < old_acts.len() && old_acts[j].viewer_id != id ==> #[trigger] new_acts[j] == old_acts[j],
        forall|j: int| old_acts.len() <= j < new_acts.len() ==> (#[trigger] new_acts[j]).viewer_id == id,
    ensures
        forall|o: u128| o != id ==> #[trigger] count_of(new_acts, o) == count_of(old_acts, o),
{
    assert forall|o: u128| o != id implies #[trigger] count_of(new_acts, o) == count_of(old_acts, o) by {
        if has_counter(old_acts, o) {
            let k = choose|k: int| 0 <= k < old_acts.len() && (#[trigger] old_acts[k]).viewer_id == o;
            lemma_count_at(old_acts, k);
            lemma_count_at(new_acts, k);
        } else {
            lemma_count_absent(old_acts, o);
            assert forall|j: int| 0 <= j < new_acts.len() implies (#[trigger] new_acts[j]).viewer_id != o by {
                if j < old_acts.len() {
                    assert(old_acts[j].viewer_id != o);
                }
            }
            lemma_count_absent(new_acts, o);
        }
    }
}

/// The row of the counter of `id`, if any.
fn find_counter(acts: &Vec<ProfileActivity>, id: u128) -> (r: Option<usize>)
    ensures
        r is None <==> !has_counter(acts@, id),
        r matches Some(i) ==> i < acts@.len() && acts@[i as int].viewer_id == id,
{
    let n = acts.len();
    let mut i: usize = 0;
    while i < n
        invariant
            n == acts@.len(),
            i <= n,
            forall|j: int| 0 <= j < i ==> (#[trigger] acts@[j]).viewer_id != id,
        decreases n - i,
    {
        if acts[i].viewer_id == id {
            return Some(i);
        }
        i = i + 1;
    }
    None
}

impl ProfileActivity {
    /// A first counter (count 1) for a newly drawn random id.
    pub fn new() -> (r: ProfileActivity)
        ensures
            r.activity_count == 1,
    {
        ProfileActivity { viewer_id: fresh_id(), activity_count: 1 }
    }

    /// A first counter (count 1) for the profile `id`.
    pub fn from_id(id: u128) -> (r: ProfileActivity)
        ensures
            r.viewer_id == id,
            r.activity_count == 1,
    {
        ProfileActivity { viewer_id: id, activity_count: 1 }
    }

    pub fn viewer_id(&self) -> (r: u128)
        ensures
            r == self.viewer_id,
    {
        self.viewer_id
    }

    pub fn activity_count(&self) -> (r: u64)
        ensures
            r == self.activity_count,
    {
        self.activity_count
    }

    /// Stores this counter as it is. Refused with `Conflict`, and the store
    /// left as it was, where the profile already has one.
    pub fn insert(&self, db: &mut Database) -> (r: Result<ProfileActivity, BotError>)
        requires
            old(db).wf(),
        ensures
            final(db).wf(),
            final(db).profiles == old(db).profiles,
            final(db).views == old(db).views,
            r is Err <==> has_counter(old(db).activities@, self.viewer_id),
            r is Err ==> r == Err::<ProfileActivity, BotError>(BotError::Conflict)
                && final(db).activities@ == old(db).activities@,
            r is Ok ==> r == Ok::<ProfileActivity, BotError>(*self) && final(db).activities@
                == old(db).activities@.push(*self),
    {
        match find_counter(&db.activities, self.viewer_id) {
            Some(_) => Err(BotError::Conflict),
            None => {
                db.activities.push(*self);
                proof {
                    let acts = db.activities@;
                    let n = old(db).activities@.len();
                    assert forall|a: int, b: int|
                        0 <= a < acts.len() && 0 <= b < acts.len() && a != b implies #[trigger] acts[a].viewer_id
                        != #[trigger] acts[b].viewer_id by {
                        if a < n {
                            assert(old(db).activities@[a] == acts[a]);
                        }
                        if b < n {
                            assert(old(db).activities@[b] == acts[b]);
                        }
                    }
                }
                Ok(*self)
            },
        }
    }

    /// Adds one to the stored count of this counter's profile, in one step. A
    /// count at the largest `u64` stays there.
    pub fn increment(&self, db: &mut Database) -> (r: Result<(), BotError>)
        requires
            old(db).wf(),
        ensures
            final(db).wf(),
            final(db).profiles == old(db).profiles,
            final(db).views == old(db).views,
            r is Err <==> !has_counter(old(db).activities@, self.viewer_id),
            r is Err ==> r == Err::<(), BotError>(BotError::NotFound) && final(db).activities@
                == old(db).activities@,
            r is Ok ==> exists|i: int|
                0 <= i < old(db).activities@.len() && (#[trigger] old(db).activities@[i]).viewer_id
                    == self.viewer_id && final(db).activities@ == old(db).activities@.update(
                    i,
                    ProfileActivity {
                        viewer_id: self.viewer_id,
                        activity_count: bumped(old(db).activities@[i].activity_count as int) as u64,
                    },
                ),
    {
        match find_counter(&db.activities, self.viewer_id) {
            None => Err(BotError::NotFound),
            Some(i) => {
                proof {
                    lemma_count_at(db.activities@, i as int);
                }
                let c = db.activities[i].activity_count;
                let next = if c < u64::MAX { c + 1 } else { c };
                db.activities[i].activity_count = next;
                proof {
                    let acts = db.activities@;
                    assert(acts =~= old(db).activities@.update(
                        i as int,
                        ProfileActivity { viewer_id: self.viewer_id, activity_count: next },
                    ));
                    assert forall|a: int, b: int|
                        0 <= a < acts.len() && 0 <= b < acts.len() && a != b implies #[trigger] acts[a].viewer_id
                        != #[trigger] acts[b].viewer_id by {
                        assert(acts[a].viewer_id == old(db).activities@[a].viewer_id);
                        assert(acts[b].viewer_id == old(db).activities@[b].viewer_id);
                    }
                }
                Ok(())
            },
        }
    }

    /// Counts one more match request by this counter's profile. A profile
    /// without a counter gets one with count 1, and that is returned; otherwise
    /// the stored count goes up by one (held at the largest `u64`) and the row
    /// as it was before is returned.
    pub fn upsert_and_increment(&self, db: &mut Database) -> (r: ProfileActivity)
        requires
            old(db).wf(),
        ensures
            final(db).wf(),
            final(db).profiles == old(db).profiles,
            final(db).views == old(db).views,
            activity_step(old(db).activities@, final(db).activities@, self.viewer_id, r),
            forall|o: u128|
                o != self.viewer_id ==> #[trigger] count_of(final(db).activities@, o) == count_of(
                    old(db).activities@,
                    o,
                ),
            forall|o: u128|
                #[trigger] has_counter(final(db).activities@, o) <==> (o == self.viewer_id
                    || has_counter(old(db).activities@, o)),
            old(db).activities@.len() <= final(db).activities@.len(),
    {
        match find_counter(&db.activities, self.viewer_id) {
            None => {
                let first = ProfileActivity::from_id(self.viewer_id);
                let _ = first.insert(db);
                proof {
                    let n = old(db).activities@.len() as int;
                    lemma_count_absent(old(db).activities@, self.viewer_id);
                    lemma_count_at(db.activities@, n);
                    lemma_counts_after(old(db).activities@, db.activities@, self.viewer_id);
                    assert(db.activities@[n].viewer_id == self.viewer_id);
                    assert forall|o: u128|
                        #[trigger] has_counter(db.activities@, o) <==> (o == self.viewer_id
                            || has_counter(old(db).activities@, o)) by {
                        if has_counter(old(db).activities@, o) {
                            let k = choose|k: int| 0 <= k < n && (#[trigger] old(db).activities@[k]).viewer_id == o;
                            assert(db.activities@[k] == old(db).activities@[k]);
                        }
                        if has_counter(db.activities@, o) && o != self.viewer_id {
                            let k = choose|k: int| 0 <= k < db.activities@.len() && (#[trigger] db.activities@[k]).viewer_id == o;
                            assert(old(db).activities@[k] == db.activities@[k]);
                        }
                    }
                }
                first
            },
            Some(i) => {
                proof {
                    lemma_count_at(db.activities@, i as int);
                }
                let before = db.activities[i];
                let _ = self.increment(db);
                proof {
                    lemma_count_at(db.activities@, i as int);
                    lemma_counts_after(old(db).activities@, db.activities@, self.viewer_id);
                    assert forall|o: u128|
                        #[trigger] has_counter(db.activities@, o) <==> (o == self.viewer_id
                            || has_counter(old(db).activities@, o)) by {
                        if has_counter(old(db).activities@, o) {
                            let k = choose|k: int| 0 <= k < old(db).activities@.len() && (#[trigger] old(db).activities@[k]).viewer_id == o;
                            assert(db.activities@[k].viewer_id == o);
                        }
                        if has_counter(db.activities@, o) {
                            let k = choose|k: int| 0 <= k < db.activities@.len() && (#[trigger] db.activities@[k]).viewer_id == o;
                            assert(old(db).activities@[k].viewer_id == o);
                        }
                        if o == self.viewer_id {
                            assert(db.activities@[i as int].viewer_id == o);
                        }
                    }
                }
                before
            },
        }
    }

    /// The counter with the highest count; among equal counts, the one
    /// stored first. `NotFound` where no counter is stored.
    pub fn get_most_active_profile(db: &Database) -> (r: Result<ProfileActivity, BotError>)
        ensures
            r is Err <==> db.activities@.len() == 0,
            r is Err ==> r == Err::<ProfileActivity, BotError>(BotError::NotFound),
            r matches Ok(a) ==> exists|i: int|
                ranks_first(db.activities@, i, any_profile()) && #[trigger] db.activities@[i] == a,
    {
        let n = db.activities.len();
        if n == 0 {
            return Err(BotError::NotFound);
        }
        let mut best: usize = 0;
        let mut i: usize = 1;
        while i < n
            invariant
                n == db.activities@.len(),
                1 <= i <= n,
                best < i,
                forall|j: int| 0 <= j < i ==> (#[trigger] db.activities@[j]).activity_count
                    <= db.activities@[best as int].activity_count,
                forall|j: int| 0 <= j < best ==> (#[trigger] db.activities@[j]).activity_count
                    < db.activities@[best as int].activity_count,
            decreases n - i,
        {
            if db.activities[i].activity_count > db.activities[best].activity_count {
                best = i;
            }
            i = i + 1;
        }
        assert(ranks_first(db.activities@, best as int, any_profile()));
        Ok(db.activities[best])
    }
}

} // verus!
