//! Candidate selection: who a viewer is shown next.
use vstd::prelude::*;
use crate::error::BotError;
use crate::profile::Profile;
use crate::profile_activities::{ProfileActivity, bumped, has_counter, ranks_first};
use crate::profile_view::ProfileView;
use crate::store::{Database, count_of, exposed_in};

verus! {

pub struct MatchEngine();

/// The profiles other than `viewer` that `viewer` has not been shown yet, by
/// the exposures `vs`.
pub open spec fn unseen_by(vs: Seq<ProfileView>, viewer: u128) -> spec_fn(u128) -> bool {
    |id: u128| id != viewer && !exposed_in(vs, viewer, id)
}

/// Whether every counter of a profile other than `viewer` belongs to one that
/// `viewer` has been shown.
pub open spec fn pool_exhausted(acts: Seq<ProfileActivity>, vs: Seq<ProfileView>, viewer: u128) -> bool {
    forall|i: int|
        0 <= i < acts.len() && #[trigger] acts[i].viewer_id != viewer ==> exposed_in(
            vs,
            viewer,
            acts[i].viewer_id,
        )
}

/// Whether no counter belongs to a profile other than `viewer`.
pub open spec fn no_other_counter(acts: Seq<ProfileActivity>, viewer: u128) -> bool {
    forall|i: int| 0 <= i < acts.len() ==> #[trigger] acts[i].viewer_id == viewer
}

/// Whether some counter belongs to a profile other than `viewer`.
fn has_other_counter(acts: &Vec<ProfileActivity>, viewer: u128) -> (r: bool)
    ensures
        r == !no_other_counter(acts@, viewer),
{
    let n = acts.len();
    let mut i: usize = 0;
    while i < n
        invariant
            n == acts@.len(),
            i <= n,
            forall|j: int| 0 <= j < i ==> #[trigger] acts@[j].viewer_id == viewer,
        decreases n - i,
    {
        if acts[i].viewer_id != viewer {
            return true;
        }
        i = i + 1;
    }
    false
}

/// The row of the most active counter whose profile `viewer` has not been shown.
fn most_active_unseen(db: &Database, viewer: u128) -> (r: Option<usize>)
    ensures
        r is None <==> pool_exhausted(db.activities@, db.views@, viewer),
        r matches Some(i) ==> ranks_first(db.activities@, i as int, unseen_by(db.views@, viewer)),
{
    let n = db.activities.len();
    let mut best: Option<usize> = None;
    let mut i: usize = 0;
    let ghost unseen = unseen_by(db.views@, viewer);
    while i < n
        invariant
            n == db.activities@.len(),
            i <= n,
            unseen == unseen_by(db.views@, viewer),
            best is None ==> forall|j: int| 0 <= j < i ==> !unseen(#[trigger] db.activities@[j].viewer_id),
            best matches Some(b) ==> {
                &&& b < i
                &&& unseen(db.activities@[b as int].viewer_id)
                &&& forall|j: int|
                    0 <= j < i && unseen(#[trigger] db.activities@[j].viewer_id)
                        ==> db.activities@[j].activity_count <= db.activities@[b as int].activity_count
                &&& forall|j: int|
                    0 <= j < b && unseen(#[trigger] db.activities@[j].viewer_id)
                        ==> db.activities@[j].activity_count < db.activities@[b as int].activity_count
            },
        decreases n - i,
    {
        let a = db.activities[i];
        let seen = ProfileView::new(viewer, a.viewer_id).is_recorded(db);
        if a.viewer_id != viewer && !seen {
            match best {
                None => {
                    best = Some(i);
                },
                Some(b) => {
                    if a.activity_count > db.activities[b].activity_count {
                        best = Some(i);
                    }
                },
            }
        }
        i = i + 1;
    }
    best
}

/// What one selection for `viewer` does: the viewer's activity count goes up
/// by one, the candidate is the most active profile that the viewer had not
/// been shown (ties go to the counter stored first), and only a returned
/// candidate adds an exposure. A viewer is never their own candidate.
/// `NotFound` where no profile other than the viewer has a counter (a cold
/// start) or where the candidate's profile is missing; `Exhausted` where every
/// other counted profile has been shown already.
pub open spec fn selection_outcome(
    before: Database,
    after: Database,
    viewer: u128,
    r: Result<Profile, BotError>,
) -> bool {
    let unseen = unseen_by(before.views@, viewer);
    &&& after.wf()
    &&& after.profiles == before.profiles
    &&& count_of(after.activities@, viewer) == bumped(count_of(before.activities@, viewer))
    &&& forall|o: u128|
        o != viewer ==> #[trigger] count_of(after.activities@, o) == count_of(before.activities@, o)
    &&& forall|o: u128|
        #[trigger] has_counter(after.activities@, o) <==> (o == viewer || has_counter(
            before.activities@,
            o,
        ))
    &&& forall|v: u128, c: u128| #[trigger]
        exposed_in(before.views@, v, c) ==> exposed_in(after.views@, v, c)
    &&& (no_other_counter(before.activities@, viewer) ==> r == Err::<Profile, BotError>(
        BotError::NotFound,
    ))
    &&& (r == Err::<Profile, BotError>(BotError::Exhausted) <==> !no_other_counter(
        before.activities@,
        viewer,
    ) && pool_exhausted(after.activities@, before.views@, viewer))
    &&& (r == Err::<Profile, BotError>(BotError::NotFound) ==> {
        &&& after.views == before.views
        &&& no_other_counter(before.activities@, viewer) || exists|i: int|
            ranks_first(after.activities@, i, unseen) && forall|k: int|
                0 <= k < before.profiles@.len() ==> (#[trigger] before.profiles@[k]).id
                    != after.activities@[i].viewer_id
    })
    &&& (r == Err::<Profile, BotError>(BotError::Exhausted) ==> after.views == before.views)
    &&& (r is Err ==> r == Err::<Profile, BotError>(BotError::Exhausted) || r == Err::<
        Profile,
        BotError,
    >(BotError::NotFound))
    &&& (r matches Ok(p) ==> {
        &&& exists|i: int|
            ranks_first(after.activities@, i, unseen) && #[trigger] after.activities@[i].viewer_id
                == p.id
        &&& exists|k: int| 0 <= k < before.profiles@.len() && #[trigger] before.profiles@[k] == p
        &&& after.views@ == before.views@.push(ProfileView { viewer_id: viewer, profile_id: p.id })
    })
}

impl MatchEngine {
    /// Picks the next candidate for `viewer_id` and records that it was shown.
    ///
    /// The viewer's own activity count goes up by one first. The candidate is
    /// then the most active profile that the viewer has not been shown (ties go
    /// to the counter stored first). `Exhausted` where every counted profile has
    /// been shown already; `NotFound` where the candidate's profile is missing.
    /// Only a returned candidate adds an exposure.
    pub fn match_profiles(viewer_id: u128, db: &mut Database) -> (r: Result<Profile, BotError>)
        requires
            old(db).wf(),
        ensures
            selection_outcome(*old(db), *final(db), viewer_id, r),
    {
        let others = has_other_counter(&db.activities, viewer_id);
        let _ = ProfileActivity::from_id(viewer_id).upsert_and_increment(db);
        if !others {
            return Err(BotError::NotFound);
        }
        proof {
            assert forall|i: int|
                0 <= i < db.activities@.len() && #[trigger] db.activities@[i].viewer_id != viewer_id
                implies has_counter(old(db).activities@, db.activities@[i].viewer_id) by {
                assert(has_counter(db.activities@, db.activities@[i].viewer_id));
            }
        }
        assert(db.views == old(db).views);
        let best = most_active_unseen(db, viewer_id);
        match best {
            None => Err(BotError::Exhausted),
            Some(i) => {
                let candidate = db.activities[i].viewer_id;
                match Profile::get_by_id(db, candidate) {
                    Err(e) => Err(e),
                    Ok(p) => {
                        let view = ProfileView::new(viewer_id, p.id);
                        assert(!exposed_in(db.views@, viewer_id, p.id));
                        view.insert(db);
                        proof {
                            assert forall|v: u128, c: u128| #[trigger] exposed_in(old(db).views@, v, c) implies exposed_in(db.views@, v, c) by {
                                let k = choose|k: int| 0 <= k < old(db).views@.len() && #[trigger] old(db).views@[k] == (ProfileView { viewer_id: v, profile_id: c });
                                assert(db.views@[k] == old(db).views@[k]);
                            }
                        }
                        Ok(p)
                    },
                }
            },
        }
    }
}

/// Once every other counted profile has been shown to `viewer`, the next
/// selection for `viewer` shows nobody again: it fails (`Exhausted`, or
/// `NotFound` where no other profile has a counter) and records no exposure.
/// No selection ever drops a recorded exposure.
pub proof fn lemma_exhausted_pool_stays_exhausted(
    first: Database,
    second: Database,
    third: Database,
    viewer: u128,
    r1: Result<Profile, BotError>,
    r2: Result<Profile, BotError>,
)
    requires
        selection_outcome(first, second, viewer, r1),
        selection_outcome(second, third, viewer, r2),
        pool_exhausted(second.activities@, second.views@, viewer),
    ensures
        r2 is Err,
        !no_other_counter(second.activities@, viewer) ==> r2 == Err::<Profile, BotError>(
            BotError::Exhausted,
        ),
        third.views == second.views,
        forall|v: u128, c: u128| #[trigger]
            exposed_in(first.views@, v, c) ==> exposed_in(third.views@, v, c),
{
    assert forall|i: int|
        0 <= i < third.activities@.len() && #[trigger] third.activities@[i].viewer_id != viewer
        implies exposed_in(second.views@, viewer, third.activities@[i].viewer_id) by {
        let id = third.activities@[i].viewer_id;
        assert(has_counter(third.activities@, id));
        assert(has_counter(second.activities@, id));
        let k = choose|k: int| 0 <= k < second.activities@.len() && (#[trigger] second.activities@[k]).viewer_id == id;
        assert(second.activities@[k].viewer_id != viewer);
    }
    assert(pool_exhausted(third.activities@, second.views@, viewer));
}

/// A selection never shows the viewer a profile they were already shown, nor
/// their own. Where some other counted profile is still unseen and every
/// counted profile is stored, the selection succeeds.
pub proof fn lemma_selection_shows_unseen(
    before: Database,
    after: Database,
    viewer: u128,
    r: Result<Profile, BotError>,
)
    requires
        selection_outcome(before, after, viewer, r),
    ensures
        r matches Ok(p) ==> p.id != viewer && !exposed_in(before.views@, viewer, p.id),
        (exists|i: int|
            0 <= i < before.activities@.len() && unseen_by(before.views@, viewer)(
                #[trigger] before.activities@[i].viewer_id,
            )) && (forall|i: int|
            0 <= i < before.activities@.len() ==> exists|k: int|
                0 <= k < before.profiles@.len() && (#[trigger] before.profiles@[k]).id
                    == (#[trigger] before.activities@[i]).viewer_id) ==> r is Ok,
{
    if r is Ok {
        let p = r->Ok_0;
        let i = choose|i: int|
            ranks_first(after.activities@, i, unseen_by(before.views@, viewer))
                && #[trigger] after.activities@[i].viewer_id == p.id;
    }
    if (exists|i: int|
        0 <= i < before.activities@.len() && unseen_by(before.views@, viewer)(
            #[trigger] before.activities@[i].viewer_id,
        )) && (forall|i: int|
        0 <= i < before.activities@.len() ==> exists|k: int|
            0 <= k < before.profiles@.len() && (#[trigger] before.profiles@[k]).id
                == (#[trigger] before.activities@[i]).viewer_id) {
        let i = choose|i: int|
            0 <= i < before.activities@.len() && unseen_by(before.views@, viewer)(
                #[trigger] before.activities@[i].viewer_id,
            );
        let id = before.activities@[i].viewer_id;
        assert(!no_other_counter(before.activities@, viewer));
        assert(has_counter(after.activities@, id));
        let k = choose|k: int| 0 <= k < after.activities@.len() && (#[trigger] after.activities@[k]).viewer_id == id;
        assert(!pool_exhausted(after.activities@, before.views@, viewer));
        if r == Err::<Profile, BotError>(BotError::NotFound) {
            let j = choose|j: int|
                ranks_first(after.activities@, j, unseen_by(before.views@, viewer)) && forall|k: int|
                    0 <= k < before.profiles@.len() ==> (#[trigger] before.profiles@[k]).id
                        != after.activities@[j].viewer_id;
            let jd = after.activities@[j].viewer_id;
            assert(has_counter(after.activities@, jd));
            assert(has_counter(before.activities@, jd));
            let m = choose|m: int| 0 <= m < before.activities@.len() && (#[trigger] before.activities@[m]).viewer_id == jd;
            assert(exists|k: int| 0 <= k < before.profiles@.len() && (#[trigger] before.profiles@[k]).id == before.activities@[m].viewer_id);
        }
    }
}

} // verus!
