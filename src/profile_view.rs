//! Exposures: the record that a viewer has been shown a candidate.
use vstd::prelude::*;
use crate::store::{Database, exposed_in, views_unique};

verus! {

/// The fact that the profile `viewer_id` has been shown the profile `profile_id`.
#[derive(Clone, Copy, Debug, PartialEq, Eq, Structural)]
pub struct ProfileView {
    pub viewer_id: u128,
    pub profile_id: u128,
}

impl ProfileView {
    pub fn new(viewer_id: u128, profile_id: u128) -> (r: ProfileView)
        ensures
            r.viewer_id == viewer_id,
            r.profile_id == profile_id,
    {
        ProfileView { viewer_id, profile_id }
    }

    /// Records the exposure. A pair already recorded is kept once: the store
    /// is then left as it was.
    pub fn insert(&self, db: &mut Database) -> (r: ProfileView)
        requires
            old(db).wf(),
        ensures
            r == *self,
            final(db).wf(),
            final(db).profiles == old(db).profiles,
            final(db).activities == old(db).activities,
            final(db).views@ == if exposed_in(old(db).views@, self.viewer_id, self.profile_id) {
                old(db).views@
            } else {
                old(db).views@.push(*self)
            },
    {
        if !self.is_recorded(db) {
            db.views.push(*self);
            proof {
                let vs = db.views@;
                let n = old(db).views@.len();
                assert forall|a: int, b: int|
                    0 <= a < vs.len() && 0 <= b < vs.len() && a != b implies #[trigger] vs[a]
                    != #[trigger] vs[b] by {
                    if a == n {
                        assert(old(db).views@[b] == vs[b]);
                    } else if b == n {
                        assert(old(db).views@[a] == vs[a]);
                    } else {
                        assert(old(db).views@[a] == vs[a]);
                        assert(old(db).views@[b] == vs[b]);
                    }
                }
                assert(views_unique(vs));
            }
        }
        *self
    }

    /// Whether this (viewer, candidate) pair has been recorded.
    pub fn is_recorded(&self, db: &Database) -> (r: bool)
        ensures
            r == exposed_in(db.views@, self.viewer_id, self.profile_id),
    {
        let n = db.views.len();
        let mut i: usize = 0;
        while i < n
            invariant
                n == db.views@.len(),
                i <= n,
                forall|j: int| 0 <= j < i ==> #[trigger] db.views@[j] != *self,
            decreases n - i,
        {
            if db.views[i].viewer_id == self.viewer_id && db.views[i].profile_id == self.profile_id {
                assert(db.views@[i as int] == *self);
                return true;
            }
            i = i + 1;
        }
        false
    }
}

} // verus!
