//! The in-memory store behind profiles, exposures and activity counters.
use vstd::prelude::*;
use crate::profile::Profile;
use crate::profile_activities::ProfileActivity;
use crate::profile_view::ProfileView;

verus! {

/// The three tables: profiles, exposures (who was shown whom) and activity
/// counters. Rows are kept in insertion order, oldest first.
pub struct Database {
    pub profiles: Vec<Profile>,
    pub views: Vec<ProfileView>,
    pub activities: Vec<ProfileActivity>,
}

/// No two profiles share an id, a handle or a platform user id.
pub open spec fn profiles_unique(ps: Seq<Profile>) -> bool {
    forall|i: int, j: int|
        0 <= i < ps.len() && 0 <= j < ps.len() && i != j ==> {
            &&& #[trigger] ps[i].id != #[trigger] ps[j].id
            &&& ps[i].username@ != ps[j].username@
            &&& ps[i].user_id != ps[j].user_id
        }
}

/// Whether `p` would share an id, a handle or a platform user id with a stored profile.
pub open spec fn profile_conflict(ps: Seq<Profile>, p: Profile) -> bool {
    exists|i: int|
        0 <= i < ps.len() && (#[trigger] ps[i].id == p.id || ps[i].username@ == p.username@
            || ps[i].user_id == p.user_id)
}

/// At most one activity counter per profile id.
pub open spec fn activities_unique(acts: Seq<ProfileActivity>) -> bool {
    forall|i: int, j: int|
        0 <= i < acts.len() && 0 <= j < acts.len() && i != j ==> #[trigger] acts[i].viewer_id
            != #[trigger] acts[j].viewer_id
}

/// At most one exposure record per (viewer, candidate) pair.
pub open spec fn views_unique(vs: Seq<ProfileView>) -> bool {
    forall|i: int, j: int|
        0 <= i < vs.len() && 0 <= j < vs.len() && i != j ==> #[trigger] vs[i] != #[trigger] vs[j]
}

/// Whether the pair (viewer, candidate) is recorded among the exposures.
pub open spec fn exposed_in(vs: Seq<ProfileView>, viewer: u128, candidate: u128) -> bool {
    exists|i: int|
        0 <= i < vs.len() && #[trigger] vs[i] == (ProfileView { viewer_id: viewer, profile_id: candidate })
}

/// The stored activity count of `id`, zero where it has no counter yet.
pub open spec fn count_of(acts: Seq<ProfileActivity>, id: u128) -> int
    decreases acts.len(),
{
    if acts.len() == 0 {
        0
    } else if acts.last().viewer_id == id {
        acts.last().activity_count as int
    } else {
        count_of(acts.drop_last(), id)
    }
}

impl Database {
    pub open spec fn wf(&self) -> bool {
        &&& profiles_unique(self.profiles@)
        &&& activities_unique(self.activities@)
        &&& views_unique(self.views@)
    }

    /// The same rows in every table.
    pub open spec fn same_rows(&self, other: &Database) -> bool {
        &&& self.profiles@ == other.profiles@
        &&& self.views@ == other.views@
        &&& self.activities@ == other.activities@
    }

    /// An empty store.
    pub fn new() -> (r: Database)
        ensures
            r.wf(),
            r.profiles@.len() == 0,
            r.views@.len() == 0,
            r.activities@.len() == 0,
    {
        Database { profiles: Vec::new(), views: Vec::new(), activities: Vec::new() }
    }
}

} // verus!
