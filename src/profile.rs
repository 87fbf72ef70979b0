//! Profiles: the records people fill in, and their table in the store.
use vstd::prelude::*;
use vstd::string::StringExecFns;
use crate::error::BotError;
use crate::store::{Database, profile_conflict, profiles_unique};
use crate::text::same_text;

verus! {

#[derive(Clone, Copy, Debug, PartialEq, Eq, Structural)]
pub enum ProfileGender {
    Male,
    Female,
}

pub open spec fn gender_text(g: ProfileGender) -> Seq<char> {
    match g {
        ProfileGender::Male => "MALE"@,
        ProfileGender::Female => "FEMALE"@,
    }
}

impl ProfileGender {
    /// The stored spelling of the gender.
    pub fn to_string(&self) -> (r: String)
        ensures
            r@ == gender_text(*self),
    {
        match self {
            ProfileGender::Male => String::from_str("MALE"),
            ProfileGender::Female => String::from_str("FEMALE"),
        }
    }

    /// Reads a stored spelling back; any other text is rejected.
    pub fn from_str(s: &str) -> (r: Result<ProfileGender, BotError>)
        ensures
            r matches Ok(g) ==> gender_text(g) == s@,
            r is Err <==> (s@ != "MALE"@ && s@ != "FEMALE"@),
            r is Err ==> r == Err::<ProfileGender, BotError>(BotError::InvalidInput),
    {
        proof {
            reveal_strlit("MALE");
            reveal_strlit("FEMALE");
        }
        if same_text(s, "MALE") {
            Ok(ProfileGender::Male)
        } else if same_text(s, "FEMALE") {
            Ok(ProfileGender::Female)
        } else {
            Err(BotError::InvalidInput)
        }
    }
}

/// A person's entry. `id` is the profile's own identity (a UUID as its 128-bit
/// value), `user_id` the chat platform's account id, `username` the handle.
#[derive(Debug, PartialEq, Eq)]
pub struct Profile {
    pub id: u128,
    pub user_id: i64,
    pub username: String,
    pub description: String,
    pub displayed_name: String,
    pub location: String,
    pub age: i32,
    pub gender: String,
}

/// Relies on uuid::Uuid::new_v4: a random version-4 UUID, handed over as its
/// 128-bit value (Uuid::as_u128). Of the value only its version field (4) and
/// its variant bits (binary 10) are fixed.
#[verifier::external_body]
pub(crate) fn fresh_id() -> (r: u128)
    ensures
        (r >> 76u128) & 0xfu128 == 4,
        (r >> 62u128) & 0x3u128 == 2,
{
    uuid::Uuid::new_v4().as_u128()
}

/// Whether some stored profile has the handle `u`.
pub open spec fn has_username(ps: Seq<Profile>, u: Seq<char>) -> bool {
    exists|i: int| 0 <= i < ps.len() && (#[trigger] ps[i]).username@ == u
}

impl Profile {
    pub fn id(&self) -> (r: u128)
        ensures
            r == self.id,
    {
        self.id
    }

    pub fn user_id(&self) -> (r: i64)
        ensures
            r == self.user_id,
    {
        self.user_id
    }

    pub fn username(&self) -> (r: &str)
        ensures
            r@ == self.username@,
    {
        self.username.as_str()
    }

    pub fn description(&self) -> (r: &str)
        ensures
            r@ == self.description@,
    {
        self.description.as_str()
    }

    pub fn displayed_name(&self) -> (r: &str)
        ensures
            r@ == self.displayed_name@,
    {
        self.displayed_name.as_str()
    }

    pub fn age(&self) -> (r: i32)
        ensures
            r == self.age,
    {
        self.age
    }

    pub fn location(&self) -> (r: &str)
        ensures
            r@ == self.location@,
    {
        self.location.as_str()
    }

    /// A copy of the profile, field for field.
    pub fn duplicate(&self) -> (r: Profile)
        ensures
            r == *self,
    {
        Profile {
            id: self.id,
            user_id: self.user_id,
            username: self.username.clone(),
            description: self.description.clone(),
            displayed_name: self.displayed_name.clone(),
            location: self.location.clone(),
            age: self.age,
            gender: self.gender.clone(),
        }
    }

    /// A fresh profile with the given identity and every attribute empty or zero.
    pub fn with_id(id: u128, user_id: i64, username: String) -> (r: Profile)
        ensures
            r.id == id,
            r.user_id == user_id,
            r.username == username,
            r.description@.len() == 0,
            r.displayed_name@.len() == 0,
            r.location@.len() == 0,
            r.age == 0,
            r.gender@.len() == 0,
    {
        Profile {
            id,
            user_id,
            username,
            description: String::new(),
            displayed_name: String::new(),
            location: String::new(),
            age: 0,
            gender: String::new(),
        }
    }

    /// A fresh profile under a newly drawn random id; `InvalidInput` where
    /// there is no handle.
    pub fn new(user_id: i64, username: Option<String>) -> (r: Result<Profile, BotError>)
        ensures
            username is None <==> r is Err,
            r is Err ==> r == Err::<Profile, BotError>(BotError::InvalidInput),
            r matches Ok(p) ==> {
                &&& p.user_id == user_id
                &&& p.username == username->Some_0
                &&& p.description@.len() == 0
                &&& p.displayed_name@.len() == 0
                &&& p.location@.len() == 0
                &&& p.age == 0
                &&& p.gender@.len() == 0
            },
    {
        match username {
            Some(name) => Ok(Profile::with_id(fresh_id(), user_id, name)),
            None => Err(BotError::InvalidInput),
        }
    }

    /// Stores the profile. Refused with `Conflict`, and the store left as it
    /// was, where its id, handle or platform user id is taken.
    pub fn insert(&self, db: &mut Database) -> (r: Result<Profile, BotError>)
        requires
            old(db).wf(),
        ensures
            final(db).wf(),
            final(db).views == old(db).views,
            final(db).activities == old(db).activities,
            r is Err <==> profile_conflict(old(db).profiles@, *self),
            r is Err ==> r == Err::<Profile, BotError>(BotError::Conflict) && final(db).profiles@
                == old(db).profiles@,
            r is Ok ==> r == Ok::<Profile, BotError>(*self) && final(db).profiles@
                == old(db).profiles@.push(*self),
    {
        let n = db.profiles.len();
        let mut i: usize = 0;
        while i < n
            invariant
                *db == *old(db),
                db.wf(),
                n == db.profiles@.len(),
                i <= n,
                forall|j: int|
                    0 <= j < i ==> !((#[trigger] db.profiles@[j]).id == self.id
                        || db.profiles@[j].username@ == self.username@ || db.profiles@[j].user_id
                        == self.user_id),
            decreases n - i,
        {
            let p = &db.profiles[i];
            assert(profile_conflict(db.profiles@, *self) <== (p.id == self.id || p.username@ == self.username@ || p.user_id == self.user_id));
            if p.id == self.id || p.username == self.username || p.user_id == self.user_id {
                return Err(BotError::Conflict);
            }
            i = i + 1;
        }
        let stored = self.duplicate();
        db.profiles.push(stored);
        proof {
            let ps = db.profiles@;
            assert forall|a: int, b: int|
                0 <= a < ps.len() && 0 <= b < ps.len() && a != b implies {
                &&& #[trigger] ps[a].id != #[trigger] ps[b].id
                &&& ps[a].username@ != ps[b].username@
                &&& ps[a].user_id != ps[b].user_id
            } by {
                if a < n && b < n {
                    assert(old(db).profiles@[a] == ps[a]);
                    assert(old(db).profiles@[b] == ps[b]);
                }
            }
        }
        Ok(self.duplicate())
    }

    /// Sets the age of the profile with the given handle.
    pub fn update_age(db: &mut Database, username: &str, new_age: i32) -> (r: Result<(), BotError>)
        requires
            old(db).wf(),
        ensures
            final(db).wf(),
            final(db).views == old(db).views,
            final(db).activities == old(db).activities,
            r is Err <==> !has_username(old(db).profiles@, username@),
            r is Err ==> r == Err::<(), BotError>(BotError::NotFound) && final(db).profiles@
                == old(db).profiles@,
            r is Ok ==> exists|i: int|
                0 <= i < old(db).profiles@.len() && (#[trigger] old(db).profiles@[i]).username@
                    == username@ && final(db).profiles@ == old(db).profiles@.update(
                    i,
                    Profile { age: new_age, ..old(db).profiles@[i] },
                ),
    {
        match find_by_username(&db.profiles, username) {
            None => Err(BotError::NotFound),
            Some(i) => {
                db.profiles[i].age = new_age;
                proof {
                    assert(final(db).profiles@[i as int] == (Profile { age: new_age, ..old(db).profiles@[i as int] }));
                    assert(db.profiles@ =~= old(db).profiles@.update(i as int, Profile { age: new_age, ..old(db).profiles@[i as int] }));
                    lemma_unique_after_update(old(db).profiles@, i as int, db.profiles@[i as int]);
                }
                Ok(())
            },
        }
    }

    /// Sets the gender of the profile with the given handle.
    pub fn update_gender(db: &mut Database, username: &str, profile_gender: &str) -> (r: Result<(), BotError>)
        requires
            old(db).wf(),
        ensures
            final(db).wf(),
            final(db).views == old(db).views,
            final(db).activities == old(db).activities,
            r is Err <==> !has_username(old(db).profiles@, username@),
            r is Err ==> r == Err::<(), BotError>(BotError::NotFound) && final(db).profiles@
                == old(db).profiles@,
            r is Ok ==> exists|i: int|
                0 <= i < old(db).profiles@.len() && (#[trigger] old(db).profiles@[i]).username@
                    == username@ && final(db).profiles@[i].gender@ == profile_gender@
                    && final(db).profiles@ == old(db).profiles@.update(
                    i,
                    Profile { gender: final(db).profiles@[i].gender, ..old(db).profiles@[i] },
                ),
    {
        match find_by_username(&db.profiles, username) {
            None => Err(BotError::NotFound),
            Some(i) => {
                db.profiles[i].gender = String::from_str(profile_gender);
                proof {
                    let np = db.profiles@[i as int];
                    assert(db.profiles@ =~= old(db).profiles@.update(i as int, Profile { gender: np.gender, ..old(db).profiles@[i as int] }));
                    lemma_unique_after_update(old(db).profiles@, i as int, np);
                }
                Ok(())
            },
        }
    }

    /// The profile with the given id.
    pub fn get_by_id(db: &Database, profile_id: u128) -> (r: Result<Profile, BotError>)
        ensures
            r is Err <==> forall|i: int| 0 <= i < db.profiles@.len() ==> (#[trigger] db.profiles@[i]).id != profile_id,
            r is Err ==> r == Err::<Profile, BotError>(BotError::NotFound),
            r matches Ok(p) ==> p.id == profile_id && exists|i: int| 0 <= i < db.profiles@.len() && #[trigger] db.profiles@[i] == p,
    {
        let n = db.profiles.len();
        let mut i: usize = 0;
        while i < n
            invariant
                n == db.profiles@.len(),
                i <= n,
                forall|j: int| 0 <= j < i ==> (#[trigger] db.profiles@[j]).id != profile_id,
            decreases n - i,
        {
            if db.profiles[i].id == profile_id {
                return Ok(db.profiles[i].duplicate());
            }
            i = i + 1;
        }
        Err(BotError::NotFound)
    }

    /// The profile with the given handle, if one is stored.
    pub fn get_by_username(db: &Database, username: &str) -> (r: Option<Profile>)
        ensures
            r is None <==> !has_username(db.profiles@, username@),
            r matches Some(p) ==> p.username@ == username@ && exists|i: int| 0 <= i < db.profiles@.len() && #[trigger] db.profiles@[i] == p,
    {
        match find_by_username(&db.profiles, username) {
            None => None,
            Some(i) => Some(db.profiles[i].duplicate()),
        }
    }

    /// The profile of the given platform account, if one is stored.
    pub fn get_by_user_id(db: &Database, user_id: i64) -> (r: Option<Profile>)
        ensures
            r is None <==> forall|i: int| 0 <= i < db.profiles@.len() ==> (#[trigger] db.profiles@[i]).user_id != user_id,
            r matches Some(p) ==> p.user_id == user_id && exists|i: int| 0 <= i < db.profiles@.len() && #[trigger] db.profiles@[i] == p,
    {
        let n = db.profiles.len();
        let mut i: usize = 0;
        while i < n
            invariant
                n == db.profiles@.len(),
                i <= n,
                forall|j: int| 0 <= j < i ==> (#[trigger] db.profiles@[j]).user_id != user_id,
            decreases n - i,
        {
            if db.profiles[i].user_id == user_id {
                return Some(db.profiles[i].duplicate());
            }
            i = i + 1;
        }
        None
    }

    /// The oldest stored profile.
    pub fn get_profile(db: &Database) -> (r: Result<Profile, BotError>)
        ensures
            db.profiles@.len() == 0 ==> r == Err::<Profile, BotError>(BotError::NotFound),
            db.profiles@.len() > 0 ==> r == Ok::<Profile, BotError>(db.profiles@[0]),
    {
        if db.profiles.len() == 0 {
            Err(BotError::NotFound)
        } else {
            Ok(db.profiles[0].duplicate())
        }
    }
}

/// The index of the profile with handle `username`, if any.
fn find_by_username(ps: &Vec<Profile>, username: &str) -> (r: Option<usize>)
    ensures
        r is None <==> !has_username(ps@, username@),
        r matches Some(i) ==> i < ps@.len() && ps@[i as int].username@ == username@,
{
    let n = ps.len();
    let mut i: usize = 0;
    while i < n
        invariant
            n == ps@.len(),
            i <= n,
            forall|j: int| 0 <= j < i ==> (#[trigger] ps@[j]).username@ != username@,
        decreases n - i,
    {
        if same_text(ps[i].username.as_str(), username) {
            return Some(i);
        }
        i = i + 1;
    }
    None
}

/// A handle is registered once: after a profile `p` has been stored, storing
/// any profile `q` under the same handle conflicts, so `insert` refuses it and
/// leaves every stored row, `p` included, as it was.
pub proof fn lemma_second_create_conflicts(ps: Seq<Profile>, p: Profile, q: Profile)
    requires
        q.username@ == p.username@,
    ensures
        profile_conflict(ps.push(p), q),
        ps.push(p)[ps.len() as int] == p,
{
    let qs = ps.push(p);
    let n = ps.len() as int;
    assert(qs[n] == p);
    assert(qs[n].id == p.id && qs[n].username@ == q.username@);
}

/// Changing attributes of one profile, while keeping its id, handle and
/// platform user id, keeps the table's uniqueness.
proof fn lemma_unique_after_update(ps: Seq<Profile>, i: int, p: Profile)
    requires
        profiles_unique(ps),
        0 <= i < ps.len(),
        p.id == ps[i].id,
        p.username@ == ps[i].username@,
        p.user_id == ps[i].user_id,
    ensures
        profiles_unique(ps.update(i, p)),
{
    let qs = ps.update(i, p);
    assert forall|a: int, b: int|
        0 <= a < qs.len() && 0 <= b < qs.len() && a != b implies {
        &&& #[trigger] qs[a].id != #[trigger] qs[b].id
        &&& qs[a].username@ != qs[b].username@
        &&& qs[a].user_id != qs[b].user_id
    } by {
        assert(ps[a].id != ps[b].id);
    }
}

} // verus!
