use swaga_bot::error::BotError;
use swaga_bot::profile::{Profile, ProfileGender};
use swaga_bot::profile_activities::ProfileActivity;
use swaga_bot::profile_view::ProfileView;
use swaga_bot::store::Database;
use swaga_bot::match_engine::MatchEngine;

fn blank(id: u128, user_id: i64, name: &str) -> Profile {
    Profile::with_id(id, user_id, name.to_string())
}

#[test]
fn new_profile_is_blank() {
    let p = Profile::new(42, Some("alice".to_string())).unwrap();
    assert_eq!(p.user_id(), 42);
    assert_eq!(p.username(), "alice");
    assert_eq!(p.age(), 0);
    assert_eq!(p.description(), "");
    assert_eq!(p.displayed_name(), "");
    assert_eq!(p.location(), "");
}

#[test]
fn new_profile_needs_a_handle() {
    assert_eq!(Profile::new(42, None), Err(BotError::InvalidInput));
}

#[test]
fn new_profiles_get_distinct_random_ids() {
    let a = Profile::new(1, Some("a".to_string())).unwrap();
    let b = Profile::new(2, Some("b".to_string())).unwrap();
    assert_ne!(a.id(), b.id());
    assert_eq!((a.id() >> 76) & 0xf, 4);
    assert_eq!((a.id() >> 62) & 0x3, 2);
    let c = ProfileActivity::new();
    assert_eq!(c.activity_count(), 1);
    assert_ne!(c.viewer_id(), a.id());
}

#[test]
fn second_create_with_same_handle_conflicts() {
    let mut db = Database::new();
    let first = blank(1, 10, "alice");
    assert_eq!(first.insert(&mut db), Ok(blank(1, 10, "alice")));
    let second = blank(2, 20, "alice");
    assert_eq!(second.insert(&mut db), Err(BotError::Conflict));
    assert_eq!(db.profiles.len(), 1);
    assert_eq!(db.profiles[0], blank(1, 10, "alice"));
}

#[test]
fn create_conflicts_on_id_or_platform_user() {
    let mut db = Database::new();
    assert!(blank(1, 10, "alice").insert(&mut db).is_ok());
    assert_eq!(blank(1, 20, "bob").insert(&mut db), Err(BotError::Conflict));
    assert_eq!(blank(2, 10, "bob").insert(&mut db), Err(BotError::Conflict));
    assert!(blank(2, 20, "bob").insert(&mut db).is_ok());
    assert_eq!(db.profiles.len(), 2);
}

#[test]
fn lookups_by_handle_id_and_user() {
    let mut db = Database::new();
    assert_eq!(Profile::get_profile(&db), Err(BotError::NotFound));
    blank(7, 70, "carol").insert(&mut db).unwrap();
    blank(8, 80, "dave").insert(&mut db).unwrap();
    assert_eq!(Profile::get_by_username(&db, "dave"), Some(blank(8, 80, "dave")));
    assert_eq!(Profile::get_by_username(&db, "eve"), None);
    assert_eq!(Profile::get_by_id(&db, 7), Ok(blank(7, 70, "carol")));
    assert_eq!(Profile::get_by_id(&db, 9), Err(BotError::NotFound));
    assert_eq!(Profile::get_by_user_id(&db, 80), Some(blank(8, 80, "dave")));
    assert_eq!(Profile::get_by_user_id(&db, 90), None);
    assert_eq!(Profile::get_profile(&db), Ok(blank(7, 70, "carol")));
}

#[test]
fn update_age_and_gender() {
    let mut db = Database::new();
    blank(1, 10, "alice").insert(&mut db).unwrap();
    assert_eq!(Profile::update_age(&mut db, "alice", 29), Ok(()));
    assert_eq!(db.profiles[0].age(), 29);
    assert_eq!(Profile::update_gender(&mut db, "alice", "FEMALE"), Ok(()));
    assert_eq!(db.profiles[0].gender, "FEMALE");
    assert_eq!(Profile::update_age(&mut db, "bob", 30), Err(BotError::NotFound));
    assert_eq!(Profile::update_gender(&mut db, "bob", "MALE"), Err(BotError::NotFound));
    assert_eq!(db.profiles[0].age(), 29);
}

#[test]
fn gender_spellings() {
    assert_eq!(ProfileGender::Male.to_string(), "MALE");
    assert_eq!(ProfileGender::Female.to_string(), "FEMALE");
    assert_eq!(ProfileGender::from_str("MALE"), Ok(ProfileGender::Male));
    assert_eq!(ProfileGender::from_str("FEMALE"), Ok(ProfileGender::Female));
    assert_eq!(ProfileGender::from_str("male"), Err(BotError::InvalidInput));
    assert_eq!(ProfileGender::from_str(""), Err(BotError::InvalidInput));
}

#[test]
fn activity_counts_one_one_two_three() {
    let mut db = Database::new();
    let me = ProfileActivity::from_id(5);
    let returned: Vec<u64> = (0..4).map(|_| me.upsert_and_increment(&mut db).activity_count()).collect();
    assert_eq!(returned, vec![1, 1, 2, 3]);
    assert_eq!(db.activities.len(), 1);
    assert_eq!(db.activities[0].activity_count(), 4);
}

#[test]
fn activity_counter_held_at_largest_value() {
    let mut db = Database::new();
    let full = ProfileActivity { viewer_id: 3, activity_count: u64::MAX };
    assert!(full.insert(&mut db).is_ok());
    assert_eq!(full.increment(&mut db), Ok(()));
    assert_eq!(db.activities[0].activity_count(), u64::MAX);
}

#[test]
fn activity_insert_and_increment_errors() {
    let mut db = Database::new();
    let a = ProfileActivity::from_id(1);
    assert_eq!(a.increment(&mut db), Err(BotError::NotFound));
    assert_eq!(a.insert(&mut db), Ok(a));
    assert_eq!(a.insert(&mut db), Err(BotError::Conflict));
    assert_eq!(a.increment(&mut db), Ok(()));
    assert_eq!(db.activities[0].activity_count(), 2);
}

#[test]
fn most_active_highest_count_first_stored_on_tie() {
    let mut db = Database::new();
    assert_eq!(ProfileActivity::get_most_active_profile(&db), Err(BotError::NotFound));
    ProfileActivity { viewer_id: 1, activity_count: 3 }.insert(&mut db).unwrap();
    ProfileActivity { viewer_id: 2, activity_count: 7 }.insert(&mut db).unwrap();
    ProfileActivity { viewer_id: 3, activity_count: 7 }.insert(&mut db).unwrap();
    let top = ProfileActivity::get_most_active_profile(&db).unwrap();
    assert_eq!(top.viewer_id(), 2);
    assert_eq!(top.activity_count(), 7);
    assert_eq!(ProfileActivity::get_most_active_profile(&db), Ok(top));
}

#[test]
fn exposure_is_pair_specific_and_kept_once() {
    let mut db = Database::new();
    let v = ProfileView::new(1, 2);
    assert!(!v.is_recorded(&db));
    assert_eq!(v.insert(&mut db), v);
    assert_eq!(v.insert(&mut db), v);
    assert_eq!(db.views.len(), 1);
    assert!(v.is_recorded(&db));
    assert!(!ProfileView::new(1, 3).is_recorded(&db));
    assert!(!ProfileView::new(2, 2).is_recorded(&db));
}

#[test]
fn cold_start_is_not_found_and_never_shows_the_viewer() {
    let mut db = Database::new();
    blank(1, 10, "alice").insert(&mut db).unwrap();
    assert_eq!(MatchEngine::match_profiles(1, &mut db), Err(BotError::NotFound));
    assert_eq!(db.views.len(), 0);
    assert_eq!(db.activities.len(), 1);
    assert_eq!(MatchEngine::match_profiles(1, &mut db), Err(BotError::NotFound));
    assert_eq!(db.activities[0].activity_count(), 2);
    assert_eq!(db.views.len(), 0);
}

#[test]
fn exhausted_pool_is_not_shown_again() {
    let mut db = Database::new();
    blank(1, 10, "alice").insert(&mut db).unwrap();
    blank(2, 20, "bob").insert(&mut db).unwrap();
    ProfileActivity::from_id(2).insert(&mut db).unwrap();
    assert_eq!(MatchEngine::match_profiles(1, &mut db), Ok(blank(2, 20, "bob")));
    assert_eq!(db.views.len(), 1);
    assert_eq!(MatchEngine::match_profiles(1, &mut db), Err(BotError::Exhausted));
    assert_eq!(db.views.len(), 1);
    assert!(ProfileView::new(1, 2).is_recorded(&db));
}

#[test]
fn selection_falls_back_to_next_most_active_unseen() {
    let mut db = Database::new();
    blank(1, 10, "alice").insert(&mut db).unwrap();
    blank(2, 20, "bob").insert(&mut db).unwrap();
    blank(3, 30, "carol").insert(&mut db).unwrap();
    ProfileActivity { viewer_id: 2, activity_count: 9 }.insert(&mut db).unwrap();
    ProfileActivity { viewer_id: 3, activity_count: 4 }.insert(&mut db).unwrap();
    assert_eq!(MatchEngine::match_profiles(1, &mut db).unwrap().id(), 2);
    assert_eq!(MatchEngine::match_profiles(1, &mut db).unwrap().id(), 3);
    assert_eq!(MatchEngine::match_profiles(1, &mut db), Err(BotError::Exhausted));
    assert_eq!(db.views.len(), 2);
}

#[test]
fn selection_reports_missing_candidate_profile() {
    let mut db = Database::new();
    ProfileActivity { viewer_id: 9, activity_count: 5 }.insert(&mut db).unwrap();
    assert_eq!(MatchEngine::match_profiles(1, &mut db), Err(BotError::NotFound));
    assert_eq!(db.views.len(), 0);
}
