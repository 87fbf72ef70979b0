use swaga_bot::bot::{Command, Reply, State, SwagaBot};
use swaga_bot::error::BotError;
use swaga_bot::profile::Profile;
use swaga_bot::text::{parse_number, same_text};

fn alice() -> Option<String> {
    Some("alice".to_string())
}

#[test]
fn parse_numbers() {
    assert_eq!(parse_number("29"), Some(29));
    assert_eq!(parse_number("-5"), Some(-5));
    assert_eq!(parse_number("+7"), Some(7));
    assert_eq!(parse_number("007"), Some(7));
    assert_eq!(parse_number("2147483647"), Some(i32::MAX));
    assert_eq!(parse_number("-2147483648"), Some(i32::MIN));
    assert_eq!(parse_number("2147483648"), None);
    assert_eq!(parse_number("99999999999999999999"), None);
    assert_eq!(parse_number("abc"), None);
    assert_eq!(parse_number(""), None);
    assert_eq!(parse_number("-"), None);
    assert_eq!(parse_number("1 "), None);
    assert_eq!(parse_number("1_0"), None);
}

#[test]
fn text_equality() {
    assert!(same_text("abc", "abc"));
    assert!(!same_text("abc", "abd"));
    assert!(!same_text("abc", "ab"));
    assert!(same_text("", ""));
}

#[test]
fn commands() {
    assert_eq!(Command::parse("/start"), Some(Command::Start));
    assert_eq!(Command::parse("/help"), Some(Command::Help));
    assert_eq!(Command::parse("/stop"), None);
    assert_eq!(Command::parse("start"), None);
}

#[test]
fn alice_registers_and_sets_age() {
    let mut bot = SwagaBot::new();
    let r = bot.handle_message(100, 42, alice(), "/start", 1);
    assert_eq!(
        r,
        vec![
            Reply::Welcome { user_id: 42, username: "alice".to_string() },
            Reply::Menu { username: "alice".to_string() },
        ]
    );
    assert_eq!(bot.state_of(100), State::ListOptions);
    let p = Profile::get_by_username(bot.database(), "alice").unwrap();
    assert_eq!(p.age(), 0);
    assert_eq!(p.id(), 1);

    assert_eq!(bot.handle_message(100, 42, alice(), "2", 2), vec![Reply::AskAge]);
    assert_eq!(bot.state_of(100), State::InputAge);

    assert_eq!(bot.handle_message(100, 42, alice(), "abc", 3), vec![Reply::InvalidInput]);
    assert_eq!(bot.state_of(100), State::InputAge);

    assert_eq!(bot.handle_message(100, 42, alice(), "29", 4), vec![Reply::AskGender]);
    assert_eq!(Profile::get_by_username(bot.database(), "alice").unwrap().age(), 29);
    assert_eq!(bot.state_of(100), State::InputGender);

    assert_eq!(bot.handle_message(100, 42, alice(), "robot", 5), vec![Reply::InvalidInput]);
    assert_eq!(bot.state_of(100), State::InputGender);
    assert_eq!(
        bot.handle_message(100, 42, alice(), "FEMALE", 6),
        vec![Reply::Menu { username: "alice".to_string() }]
    );
    assert_eq!(bot.state_of(100), State::ListOptions);
    assert_eq!(Profile::get_by_username(bot.database(), "alice").unwrap().gender, "FEMALE");
}

#[test]
fn start_then_one_shows_a_candidate() {
    let mut bot = SwagaBot::new();
    let bob = || Some("bob".to_string());
    bot.handle_message(100, 42, alice(), "/help", 1);
    let r = bot.handle_message(100, 42, alice(), "1", 2);
    assert_eq!(r, vec![Reply::Failure(BotError::NotFound)]);
    assert_eq!(bot.state_of(100), State::ViewProfiles);

    bot.handle_message(200, 43, bob(), "/start", 2);
    let alice_profile = Profile::get_by_username(bot.database(), "alice").unwrap();
    assert_eq!(bot.handle_message(200, 43, bob(), "1", 3), vec![Reply::Candidate(alice_profile)]);
    assert_eq!(bot.state_of(200), State::ViewProfiles);

    let bob_profile = Profile::get_by_username(bot.database(), "bob").unwrap();
    assert_eq!(bot.handle_message(100, 42, alice(), "next", 3), vec![Reply::Candidate(bob_profile)]);
    assert_eq!(bot.handle_message(100, 42, alice(), "next", 4), vec![Reply::NoProfiles]);
    assert_eq!(bot.state_of(100), State::ViewProfiles);
}

#[test]
fn unknown_command_changes_nothing() {
    let mut bot = SwagaBot::new();
    assert_eq!(bot.handle_message(7, 1, alice(), "/nope", 1), vec![Reply::CommandNotFound]);
    assert_eq!(bot.state_of(7), State::Start);
    bot.handle_message(7, 1, alice(), "/start", 1);
    bot.handle_message(7, 1, alice(), "2", 2);
    assert_eq!(bot.handle_message(7, 1, alice(), "/nope", 3), vec![Reply::CommandNotFound]);
    assert_eq!(bot.state_of(7), State::InputAge);
    assert_eq!(bot.database().profiles.len(), 1);
}

#[test]
fn menu_rejects_other_choices_and_stays() {
    let mut bot = SwagaBot::new();
    bot.handle_message(7, 1, alice(), "/start", 1);
    assert_eq!(bot.handle_message(7, 1, alice(), "3", 2), vec![Reply::InvalidInput]);
    assert_eq!(bot.state_of(7), State::ListOptions);
    assert_eq!(bot.handle_message(7, 1, alice(), "hello", 2), vec![Reply::InvalidInput]);
    assert_eq!(bot.state_of(7), State::ListOptions);
}

#[test]
fn plain_text_at_start_is_ignored() {
    let mut bot = SwagaBot::new();
    assert_eq!(bot.handle_message(7, 1, alice(), "hi", 1), vec![]);
    assert_eq!(bot.state_of(7), State::Start);
    assert_eq!(bot.database().profiles.len(), 0);
}

#[test]
fn registration_needs_a_handle() {
    let mut bot = SwagaBot::new();
    assert_eq!(
        bot.handle_message(7, 1, None, "/start", 1),
        vec![Reply::Failure(BotError::InvalidInput)]
    );
    assert_eq!(bot.state_of(7), State::Start);
}

#[test]
fn registration_reuses_existing_profiles() {
    let mut bot = SwagaBot::new();
    bot.handle_message(7, 1, alice(), "/start", 11);
    bot.handle_message(8, 1, Some("alice2".to_string()), "/start", 12);
    assert_eq!(bot.database().profiles.len(), 1);
    assert_eq!(bot.state_of(8), State::ListOptions);
    let r = bot.handle_message(9, 2, Some("bob".to_string()), "/start", 11);
    assert_eq!(r, vec![Reply::Failure(BotError::Conflict)]);
    assert_eq!(bot.state_of(9), State::Start);
}

#[test]
fn chats_keep_separate_states() {
    let mut bot = SwagaBot::new();
    bot.handle_message(1, 10, alice(), "/start", 1);
    bot.handle_message(2, 20, Some("bob".to_string()), "/start", 2);
    bot.handle_message(1, 10, alice(), "2", 3);
    assert_eq!(bot.state_of(1), State::InputAge);
    assert_eq!(bot.state_of(2), State::ListOptions);
}

#[test]
fn message_handler_draws_an_id() {
    let mut bot = SwagaBot::new();
    let r = bot.message_handler(1, 10, alice(), "/start");
    assert_eq!(r.len(), 2);
    assert_eq!(bot.database().profiles.len(), 1);
    assert_eq!(bot.state_of(1), State::ListOptions);
    let r = bot.message_handler(2, 20, Some("bob".to_string()), "/start");
    assert_eq!(r.len(), 2);
    assert_eq!(bot.database().profiles.len(), 2);
    assert_ne!(bot.database().profiles[0].id(), bot.database().profiles[1].id());
    assert_eq!(bot.state_of(2), State::ListOptions);
}

#[test]
fn handlers_called_directly() {
    let mut bot = SwagaBot::new();
    assert_eq!(bot.refresh_profile(3), vec![Reply::AskAge]);
    assert_eq!(bot.state_of(3), State::InputAge);
    assert_eq!(bot.handle_generic_error(3), vec![Reply::InvalidInput]);
    assert_eq!(bot.save_age(3, 30, "ghost"), vec![Reply::Failure(BotError::NotFound)]);
    assert_eq!(bot.next_profile(3, "ghost"), vec![Reply::Failure(BotError::NotFound)]);
    assert_eq!(bot.state_of(3), State::ViewProfiles);
    assert_eq!(bot.save_gender(3, "MALE", "ghost"), vec![Reply::Failure(BotError::NotFound)]);
    assert_eq!(bot.start(3, 5, alice(), 77).len(), 2);
    assert_eq!(State::Profile { username: "x".to_string() }.duplicate(), State::Profile { username: "x".to_string() });
}
