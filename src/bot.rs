//! The per-chat conversation: which state each chat is in, how an incoming
//! text is read in that state, and what the bot answers.
use vstd::prelude::*;
use std::collections::HashMap;
use crate::error::BotError;
use crate::match_engine::{MatchEngine, selection_outcome};
use crate::profile::{Profile, ProfileGender, fresh_id, has_username};
use crate::store::{Database, profile_conflict};
use crate::text::{all_digits, digits_value, i32_of_text, parse_number, same_text};
use vstd::string::StringExecFns;

verus! {

broadcast use vstd::std_specs::hash::group_hash_axioms;

/// Where a chat stands in the conversation.
#[derive(Debug, PartialEq, Eq)]
pub enum State {
    /// Nothing has happened yet; only commands are read.
    Start,
    /// A handle is being captured.
    Profile { username: String },
    /// A candidate has been shown; any text asks for the next one.
    ViewProfiles,
    /// The menu has been shown; a number picks an option.
    ListOptions,
    /// The bot waits for the user's age.
    InputAge,
    /// The bot waits for the user's gender.
    InputGender,
}

impl State {
    /// A copy of the state.
    pub fn duplicate(&self) -> (r: State)
        ensures
            r == *self,
    {
        match self {
            State::Start => State::Start,
            State::Profile { username } => State::Profile { username: username.clone() },
            State::ViewProfiles => State::ViewProfiles,
            State::ListOptions => State::ListOptions,
            State::InputAge => State::InputAge,
            State::InputGender => State::InputGender,
        }
    }
}

/// The commands the bot knows.
#[derive(Clone, Copy, Debug, PartialEq, Eq, Structural)]
pub enum Command {
    Help,
    Start,
}

/// Whether a text is meant as a command.
pub open spec fn is_command_text(t: Seq<char>) -> bool {
    t.len() > 0 && t[0] == '/'
}

/// The command that a text names, if it names a known one.
pub open spec fn command_of(t: Seq<char>) -> Option<Command> {
    if t == "/start"@ {
        Some(Command::Start)
    } else if t == "/help"@ {
        Some(Command::Help)
    } else {
        None
    }
}

impl Command {
    /// Reads a known command from a text.
    pub fn parse(text: &str) -> (r: Option<Command>)
        ensures
            r == command_of(text@),
    {
        proof {
            reveal_strlit("/start");
            reveal_strlit("/help");
        }
        if same_text(text, "/start") {
            Some(Command::Start)
        } else if same_text(text, "/help") {
            Some(Command::Help)
        } else {
            None
        }
    }
}

/// What the bot says back. Rendering the words is left to the chat layer.
#[derive(Debug, PartialEq, Eq)]
pub enum Reply {
    /// Greets a registered user.
    Welcome { user_id: i64, username: String },
    /// Shows the user's profile handle and the numbered menu.
    Menu { username: String },
    /// Shows a candidate profile.
    Candidate(Profile),
    /// Asks for the user's age.
    AskAge,
    /// Asks for the user's gender.
    AskGender,
    /// The text does not fit what the bot waits for.
    InvalidInput,
    /// A text starting with `/` names no known command.
    CommandNotFound,
    /// Every candidate has been shown already.
    NoProfiles,
    /// An operation failed for the given reason.
    Failure(BotError),
}

/// The bot: the store, and the conversation state of each chat.
pub struct SwagaBot {
    pub db: Database,
    pub dialogues: HashMap<i64, State>,
}

impl SwagaBot {
    pub open spec fn database_view(&self) -> Database {
        self.db
    }

    /// The state of a chat; a chat never seen is at `Start`.
    pub open spec fn dialogue_state(&self, chat_id: i64) -> State {
        if self.dialogues@.contains_key(chat_id) {
            self.dialogues@[chat_id]
        } else {
            State::Start
        }
    }

    pub open spec fn wf(&self) -> bool {
        self.db.wf()
    }

    /// Everything the same except the state of `chat_id`, which is `st`.
    pub open spec fn moved_to(&self, before: &SwagaBot, chat_id: i64, st: State) -> bool {
        &&& self.dialogue_state(chat_id) == st
        &&& forall|c: i64| c != chat_id ==> #[trigger] self.dialogue_state(c) == before.dialogue_state(c)
    }

    /// No state changed.
    pub open spec fn same_states(&self, before: &SwagaBot) -> bool {
        forall|c: i64| #[trigger] self.dialogue_state(c) == before.dialogue_state(c)
    }

    /// A bot with an empty store and every chat at `Start`.
    pub fn new() -> (r: SwagaBot)
        ensures
            r.wf(),
            r.database_view().profiles@.len() == 0,
            r.database_view().views@.len() == 0,
            r.database_view().activities@.len() == 0,
            forall|c: i64| #[trigger] r.dialogue_state(c) == State::Start,
    {
        SwagaBot { db: Database::new(), dialogues: HashMap::new() }
    }

    pub fn database(&self) -> (r: &Database)
        ensures
            *r == self.database_view(),
    {
        &self.db
    }

    /// The state of a chat.
    pub fn state_of(&self, chat_id: i64) -> (r: State)
        ensures
            r == self.dialogue_state(chat_id),
    {
        match self.dialogues.get(&chat_id) {
            Some(st) => st.duplicate(),
            None => State::Start,
        }
    }

    fn update_dialogue(&mut self, chat_id: i64, st: State)
        ensures
            final(self).moved_to(old(self), chat_id, st),
            final(self).db == old(self).db,
    {
        self.dialogues.insert(chat_id, st);
    }
}


/// Whether some stored profile has the platform user id `user_id`.
pub open spec fn has_user_id(ps: Seq<Profile>, user_id: i64) -> bool {
    exists|i: int| 0 <= i < ps.len() && (#[trigger] ps[i]).user_id == user_id
}

/// Whether some stored profile has the id `id`.
pub open spec fn has_id(ps: Seq<Profile>, id: u128) -> bool {
    exists|i: int| 0 <= i < ps.len() && (#[trigger] ps[i]).id == id
}

/// `p` is a new profile with the given identity and every attribute empty or zero.
pub open spec fn is_blank_profile(p: Profile, id: u128, user_id: i64, username: Seq<char>) -> bool {
    &&& p.id == id
    &&& p.user_id == user_id
    &&& p.username@ == username
    &&& p.description@.len() == 0
    &&& p.displayed_name@.len() == 0
    &&& p.location@.len() == 0
    &&& p.age == 0
    &&& p.gender@.len() == 0
}

/// The two messages that open the menu for profile `p`.
pub open spec fn menu_replies(p: Profile) -> Seq<Reply> {
    seq![Reply::Welcome { user_id: p.user_id, username: p.username }, Reply::Menu { username: p.username }]
}

/// What a selection answers.
pub open spec fn reply_of_selection(res: Result<Profile, BotError>) -> Reply {
    match res {
        Ok(p) => Reply::Candidate(p),
        Err(BotError::Exhausted) => Reply::NoProfiles,
        Err(e) => Reply::Failure(e),
    }
}

/// Nothing changed: neither a state nor the store.
pub open spec fn unchanged(after: SwagaBot, before: SwagaBot) -> bool {
    after.same_states(&before) && after.database_view().same_rows(&before.database_view())
}

/// Registration by `/start` or `/help`: the profile with the sender's handle,
/// else the one of the sender's platform account, else a new blank profile
/// under `new_id`; then the menu. Without a handle, or where `new_id` is taken,
/// nothing changes and the failure is reported.
pub open spec fn start_outcome(
    before: SwagaBot,
    after: SwagaBot,
    chat_id: i64,
    user_id: i64,
    username: Option<String>,
    new_id: u128,
    r: Seq<Reply>,
) -> bool {
    let ps = before.database_view().profiles@;
    match username {
        None => r == seq![Reply::Failure(BotError::InvalidInput)] && unchanged(after, before),
        Some(u) => if has_username(ps, u@) {
            &&& after.database_view().same_rows(&before.database_view())
            &&& after.moved_to(&before, chat_id, State::ListOptions)
            &&& exists|i: int|
                0 <= i < ps.len() && (#[trigger] ps[i]).username@ == u@ && r == menu_replies(ps[i])
        } else if has_user_id(ps, user_id) {
            &&& after.database_view().same_rows(&before.database_view())
            &&& after.moved_to(&before, chat_id, State::ListOptions)
            &&& exists|i: int|
                0 <= i < ps.len() && (#[trigger] ps[i]).user_id == user_id && r == menu_replies(ps[i])
        } else if has_id(ps, new_id) {
            r == seq![Reply::Failure(BotError::Conflict)] && unchanged(after, before)
        } else {
            &&& after.database_view().views == before.database_view().views
            &&& after.database_view().activities == before.database_view().activities
            &&& after.moved_to(&before, chat_id, State::ListOptions)
            &&& exists|p: Profile|
                is_blank_profile(p, new_id, user_id, u@) && after.database_view().profiles@ == ps.push(p)
                    && r == menu_replies(p)
        },
    }
}

/// Showing the next candidate to the profile with handle `u`; the chat ends
/// at `ViewProfiles` whatever the selection gave.
pub open spec fn view_outcome(before: SwagaBot, after: SwagaBot, chat_id: i64, u: Seq<char>, r: Seq<Reply>) -> bool {
    let ps = before.database_view().profiles@;
    &&& after.moved_to(&before, chat_id, State::ViewProfiles)
    &&& if has_username(ps, u) {
        exists|i: int, res: Result<Profile, BotError>|
            0 <= i < ps.len() && ps[i].username@ == u && #[trigger] selection_outcome(
                before.database_view(),
                after.database_view(),
                ps[i].id,
                res,
            ) && r == seq![reply_of_selection(res)]
    } else {
        r == seq![Reply::Failure(BotError::NotFound)] && after.database_view().same_rows(&before.database_view())
    }
}

/// Saving the age of the profile with handle `u`, then asking for the gender.
pub open spec fn age_outcome(before: SwagaBot, after: SwagaBot, chat_id: i64, u: Seq<char>, age: i32, r: Seq<Reply>) -> bool {
    let ps = before.database_view().profiles@;
    if has_username(ps, u) {
        &&& r == seq![Reply::AskGender]
        &&& after.moved_to(&before, chat_id, State::InputGender)
        &&& after.database_view().views == before.database_view().views
        &&& after.database_view().activities == before.database_view().activities
        &&& exists|i: int|
            0 <= i < ps.len() && (#[trigger] ps[i]).username@ == u && after.database_view().profiles@
                == ps.update(i, Profile { age, ..ps[i] })
    } else {
        r == seq![Reply::Failure(BotError::NotFound)] && unchanged(after, before)
    }
}

/// Saving the gender spelled by `text` for the profile with handle `u`, then
/// back to the menu.
pub open spec fn gender_outcome(before: SwagaBot, after: SwagaBot, chat_id: i64, u: Seq<char>, text: Seq<char>, r: Seq<Reply>) -> bool {
    let ps = before.database_view().profiles@;
    let qs = after.database_view().profiles@;
    if text != "MALE"@ && text != "FEMALE"@ {
        r == seq![Reply::InvalidInput] && unchanged(after, before)
    } else if has_username(ps, u) {
        &&& r.len() == 1
        &&& (r[0] matches Reply::Menu { username } && username@ == u)
        &&& after.moved_to(&before, chat_id, State::ListOptions)
        &&& after.database_view().views == before.database_view().views
        &&& after.database_view().activities == before.database_view().activities
        &&& exists|i: int|
            0 <= i < ps.len() && (#[trigger] ps[i]).username@ == u && qs[i].gender@ == text && qs
                == ps.update(i, Profile { gender: qs[i].gender, ..ps[i] })
    } else {
        r == seq![Reply::Failure(BotError::NotFound)] && unchanged(after, before)
    }
}


impl SwagaBot {
    /// Asks for the age; the chat then waits for it.
    pub fn refresh_profile(&mut self, chat_id: i64) -> (r: Vec<Reply>)
        ensures
            r@ == seq![Reply::AskAge],
            final(self).moved_to(old(self), chat_id, State::InputAge),
            final(self).database_view().same_rows(&old(self).database_view()),
    {
        self.update_dialogue(chat_id, State::InputAge);
        vec![Reply::AskAge]
    }

    /// Answers a text that does not fit what the chat waits for; the chat stays
    /// where it is.
    pub fn handle_generic_error(&self, chat_id: i64) -> (r: Vec<Reply>)
        ensures
            r@ == seq![Reply::InvalidInput],
    {
        vec![Reply::InvalidInput]
    }

    /// Shows the next candidate to the profile with handle `username`.
    pub fn next_profile(&mut self, chat_id: i64, username: &str) -> (r: Vec<Reply>)
        requires
            old(self).wf(),
        ensures
            final(self).wf(),
            view_outcome(*old(self), *final(self), chat_id, username@, r@),
    {
        self.update_dialogue(chat_id, State::ViewProfiles);
        let ghost mid = *self;
        match Profile::get_by_username(&self.db, username) {
            None => {
                let r = vec![Reply::Failure(BotError::NotFound)];
                assert(r@ == seq![Reply::Failure(BotError::NotFound)]);
                assert(self.database_view().same_rows(&old(self).database_view()));
                r
            },
            Some(viewer) => {
                let res = MatchEngine::match_profiles(viewer.id, &mut self.db);
                let reply = match res {
                    Ok(p) => Reply::Candidate(p),
                    Err(BotError::Exhausted) => Reply::NoProfiles,
                    Err(e) => Reply::Failure(e),
                };
                let r = vec![reply];
                proof {
                    assert(self.dialogues == mid.dialogues);
                    assert(mid.moved_to(old(self), chat_id, State::ViewProfiles));
                    assert(forall|c: i64| #[trigger] self.dialogue_state(c) == mid.dialogue_state(c));
                    assert(self.moved_to(old(self), chat_id, State::ViewProfiles));
                    let ps = old(self).db.profiles@;
                    let i = choose|i: int| 0 <= i < ps.len() && #[trigger] ps[i] == viewer;
                    assert(r@ == seq![reply_of_selection(res)]);
                    assert(selection_outcome(old(self).database_view(), self.database_view(), ps[i].id, res));
                    assert(view_outcome(*old(self), *self, chat_id, username@, r@));
                }
                r
            },
        }
    }

    /// Saves the age of the profile with handle `username` and asks for the gender.
    pub fn save_age(&mut self, chat_id: i64, age: i32, username: &str) -> (r: Vec<Reply>)
        requires
            old(self).wf(),
        ensures
            final(self).wf(),
            age_outcome(*old(self), *final(self), chat_id, username@, age, r@),
    {
        match Profile::update_age(&mut self.db, username, age) {
            Ok(()) => {
                self.update_dialogue(chat_id, State::InputGender);
                let r = vec![Reply::AskGender];
                assert(has_username(old(self).db.profiles@, username@));
                assert(r@ == seq![Reply::AskGender]);
                assert(self.moved_to(old(self), chat_id, State::InputGender));
                assert(self.db.views == old(self).db.views);
                assert(age_outcome(*old(self), *self, chat_id, username@, age, r@));
                r
            },
            Err(e) => {
                let r = vec![Reply::Failure(e)];
                assert(unchanged(*self, *old(self)));
                assert(e == BotError::NotFound);
                assert(r@ == seq![Reply::Failure(BotError::NotFound)]);
                assert(!has_username(old(self).db.profiles@, username@));
                assert(age_outcome(*old(self), *self, chat_id, username@, age, r@));
                r
            },
        }
    }

    /// Saves the gender that `text` spells for the profile with handle
    /// `username` and shows the menu again.
    pub fn save_gender(&mut self, chat_id: i64, text: &str, username: &str) -> (r: Vec<Reply>)
        requires
            old(self).wf(),
        ensures
            final(self).wf(),
            gender_outcome(*old(self), *final(self), chat_id, username@, text@, r@),
    {
        proof {
            reveal_strlit("MALE");
            reveal_strlit("FEMALE");
        }
        match ProfileGender::from_str(text) {
            Err(_) => {
                let r = vec![Reply::InvalidInput];
                assert(r@ == seq![Reply::InvalidInput]);
                assert(unchanged(*self, *old(self)));
                r
            },
            Ok(g) => {
                let spelled = g.to_string();
                match Profile::update_gender(&mut self.db, username, spelled.as_str()) {
                    Ok(()) => {
                        self.update_dialogue(chat_id, State::ListOptions);
                        let r = vec![Reply::Menu { username: String::from_str(username) }];
                        proof {
                            assert(r@.len() == 1);
                            assert(r@[0] matches Reply::Menu { username: n } && n@ == username@);
                            assert(gender_outcome(*old(self), *self, chat_id, username@, text@, r@));
                        }
                        r
                    },
                    Err(e) => {
                        let r = vec![Reply::Failure(e)];
                        assert(r@ == seq![Reply::Failure(BotError::NotFound)]);
                        assert(unchanged(*self, *old(self)));
                        r
                    },
                }
            },
        }
    }

    /// Registers the sender and shows the menu: the profile with the sender's
    /// handle, else the one of the sender's platform account, else a new blank
    /// profile under `new_id`.
    pub fn start(&mut self, chat_id: i64, user_id: i64, username: Option<String>, new_id: u128) -> (r: Vec<Reply>)
        requires
            old(self).wf(),
        ensures
            final(self).wf(),
            start_outcome(*old(self), *final(self), chat_id, user_id, username, new_id, r@),
    {
        let name = match username {
            None => {
                let r = vec![Reply::Failure(BotError::InvalidInput)];
                assert(r@ == seq![Reply::Failure(BotError::InvalidInput)]);
                assert(unchanged(*self, *old(self)));
                return r;
            },
            Some(n) => n,
        };
        let ghost ps = old(self).db.profiles@;
        let by_name = Profile::get_by_username(&self.db, name.as_str());
        let found = match by_name {
            Some(p) => Some(p),
            None => Profile::get_by_user_id(&self.db, user_id),
        };
        let profile = match found {
            Some(p) => p,
            None => {
                let fresh = Profile::with_id(new_id, user_id, name);
                let ghost blank = fresh;
                match fresh.insert(&mut self.db) {
                    Ok(p) => {
                        proof {
                            assert(!has_username(ps, blank.username@));
                            assert(!has_user_id(ps, user_id));
                            assert(!has_id(ps, new_id)) by {
                                if has_id(ps, new_id) {
                                    let k = choose|k: int| 0 <= k < ps.len() && (#[trigger] ps[k]).id == new_id;
                                    assert(profile_conflict(ps, blank));
                                }
                            }
                            assert(is_blank_profile(p, new_id, user_id, blank.username@));
                        }
                        p
                    },
                    Err(e) => {
                        let r = vec![Reply::Failure(e)];
                        proof {
                            assert(r@ == seq![Reply::Failure(BotError::Conflict)]);
                            assert(unchanged(*self, *old(self)));
                            let k = choose|k: int|
                                0 <= k < ps.len() && (#[trigger] ps[k].id == blank.id || ps[k].username@
                                    == blank.username@ || ps[k].user_id == blank.user_id);
                            assert(ps[k].id == new_id);
                            assert(has_id(ps, new_id));
                        }
                        return r;
                    },
                }
            },
        };
        let ghost before_update = *self;
        self.update_dialogue(chat_id, State::ListOptions);
        let r = vec![
            Reply::Welcome { user_id: profile.user_id, username: profile.username.clone() },
            Reply::Menu { username: profile.username.clone() },
        ];
        proof {
            assert(r@ == menu_replies(profile));
            assert(forall|c: i64| #[trigger] before_update.dialogue_state(c) == old(self).dialogue_state(c));
            assert(self.moved_to(old(self), chat_id, State::ListOptions));
            if by_name is Some {
                let i = choose|i: int| 0 <= i < ps.len() && #[trigger] ps[i] == profile;
                assert(ps[i].username@ == name@);
            } else if has_user_id(ps, user_id) {
                let i = choose|i: int| 0 <= i < ps.len() && #[trigger] ps[i] == profile;
                assert(ps[i].user_id == user_id);
            }
        }
        r
    }
}

/// What one text message does, from the state its chat is in. A text that
/// starts with `/` is a command in every state: `/start` and `/help` register
/// and show the menu, any other answers `CommandNotFound` and changes nothing.
/// Other texts: nothing happens at `Start`; at the menu `1` shows a candidate
/// and `2` asks for the age; a candidate on view moves on to the next; an age
/// is saved, then a gender. A text that does not fit is answered with
/// `InvalidInput` and the chat stays where it is. A sender without a handle is
/// answered with a failure.
pub open spec fn message_outcome(
    before: SwagaBot,
    after: SwagaBot,
    chat_id: i64,
    user_id: i64,
    username: Option<String>,
    t: Seq<char>,
    new_id: u128,
    r: Seq<Reply>,
) -> bool {
    let st = before.dialogue_state(chat_id);
    if is_command_text(t) {
        match command_of(t) {
            None => r == seq![Reply::CommandNotFound] && unchanged(after, before),
            Some(_) => start_outcome(before, after, chat_id, user_id, username, new_id, r),
        }
    } else if st is Start || st is Profile {
        r.len() == 0 && unchanged(after, before)
    } else {
        match username {
            None => r == seq![Reply::Failure(BotError::InvalidInput)] && unchanged(after, before),
            Some(u) => match st {
                State::ListOptions => if i32_of_text(t) == Some(1i32) {
                    view_outcome(before, after, chat_id, u@, r)
                } else if i32_of_text(t) == Some(2i32) {
                    &&& r == seq![Reply::AskAge]
                    &&& after.moved_to(&before, chat_id, State::InputAge)
                    &&& after.database_view().same_rows(&before.database_view())
                } else {
                    r == seq![Reply::InvalidInput] && unchanged(after, before)
                },
                State::ViewProfiles => view_outcome(before, after, chat_id, u@, r),
                State::InputAge => match i32_of_text(t) {
                    Some(age) => age_outcome(before, after, chat_id, u@, age, r),
                    None => r == seq![Reply::InvalidInput] && unchanged(after, before),
                },
                _ => gender_outcome(before, after, chat_id, u@, t, r),
            },
        }
    }
}

/// `n` profiles cannot hold every id from 0 to `n`.
proof fn lemma_some_small_id_free(ps: Seq<Profile>)
    requires
        ps.len() <= usize::MAX,
    ensures
        exists|c: int| 0 <= c <= ps.len() && !#[trigger] has_id(ps, c as u128),
{
    let ids = ps.map_values(|p: Profile| p.id as int);
    let taken = ids.to_set();
    let range = vstd::set_lib::set_int_range(0, ps.len() as int + 1);
    ids.lemma_cardinality_of_set();
    vstd::set_lib::lemma_int_range(0, ps.len() as int + 1);
    if forall|c: int| 0 <= c <= ps.len() ==> #[trigger] has_id(ps, c as u128) {
        assert forall|c: int| range.contains(c) implies taken.contains(c) by {
            assert(has_id(ps, c as u128));
            let k = choose|k: int| 0 <= k < ps.len() && (#[trigger] ps[k]).id == c as u128;
            assert(ids[k] == c);
        }
        assert(range.subset_of(taken));
        vstd::seq_lib::seq_to_set_is_finite(ids);
        vstd::set_lib::lemma_len_subset(range, taken);
    }
}

/// An id that no stored profile has: `drawn` where it is free, else the
/// smallest free one.
fn unused_id(db: &Database, drawn: u128) -> (r: u128)
    ensures
        !has_id(db.profiles@, r),
        !has_id(db.profiles@, drawn) ==> r == drawn,
{
    if Profile::get_by_id(db, drawn).is_err() {
        return drawn;
    }
    let n = db.profiles.len() as u128;
    proof {
        lemma_some_small_id_free(db.profiles@);
    }
    let mut c: u128 = 0;
    while c <= n
        invariant
            n == db.profiles@.len(),
            has_id(db.profiles@, drawn),
            exists|f: int| 0 <= f <= n && !#[trigger] has_id(db.profiles@, f as u128),
            forall|k: int| 0 <= k < c ==> has_id(db.profiles@, #[trigger] (k as u128)),
        decreases n + 1 - c,
    {
        if Profile::get_by_id(db, c).is_err() {
            return c;
        }
        assert(has_id(db.profiles@, c));
        assert(forall|k: int| 0 <= k < c + 1 ==> has_id(db.profiles@, #[trigger] (k as u128)));
        c = c + 1;
    }
    proof {
        let f = choose|f: int| 0 <= f <= n && !#[trigger] has_id(db.profiles@, f as u128);
        assert(has_id(db.profiles@, f as u128));
    }
    0
}

impl SwagaBot {
    /// Handles one text message; `new_id` is the id that a profile created by
    /// registration gets.
    pub fn handle_message(
        &mut self,
        chat_id: i64,
        user_id: i64,
        username: Option<String>,
        text: &str,
        new_id: u128,
    ) -> (r: Vec<Reply>)
        requires
            old(self).wf(),
        ensures
            final(self).wf(),
            message_outcome(*old(self), *final(self), chat_id, user_id, username, text@, new_id, r@),
    {
        if text.unicode_len() > 0 && text.get_char(0) == '/' {
            match Command::parse(text) {
                None => {
                    let r = vec![Reply::CommandNotFound];
                    assert(r@ == seq![Reply::CommandNotFound]);
                    assert(unchanged(*self, *old(self)));
                    r
                },
                Some(_) => self.start(chat_id, user_id, username, new_id),
            }
        } else {
            let st = self.state_of(chat_id);
            if matches!(st, State::Start) || matches!(st, State::Profile { .. }) {
                let r: Vec<Reply> = Vec::new();
                assert(r@.len() == 0);
                assert(unchanged(*self, *old(self)));
                return r;
            }
            let u = match username {
                None => {
                    let r = vec![Reply::Failure(BotError::InvalidInput)];
                    assert(r@ == seq![Reply::Failure(BotError::InvalidInput)]);
                    assert(unchanged(*self, *old(self)));
                    return r;
                },
                Some(u) => u,
            };
            match st {
                State::ListOptions => {
                    let choice = parse_number(text);
                    if choice == Some(1i32) {
                        self.next_profile(chat_id, u.as_str())
                    } else if choice == Some(2i32) {
                        let r = self.refresh_profile(chat_id);
                        r
                    } else {
                        let r = self.handle_generic_error(chat_id);
                        assert(unchanged(*self, *old(self)));
                        r
                    }
                },
                State::ViewProfiles => self.next_profile(chat_id, u.as_str()),
                State::InputAge => match parse_number(text) {
                    Some(age) => self.save_age(chat_id, age, u.as_str()),
                    None => {
                        let r = self.handle_generic_error(chat_id);
                        assert(unchanged(*self, *old(self)));
                        r
                    },
                },
                _ => self.save_gender(chat_id, text, u.as_str()),
            }
        }
    }

    /// Handles one text message, drawing a random id for a profile that
    /// registration may create (the smallest free id where the drawn one is
    /// taken).
    pub fn message_handler(
        &mut self,
        chat_id: i64,
        user_id: i64,
        username: Option<String>,
        text: &str,
    ) -> (r: Vec<Reply>)
        requires
            old(self).wf(),
        ensures
            final(self).wf(),
            exists|new_id: u128|
                !has_id(old(self).database_view().profiles@, new_id) && message_outcome(
                    *old(self),
                    *final(self),
                    chat_id,
                    user_id,
                    username,
                    text@,
                    new_id,
                    #[trigger] r@,
                ),
    {
        let new_id = unused_id(&self.db, fresh_id());
        self.handle_message(chat_id, user_id, username, text, new_id)
    }
}

/// The menu choice `1` as text.
pub proof fn lemma_menu_choice_one()
    ensures
        i32_of_text("1"@) == Some(1i32),
{
    reveal_strlit("1");
    let t = "1"@;
    assert(t.len() == 1 && t[0] == '1');
    assert(t.drop_last().len() == 0);
    assert(digits_value(t.drop_last()) == 0);
    assert(t.last() == '1');
    assert(('1' as u32) == 49u32 && ('0' as u32) == 48u32);
    assert(digits_value(t) == 1);
    assert(all_digits(t));
}

/// The conversation's fixed paths: from `Start`, `/start` from a sender with
/// a handle ends at `ListOptions` (unless a new profile is needed and its id is
/// taken); from `ListOptions`, `1` from a sender with a handle ends at
/// `ViewProfiles`; in every state, an unknown command changes no state and is
/// answered by exactly one `CommandNotFound`.
pub proof fn lemma_conversation_paths(
    before: SwagaBot,
    after: SwagaBot,
    chat_id: i64,
    user_id: i64,
    username: Option<String>,
    t: Seq<char>,
    new_id: u128,
    r: Seq<Reply>,
)
    requires
        message_outcome(before, after, chat_id, user_id, username, t, new_id, r),
    ensures
        before.dialogue_state(chat_id) == State::Start && t == "/start"@ && username is Some && (
        has_username(before.database_view().profiles@, username->Some_0@) || has_user_id(
            before.database_view().profiles@,
            user_id,
        ) || !has_id(before.database_view().profiles@, new_id)) ==> after.dialogue_state(chat_id)
            == State::ListOptions,
        before.dialogue_state(chat_id) == State::ListOptions && t == "1"@ && username is Some
            ==> after.dialogue_state(chat_id) == State::ViewProfiles,
        is_command_text(t) && command_of(t) is None ==> r == seq![Reply::CommandNotFound]
            && after.same_states(&before),
{
    reveal_strlit("/start");
    reveal_strlit("1");
    lemma_menu_choice_one();
    assert("1"@[0] == '1');
}

} // verus!
