//! The rooms of a server, and what each of them holds: its messages, questions
//! and polls, who may speak in it, and who has already voted or reacted.

use std::collections::{HashMap, VecDeque};

use vstd::hash_map::StringHashMap;
use vstd::hash_set::StringHashSet;
use vstd::prelude::*;
use vstd::std_specs::hash::*;

use crate::auth::{admin_token, admin_token_of, ct_eq};
use crate::config::Config;
use crate::json::{empty_object, number, number_or_null, text_or_null, Json, JsonView};
use crate::list::{map_views, views, HasId, Item};
use crate::outside::{
    creations_held, creations_new, rooms_held, rooms_insert, rooms_new, rooms_remove,
    since_unix_epoch,
};
use crate::table::StrMap;
use crate::wire::{
    messages_json, messages_to_json, pending_to_json, polls_json, polls_to_json, questions_json,
    questions_to_json,
};

verus! {

broadcast use group_hash_axioms;

// ── Clock ───────────────────────────────────────────────────────────────────

/// Milliseconds as a clock reading: 0 for a clock set before the epoch, and
/// only the low 64 bits of a count that needs more.
pub fn clock_ms(elapsed: Option<u128>) -> (r: u64)
    ensures
        r == match elapsed {
            Some(ms) => ms as u64,
            None => 0,
        },
{
    match elapsed {
        Some(ms) => #[verifier::truncate] (ms as u64),
        None => 0,
    }
}

/// Milliseconds since the Unix epoch. Never panics: a clock set before the
/// epoch yields 0. Which value it is depends on the clock, so nothing is said
/// of it here; see [`clock_ms`].
pub fn now_ms() -> u64 {
    match since_unix_epoch(std::time::SystemTime::now()) {
        Ok(d) => clock_ms(Some(d.as_millis())),
        Err(_) => clock_ms(None),
    }
}

/// A point in time some seconds after another, as far as the clock goes.
pub open spec fn seconds_after(now: u64, seconds: u64) -> u64 {
    if now + seconds * 1000 > u64::MAX {
        u64::MAX
    } else {
        (now + seconds * 1000) as u64
    }
}

/// A point in time some seconds after another, as far as the clock goes.
pub fn deadline(now: u64, seconds: u64) -> (r: u64)
    ensures
        r == seconds_after(now, seconds),
{
    if seconds > u64::MAX / 1000 {
        u64::MAX
    } else {
        now.saturating_add(seconds * 1000)
    }
}

// ── Messages, questions, polls ──────────────────────────────────────────────

/// A chat message.
#[derive(Debug)]
pub struct Message {
    pub id: u64,
    /// `admin` or `user`.
    pub role: String,
    pub text: String,
    /// When it was sent, in epoch milliseconds.
    pub ts: u64,
    /// How many participants reacted with each emoji.
    pub reactions: StrMap<u32>,
}

#[verifier::ext_equal]
pub struct MessageView {
    pub id: u64,
    pub role: Seq<char>,
    pub text: Seq<char>,
    pub ts: u64,
    pub reactions: Map<Seq<char>, u32>,
}

impl View for Message {
    type V = MessageView;

    open spec fn view(&self) -> MessageView {
        MessageView {
            id: self.id,
            role: self.role@,
            text: self.text@,
            ts: self.ts,
            reactions: self.reactions@,
        }
    }
}

impl HasId for MessageView {
    open spec fn id_of(self) -> u64 {
        self.id
    }
}

impl Item for Message {
    fn item_id(&self) -> u64 {
        self.id
    }
}

/// A question put to the presenter.
#[derive(Debug)]
pub struct Question {
    pub id: u64,
    pub text: String,
    pub votes: u32,
    pub pinned: bool,
    pub answered: bool,
}

pub struct QuestionView {
    pub id: u64,
    pub text: Seq<char>,
    pub votes: u32,
    pub pinned: bool,
    pub answered: bool,
}

impl View for Question {
    type V = QuestionView;

    open spec fn view(&self) -> QuestionView {
        QuestionView {
            id: self.id,
            text: self.text@,
            votes: self.votes,
            pinned: self.pinned,
            answered: self.answered,
        }
    }
}

impl HasId for QuestionView {
    open spec fn id_of(self) -> u64 {
        self.id
    }
}

impl Item for Question {
    fn item_id(&self) -> u64 {
        self.id
    }
}

/// One answer of a poll.
#[derive(Debug)]
pub struct PollOption {
    pub text: String,
    pub votes: u32,
}

pub struct PollOptionView {
    pub text: Seq<char>,
    pub votes: u32,
}

impl View for PollOption {
    type V = PollOptionView;

    open spec fn view(&self) -> PollOptionView {
        PollOptionView { text: self.text@, votes: self.votes }
    }
}

/// A poll.
#[derive(Debug)]
pub struct Poll {
    pub id: u64,
    pub question: String,
    pub options: Vec<PollOption>,
    pub closed: bool,
}

#[verifier::ext_equal]
pub struct PollView {
    pub id: u64,
    pub question: Seq<char>,
    pub options: Seq<PollOptionView>,
    pub closed: bool,
}

impl View for Poll {
    type V = PollView;

    open spec fn view(&self) -> PollView {
        PollView {
            id: self.id,
            question: self.question@,
            options: views(self.options@),
            closed: self.closed,
        }
    }
}

impl HasId for PollView {
    open spec fn id_of(self) -> u64 {
        self.id
    }
}

impl Item for Poll {
    fn item_id(&self) -> u64 {
        self.id
    }
}

// ── Who voted, who reacted ──────────────────────────────────────────────────

/// Who has voted on the thing with the given id.
pub open spec fn voters_of(m: Map<u64, Set<Seq<char>>>, id: u64) -> Set<Seq<char>> {
    if m.contains_key(id) {
        m[id]
    } else {
        Set::empty()
    }
}

/// Takes the voters on the thing with the given id out of the map.
pub fn take_voters(m: &mut HashMap<u64, StringHashSet>, id: u64) -> (r: StringHashSet)
    ensures
        r@ == voters_of(map_views(old(m)@), id),
        map_views(final(m)@) == map_views(old(m)@).remove(id),
{
    let r: StringHashSet = match m.remove(&id) {
        Some(s) => s,
        None => StringHashSet::new(),
    };
    assert(map_views(m@) == map_views(old(m)@).remove(id));
    r
}

/// Puts voters on the thing with the given id into the map.
pub fn put_voters(m: &mut HashMap<u64, StringHashSet>, id: u64, voters: StringHashSet)
    ensures
        map_views(final(m)@) == map_views(old(m)@).insert(id, voters@),
{
    m.insert(id, voters);
    assert(map_views(m@) == map_views(old(m)@).insert(id, voters@));
}

/// Drops the voters on the thing with the given id.
pub fn drop_voters(m: &mut HashMap<u64, StringHashSet>, id: u64)
    ensures
        map_views(final(m)@) == map_views(old(m)@).remove(id),
{
    m.remove(&id);
    assert(map_views(m@) == map_views(old(m)@).remove(id));
}

/// Who reacted to which message with which emoji.
pub struct ReactionBook {
    pub by_message: HashMap<u64, StrMap<StringHashSet>>,
}

pub open spec fn book_view(m: Map<u64, StrMap<StringHashSet>>) -> Map<
    (u64, Seq<char>),
    Set<Seq<char>>,
> {
    Map::new(
        |k: (u64, Seq<char>)| m.contains_key(k.0) && m[k.0]@.contains_key(k.1),
        |k: (u64, Seq<char>)| m[k.0]@[k.1]@,
    )
}

impl View for ReactionBook {
    type V = Map<(u64, Seq<char>), Set<Seq<char>>>;

    open spec fn view(&self) -> Map<(u64, Seq<char>), Set<Seq<char>>> {
        book_view(self.by_message@)
    }
}

/// The reactions to all messages but one.
pub open spec fn without_message(
    m: Map<(u64, Seq<char>), Set<Seq<char>>>,
    id: u64,
) -> Map<(u64, Seq<char>), Set<Seq<char>>> {
    Map::new(
        |k: (u64, Seq<char>)| m.contains_key(k) && k.0 != id,
        |k: (u64, Seq<char>)| m[k],
    )
}

impl ReactionBook {
    /// The book in which nobody has reacted to anything.
    pub fn new() -> (r: ReactionBook)
        ensures
            r@ == Map::<(u64, Seq<char>), Set<Seq<char>>>::empty(),
    {
        let r = ReactionBook { by_message: HashMap::new() };
        assert(r@ == Map::<(u64, Seq<char>), Set<Seq<char>>>::empty());
        r
    }

    /// Takes out who reacted to a message with an emoji.
    pub fn take(&mut self, id: u64, emoji: &str) -> (r: Option<StringHashSet>)
        ensures
            final(self)@ == old(self)@.remove((id, emoji@)),
            match r {
                Some(s) => old(self)@.contains_key((id, emoji@)) && s@ == old(self)@[(id, emoji@)],
                None => !old(self)@.contains_key((id, emoji@)),
            },
    {
        let r: Option<StringHashSet> = match self.by_message.remove(&id) {
            Some(table) => {
                let mut table = table;
                let ghost before = table@;
                let r: Option<StringHashSet> = table.take(emoji);
                assert(forall|e: Seq<char>| #[trigger]
                    before.contains_key(e) && e != emoji@ ==> table@.contains_key(e));
                if !table.is_empty() {
                    self.by_message.insert(id, table);
                }
                r
            },
            None => None,
        };
        assert(self@ == old(self)@.remove((id, emoji@)));
        r
    }

    /// Sets who reacted to a message with an emoji.
    pub fn insert(&mut self, id: u64, emoji: &str, users: StringHashSet)
        ensures
            final(self)@ == old(self)@.insert((id, emoji@), users@),
    {
        let mut table: StrMap<StringHashSet> = match self.by_message.remove(&id) {
            Some(table) => table,
            None => StrMap::new(),
        };
        table.insert(emoji.to_owned(), users);
        self.by_message.insert(id, table);
        assert(self@ == old(self)@.insert((id, emoji@), users@));
    }

    /// Forgets the reactions to a message.
    pub fn drop_message(&mut self, id: u64)
        ensures
            final(self)@ == without_message(old(self)@, id),
    {
        self.by_message.remove(&id);
        assert(self@ == without_message(old(self)@, id));
    }
}

// ── Rooms ───────────────────────────────────────────────────────────────────

/// Per-room configuration captured at creation (already clamped to limits).
#[derive(Debug, Clone, Copy)]
pub struct RoomConfig {
    pub max_messages: usize,
    pub max_participants: usize,
    pub rate_limit_ms: u64,
    pub max_message_length: usize,
    pub moderated: bool,
}

/// The content of a room.
pub struct RoomInner {
    pub messages: VecDeque<Message>,
    pub questions: Vec<Question>,
    pub polls: Vec<Poll>,
    pub pending_messages: Vec<Message>,
    pub pending_questions: Vec<Question>,
    pub locked: bool,
    /// Deadline of a timed lock, in epoch milliseconds.
    pub locked_until: Option<u64>,
    /// Bumped on every lock change; a timed unlock fires only if the epoch it
    /// was scheduled with is still current, so a later manual lock or unlock is
    /// never undone by a stale timer.
    pub lock_epoch: u64,
    pub participants: usize,
    pub next_msg_id: u64,
    pub next_question_id: u64,
    pub next_poll_id: u64,
    /// Tokens admitted to this room.
    pub sessions: StringHashSet,
    /// When each identity last sent a message, in epoch milliseconds.
    pub last_message_at: StringHashMap<u64>,
    /// Who has voted on which question.
    pub question_voters: HashMap<u64, StringHashSet>,
    /// Who has voted in which poll.
    pub poll_voters: HashMap<u64, StringHashSet>,
    /// Who has reacted to which message with which emoji.
    pub reaction_users: ReactionBook,
}

#[verifier::ext_equal]
pub struct RoomView {
    pub messages: Seq<MessageView>,
    pub questions: Seq<QuestionView>,
    pub polls: Seq<PollView>,
    pub pending_messages: Seq<MessageView>,
    pub pending_questions: Seq<QuestionView>,
    pub locked: bool,
    pub locked_until: Option<u64>,
    pub lock_epoch: u64,
    pub participants: usize,
    pub next_msg_id: u64,
    pub next_question_id: u64,
    pub next_poll_id: u64,
    pub sessions: Set<Seq<char>>,
    pub last_message_at: Map<Seq<char>, u64>,
    pub question_voters: Map<u64, Set<Seq<char>>>,
    pub poll_voters: Map<u64, Set<Seq<char>>>,
    pub reaction_users: Map<(u64, Seq<char>), Set<Seq<char>>>,
}

impl View for RoomInner {
    type V = RoomView;

    open spec fn view(&self) -> RoomView {
        RoomView {
            messages: views(self.messages@),
            questions: views(self.questions@),
            polls: views(self.polls@),
            pending_messages: views(self.pending_messages@),
            pending_questions: views(self.pending_questions@),
            locked: self.locked,
            locked_until: self.locked_until,
            lock_epoch: self.lock_epoch,
            participants: self.participants,
            next_msg_id: self.next_msg_id,
            next_question_id: self.next_question_id,
            next_poll_id: self.next_poll_id,
            sessions: self.sessions@,
            last_message_at: self.last_message_at@,
            question_voters: map_views(self.question_voters@),
            poll_voters: map_views(self.poll_voters@),
            reaction_users: self.reaction_users@,
        }
    }
}

/// A room in which nothing has happened.
pub open spec fn empty_room() -> RoomView {
    RoomView {
        messages: Seq::empty(),
        questions: Seq::empty(),
        polls: Seq::empty(),
        pending_messages: Seq::empty(),
        pending_questions: Seq::empty(),
        locked: false,
        locked_until: None,
        lock_epoch: 0,
        participants: 0,
        next_msg_id: 0,
        next_question_id: 0,
        next_poll_id: 0,
        sessions: Set::empty(),
        last_message_at: Map::empty(),
        question_voters: Map::empty(),
        poll_voters: Map::empty(),
        reaction_users: Map::empty(),
    }
}

impl RoomView {
    /// Whether the room is locked at the time `now`: a timed lock whose
    /// deadline has passed is none.
    pub open spec fn locked_at(self, now: u64) -> bool {
        self.locked && match self.locked_until {
            Some(until) => now < until,
            None => true,
        }
    }

    /// Whether no counter of the room has reached the end of its range.
    pub open spec fn has_headroom(self) -> bool {
        &&& self.next_msg_id < u64::MAX
        &&& self.next_question_id < u64::MAX
        &&& self.next_poll_id < u64::MAX
        &&& self.lock_epoch < u64::MAX
        &&& forall|i: int|
            0 <= i < self.questions.len() ==> (#[trigger] self.questions[i]).votes < u32::MAX
        &&& forall|i: int, k: int|
            0 <= i < self.polls.len() && 0 <= k < self.polls[i].options.len() ==> (
            #[trigger] self.polls[i].options[k]).votes < u32::MAX
    }

    /// The picture of the room that a client gets at the time `now`. Pending
    /// items are for admins only.
    pub open spec fn snapshot(
        self,
        room_id: Seq<char>,
        is_admin: bool,
        title: Option<Seq<char>>,
        now: u64,
    ) -> JsonView {
        let locked = self.locked_at(now);
        let all = empty_object().with("id"@, JsonView::Str(room_id)).with(
            "title"@,
            text_or_null(title),
        ).with("locked"@, JsonView::Bool(locked)).with(
            "locked_until"@,
            number_or_null(
                if locked {
                    self.locked_until
                } else {
                    None
                },
            ),
        ).with("participants"@, number(self.participants as int)).with(
            "messages"@,
            JsonView::Array(messages_json(self.messages)),
        ).with("questions"@, JsonView::Array(questions_json(self.questions))).with(
            "polls"@,
            JsonView::Array(polls_json(self.polls)),
        );
        if is_admin {
            all.with(
                "pending_messages"@,
                JsonView::Array(messages_json(self.pending_messages)),
            ).with(
                "pending_questions"@,
                JsonView::Array(questions_json(self.pending_questions)),
            )
        } else {
            all
        }
    }
}

/// The characters of an optional text.
pub open spec fn opt_text(s: Option<&str>) -> Option<Seq<char>> {
    match s {
        Some(s) => Some(s@),
        None => None,
    }
}

/// The characters of an optional string.
pub open spec fn opt_string(s: Option<String>) -> Option<Seq<char>> {
    match s {
        Some(s) => Some(s@),
        None => None,
    }
}

impl Default for RoomInner {
    fn default() -> (r: RoomInner)
        ensures
            r@ == empty_room(),
    {
        let r = RoomInner {
            messages: VecDeque::new(),
            questions: Vec::new(),
            polls: Vec::new(),
            pending_messages: Vec::new(),
            pending_questions: Vec::new(),
            locked: false,
            locked_until: None,
            lock_epoch: 0,
            participants: 0,
            next_msg_id: 0,
            next_question_id: 0,
            next_poll_id: 0,
            sessions: StringHashSet::new(),
            last_message_at: StringHashMap::new(),
            question_voters: HashMap::new(),
            poll_voters: HashMap::new(),
            reaction_users: ReactionBook::new(),
        };
        assert(r@ =~= empty_room());
        r
    }
}

impl RoomInner {
    /// Whether the room is locked at the time `now`. A timed lock whose
    /// deadline has passed reads as unlocked even if the timer that lifts it
    /// has not fired yet.
    pub fn effective_locked_at(&self, now: u64) -> (r: bool)
        ensures
            r == self@.locked_at(now),
    {
        self.locked && match self.locked_until {
            Some(until) => now < until,
            None => true,
        }
    }

    /// Whether the room is locked now.
    pub fn effective_locked(&self) -> (r: bool)
        ensures
            exists|now: u64| r == #[trigger] self@.locked_at(now),
    {
        let now: u64 = now_ms();
        self.effective_locked_at(now)
    }

    /// The picture of the room at the time `now`.
    pub fn snapshot_at(
        &self,
        room_id: &str,
        is_admin: bool,
        title: Option<&str>,
        now: u64,
    ) -> (r: Json)
        ensures
            r@ == self@.snapshot(room_id@, is_admin, opt_text(title), now),
    {
        let locked: bool = self.effective_locked_at(now);
        let title_json: Json = match title {
            Some(t) => Json::text(t),
            None => Json::Null,
        };
        let all: Json = Json::object().with("id", Json::text(room_id)).with(
            "title",
            title_json,
        ).with("locked", Json::Bool(locked)).with(
            "locked_until",
            Json::number_or_null(
                if locked {
                    self.locked_until
                } else {
                    None
                },
            ),
        ).with("participants", Json::number(self.participants as u64)).with(
            "messages",
            messages_to_json(&self.messages),
        ).with("questions", questions_to_json(&self.questions)).with(
            "polls",
            polls_to_json(&self.polls),
        );
        if is_admin {
            all.with("pending_messages", pending_to_json(&self.pending_messages)).with(
                "pending_questions",
                questions_to_json(&self.pending_questions),
            )
        } else {
            all
        }
    }

    /// The picture of the room now, with the pending items for an admin.
    pub fn snapshot_for(&self, room_id: &str, is_admin: bool, title: Option<&str>) -> (r: Json)
        ensures
            exists|now: u64|
                r@ == #[trigger] self@.snapshot(room_id@, is_admin, opt_text(title), now),
    {
        let now: u64 = now_ms();
        self.snapshot_at(room_id, is_admin, title, now)
    }

    /// The picture of the room that a participant gets now.
    pub fn snapshot(&self, room_id: &str, title: Option<&str>) -> (r: Json)
        ensures
            exists|now: u64|
                r@ == #[trigger] self@.snapshot(room_id@, false, opt_text(title), now),
    {
        self.snapshot_for(room_id, false, title)
    }

    /// Issues the next message id.
    pub fn next_msg_id(&mut self) -> (r: u64)
        requires
            old(self).next_msg_id < u64::MAX,
        ensures
            r == old(self).next_msg_id + 1,
            final(self)@ == (RoomView { next_msg_id: r, ..old(self)@ }),
    {
        self.next_msg_id += 1;
        self.next_msg_id
    }

    /// Issues the next question id.
    pub fn next_question_id(&mut self) -> (r: u64)
        requires
            old(self).next_question_id < u64::MAX,
        ensures
            r == old(self).next_question_id + 1,
            final(self)@ == (RoomView { next_question_id: r, ..old(self)@ }),
    {
        self.next_question_id += 1;
        self.next_question_id
    }

    /// Issues the next poll id.
    pub fn next_poll_id(&mut self) -> (r: u64)
        requires
            old(self).next_poll_id < u64::MAX,
        ensures
            r == old(self).next_poll_id + 1,
            final(self)@ == (RoomView { next_poll_id: r, ..old(self)@ }),
    {
        self.next_poll_id += 1;
        self.next_poll_id
    }

    /// Whether no counter has reached the end of its range.
    pub fn has_headroom(&self) -> (r: bool)
        ensures
            r == self@.has_headroom(),
    {
        if self.next_msg_id == u64::MAX || self.next_question_id == u64::MAX || self.next_poll_id
            == u64::MAX || self.lock_epoch == u64::MAX {
            return false;
        }
        let mut i: usize = 0;
        while i < self.questions.len()
            invariant
                i <= self.questions@.len(),
                forall|k: int|
                    0 <= k < i ==> (#[trigger] self@.questions[k]).votes < u32::MAX,
            decreases self.questions@.len() - i,
        {
            if self.questions[i].votes == u32::MAX {
                assert(!(self@.questions[i as int].votes < u32::MAX));
                return false;
            }
            i += 1;
        }
        let mut p: usize = 0;
        while p < self.polls.len()
            invariant
                p <= self.polls@.len(),
                forall|k: int, l: int|
                    0 <= k < p && 0 <= l < self@.polls[k].options.len() ==> (
                    #[trigger] self@.polls[k].options[l]).votes < u32::MAX,
            decreases self.polls@.len() - p,
        {
            let mut o: usize = 0;
            while o < self.polls[p].options.len()
                invariant
                    p < self.polls@.len(),
                    o <= self.polls@[p as int].options@.len(),
                    forall|l: int|
                        0 <= l < o ==> (#[trigger] self@.polls[p as int].options[l]).votes
                            < u32::MAX,
                decreases self.polls@[p as int].options@.len() - o,
            {
                if self.polls[p].options[o].votes == u32::MAX {
                    assert(!(self@.polls[p as int].options[o as int].votes < u32::MAX));
                    return false;
                }
                o += 1;
            }
            p += 1;
        }
        true
    }
}

// ── Rooms with their owners ─────────────────────────────────────────────────

/// A room: who owns it, how long it lives, and what it holds.
pub struct Room {
    pub id: String,
    pub title: Option<String>,
    /// Whoever holds it is admin. Kept so that the admin token can be derived.
    pub secret: String,
    pub password_hash: Option<String>,
    /// In epoch milliseconds; `u64::MAX` means never.
    pub expires_at: u64,
    pub cfg: RoomConfig,
    pub inner: RoomInner,
}

#[verifier::ext_equal]
pub struct RoomModel {
    pub id: Seq<char>,
    pub title: Option<Seq<char>>,
    pub secret: Seq<char>,
    pub password_hash: Option<Seq<char>>,
    pub expires_at: u64,
    pub cfg: RoomConfig,
    pub inner: RoomView,
}

impl View for Room {
    type V = RoomModel;

    open spec fn view(&self) -> RoomModel {
        RoomModel {
            id: self.id@,
            title: opt_string(self.title),
            secret: self.secret@,
            password_hash: opt_string(self.password_hash),
            expires_at: self.expires_at,
            cfg: self.cfg,
            inner: self.inner@,
        }
    }
}

impl RoomModel {
    /// Whether the room's time is up at the time `now`.
    pub open spec fn expired_at(self, now: u64) -> bool {
        now >= self.expires_at
    }

    /// Whether a token is the room's admin token.
    pub open spec fn is_admin_token(self, token: Seq<char>) -> bool {
        token == admin_token_of(self.secret, self.id)
    }

    /// The picture of the room that a client gets at the time `now`.
    pub open spec fn snapshot(self, is_admin: bool, now: u64) -> JsonView {
        self.inner.snapshot(self.id, is_admin, self.title, now)
    }
}

impl Room {
    /// A room in which nothing has happened yet.
    pub fn new(
        id: String,
        title: Option<String>,
        secret: String,
        password_hash: Option<String>,
        expires_at: u64,
        cfg: RoomConfig,
    ) -> (r: Room)
        ensures
            r@ == (RoomModel {
                id: id@,
                title: opt_string(title),
                secret: secret@,
                password_hash: opt_string(password_hash),
                expires_at,
                cfg,
                inner: empty_room(),
            }),
    {
        Room { id, title, secret, password_hash, expires_at, cfg, inner: RoomInner::default() }
    }

    /// The permanent test room: its id and its secret are both `test`, it never
    /// expires, and it takes the defaults of the configuration.
    pub fn test_room(config: &Config) -> (r: Room)
        requires
            config.default_rate_limit_seconds * 1000 <= u64::MAX,
        ensures
            r@ == (RoomModel {
                id: "test"@,
                title: None,
                secret: "test"@,
                password_hash: None,
                expires_at: u64::MAX,
                cfg: RoomConfig {
                    max_messages: config.default_max_messages,
                    max_participants: config.default_max_participants,
                    rate_limit_ms: (config.default_rate_limit_seconds * 1000) as u64,
                    max_message_length: config.max_message_length,
                    moderated: false,
                },
                inner: empty_room(),
            }),
    {
        Room::new(
            "test".to_owned(),
            None,
            "test".to_owned(),
            None,
            u64::MAX,
            RoomConfig {
                max_messages: config.default_max_messages,
                max_participants: config.default_max_participants,
                rate_limit_ms: config.default_rate_limit_seconds * 1000,
                max_message_length: config.max_message_length,
                moderated: false,
            },
        )
    }

    /// Whether the room's time is up at the time `now`.
    pub fn is_expired_at(&self, now: u64) -> (r: bool)
        ensures
            r == self@.expired_at(now),
    {
        now >= self.expires_at
    }

    /// Whether the room's time is up now.
    pub fn is_expired(&self) -> (r: bool)
        ensures
            exists|now: u64| r == #[trigger] self@.expired_at(now),
    {
        let now: u64 = now_ms();
        self.is_expired_at(now)
    }

    /// Whether a token is the room's admin token. It is derived again on each
    /// call, and compared in constant time.
    pub fn is_admin_token(&self, token: &str) -> (r: bool)
        ensures
            r == self@.is_admin_token(token@),
    {
        ct_eq(token, admin_token(self.secret.as_str(), self.id.as_str()).as_str())
    }

    /// The title, borrowed.
    fn title_ref(&self) -> (r: Option<&str>)
        ensures
            opt_text(r) == self@.title,
    {
        match &self.title {
            Some(t) => Some(t.as_str()),
            None => None,
        }
    }

    /// The picture of the room that a client gets at the time `now`.
    pub fn picture(&self, is_admin: bool, now: u64) -> (r: Json)
        ensures
            r@ == self@.snapshot(is_admin, now),
    {
        self.inner.snapshot_at(self.id.as_str(), is_admin, self.title_ref(), now)
    }

    /// The picture of the room that an admin gets now.
    pub fn snapshot(&self) -> (r: Json)
        ensures
            exists|now: u64| r@ == #[trigger] self@.snapshot(true, now),
    {
        let now: u64 = now_ms();
        self.picture(true, now)
    }
}

// ── The server ──────────────────────────────────────────────────────────────

/// Every live room by its id.
pub type Rooms = dashmap::DashMap<String, Room>;

/// What a server knows: its rooms, and which address opened rooms when.
pub struct AppState {
    pub rooms: Rooms,
    pub config: Config,
    /// Address to the times (epoch milliseconds) of its recent room creations.
    pub creation_limiter: dashmap::DashMap<String, Vec<u64>>,
}

#[verifier::ext_equal]
pub struct AppView {
    pub rooms: Map<Seq<char>, RoomModel>,
    pub config: Config,
    pub creations: Map<Seq<char>, Seq<u64>>,
}

impl View for AppState {
    type V = AppView;

    open spec fn view(&self) -> AppView {
        AppView {
            rooms: rooms_held(self.rooms),
            config: self.config,
            creations: creations_held(self.creation_limiter),
        }
    }
}

impl AppView {
    /// Whether every room stands under its own id.
    pub open spec fn well_keyed(self) -> bool {
        forall|id: Seq<char>| #[trigger] self.rooms.contains_key(id) ==> self.rooms[id].id == id
    }

    /// The server after a room was put in.
    pub open spec fn with_room(self, room: RoomModel) -> AppView {
        AppView { rooms: self.rooms.insert(room.id, room), ..self }
    }

    /// The server without a room.
    pub open spec fn without_room(self, id: Seq<char>) -> AppView {
        AppView { rooms: self.rooms.remove(id), ..self }
    }
}

impl AppState {
    /// A server without rooms.
    pub fn new(config: Config) -> (r: AppState)
        ensures
            r@ == (AppView { rooms: Map::empty(), config, creations: Map::empty() }),
    {
        AppState { rooms: rooms_new(), config, creation_limiter: creations_new() }
    }

    /// Puts a room in, in place of any other with its id.
    pub fn put_room(&mut self, room: Room)
        ensures
            final(self)@ == old(self)@.with_room(room@),
    {
        let id: String = room.id.clone();
        rooms_insert(&mut self.rooms, id, room);
    }

    /// Takes a room out.
    pub fn take_room(&mut self, id: &str) -> (r: Option<Room>)
        ensures
            final(self)@ == old(self)@.without_room(id@),
            match r {
                Some(room) => old(self)@.rooms.contains_key(id@) && room@ == old(self)@.rooms[id@],
                None => !old(self)@.rooms.contains_key(id@),
            },
    {
        rooms_remove(&mut self.rooms, id)
    }
}

} // verus!
