//! The client protocol: what a client may ask of a room, and what the room
//! does about it.
//!
//! A client sends JSON frames. Each is decoded into an [`Action`], which
//! changes the room and yields [`Effect`]s: events to send, entries for the
//! event log, a timer to start. Nothing here touches a socket; the server
//! around the library carries the effects out.

use vstd::hash_set::StringHashSet;
use vstd::prelude::*;

use crate::event::{
    add_vote, answer_one, answered_one, close_poll, make_message, make_poll, make_question,
    new_message, new_poll, new_question, pin_only, pinned_only, poll_closed, poll_votable,
    poll_voted, remove_vote, set_count, votable, vote_added, vote_poll, vote_removed, with_count,
    EventView, RoomEvent,
};
use crate::json::{
    empty_object, items_view, lemma_items_view, number, number_or_null, Json, JsonView,
};
use crate::list::{
    drop_id, drop_queued, find, find_id, find_queued, keep_last, trim_queued, views, without,
};
use crate::state::{
    deadline, drop_voters, put_voters, seconds_after, take_voters, voters_of, without_message,
    Message, MessageView, Poll, Question, QuestionView, RoomConfig, RoomInner, RoomView,
};
use crate::text::{has_prefix, starts_with, str_eq, trim, trimmed};
use crate::wire::{
    display_event, error_event, event, id_event, lock_event, make_error, make_event, make_id_event,
    make_room_closed_event, message_json, message_to_json, options_to_json, pin_event, poll_json,
    poll_to_json, poll_update_event, question_json, question_to_json, reaction_event,
    room_closed_event, unlock_event, vote_event,
};

verus! {

// ── Effects ─────────────────────────────────────────────────────────────────

/// What is to be done about an action, apart from changing the room.
#[derive(Debug)]
pub enum Effect {
    /// Send an event to the client that asked.
    Reply(Json),
    /// Send an event to everyone in the room.
    Broadcast(Json),
    /// Send an event to the admins in the room.
    BroadcastAdmin(Json),
    /// Append an entry to the room's event log.
    Persist(RoomEvent),
    /// After so many seconds, lift the lock if it is still the one of this
    /// epoch.
    ScheduleUnlock { seconds: u64, epoch: u64 },
    /// Remove the room, and what is stored of it.
    CloseRoom,
}

pub enum EffectView {
    Reply(JsonView),
    Broadcast(JsonView),
    BroadcastAdmin(JsonView),
    Persist(EventView),
    ScheduleUnlock { seconds: u64, epoch: u64 },
    CloseRoom,
}

impl View for Effect {
    type V = EffectView;

    open spec fn view(&self) -> EffectView {
        match *self {
            Effect::Reply(j) => EffectView::Reply(j@),
            Effect::Broadcast(j) => EffectView::Broadcast(j@),
            Effect::BroadcastAdmin(j) => EffectView::BroadcastAdmin(j@),
            Effect::Persist(e) => EffectView::Persist(e@),
            Effect::ScheduleUnlock { seconds, epoch } => EffectView::ScheduleUnlock {
                seconds,
                epoch,
            },
            Effect::CloseRoom => EffectView::CloseRoom,
        }
    }
}

/// A room and the effects of what was done to it.
pub type Step = (RoomView, Seq<EffectView>);

/// What is logged of an event: nothing in the test room.
pub open spec fn logged(room_id: Seq<char>, e: EventView) -> Seq<EffectView> {
    if room_id == "test"@ {
        Seq::empty()
    } else {
        seq![EffectView::Persist(e)]
    }
}

/// What is done about an event that everyone is told of: it is sent out, then
/// logged.
pub open spec fn announced(room_id: Seq<char>, e: EventView, j: JsonView) -> Seq<EffectView> {
    seq![EffectView::Broadcast(j)] + logged(room_id, e)
}

/// What is done about an item that waits for an admin: its author and the admins
/// are told, then it is logged.
pub open spec fn submitted(room_id: Seq<char>, e: EventView, j: JsonView) -> Seq<EffectView> {
    seq![EffectView::Reply(j), EffectView::BroadcastAdmin(j)] + logged(room_id, e)
}

/// Nothing changes, and the client is told why.
pub open spec fn refused(s: RoomView, code: Seq<char>, message: Seq<char>) -> Step {
    (s, seq![EffectView::Reply(error_event(code, message))])
}

/// Nothing changes, and nobody is told anything.
pub open spec fn ignored(s: RoomView) -> Step {
    (s, Seq::empty())
}

/// What is logged of an event. The test room is never logged.
pub fn persist(room_id: &str, e: RoomEvent) -> (r: Vec<Effect>)
    ensures
        views(r@) == logged(room_id@, e@),
{
    let mut fx: Vec<Effect> = Vec::new();
    if !str_eq(room_id, "test") {
        fx.push(Effect::Persist(e));
    }
    assert(views(fx@) =~= logged(room_id@, e@));
    fx
}

/// An error for the client that asked.
fn personal_err(code: &str, message: &str) -> (r: Vec<Effect>)
    ensures
        views(r@) == seq![EffectView::Reply(error_event(code@, message@))],
{
    let mut fx: Vec<Effect> = Vec::new();
    fx.push(Effect::Reply(make_error(code, message)));
    assert(views(fx@) =~= seq![EffectView::Reply(error_event(code@, message@))]);
    fx
}

/// No effects at all.
fn no_effects() -> (r: Vec<Effect>)
    ensures
        views(r@) == Seq::<EffectView>::empty(),
{
    let fx: Vec<Effect> = Vec::new();
    assert(views(fx@) =~= Seq::<EffectView>::empty());
    fx
}

/// One effect more.
fn and_then(fx: Vec<Effect>, e: Effect) -> (r: Vec<Effect>)
    ensures
        views(r@) == views(fx@).push(e@),
{
    let ghost before = fx@;
    let mut fx = fx;
    fx.push(e);
    assert(views(fx@) =~= views(before).push(e@));
    fx
}

/// After some effects, an event is logged.
fn then_log(fx: Vec<Effect>, room_id: &str, e: RoomEvent) -> (r: Vec<Effect>)
    ensures
        views(r@) == views(fx@) + logged(room_id@, e@),
{
    let ghost before = fx@;
    let mut fx = fx;
    let mut entry: Vec<Effect> = persist(room_id, e);
    let ghost last = entry@;
    fx.append(&mut entry);
    assert(views(fx@) =~= views(before) + views(last));
    fx
}

/// Everyone is told of an event, and it is logged.
fn announce(room_id: &str, e: RoomEvent, j: Json) -> (r: Vec<Effect>)
    ensures
        views(r@) == announced(room_id@, e@, j@),
{
    let fx: Vec<Effect> = and_then(no_effects(), Effect::Broadcast(j));
    assert(views(fx@) =~= seq![EffectView::Broadcast(j@)]);
    then_log(fx, room_id, e)
}

// ── Messages ────────────────────────────────────────────────────────────────

/// The role badge of a participant.
pub open spec fn role_of(is_admin: bool) -> Seq<char> {
    if is_admin {
        "admin"@
    } else {
        "user"@
    }
}

/// Whether an identity's last message is less than the rate limit ago.
pub open spec fn too_soon(s: RoomView, cfg: RoomConfig, who: Seq<char>, now: u64) -> bool {
    s.last_message_at.contains_key(who) && (if now > s.last_message_at[who] {
        now - s.last_message_at[who]
    } else {
        0
    }) < cfg.rate_limit_ms
}

/// The log entry of a visible message.
pub open spec fn message_entry(m: MessageView) -> EventView {
    EventView::Message { id: m.id, role: m.role, text: m.text, ts: m.ts }
}

/// Someone sends a message.
pub open spec fn send_message(
    s: RoomView,
    room_id: Seq<char>,
    cfg: RoomConfig,
    who: Seq<char>,
    is_admin: bool,
    now: u64,
    text: Seq<char>,
) -> Step {
    if text.len() == 0 {
        ignored(s)
    } else if s.locked_at(now) && !is_admin {
        refused(s, "locked"@, "room is locked"@)
    } else if text.len() > cfg.max_message_length {
        refused(s, "too_long"@, "message exceeds max length"@)
    } else if !is_admin && too_soon(s, cfg, who, now) {
        refused(s, "rate_limited"@, "slow down"@)
    } else {
        let id = (s.next_msg_id + 1) as u64;
        let m = new_message(id, role_of(is_admin), text, now);
        let s1 = RoomView {
            next_msg_id: id,
            last_message_at: if is_admin {
                s.last_message_at
            } else {
                s.last_message_at.insert(who, now)
            },
            ..s
        };
        if cfg.moderated && !is_admin {
            let ev = event("pending_message"@, message_json(m));
            (
                RoomView { pending_messages: s.pending_messages.push(m), ..s1 },
                submitted(
                    room_id,
                    EventView::PendingMessage { id: m.id, role: m.role, text: m.text, ts: m.ts },
                    ev,
                ),
            )
        } else {
            (
                RoomView {
                    messages: keep_last(s.messages.push(m), cfg.max_messages as nat),
                    ..s1
                },
                announced(room_id, message_entry(m), event("message"@, message_json(m))),
            )
        }
    }
}

/// The role badge of a participant.
pub fn role_str(is_admin: bool) -> (r: String)
    ensures
        r@ == role_of(is_admin),
{
    if is_admin {
        "admin".to_owned()
    } else {
        "user".to_owned()
    }
}

impl RoomInner {
    /// Someone sends a message.
    pub fn send_message(
        &mut self,
        room_id: &str,
        cfg: &RoomConfig,
        who: &str,
        is_admin: bool,
        now: u64,
        text: String,
    ) -> (r: Vec<Effect>)
        requires
            old(self)@.next_msg_id < u64::MAX,
        ensures
            (final(self)@, views(r@)) == send_message(
                old(self)@,
                room_id@,
                *cfg,
                who@,
                is_admin,
                now,
                text@,
            ),
    {
        let ghost s = self@;
        if text.as_str().is_empty() {
            return no_effects();
        }
        if self.effective_locked_at(now) && !is_admin {
            return personal_err("locked", "room is locked");
        }
        if text.as_str().unicode_len() > cfg.max_message_length {
            return personal_err("too_long", "message exceeds max length");
        }
        if !is_admin {
            match self.last_message_at.get(who) {
                Some(last) => {
                    if now.saturating_sub(*last) < cfg.rate_limit_ms {
                        return personal_err("rate_limited", "slow down");
                    }
                },
                None => {},
            }
            self.last_message_at.insert(who.to_owned(), now);
        }
        let id: u64 = self.next_msg_id();
        let m: Message = make_message(id, role_str(is_admin), text, now);
        if cfg.moderated && !is_admin {
            let ghost queue = self.pending_messages@;
            let mut fx: Vec<Effect> = and_then(
                no_effects(),
                Effect::Reply(make_event("pending_message", message_to_json(&m))),
            );
            fx = and_then(
                fx,
                Effect::BroadcastAdmin(make_event("pending_message", message_to_json(&m))),
            );
            fx = then_log(
                fx,
                room_id,
                RoomEvent::PendingMessage {
                    id,
                    role: m.role.clone(),
                    text: m.text.clone(),
                    ts: now,
                },
            );
            self.pending_messages.push(m);
            assert(views(self.pending_messages@) =~= views(queue).push(m@));
            return fx;
        }
        let ghost history = self.messages@;
        let fx: Vec<Effect> = announce(
            room_id,
            RoomEvent::Message { id, role: m.role.clone(), text: m.text.clone(), ts: now },
            make_event("message", message_to_json(&m)),
        );
        self.messages.push_back(m);
        assert(views(self.messages@) =~= views(history).push(m@));
        trim_queued(&mut self.messages, cfg.max_messages);
        fx
    }
}

// ── Reactions ───────────────────────────────────────────────────────────────

/// The emoji that can be reacted with.
pub open spec fn is_reaction(emoji: Seq<char>) -> bool {
    ||| emoji == "👍"@
    ||| emoji == "❤️"@
    ||| emoji == "😂"@
    ||| emoji == "🔥"@
    ||| emoji == "🤔"@
}

/// Who has reacted to a message with an emoji.
pub open spec fn users_of(
    m: Map<(u64, Seq<char>), Set<Seq<char>>>,
    id: u64,
    emoji: Seq<char>,
) -> Set<Seq<char>> {
    if m.contains_key((id, emoji)) {
        m[(id, emoji)]
    } else {
        Set::empty()
    }
}

/// Someone reacts to a message, or takes the reaction back.
pub open spec fn react(
    s: RoomView,
    room_id: Seq<char>,
    who: Seq<char>,
    id: u64,
    emoji: Seq<char>,
) -> Step {
    if !is_reaction(emoji) {
        refused(s, "bad_emoji"@, "unsupported reaction"@)
    } else if find_id(s.messages, id) is None {
        ignored(s)
    } else {
        let users = users_of(s.reaction_users, id, emoji);
        let added = !users.contains(who);
        let after = if added {
            users.insert(who)
        } else {
            users.remove(who)
        };
        let count = after.len() as u32;
        (
            RoomView {
                reaction_users: if count == 0 {
                    s.reaction_users.remove((id, emoji))
                } else {
                    s.reaction_users.insert((id, emoji), after)
                },
                messages: with_count(s.messages, id, emoji, count, count == 0),
                ..s
            },
            announced(
                room_id,
                if added {
                    EventView::ReactionAdd { message_id: id, emoji, voter: who }
                } else {
                    EventView::ReactionRemove { message_id: id, emoji, voter: who }
                },
                reaction_event(id, emoji, count),
            ),
        )
    }
}

/// Whether an emoji can be reacted with.
pub fn supported_reaction(emoji: &str) -> (r: bool)
    ensures
        r == is_reaction(emoji@),
{
    str_eq(emoji, "👍") || str_eq(emoji, "❤️") || str_eq(emoji, "😂") || str_eq(emoji, "🔥")
        || str_eq(emoji, "🤔")
}

impl RoomInner {
    /// Someone reacts to a message, or takes the reaction back.
    pub fn react(&mut self, room_id: &str, who: &str, id: u64, emoji: &str) -> (r: Vec<Effect>)
        ensures
            (final(self)@, views(r@)) == react(old(self)@, room_id@, who@, id, emoji@),
    {
        let ghost s = self@;
        if !supported_reaction(emoji) {
            return personal_err("bad_emoji", "unsupported reaction");
        }
        if find_queued(&self.messages, id).is_none() {
            return no_effects();
        }
        let mut users: StringHashSet = match self.reaction_users.take(id, emoji) {
            Some(users) => users,
            None => StringHashSet::new(),
        };
        let added: bool = !users.remove(who);
        if added {
            users.insert(who.to_owned());
            assert(users@ =~= users_of(s.reaction_users, id, emoji@).insert(who@));
        }
        let count: u32 = #[verifier::truncate] (users.len() as u32);
        if count != 0 {
            self.reaction_users.insert(id, emoji, users);
            assert(self@.reaction_users =~= s.reaction_users.insert((id, emoji@), users@));
        }
        set_count(&mut self.messages, id, emoji, count, count == 0);
        let e: RoomEvent = if added {
            RoomEvent::ReactionAdd {
                message_id: id,
                emoji: emoji.to_owned(),
                voter: who.to_owned(),
            }
        } else {
            RoomEvent::ReactionRemove {
                message_id: id,
                emoji: emoji.to_owned(),
                voter: who.to_owned(),
            }
        };
        announce(
            room_id,
            e,
            make_event(
                "reaction",
                Json::object().with("message_id", Json::number(id)).with(
                    "emoji",
                    Json::text(emoji),
                ).with(
                    "count",
                    Json::number(count as u64),
                ),
            ),
        )
    }
}

// ── Questions ───────────────────────────────────────────────────────────────

/// The log entry of a visible question.
pub open spec fn question_entry(q: QuestionView) -> EventView {
    EventView::Question { id: q.id, text: q.text }
}

/// Someone asks a question.
pub open spec fn ask_question(
    s: RoomView,
    room_id: Seq<char>,
    cfg: RoomConfig,
    is_admin: bool,
    now: u64,
    text: Seq<char>,
) -> Step {
    if text.len() == 0 {
        ignored(s)
    } else if text.len() > cfg.max_message_length {
        refused(s, "too_long"@, "question exceeds max length"@)
    } else if s.locked_at(now) && !is_admin {
        refused(s, "locked"@, "room is locked"@)
    } else {
        let id = (s.next_question_id + 1) as u64;
        let q = new_question(id, text);
        if cfg.moderated && !is_admin {
            let ev = event("pending_question"@, question_json(q));
            (
                RoomView {
                    next_question_id: id,
                    pending_questions: s.pending_questions.push(q),
                    ..s
                },
                submitted(room_id, EventView::PendingQuestion { id: q.id, text: q.text }, ev),
            )
        } else {
            (
                RoomView { next_question_id: id, questions: s.questions.push(q), ..s },
                announced(room_id, question_entry(q), event("question"@, question_json(q))),
            )
        }
    }
}

/// Someone votes for a question, or takes the vote back.
pub open spec fn vote(
    s: RoomView,
    room_id: Seq<char>,
    who: Seq<char>,
    is_admin: bool,
    now: u64,
    id: u64,
) -> Step {
    if s.locked_at(now) && !is_admin {
        refused(s, "locked"@, "room is locked"@)
    } else {
        match find_id(s.questions, id) {
            None => ignored(s),
            Some(i) => if s.questions[i].answered {
                refused(s, "answered"@, "question already answered"@)
            } else {
                let voters = voters_of(s.question_voters, id);
                let already = voters.contains(who);
                let questions = if already {
                    vote_removed(s.questions, id)
                } else {
                    vote_added(s.questions, id)
                };
                (
                    RoomView {
                        question_voters: s.question_voters.insert(
                            id,
                            if already {
                                voters.remove(who)
                            } else {
                                voters.insert(who)
                            },
                        ),
                        questions,
                        ..s
                    },
                    announced(
                        room_id,
                        if already {
                            EventView::VoteRemove { question_id: id, voter: who }
                        } else {
                            EventView::VoteAdd { question_id: id, voter: who }
                        },
                        vote_event(id, questions[i].votes),
                    ),
                )
            },
        }
    }
}

/// Whether the question with the given id is pinned.
pub open spec fn is_pinned(s: Seq<QuestionView>, id: u64) -> bool {
    exists|i: int| 0 <= i < s.len() && (#[trigger] s[i]).id == id && s[i].pinned
}

/// An admin pins a question, which unpins any other, or unpins it.
pub open spec fn pin_question(s: RoomView, room_id: Seq<char>, id: u64) -> Step {
    let pinned = !is_pinned(s.questions, id);
    (
        RoomView { questions: pinned_only(s.questions, id, pinned), ..s },
        announced(
            room_id,
            EventView::QuestionPinned { question_id: id, pinned },
            pin_event(id, pinned),
        ),
    )
}

/// An admin marks a question as answered.
pub open spec fn answer_question(s: RoomView, room_id: Seq<char>, id: u64) -> Step {
    (
        RoomView { questions: answered_one(s.questions, id), ..s },
        announced(
            room_id,
            EventView::QuestionAnswered { question_id: id },
            id_event("question_answered"@, "question_id"@, id),
        ),
    )
}

/// An admin removes a question.
pub open spec fn dismiss_question(s: RoomView, room_id: Seq<char>, id: u64) -> Step {
    (
        RoomView {
            questions: without(s.questions, id),
            question_voters: s.question_voters.remove(id),
            ..s
        },
        announced(
            room_id,
            EventView::QuestionDismissed { question_id: id },
            id_event("question_dismissed"@, "question_id"@, id),
        ),
    )
}

impl RoomInner {
    /// Someone asks a question.
    pub fn ask_question(
        &mut self,
        room_id: &str,
        cfg: &RoomConfig,
        is_admin: bool,
        now: u64,
        text: String,
    ) -> (r: Vec<Effect>)
        requires
            old(self)@.next_question_id < u64::MAX,
        ensures
            (final(self)@, views(r@)) == ask_question(
                old(self)@,
                room_id@,
                *cfg,
                is_admin,
                now,
                text@,
            ),
    {
        if text.as_str().is_empty() {
            return no_effects();
        }
        if text.as_str().unicode_len() > cfg.max_message_length {
            return personal_err("too_long", "question exceeds max length");
        }
        if self.effective_locked_at(now) && !is_admin {
            return personal_err("locked", "room is locked");
        }
        let id: u64 = self.next_question_id();
        let q: Question = make_question(id, text);
        if cfg.moderated && !is_admin {
            let ghost queue = self.pending_questions@;
            let mut fx: Vec<Effect> = and_then(
                no_effects(),
                Effect::Reply(make_event("pending_question", question_to_json(&q))),
            );
            fx = and_then(
                fx,
                Effect::BroadcastAdmin(make_event("pending_question", question_to_json(&q))),
            );
            fx = then_log(fx, room_id, RoomEvent::PendingQuestion { id, text: q.text.clone() });
            self.pending_questions.push(q);
            assert(views(self.pending_questions@) =~= views(queue).push(q@));
            return fx;
        }
        let ghost board = self.questions@;
        let fx: Vec<Effect> = announce(
            room_id,
            RoomEvent::Question { id, text: q.text.clone() },
            make_event("question", question_to_json(&q)),
        );
        self.questions.push(q);
        assert(views(self.questions@) =~= views(board).push(q@));
        fx
    }

    /// Someone votes for a question, or takes the vote back.
    pub fn vote(
        &mut self,
        room_id: &str,
        who: &str,
        is_admin: bool,
        now: u64,
        id: u64,
    ) -> (r: Vec<Effect>)
        requires
            votable(old(self)@.questions, id),
        ensures
            (final(self)@, views(r@)) == vote(old(self)@, room_id@, who@, is_admin, now, id),
    {
        let ghost s = self@;
        if self.effective_locked_at(now) && !is_admin {
            return personal_err("locked", "room is locked");
        }
        let i: usize = match find(&self.questions, id) {
            Some(i) => i,
            None => {
                return no_effects();
            },
        };
        if self.questions[i].answered {
            return personal_err("answered", "question already answered");
        }
        let mut voters: StringHashSet = take_voters(&mut self.question_voters, id);
        let already: bool = !voters.insert(who.to_owned());
        if already {
            voters.remove(who);
            remove_vote(&mut self.questions, id);
            assert(voters@ =~= voters_of(s.question_voters, id).remove(who@));
        } else {
            add_vote(&mut self.questions, id);
        }
        put_voters(&mut self.question_voters, id, voters);
        assert(self@.question_voters =~= s.question_voters.insert(id, voters@));
        let e: RoomEvent = if already {
            RoomEvent::VoteRemove { question_id: id, voter: who.to_owned() }
        } else {
            RoomEvent::VoteAdd { question_id: id, voter: who.to_owned() }
        };
        proof {
            assert(self@.questions.len() == s.questions.len());
        }
        let votes: u32 = self.questions[i].votes;
        assert(votes == self@.questions[i as int].votes);
        announce(
            room_id,
            e,
            make_event(
                "vote",
                Json::object().with("question_id", Json::number(id)).with(
                    "votes",
                    Json::number(votes as u64),
                ),
            ),
        )
    }

    /// An admin pins a question, which unpins any other, or unpins it.
    pub fn pin_question(&mut self, room_id: &str, id: u64) -> (r: Vec<Effect>)
        ensures
            (final(self)@, views(r@)) == pin_question(old(self)@, room_id@, id),
    {
        let mut already: bool = false;
        let mut i: usize = 0;
        while i < self.questions.len()
            invariant
                i <= self.questions@.len(),
                self@ == old(self)@,
                already == exists|k: int|
                    0 <= k < i && (#[trigger] self@.questions[k]).id == id
                        && self@.questions[k].pinned,
            decreases self.questions@.len() - i,
        {
            if self.questions[i].id == id && self.questions[i].pinned {
                already = true;
                assert(self@.questions[i as int].id == id);
            }
            i += 1;
        }
        pin_only(&mut self.questions, id, !already);
        announce(
            room_id,
            RoomEvent::QuestionPinned { question_id: id, pinned: !already },
            make_event(
                "question_pinned",
                Json::object().with("question_id", Json::number(id)).with(
                    "pinned",
                    Json::Bool(!already),
                ),
            ),
        )
    }

    /// An admin marks a question as answered.
    pub fn answer_question(&mut self, room_id: &str, id: u64) -> (r: Vec<Effect>)
        ensures
            (final(self)@, views(r@)) == answer_question(old(self)@, room_id@, id),
    {
        answer_one(&mut self.questions, id);
        announce(
            room_id,
            RoomEvent::QuestionAnswered { question_id: id },
            make_id_event("question_answered", "question_id", id),
        )
    }

    /// An admin removes a question.
    pub fn dismiss_question(&mut self, room_id: &str, id: u64) -> (r: Vec<Effect>)
        ensures
            (final(self)@, views(r@)) == dismiss_question(old(self)@, room_id@, id),
    {
        drop_id(&mut self.questions, id);
        drop_voters(&mut self.question_voters, id);
        announce(
            room_id,
            RoomEvent::QuestionDismissed { question_id: id },
            make_id_event("question_dismissed", "question_id", id),
        )
    }
}

// ── Polls ───────────────────────────────────────────────────────────────────

/// Someone votes in a poll; one vote each.
pub open spec fn vote_in_poll(
    s: RoomView,
    room_id: Seq<char>,
    who: Seq<char>,
    is_admin: bool,
    now: u64,
    id: u64,
    option: usize,
) -> Step {
    if s.locked_at(now) && !is_admin {
        refused(s, "locked"@, "room is locked"@)
    } else {
        match find_id(s.polls, id) {
            None => ignored(s),
            Some(i) => if s.polls[i].closed {
                refused(s, "poll_closed"@, "poll is closed"@)
            } else if option >= s.polls[i].options.len() {
                refused(s, "bad_option"@, "invalid option"@)
            } else if voters_of(s.poll_voters, id).contains(who) {
                refused(s, "already_voted"@, "you already voted"@)
            } else {
                let polls = poll_voted(s.polls, id, option);
                (
                    RoomView {
                        poll_voters: s.poll_voters.insert(
                            id,
                            voters_of(s.poll_voters, id).insert(who),
                        ),
                        polls,
                        ..s
                    },
                    announced(
                        room_id,
                        EventView::PollVote { poll_id: id, option_index: option, voter: who },
                        poll_update_event(id, polls[i].options),
                    ),
                )
            },
        }
    }
}

/// An admin opens a poll with 2 to 6 answers.
pub open spec fn create_poll(
    s: RoomView,
    room_id: Seq<char>,
    question: Seq<char>,
    options: Seq<Seq<char>>,
) -> Step {
    if question.len() == 0 || !(2 <= options.len() <= 6) {
        refused(s, "bad_poll"@, "need a question and 2–6 options"@)
    } else {
        let id = (s.next_poll_id + 1) as u64;
        let poll = new_poll(id, question, options);
        (
            RoomView { next_poll_id: id, polls: s.polls.push(poll), ..s },
            announced(
                room_id,
                EventView::PollCreated { id, question, options },
                event("poll_created"@, poll_json(poll)),
            ),
        )
    }
}

/// An admin closes a poll, which freezes its result.
pub open spec fn end_poll(s: RoomView, room_id: Seq<char>, id: u64) -> Step {
    (
        RoomView { polls: poll_closed(s.polls, id), ..s },
        announced(
            room_id,
            EventView::PollClosed { poll_id: id },
            id_event("poll_closed"@, "poll_id"@, id),
        ),
    )
}

/// An admin deletes a poll.
pub open spec fn delete_poll(s: RoomView, room_id: Seq<char>, id: u64) -> Step {
    (
        RoomView { polls: without(s.polls, id), poll_voters: s.poll_voters.remove(id), ..s },
        announced(
            room_id,
            EventView::PollDeleted { poll_id: id },
            id_event("poll_deleted"@, "poll_id"@, id),
        ),
    )
}

impl RoomInner {
    /// Someone votes in a poll; one vote each.
    pub fn vote_in_poll(
        &mut self,
        room_id: &str,
        who: &str,
        is_admin: bool,
        now: u64,
        id: u64,
        option: usize,
    ) -> (r: Vec<Effect>)
        requires
            poll_votable(old(self)@.polls, id, option),
        ensures
            (final(self)@, views(r@)) == vote_in_poll(
                old(self)@,
                room_id@,
                who@,
                is_admin,
                now,
                id,
                option,
            ),
    {
        let ghost s = self@;
        if self.effective_locked_at(now) && !is_admin {
            return personal_err("locked", "room is locked");
        }
        let i: usize = match find(&self.polls, id) {
            Some(i) => i,
            None => {
                return no_effects();
            },
        };
        if self.polls[i].closed {
            return personal_err("poll_closed", "poll is closed");
        }
        if option >= self.polls[i].options.len() {
            return personal_err("bad_option", "invalid option");
        }
        let mut voters: StringHashSet = take_voters(&mut self.poll_voters, id);
        let fresh: bool = voters.insert(who.to_owned());
        put_voters(&mut self.poll_voters, id, voters);
        if !fresh {
            proof {
                assert(voters@ =~= voters_of(s.poll_voters, id));
                assert(self@.poll_voters =~= s.poll_voters);
                assert(self@ =~= s);
            }
            return personal_err("already_voted", "you already voted");
        }
        assert(self@.poll_voters =~= s.poll_voters.insert(id, voters@));
        vote_poll(&mut self.polls, id, option);
        assert(self@.polls.len() == s.polls.len());
        assert(views(self.polls@[i as int].options@) == self@.polls[i as int].options);
        announce(
            room_id,
            RoomEvent::PollVote { poll_id: id, option_index: option, voter: who.to_owned() },
            make_event(
                "poll_update",
                Json::object().with("poll_id", Json::number(id)).with(
                    "options",
                    options_to_json(&self.polls[i].options),
                ),
            ),
        )
    }

    /// An admin opens a poll with 2 to 6 answers.
    pub fn create_poll(
        &mut self,
        room_id: &str,
        question: String,
        options: Vec<String>,
    ) -> (r: Vec<Effect>)
        requires
            old(self)@.next_poll_id < u64::MAX,
        ensures
            (final(self)@, views(r@)) == create_poll(
                old(self)@,
                room_id@,
                question@,
                views(options@),
            ),
    {
        if question.as_str().is_empty() || options.len() < 2 || options.len() > 6 {
            return personal_err("bad_poll", "need a question and 2–6 options");
        }
        let id: u64 = self.next_poll_id();
        let ghost board = self.polls@;
        let texts: Vec<String> = duplicate_texts(&options);
        let poll: Poll = make_poll(id, question.clone(), options);
        let fx: Vec<Effect> = announce(
            room_id,
            RoomEvent::PollCreated { id, question, options: texts },
            make_event("poll_created", poll_to_json(&poll)),
        );
        self.polls.push(poll);
        assert(views(self.polls@) =~= views(board).push(poll@));
        fx
    }

    /// An admin closes a poll, which freezes its result.
    pub fn end_poll(&mut self, room_id: &str, id: u64) -> (r: Vec<Effect>)
        ensures
            (final(self)@, views(r@)) == end_poll(old(self)@, room_id@, id),
    {
        close_poll(&mut self.polls, id);
        announce(
            room_id,
            RoomEvent::PollClosed { poll_id: id },
            make_id_event("poll_closed", "poll_id", id),
        )
    }

    /// An admin deletes a poll.
    pub fn delete_poll(&mut self, room_id: &str, id: u64) -> (r: Vec<Effect>)
        ensures
            (final(self)@, views(r@)) == delete_poll(old(self)@, room_id@, id),
    {
        drop_id(&mut self.polls, id);
        drop_voters(&mut self.poll_voters, id);
        announce(
            room_id,
            RoomEvent::PollDeleted { poll_id: id },
            make_id_event("poll_deleted", "poll_id", id),
        )
    }
}

/// The same texts once more.
fn duplicate_texts(v: &Vec<String>) -> (r: Vec<String>)
    ensures
        views(r@) == views(v@),
{
    let mut r: Vec<String> = Vec::new();
    let mut i: usize = 0;
    while i < v.len()
        invariant
            i <= v@.len(),
            r@ == v@.take(i as int),
        decreases v@.len() - i,
    {
        r.push(v[i].clone());
        assert(v@.take(i + 1) == v@.take(i as int).push(v@[i as int]));
        i += 1;
    }
    assert(v@.take(i as int) == v@);
    r
}

// ── Moderation ──────────────────────────────────────────────────────────────

/// An admin lets a pending message through.
pub open spec fn approve_message(
    s: RoomView,
    room_id: Seq<char>,
    cfg: RoomConfig,
    id: u64,
) -> Step {
    match find_id(s.pending_messages, id) {
        None => ignored(s),
        Some(i) => {
            let m = s.pending_messages[i];
            (
                RoomView {
                    pending_messages: s.pending_messages.remove(i),
                    messages: keep_last(s.messages.push(m), cfg.max_messages as nat),
                    ..s
                },
                announced(room_id, message_entry(m), event("message"@, message_json(m))),
            )
        },
    }
}

/// An admin drops a pending message.
pub open spec fn reject_message(s: RoomView, room_id: Seq<char>, id: u64) -> Step {
    (
        RoomView { pending_messages: without(s.pending_messages, id), ..s },
        announced(
            room_id,
            EventView::PendingMessageRejected { id },
            id_event("pending_message_rejected"@, "id"@, id),
        ),
    )
}

/// An admin lets a pending question through.
pub open spec fn approve_question(s: RoomView, room_id: Seq<char>, id: u64) -> Step {
    match find_id(s.pending_questions, id) {
        None => ignored(s),
        Some(i) => {
            let q = s.pending_questions[i];
            (
                RoomView {
                    pending_questions: s.pending_questions.remove(i),
                    questions: s.questions.push(q),
                    ..s
                },
                announced(room_id, question_entry(q), event("question"@, question_json(q))),
            )
        },
    }
}

/// An admin drops a pending question.
pub open spec fn reject_question(s: RoomView, room_id: Seq<char>, id: u64) -> Step {
    (
        RoomView { pending_questions: without(s.pending_questions, id), ..s },
        announced(
            room_id,
            EventView::PendingQuestionRejected { id },
            id_event("pending_question_rejected"@, "id"@, id),
        ),
    )
}

/// An admin deletes a message.
pub open spec fn delete_message(s: RoomView, room_id: Seq<char>, id: u64) -> Step {
    (
        RoomView {
            messages: without(s.messages, id),
            reaction_users: without_message(s.reaction_users, id),
            ..s
        },
        announced(
            room_id,
            EventView::MessageDeleted { id },
            id_event("message_deleted"@, "id"@, id),
        ),
    )
}

impl RoomInner {
    /// An admin lets a pending message through.
    pub fn approve_message(&mut self, room_id: &str, cfg: &RoomConfig, id: u64) -> (r: Vec<Effect>)
        ensures
            (final(self)@, views(r@)) == approve_message(old(self)@, room_id@, *cfg, id),
    {
        let ghost s = self@;
        let i: usize = match find(&self.pending_messages, id) {
            Some(i) => i,
            None => {
                return no_effects();
            },
        };
        let ghost history = self.messages@;
        let m: Message = self.pending_messages.remove(i);
        assert(views(self.pending_messages@) =~= s.pending_messages.remove(i as int));
        let fx: Vec<Effect> = announce(
            room_id,
            RoomEvent::Message { id: m.id, role: m.role.clone(), text: m.text.clone(), ts: m.ts },
            make_event("message", message_to_json(&m)),
        );
        self.messages.push_back(m);
        assert(views(self.messages@) =~= views(history).push(m@));
        trim_queued(&mut self.messages, cfg.max_messages);
        fx
    }

    /// An admin drops a pending message.
    pub fn reject_message(&mut self, room_id: &str, id: u64) -> (r: Vec<Effect>)
        ensures
            (final(self)@, views(r@)) == reject_message(old(self)@, room_id@, id),
    {
        drop_id(&mut self.pending_messages, id);
        announce(
            room_id,
            RoomEvent::PendingMessageRejected { id },
            make_id_event("pending_message_rejected", "id", id),
        )
    }

    /// An admin lets a pending question through.
    pub fn approve_question(&mut self, room_id: &str, id: u64) -> (r: Vec<Effect>)
        ensures
            (final(self)@, views(r@)) == approve_question(old(self)@, room_id@, id),
    {
        let ghost s = self@;
        let i: usize = match find(&self.pending_questions, id) {
            Some(i) => i,
            None => {
                return no_effects();
            },
        };
        let ghost board = self.questions@;
        let q: Question = self.pending_questions.remove(i);
        assert(views(self.pending_questions@) =~= s.pending_questions.remove(i as int));
        let fx: Vec<Effect> = announce(
            room_id,
            RoomEvent::Question { id: q.id, text: q.text.clone() },
            make_event("question", question_to_json(&q)),
        );
        self.questions.push(q);
        assert(views(self.questions@) =~= views(board).push(q@));
        fx
    }

    /// An admin drops a pending question.
    pub fn reject_question(&mut self, room_id: &str, id: u64) -> (r: Vec<Effect>)
        ensures
            (final(self)@, views(r@)) == reject_question(old(self)@, room_id@, id),
    {
        drop_id(&mut self.pending_questions, id);
        announce(
            room_id,
            RoomEvent::PendingQuestionRejected { id },
            make_id_event("pending_question_rejected", "id", id),
        )
    }

    /// An admin deletes a message.
    pub fn delete_message(&mut self, room_id: &str, id: u64) -> (r: Vec<Effect>)
        ensures
            (final(self)@, views(r@)) == delete_message(old(self)@, room_id@, id),
    {
        drop_queued(&mut self.messages, id);
        self.reaction_users.drop_message(id);
        announce(
            room_id,
            RoomEvent::MessageDeleted { id },
            make_id_event("message_deleted", "id", id),
        )
    }
}

// ── Locks ───────────────────────────────────────────────────────────────────

/// The longest a timed lock can last, in seconds.
pub const MAX_LOCK_SECONDS: u64 = 86_400;

/// A requested duration, cut to the longest a timed lock can last.
pub open spec fn lock_seconds(duration: Option<u64>) -> Option<u64> {
    match duration {
        Some(d) => Some(
            if d < MAX_LOCK_SECONDS {
                d
            } else {
                MAX_LOCK_SECONDS
            },
        ),
        None => None,
    }
}

/// When a lock that is set now runs out.
pub open spec fn lock_deadline(locked: bool, duration: Option<u64>, now: u64) -> Option<u64> {
    match lock_seconds(duration) {
        Some(d) => if locked {
            Some(seconds_after(now, d))
        } else {
            None
        },
        None => None,
    }
}

/// An admin locks the room, perhaps for a time, or unlocks it.
pub open spec fn set_lock(
    s: RoomView,
    room_id: Seq<char>,
    now: u64,
    locked: bool,
    duration: Option<u64>,
) -> Step {
    let until = lock_deadline(locked, duration, now);
    let epoch = (s.lock_epoch + 1) as u64;
    let fx = announced(room_id, EventView::Lock { locked, until }, lock_event(locked, until));
    (
        RoomView { locked, locked_until: until, lock_epoch: epoch, ..s },
        match (locked, lock_seconds(duration)) {
            (true, Some(seconds)) => fx.push(EffectView::ScheduleUnlock { seconds, epoch }),
            _ => fx,
        },
    )
}

/// A timer set with a lock runs out. It lifts the lock only if nothing has
/// changed it since.
pub open spec fn auto_unlock(s: RoomView, epoch: u64) -> Step {
    if s.lock_epoch == epoch && s.locked {
        (
            RoomView {
                locked: false,
                locked_until: None,
                lock_epoch: (s.lock_epoch + 1) as u64,
                ..s
            },
            seq![EffectView::Broadcast(unlock_event())],
        )
    } else {
        ignored(s)
    }
}

impl RoomInner {
    /// An admin locks the room, perhaps for a time, or unlocks it.
    pub fn set_lock(
        &mut self,
        room_id: &str,
        now: u64,
        locked: bool,
        duration: Option<u64>,
    ) -> (r: Vec<Effect>)
        requires
            old(self)@.lock_epoch < u64::MAX,
        ensures
            (final(self)@, views(r@)) == set_lock(old(self)@, room_id@, now, locked, duration),
    {
        let seconds: Option<u64> = match duration {
            Some(d) => Some(
                if d < MAX_LOCK_SECONDS {
                    d
                } else {
                    MAX_LOCK_SECONDS
                },
            ),
            None => None,
        };
        let until: Option<u64> = match seconds {
            Some(d) => if locked {
                Some(deadline(now, d))
            } else {
                None
            },
            None => None,
        };
        self.locked = locked;
        self.locked_until = until;
        self.lock_epoch += 1;
        let epoch: u64 = self.lock_epoch;
        let fx: Vec<Effect> = announce(
            room_id,
            RoomEvent::Lock { locked, until },
            make_event(
                "lock",
                Json::object().with("locked", Json::Bool(locked)).with(
                    "until",
                    Json::number_or_null(until),
                ),
            ),
        );
        match seconds {
            Some(seconds) => if locked {
                and_then(fx, Effect::ScheduleUnlock { seconds, epoch })
            } else {
                fx
            },
            None => fx,
        }
    }

    /// A timer set with a lock runs out.
    pub fn auto_unlock(&mut self, epoch: u64) -> (r: Vec<Effect>)
        requires
            old(self)@.lock_epoch < u64::MAX,
        ensures
            (final(self)@, views(r@)) == auto_unlock(old(self)@, epoch),
    {
        if self.lock_epoch == epoch && self.locked {
            self.locked = false;
            self.locked_until = None;
            self.lock_epoch += 1;
            let fx: Vec<Effect> = and_then(
                no_effects(),
                Effect::Broadcast(
                    make_event("lock", Json::object().with("locked", Json::Bool(false))),
                ),
            );
            assert(views(fx@) =~= seq![EffectView::Broadcast(unlock_event())]);
            fx
        } else {
            no_effects()
        }
    }
}

// ── Actions ─────────────────────────────────────────────────────────────────

/// What a client asks for.
#[derive(Debug)]
pub enum Action {
    Message { text: String },
    Reaction { message_id: u64, emoji: String },
    Question { text: String },
    Vote { question_id: u64 },
    PollVote { poll_id: u64, option_index: usize },
    ApproveMessage { message_id: u64 },
    RejectMessage { message_id: u64 },
    ApproveQuestion { question_id: u64 },
    RejectQuestion { question_id: u64 },
    Lock { locked: bool, duration_seconds: Option<u64> },
    DeleteMessage { message_id: u64 },
    PinQuestion { question_id: u64 },
    AnswerQuestion { question_id: u64 },
    DismissQuestion { question_id: u64 },
    CreatePoll { question: String, options: Vec<String> },
    ClosePoll { poll_id: u64 },
    DeletePoll { poll_id: u64 },
    DisplayMode { mode: String },
    CloseRoom,
    /// A frame of a known type that lacks something; it is passed over.
    Incomplete,
    /// A frame of a type that the protocol does not have.
    Unknown,
}

pub enum ActionView {
    Message { text: Seq<char> },
    Reaction { message_id: u64, emoji: Seq<char> },
    Question { text: Seq<char> },
    Vote { question_id: u64 },
    PollVote { poll_id: u64, option_index: usize },
    ApproveMessage { message_id: u64 },
    RejectMessage { message_id: u64 },
    ApproveQuestion { question_id: u64 },
    RejectQuestion { question_id: u64 },
    Lock { locked: bool, duration_seconds: Option<u64> },
    DeleteMessage { message_id: u64 },
    PinQuestion { question_id: u64 },
    AnswerQuestion { question_id: u64 },
    DismissQuestion { question_id: u64 },
    CreatePoll { question: Seq<char>, options: Seq<Seq<char>> },
    ClosePoll { poll_id: u64 },
    DeletePoll { poll_id: u64 },
    DisplayMode { mode: Seq<char> },
    CloseRoom,
    Incomplete,
    Unknown,
}

impl View for Action {
    type V = ActionView;

    open spec fn view(&self) -> ActionView {
        match *self {
            Action::Message { text } => ActionView::Message { text: text@ },
            Action::Reaction { message_id, emoji } => ActionView::Reaction {
                message_id,
                emoji: emoji@,
            },
            Action::Question { text } => ActionView::Question { text: text@ },
            Action::Vote { question_id } => ActionView::Vote { question_id },
            Action::PollVote { poll_id, option_index } => ActionView::PollVote {
                poll_id,
                option_index,
            },
            Action::ApproveMessage { message_id } => ActionView::ApproveMessage { message_id },
            Action::RejectMessage { message_id } => ActionView::RejectMessage { message_id },
            Action::ApproveQuestion { question_id } => ActionView::ApproveQuestion { question_id },
            Action::RejectQuestion { question_id } => ActionView::RejectQuestion { question_id },
            Action::Lock { locked, duration_seconds } => ActionView::Lock {
                locked,
                duration_seconds,
            },
            Action::DeleteMessage { message_id } => ActionView::DeleteMessage { message_id },
            Action::PinQuestion { question_id } => ActionView::PinQuestion { question_id },
            Action::AnswerQuestion { question_id } => ActionView::AnswerQuestion { question_id },
            Action::DismissQuestion { question_id } => ActionView::DismissQuestion { question_id },
            Action::CreatePoll { question, options } => ActionView::CreatePoll {
                question: question@,
                options: views(options@),
            },
            Action::ClosePoll { poll_id } => ActionView::ClosePoll { poll_id },
            Action::DeletePoll { poll_id } => ActionView::DeletePoll { poll_id },
            Action::DisplayMode { mode } => ActionView::DisplayMode { mode: mode@ },
            Action::CloseRoom => ActionView::CloseRoom,
            Action::Incomplete => ActionView::Incomplete,
            Action::Unknown => ActionView::Unknown,
        }
    }
}

/// The trimmed text in a member; empty if there is none.
pub open spec fn trimmed_at(p: JsonView, key: Seq<char>) -> Seq<char> {
    match p.text_at(key) {
        Some(t) => trimmed(t),
        None => trimmed(""@),
    }
}

/// The trimmed texts of an array. Items that are no strings, or blank ones, are
/// skipped.
pub open spec fn option_texts(s: Seq<JsonView>) -> Seq<Seq<char>>
    decreases s.len(),
{
    if s.len() == 0 {
        Seq::empty()
    } else {
        match s.last().text() {
            Some(t) => if trimmed(t).len() > 0 {
                option_texts(s.drop_last()).push(trimmed(t))
            } else {
                option_texts(s.drop_last())
            },
            None => option_texts(s.drop_last()),
        }
    }
}

/// The answers that a new poll is to have.
pub open spec fn requested_options(p: JsonView) -> Seq<Seq<char>> {
    match p.items_at("options"@) {
        Some(s) => option_texts(s),
        None => Seq::empty(),
    }
}

/// What a frame of the given type and payload asks for.
pub open spec fn decode_action(kind: Seq<char>, p: JsonView) -> ActionView {
    if kind == "message"@ {
        ActionView::Message { text: trimmed_at(p, "text"@) }
    } else if kind == "reaction"@ {
        match (p.uint_at("message_id"@), p.text_at("emoji"@)) {
            (Some(message_id), Some(emoji)) => ActionView::Reaction { message_id, emoji },
            _ => ActionView::Incomplete,
        }
    } else if kind == "question"@ {
        ActionView::Question { text: trimmed_at(p, "text"@) }
    } else if kind == "vote"@ {
        match p.uint_at("question_id"@) {
            Some(question_id) => ActionView::Vote { question_id },
            None => ActionView::Incomplete,
        }
    } else if kind == "poll_vote"@ {
        match (p.uint_at("poll_id"@), p.uint_at("option_index"@)) {
            (Some(poll_id), Some(i)) => ActionView::PollVote { poll_id, option_index: i as usize },
            _ => ActionView::Incomplete,
        }
    } else if kind == "admin_approve_message"@ {
        match p.uint_at("message_id"@) {
            Some(message_id) => ActionView::ApproveMessage { message_id },
            None => ActionView::Incomplete,
        }
    } else if kind == "admin_reject_message"@ {
        match p.uint_at("message_id"@) {
            Some(message_id) => ActionView::RejectMessage { message_id },
            None => ActionView::Incomplete,
        }
    } else if kind == "admin_approve_question"@ {
        match p.uint_at("question_id"@) {
            Some(question_id) => ActionView::ApproveQuestion { question_id },
            None => ActionView::Incomplete,
        }
    } else if kind == "admin_reject_question"@ {
        match p.uint_at("question_id"@) {
            Some(question_id) => ActionView::RejectQuestion { question_id },
            None => ActionView::Incomplete,
        }
    } else if kind == "admin_lock"@ {
        ActionView::Lock {
            locked: match p.boolean_at("locked"@) {
                Some(locked) => locked,
                None => false,
            },
            duration_seconds: p.uint_at("duration_seconds"@),
        }
    } else if kind == "admin_delete_message"@ {
        match p.uint_at("message_id"@) {
            Some(message_id) => ActionView::DeleteMessage { message_id },
            None => ActionView::Incomplete,
        }
    } else if kind == "admin_pin_question"@ {
        match p.uint_at("question_id"@) {
            Some(question_id) => ActionView::PinQuestion { question_id },
            None => ActionView::Incomplete,
        }
    } else if kind == "admin_answer_question"@ {
        match p.uint_at("question_id"@) {
            Some(question_id) => ActionView::AnswerQuestion { question_id },
            None => ActionView::Incomplete,
        }
    } else if kind == "admin_dismiss_question"@ {
        match p.uint_at("question_id"@) {
            Some(question_id) => ActionView::DismissQuestion { question_id },
            None => ActionView::Incomplete,
        }
    } else if kind == "admin_create_poll"@ {
        ActionView::CreatePoll {
            question: trimmed_at(p, "question"@),
            options: requested_options(p),
        }
    } else if kind == "admin_close_poll"@ {
        match p.uint_at("poll_id"@) {
            Some(poll_id) => ActionView::ClosePoll { poll_id },
            None => ActionView::Incomplete,
        }
    } else if kind == "admin_delete_poll"@ {
        match p.uint_at("poll_id"@) {
            Some(poll_id) => ActionView::DeletePoll { poll_id },
            None => ActionView::Incomplete,
        }
    } else if kind == "admin_display_mode"@ {
        ActionView::DisplayMode {
            mode: match p.text_at("mode"@) {
                Some(mode) => mode,
                None => "questions"@,
            },
        }
    } else if kind == "admin_close_room"@ {
        ActionView::CloseRoom
    } else {
        ActionView::Unknown
    }
}

/// The trimmed text in a member; empty if there is none.
fn trim_at(p: &Json, key: &str) -> (r: String)
    ensures
        r@ == trimmed_at(p@, key@),
{
    match p.str_at(key) {
        Some(t) => trim(t),
        None => trim(""),
    }
}

/// The answers that a new poll is to have.
fn read_requested_options(p: &Json) -> (r: Vec<String>)
    ensures
        views(r@) == requested_options(p@),
{
    let mut r: Vec<String> = Vec::new();
    assert(views(r@) =~= Seq::<Seq<char>>::empty());
    match p.get("options") {
        Some(a) => match a.as_array() {
            Some(items) => {
                let ghost all = items_view(items@);
                let mut i: usize = 0;
                proof {
                    lemma_items_view(items@);
                    assert(option_texts(all.take(0)) =~= Seq::<Seq<char>>::empty());
                }
                while i < items.len()
                    invariant
                        i <= items@.len(),
                        all == items_view(items@),
                        all.len() == items@.len(),
                        forall|k: int| 0 <= k < items@.len() ==> #[trigger] all[k] == items@[k]@,
                        views(r@) == option_texts(all.take(i as int)),
                    decreases items@.len() - i,
                {
                    assert(all.take(i + 1).drop_last() == all.take(i as int));
                    assert(all.take(i + 1).last() == all[i as int]);
                    match items[i].as_str() {
                        Some(t) => {
                            let text: String = trim(t);
                            if !text.as_str().is_empty() {
                                let ghost before = r@;
                                r.push(text);
                                assert(views(r@) =~= views(before).push(text@));
                            }
                        },
                        None => {},
                    }
                    i += 1;
                }
                assert(all.take(i as int) == all);
            },
            None => {},
        },
        None => {},
    }
    r
}

impl Action {
    /// What a frame of the given type and payload asks for.
    pub fn decode(kind: &str, p: &Json) -> (r: Action)
        ensures
            r@ == decode_action(kind@, p@),
    {
        if str_eq(kind, "message") {
            Action::Message { text: trim_at(p, "text") }
        } else if str_eq(kind, "reaction") {
            match (p.u64_at("message_id"), p.str_at("emoji")) {
                (Some(message_id), Some(emoji)) => Action::Reaction {
                    message_id,
                    emoji: emoji.to_owned(),
                },
                _ => Action::Incomplete,
            }
        } else if str_eq(kind, "question") {
            Action::Question { text: trim_at(p, "text") }
        } else if str_eq(kind, "vote") {
            match p.u64_at("question_id") {
                Some(question_id) => Action::Vote { question_id },
                None => Action::Incomplete,
            }
        } else if str_eq(kind, "poll_vote") {
            match (p.u64_at("poll_id"), p.u64_at("option_index")) {
                (Some(poll_id), Some(i)) => Action::PollVote {
                    poll_id,
                    option_index: #[verifier::truncate] (i as usize),
                },
                _ => Action::Incomplete,
            }
        } else if str_eq(kind, "admin_approve_message") {
            match p.u64_at("message_id") {
                Some(message_id) => Action::ApproveMessage { message_id },
                None => Action::Incomplete,
            }
        } else if str_eq(kind, "admin_reject_message") {
            match p.u64_at("message_id") {
                Some(message_id) => Action::RejectMessage { message_id },
                None => Action::Incomplete,
            }
        } else if str_eq(kind, "admin_approve_question") {
            match p.u64_at("question_id") {
                Some(question_id) => Action::ApproveQuestion { question_id },
                None => Action::Incomplete,
            }
        } else if str_eq(kind, "admin_reject_question") {
            match p.u64_at("question_id") {
                Some(question_id) => Action::RejectQuestion { question_id },
                None => Action::Incomplete,
            }
        } else if str_eq(kind, "admin_lock") {
            Action::Lock {
                locked: match p.bool_at("locked") {
                    Some(locked) => locked,
                    None => false,
                },
                duration_seconds: p.u64_at("duration_seconds"),
            }
        } else if str_eq(kind, "admin_delete_message") {
            match p.u64_at("message_id") {
                Some(message_id) => Action::DeleteMessage { message_id },
                None => Action::Incomplete,
            }
        } else if str_eq(kind, "admin_pin_question") {
            match p.u64_at("question_id") {
                Some(question_id) => Action::PinQuestion { question_id },
                None => Action::Incomplete,
            }
        } else if str_eq(kind, "admin_answer_question") {
            match p.u64_at("question_id") {
                Some(question_id) => Action::AnswerQuestion { question_id },
                None => Action::Incomplete,
            }
        } else if str_eq(kind, "admin_dismiss_question") {
            match p.u64_at("question_id") {
                Some(question_id) => Action::DismissQuestion { question_id },
                None => Action::Incomplete,
            }
        } else if str_eq(kind, "admin_create_poll") {
            Action::CreatePoll {
                question: trim_at(p, "question"),
                options: read_requested_options(p),
            }
        } else if str_eq(kind, "admin_close_poll") {
            match p.u64_at("poll_id") {
                Some(poll_id) => Action::ClosePoll { poll_id },
                None => Action::Incomplete,
            }
        } else if str_eq(kind, "admin_delete_poll") {
            match p.u64_at("poll_id") {
                Some(poll_id) => Action::DeletePoll { poll_id },
                None => Action::Incomplete,
            }
        } else if str_eq(kind, "admin_display_mode") {
            Action::DisplayMode {
                mode: match p.str_at("mode") {
                    Some(mode) => mode.to_owned(),
                    None => "questions".to_owned(),
                },
            }
        } else if str_eq(kind, "admin_close_room") {
            Action::CloseRoom
        } else {
            Action::Unknown
        }
    }
}

/// Whether a display panel exists.
pub open spec fn is_display_mode(mode: Seq<char>) -> bool {
    ||| mode == "questions"@
    ||| mode == "messages"@
    ||| mode == "polls"@
    ||| mode == "qr"@
}

/// Whether what an action counts up has not reached the end of its range.
pub open spec fn doable(s: RoomView, a: ActionView) -> bool {
    match a {
        ActionView::Message { .. } => s.next_msg_id < u64::MAX,
        ActionView::Question { .. } => s.next_question_id < u64::MAX,
        ActionView::Vote { question_id } => votable(s.questions, question_id),
        ActionView::PollVote { poll_id, option_index } => poll_votable(
            s.polls,
            poll_id,
            option_index,
        ),
        ActionView::Lock { .. } => s.lock_epoch < u64::MAX,
        ActionView::CreatePoll { .. } => s.next_poll_id < u64::MAX,
        _ => true,
    }
}

/// What an action does to a room.
pub open spec fn perform(
    s: RoomView,
    room_id: Seq<char>,
    cfg: RoomConfig,
    who: Seq<char>,
    is_admin: bool,
    now: u64,
    a: ActionView,
) -> Step {
    match a {
        ActionView::Message { text } => send_message(s, room_id, cfg, who, is_admin, now, text),
        ActionView::Reaction { message_id, emoji } => react(s, room_id, who, message_id, emoji),
        ActionView::Question { text } => ask_question(s, room_id, cfg, is_admin, now, text),
        ActionView::Vote { question_id } => vote(s, room_id, who, is_admin, now, question_id),
        ActionView::PollVote { poll_id, option_index } => vote_in_poll(
            s,
            room_id,
            who,
            is_admin,
            now,
            poll_id,
            option_index,
        ),
        ActionView::ApproveMessage { message_id } => approve_message(s, room_id, cfg, message_id),
        ActionView::RejectMessage { message_id } => reject_message(s, room_id, message_id),
        ActionView::ApproveQuestion { question_id } => approve_question(s, room_id, question_id),
        ActionView::RejectQuestion { question_id } => reject_question(s, room_id, question_id),
        ActionView::Lock { locked, duration_seconds } => set_lock(
            s,
            room_id,
            now,
            locked,
            duration_seconds,
        ),
        ActionView::DeleteMessage { message_id } => delete_message(s, room_id, message_id),
        ActionView::PinQuestion { question_id } => pin_question(s, room_id, question_id),
        ActionView::AnswerQuestion { question_id } => answer_question(s, room_id, question_id),
        ActionView::DismissQuestion { question_id } => dismiss_question(s, room_id, question_id),
        ActionView::CreatePoll { question, options } => create_poll(s, room_id, question, options),
        ActionView::ClosePoll { poll_id } => end_poll(s, room_id, poll_id),
        ActionView::DeletePoll { poll_id } => delete_poll(s, room_id, poll_id),
        ActionView::DisplayMode { mode } => if is_display_mode(mode) {
            (s, seq![EffectView::Broadcast(display_event(mode))])
        } else {
            ignored(s)
        },
        ActionView::CloseRoom => (
            s,
            seq![EffectView::Broadcast(room_closed_event()), EffectView::CloseRoom],
        ),
        ActionView::Incomplete => ignored(s),
        ActionView::Unknown => refused(s, "unknown"@, "unknown message type"@),
    }
}

/// The type of a frame; empty if it has none.
pub open spec fn frame_kind(frame: JsonView) -> Seq<char> {
    match frame.text_at("type"@) {
        Some(kind) => kind,
        None => ""@,
    }
}

/// The payload of a frame; an empty object if it has none.
pub open spec fn frame_payload(frame: JsonView) -> JsonView {
    match frame.member("payload"@) {
        Some(p) => p,
        None => empty_object(),
    }
}

/// What a frame does to a room. `None` is a frame that is no JSON.
pub open spec fn handle(
    s: RoomView,
    room_id: Seq<char>,
    cfg: RoomConfig,
    who: Seq<char>,
    is_admin: bool,
    is_display: bool,
    now: u64,
    frame: Option<JsonView>,
) -> Step {
    match frame {
        None => refused(s, "bad_json"@, "invalid JSON"@),
        Some(frame) => if is_display {
            ignored(s)
        } else if has_prefix(frame_kind(frame), "admin_"@) && !is_admin {
            refused(s, "forbidden"@, "admin token required"@)
        } else {
            perform(
                s,
                room_id,
                cfg,
                who,
                is_admin,
                now,
                decode_action(frame_kind(frame), frame_payload(frame)),
            )
        },
    }
}

impl RoomInner {
    /// Does what an action asks for.
    pub fn perform(
        &mut self,
        room_id: &str,
        cfg: &RoomConfig,
        who: &str,
        is_admin: bool,
        now: u64,
        a: Action,
    ) -> (r: Vec<Effect>)
        requires
            doable(old(self)@, a@),
        ensures
            (final(self)@, views(r@)) == perform(
                old(self)@,
                room_id@,
                *cfg,
                who@,
                is_admin,
                now,
                a@,
            ),
    {
        match a {
            Action::Message { text } => self.send_message(room_id, cfg, who, is_admin, now, text),
            Action::Reaction { message_id, emoji } => self.react(
                room_id,
                who,
                message_id,
                emoji.as_str(),
            ),
            Action::Question { text } => self.ask_question(room_id, cfg, is_admin, now, text),
            Action::Vote { question_id } => self.vote(room_id, who, is_admin, now, question_id),
            Action::PollVote { poll_id, option_index } => self.vote_in_poll(
                room_id,
                who,
                is_admin,
                now,
                poll_id,
                option_index,
            ),
            Action::ApproveMessage { message_id } => self.approve_message(
                room_id,
                cfg,
                message_id,
            ),
            Action::RejectMessage { message_id } => self.reject_message(room_id, message_id),
            Action::ApproveQuestion { question_id } => self.approve_question(
                room_id,
                question_id,
            ),
            Action::RejectQuestion { question_id } => self.reject_question(room_id, question_id),
            Action::Lock { locked, duration_seconds } => self.set_lock(
                room_id,
                now,
                locked,
                duration_seconds,
            ),
            Action::DeleteMessage { message_id } => self.delete_message(room_id, message_id),
            Action::PinQuestion { question_id } => self.pin_question(room_id, question_id),
            Action::AnswerQuestion { question_id } => self.answer_question(room_id, question_id),
            Action::DismissQuestion { question_id } => self.dismiss_question(
                room_id,
                question_id,
            ),
            Action::CreatePoll { question, options } => self.create_poll(
                room_id,
                question,
                options,
            ),
            Action::ClosePoll { poll_id } => self.end_poll(room_id, poll_id),
            Action::DeletePoll { poll_id } => self.delete_poll(room_id, poll_id),
            Action::DisplayMode { mode } => {
                if str_eq(mode.as_str(), "questions") || str_eq(mode.as_str(), "messages")
                    || str_eq(mode.as_str(), "polls") || str_eq(mode.as_str(), "qr") {
                    let fx: Vec<Effect> = and_then(
                        no_effects(),
                        Effect::Broadcast(
                            make_event(
                                "display_mode",
                                Json::object().with("mode", Json::text(mode.as_str())),
                            ),
                        ),
                    );
                    assert(views(fx@) =~= seq![EffectView::Broadcast(display_event(mode@))]);
                    fx
                } else {
                    no_effects()
                }
            },
            Action::CloseRoom => {
                let mut fx: Vec<Effect> = and_then(
                    no_effects(),
                    Effect::Broadcast(make_room_closed_event()),
                );
                fx = and_then(fx, Effect::CloseRoom);
                assert(views(fx@) =~= seq![
                    EffectView::Broadcast(room_closed_event()),
                    EffectView::CloseRoom,
                ]);
                fx
            },
            Action::Incomplete => no_effects(),
            Action::Unknown => personal_err("unknown", "unknown message type"),
        }
    }

    /// Handles one frame of a client. `None` is a frame that is no JSON.
    pub fn handle_frame(
        &mut self,
        room_id: &str,
        cfg: &RoomConfig,
        who: &str,
        is_admin: bool,
        is_display: bool,
        now: u64,
        frame: Option<Json>,
    ) -> (r: Vec<Effect>)
        requires
            frame matches Some(j) ==> doable(
                old(self)@,
                decode_action(frame_kind(j@), frame_payload(j@)),
            ),
        ensures
            (final(self)@, views(r@)) == handle(
                old(self)@,
                room_id@,
                *cfg,
                who@,
                is_admin,
                is_display,
                now,
                match frame {
                    Some(j) => Some(j@),
                    None => None,
                },
            ),
    {
        let frame: Json = match frame {
            Some(j) => j,
            None => {
                return personal_err("bad_json", "invalid JSON");
            },
        };
        // Display connections are read-only: whatever they send is dropped.
        if is_display {
            return no_effects();
        }
        let kind: &str = match frame.str_at("type") {
            Some(kind) => kind,
            None => "",
        };
        if starts_with(kind, "admin_") && !is_admin {
            return personal_err("forbidden", "admin token required");
        }
        let a: Action = match frame.get("payload") {
            Some(p) => Action::decode(kind, p),
            None => Action::decode(kind, &Json::object()),
        };
        self.perform(room_id, cfg, who, is_admin, now, a)
    }
}

} // verus!
