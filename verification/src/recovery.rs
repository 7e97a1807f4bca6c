//! What a restart brings back: a room rebuilt from its log is the room that was
//! lost, but for what is not stored.
//!
//! Sessions, presence, rate limits and timers are not stored. The messages that
//! come back are those that were there: the log keeps older ones too, and
//! replaying it drops them where the room did. A timed lock that ran out is not
//! logged as lifted, but its deadline is, so it is over after a restart all the
//! same.

use vstd::prelude::*;

use crate::consistency::{
    can_grow, consistent, law_auto_unlock_consistent, law_handle_consistent,
    law_new_room_consistent, law_presence_consistent,
};
use crate::db::{
    all_replayed, apply_rows, replayed, row_of, EventRowView, RoomRowView, StoredView,
};
use crate::event::{
    apply, capped, decode_event, event_kind, event_payload, item_texts, new_message, new_poll,
    new_question, stored_options, texts_json, with_count, EventView,
};
use crate::json::JsonView;
use crate::laws::{fits_columns, law_rows_read_back};
use crate::list::{
    find_id, has_id, lemma_find, lemma_without_absent, lemma_without_len, lemma_without_one,
};
use crate::outside::json_of_text;
use crate::state::{empty_room, voters_of, RoomConfig, RoomModel, RoomView};
use crate::text::has_prefix;
use crate::wire::{
    event, id_event, lock_event, message_json, pin_event, poll_json, poll_update_event,
    question_json, reaction_event, vote_event,
};
use crate::ws::{
    announced, answer_question, approve_message, approve_question, ask_question, auto_unlock,
    create_poll, decode_action, delete_message, delete_poll, dismiss_question, end_poll, frame_kind,
    frame_payload, handle, is_pinned, is_reaction, lock_deadline, perform, pin_question, react,
    reject_message, reject_question, role_of, send_message, set_lock, submitted, users_of, vote,
    vote_in_poll, ActionView, EffectView, Step,
};

verus! {

// ── Rows and back ───────────────────────────────────────────────────────────

/// Whether an event can be stored and read back. Every event that a room logs
/// can: a poll has answers.
pub open spec fn storable(e: EventView) -> bool {
    e matches EventView::PollCreated { options, .. } ==> options.len() > 0
}

/// The kinds of events differ: in length, in the first letter, or in the sixth.
proof fn lemma_kinds()
    ensures
        "message"@.len() == 7,
        "message_deleted"@.len() == 15 && "message_deleted"@[0] == 'm',
        "reaction_add"@.len() == 12 && "reaction_add"@[0] == 'r',
        "reaction_remove"@.len() == 15 && "reaction_remove"@[0] == 'r',
        "pending_message"@.len() == 15 && "pending_message"@[0] == 'p',
        "pending_message_rejected"@.len() == 24,
        "question"@.len() == 8 && "question"@[0] == 'q',
        "vote_add"@.len() == 8 && "vote_add"@[0] == 'v',
        "vote_remove"@.len() == 11 && "vote_remove"@[0] == 'v',
        "question_pinned"@.len() == 15 && "question_pinned"@[0] == 'q',
        "question_answered"@.len() == 17,
        "question_dismissed"@.len() == 18,
        "pending_question"@.len() == 16,
        "pending_question_rejected"@.len() == 25,
        "poll_created"@.len() == 12 && "poll_created"@[0] == 'p' && "poll_created"@[5] == 'c',
        "poll_vote"@.len() == 9,
        "poll_closed"@.len() == 11 && "poll_closed"@[0] == 'p',
        "poll_deleted"@.len() == 12 && "poll_deleted"@[0] == 'p' && "poll_deleted"@[5] == 'd',
        "lock"@.len() == 4,
{
    reveal_strlit("message");
    reveal_strlit("message_deleted");
    reveal_strlit("reaction_add");
    reveal_strlit("reaction_remove");
    reveal_strlit("pending_message");
    reveal_strlit("pending_message_rejected");
    reveal_strlit("question");
    reveal_strlit("vote_add");
    reveal_strlit("vote_remove");
    reveal_strlit("question_pinned");
    reveal_strlit("question_answered");
    reveal_strlit("question_dismissed");
    reveal_strlit("pending_question");
    reveal_strlit("pending_question_rejected");
    reveal_strlit("poll_created");
    reveal_strlit("poll_vote");
    reveal_strlit("poll_closed");
    reveal_strlit("poll_deleted");
    reveal_strlit("lock");
}

/// The members of payloads differ: in length, or in the first letter.
proof fn lemma_members()
    ensures
        "id"@.len() == 2 && "id"@[0] == 'i',
        "ts"@.len() == 2 && "ts"@[0] == 't',
        "role"@.len() == 4 && "role"@[0] == 'r',
        "text"@.len() == 4 && "text"@[0] == 't',
        "message_id"@.len() == 10,
        "emoji"@.len() == 5 && "emoji"@[0] == 'e',
        "voter"@.len() == 5 && "voter"@[0] == 'v',
        "until"@.len() == 5 && "until"@[0] == 'u',
        "question_id"@.len() == 11,
        "pinned"@.len() == 6 && "pinned"@[0] == 'p',
        "locked"@.len() == 6 && "locked"@[0] == 'l',
        "options"@.len() == 7 && "options"@[0] == 'o',
        "poll_id"@.len() == 7 && "poll_id"@[0] == 'p',
        "question"@.len() == 8,
        "option_index"@.len() == 12,
{
    reveal_strlit("id");
    reveal_strlit("ts");
    reveal_strlit("role");
    reveal_strlit("text");
    reveal_strlit("message_id");
    reveal_strlit("emoji");
    reveal_strlit("voter");
    reveal_strlit("until");
    reveal_strlit("question_id");
    reveal_strlit("pinned");
    reveal_strlit("locked");
    reveal_strlit("options");
    reveal_strlit("poll_id");
    reveal_strlit("question");
    reveal_strlit("option_index");
}

/// The answers of a poll are read back as they were stored.
proof fn lemma_texts_back(texts: Seq<Seq<char>>)
    ensures
        item_texts(texts_json(texts)) == texts,
    decreases texts.len(),
{
    if texts.len() > 0 {
        lemma_texts_back(texts.drop_last());
        assert(texts_json(texts).drop_last() == texts_json(texts.drop_last()));
        assert(texts.drop_last().push(texts.last()) == texts);
    }
}

/// An event that was stored is read back as it was.
pub proof fn law_events_read_back(e: EventView)
    requires
        storable(e),
    ensures
        decode_event(event_kind(e), event_payload(e)) == Some(e),
{
    lemma_kinds();
    lemma_members();
    if let EventView::PollCreated { id, question, options } = e {
        lemma_texts_back(options);
        assert(stored_options(event_payload(e)) == options);
    }
}

// ── The room and its log ────────────────────────────────────────────────────

/// What is logged, out of what is done.
pub open spec fn log_of(fx: Seq<EffectView>) -> Seq<EventView>
    decreases fx.len(),
{
    if fx.len() == 0 {
        Seq::empty()
    } else {
        match fx.last() {
            EffectView::Persist(e) => log_of(fx.drop_last()).push(e),
            _ => log_of(fx.drop_last()),
        }
    }
}

/// A room after the events of a log, in order. Throughout it keeps its last
/// `max` messages.
pub open spec fn replay(s: RoomView, log: Seq<EventView>, max: nat) -> RoomView
    decreases log.len(),
{
    if log.len() == 0 {
        s
    } else {
        capped(apply(replay(s, log.drop_last(), max), log.last()), max)
    }
}

/// Whether two rooms are locked alike, and until the same time, from now on.
pub open spec fn locked_alike(a: RoomView, b: RoomView, now: u64) -> bool {
    forall|t: u64|
        now <= t ==> #[trigger] a.locked_at(t) == b.locked_at(t) && (a.locked_at(t)
            ==> a.locked_until == b.locked_until)
}

/// Whether `stored`, the room that a log leads to, is the room `live` from now
/// on, but for what is not stored: nobody is in it, and nobody has just sent a
/// message.
pub open spec fn mirrors(live: RoomView, stored: RoomView, now: u64) -> bool {
    &&& live.messages == stored.messages
    &&& live.pending_messages == stored.pending_messages
    &&& live.questions == stored.questions
    &&& live.pending_questions == stored.pending_questions
    &&& live.polls == stored.polls
    &&& live.next_msg_id == stored.next_msg_id
    &&& live.next_question_id == stored.next_question_id
    &&& live.next_poll_id == stored.next_poll_id
    &&& live.question_voters == stored.question_voters
    &&& live.poll_voters == stored.poll_voters
    &&& live.reaction_users == stored.reaction_users
    &&& locked_alike(live, stored, now)
    &&& stored.sessions == empty_room().sessions
    &&& stored.last_message_at == empty_room().last_message_at
    &&& stored.participants == 0
}

proof fn lemma_log_push(fx: Seq<EffectView>, x: EffectView)
    ensures
        log_of(fx.push(x)) == match x {
            EffectView::Persist(e) => log_of(fx).push(e),
            _ => log_of(fx),
        },
{
    assert(fx.push(x).drop_last() == fx);
}

/// What is logged of an announced event.
proof fn lemma_announced(room_id: Seq<char>, e: EventView, j: JsonView)
    requires
        room_id != "test"@,
    ensures
        log_of(announced(room_id, e, j)) == seq![e],
{
    let fx = seq![EffectView::Broadcast(j)];
    lemma_silent(fx);
    lemma_log_push(fx, EffectView::Persist(e));
    assert(announced(room_id, e, j) == fx.push(EffectView::Persist(e)));
    assert(Seq::<EventView>::empty().push(e) == seq![e]);
}

/// What is logged of a pending item.
proof fn lemma_submitted(room_id: Seq<char>, e: EventView, j: JsonView)
    requires
        room_id != "test"@,
    ensures
        log_of(submitted(room_id, e, j)) == seq![e],
{
    let fx = seq![EffectView::Reply(j), EffectView::BroadcastAdmin(j)];
    lemma_silent(fx);
    lemma_log_push(fx, EffectView::Persist(e));
    assert(submitted(room_id, e, j) == fx.push(EffectView::Persist(e)));
    assert(Seq::<EventView>::empty().push(e) == seq![e]);
}

proof fn lemma_replay_one(s: RoomView, e: EventView, max: nat)
    ensures
        replay(s, seq![e], max) == capped(apply(s, e), max),
{
    assert(seq![e].drop_last() == Seq::<EventView>::empty());
    assert(replay(s, seq![e].drop_last(), max) == s);
}

// ── Step by step ────────────────────────────────────────────────────────────

/// The same lock, seen later, or in rooms that differ elsewhere.
proof fn lemma_lock_kept(
    live: RoomView,
    stored: RoomView,
    a: RoomView,
    b: RoomView,
    before: u64,
    now: u64,
)
    requires
        locked_alike(live, stored, before),
        before <= now,
        a.locked == live.locked,
        a.locked_until == live.locked_until,
        b.locked == stored.locked,
        b.locked_until == stored.locked_until,
    ensures
        locked_alike(a, b, now),
{
    assert forall|u: u64| now <= u implies #[trigger] a.locked_at(u) == b.locked_at(u) && (
    a.locked_at(u) ==> a.locked_until == b.locked_until) by {
        assert(live.locked_at(u) == stored.locked_at(u));
    }
}

/// Replies alone are not logged.
proof fn lemma_silent(fx: Seq<EffectView>)
    requires
        forall|i: int| 0 <= i < fx.len() ==> !((#[trigger] fx[i]) is Persist),
    ensures
        log_of(fx) == Seq::<EventView>::empty(),
    decreases fx.len(),
{
    if fx.len() > 0 {
        assert(!(fx[fx.len() - 1] is Persist));
        lemma_silent(fx.drop_last());
    }
}

/// Whether what was done to a room, and what was logged of it, do the same to
/// the stored room.
pub open spec fn logged_alike(step: Step, stored: RoomView, max: nat, now: u64) -> bool {
    mirrors(step.0, replay(stored, log_of(step.1), max), now)
}

/// Something that is logged as one event, and that replaying the event does
/// alike, apart from the lock, which it leaves alone.
proof fn lemma_one_event(
    live: RoomView,
    stored: RoomView,
    max: nat,
    now: u64,
    step: Step,
    e: EventView,
)
    requires
        mirrors(live, stored, now),
        log_of(step.1) == seq![e],
        step.0.locked == live.locked,
        step.0.locked_until == live.locked_until,
        apply(stored, e).locked == stored.locked,
        apply(stored, e).locked_until == stored.locked_until,
        ({
            let t = capped(apply(stored, e), max);
            locked_alike(step.0, t, now) ==> mirrors(step.0, t, now)
        }),
    ensures
        logged_alike(step, stored, max, now),
{
    lemma_replay_one(stored, e, max);
    lemma_lock_kept(live, stored, step.0, capped(apply(stored, e), max), now, now);
}

proof fn lemma_send_mirrors(
    live: RoomView,
    stored: RoomView,
    room_id: Seq<char>,
    cfg: RoomConfig,
    who: Seq<char>,
    is_admin: bool,
    now: u64,
    text: Seq<char>,
)
    requires
        consistent(live, cfg),
        can_grow(live),
        mirrors(live, stored, now),
        room_id != "test"@,
    ensures
        logged_alike(
            send_message(live, room_id, cfg, who, is_admin, now, text),
            stored,
            cfg.max_messages as nat,
            now,
        ),
{
    let max = cfg.max_messages as nat;
    let step = send_message(live, room_id, cfg, who, is_admin, now, text);
    if step.0.next_msg_id != live.next_msg_id {
        let id = (live.next_msg_id + 1) as u64;
        let m = new_message(id, role_of(is_admin), text, now);
        assert(!has_id(live.pending_messages, id));
        if cfg.moderated && !is_admin {
            let e = EventView::PendingMessage { id: m.id, role: m.role, text: m.text, ts: m.ts };
            lemma_submitted(room_id, e, event("pending_message"@, message_json(m)));
            lemma_one_event(live, stored, max, now, step, e);
        } else {
            let e = EventView::Message { id: m.id, role: m.role, text: m.text, ts: m.ts };
            lemma_announced(room_id, e, event("message"@, message_json(m)));
            lemma_without_absent(live.pending_messages, id);
            lemma_one_event(live, stored, max, now, step, e);
        }
    } else {
        assert(step.0 == live);
        lemma_silent(step.1);
    }
}

proof fn lemma_ask_mirrors(
    live: RoomView,
    stored: RoomView,
    room_id: Seq<char>,
    cfg: RoomConfig,
    is_admin: bool,
    now: u64,
    text: Seq<char>,
)
    requires
        consistent(live, cfg),
        can_grow(live),
        mirrors(live, stored, now),
        room_id != "test"@,
    ensures
        logged_alike(
            ask_question(live, room_id, cfg, is_admin, now, text),
            stored,
            cfg.max_messages as nat,
            now,
        ),
{
    let max = cfg.max_messages as nat;
    let step = ask_question(live, room_id, cfg, is_admin, now, text);
    if step.0.next_question_id != live.next_question_id {
        let id = (live.next_question_id + 1) as u64;
        let q = new_question(id, text);
        assert(!has_id(live.pending_questions, id));
        if cfg.moderated && !is_admin {
            let e = EventView::PendingQuestion { id, text };
            lemma_submitted(room_id, e, event("pending_question"@, question_json(q)));
            lemma_one_event(live, stored, max, now, step, e);
        } else {
            let e = EventView::Question { id, text };
            lemma_announced(room_id, e, event("question"@, question_json(q)));
            lemma_without_absent(live.pending_questions, id);
            lemma_one_event(live, stored, max, now, step, e);
        }
    } else {
        assert(step.0 == live);
        lemma_silent(step.1);
    }
}

proof fn lemma_react_mirrors(
    live: RoomView,
    stored: RoomView,
    room_id: Seq<char>,
    cfg: RoomConfig,
    who: Seq<char>,
    now: u64,
    id: u64,
    emoji: Seq<char>,
)
    requires
        consistent(live, cfg),
        can_grow(live),
        mirrors(live, stored, now),
        room_id != "test"@,
    ensures
        logged_alike(
            react(live, room_id, who, id, emoji),
            stored,
            cfg.max_messages as nat,
            now,
        ),
{
    let step = react(live, room_id, who, id, emoji);
    if is_reaction(emoji) && find_id(live.messages, id) is Some {
        let users = users_of(live.reaction_users, id, emoji);
        let added = !users.contains(who);
        let after = if added {
            users.insert(who)
        } else {
            users.remove(who)
        };
        let count = after.len() as u32;
        let e = if added {
            EventView::ReactionAdd { message_id: id, emoji, voter: who }
        } else {
            EventView::ReactionRemove { message_id: id, emoji, voter: who }
        };
        assert(users.finite() && users.len() < u32::MAX);
        assert(added ==> count != 0);
        lemma_announced(room_id, e, reaction_event(id, emoji, count));
        let t = apply(stored, e);
        assert(t.messages == with_count(stored.messages, id, emoji, count, count == 0));
        assert(t.reaction_users == step.0.reaction_users);
        lemma_one_event(live, stored, cfg.max_messages as nat, now, step, e);
    } else {
        lemma_silent(step.1);
    }
}

proof fn lemma_vote_mirrors(
    live: RoomView,
    stored: RoomView,
    room_id: Seq<char>,
    max: nat,
    who: Seq<char>,
    is_admin: bool,
    now: u64,
    id: u64,
)
    requires
        mirrors(live, stored, now),
        live.messages.len() <= max,
        room_id != "test"@,
    ensures
        logged_alike(vote(live, room_id, who, is_admin, now, id), stored, max, now),
{
    let step = vote(live, room_id, who, is_admin, now, id);
    let open = !(live.locked_at(now) && !is_admin) && find_id(live.questions, id) is Some
        && !live.questions[find_id(live.questions, id)->0].answered;
    if open {
        let voters = voters_of(live.question_voters, id);
        let e = if voters.contains(who) {
            EventView::VoteRemove { question_id: id, voter: who }
        } else {
            EventView::VoteAdd { question_id: id, voter: who }
        };
        let i = find_id(live.questions, id)->0;
        lemma_announced(room_id, e, vote_event(id, step.0.questions[i].votes));
        lemma_one_event(live, stored, max, now, step, e);
    } else {
        lemma_silent(step.1);
    }
}

proof fn lemma_poll_vote_mirrors(
    live: RoomView,
    stored: RoomView,
    room_id: Seq<char>,
    max: nat,
    who: Seq<char>,
    is_admin: bool,
    now: u64,
    id: u64,
    option: usize,
)
    requires
        mirrors(live, stored, now),
        live.messages.len() <= max,
        room_id != "test"@,
    ensures
        logged_alike(
            vote_in_poll(live, room_id, who, is_admin, now, id, option),
            stored,
            max,
            now,
        ),
{
    let step = vote_in_poll(live, room_id, who, is_admin, now, id, option);
    let i = find_id(live.polls, id)->0;
    let open = !(live.locked_at(now) && !is_admin) && find_id(live.polls, id) is Some
        && !live.polls[i].closed && option < live.polls[i].options.len() && !voters_of(
        live.poll_voters,
        id,
    ).contains(who);
    if open {
        let e = EventView::PollVote { poll_id: id, option_index: option, voter: who };
        lemma_announced(room_id, e, poll_update_event(id, step.0.polls[i].options));
        lemma_one_event(live, stored, max, now, step, e);
    } else {
        lemma_silent(step.1);
    }
}

/// What admins do about pending items that they let through.
proof fn lemma_approve_mirrors(
    live: RoomView,
    stored: RoomView,
    room_id: Seq<char>,
    cfg: RoomConfig,
    now: u64,
    id: u64,
)
    requires
        consistent(live, cfg),
        mirrors(live, stored, now),
        room_id != "test"@,
    ensures
        logged_alike(
            approve_message(live, room_id, cfg, id),
            stored,
            cfg.max_messages as nat,
            now,
        ),
        logged_alike(
            approve_question(live, room_id, id),
            stored,
            cfg.max_messages as nat,
            now,
        ),
{
    let max = cfg.max_messages as nat;
    let step = approve_message(live, room_id, cfg, id);
    lemma_find(live.pending_messages, id);
    match find_id(live.pending_messages, id) {
        Some(i) => {
            let m = live.pending_messages[i];
            let e = EventView::Message { id: m.id, role: m.role, text: m.text, ts: m.ts };
            lemma_announced(room_id, e, event("message"@, message_json(m)));
            lemma_without_one(live.pending_messages, id, i);
            assert(m =~= new_message(m.id, m.role, m.text, m.ts));
            lemma_one_event(live, stored, max, now, step, e);
        },
        None => {
            lemma_silent(step.1);
        },
    }
    let step = approve_question(live, room_id, id);
    lemma_find(live.pending_questions, id);
    match find_id(live.pending_questions, id) {
        Some(i) => {
            let q = live.pending_questions[i];
            let e = EventView::Question { id: q.id, text: q.text };
            lemma_announced(room_id, e, event("question"@, question_json(q)));
            lemma_without_one(live.pending_questions, id, i);
            assert(q == new_question(q.id, q.text));
            lemma_one_event(live, stored, max, now, step, e);
        },
        None => {
            lemma_silent(step.1);
        },
    }
}

/// What admins do to what is pending, and to messages.
proof fn lemma_moderation_mirrors(
    live: RoomView,
    stored: RoomView,
    room_id: Seq<char>,
    max: nat,
    now: u64,
    id: u64,
)
    requires
        mirrors(live, stored, now),
        live.messages.len() <= max,
        room_id != "test"@,
    ensures
        logged_alike(reject_message(live, room_id, id), stored, max, now),
        logged_alike(reject_question(live, room_id, id), stored, max, now),
        logged_alike(delete_message(live, room_id, id), stored, max, now),
{
    let e = EventView::PendingMessageRejected { id };
    lemma_announced(room_id, e, id_event("pending_message_rejected"@, "id"@, id));
    lemma_one_event(live, stored, max, now, reject_message(live, room_id, id), e);
    let e = EventView::PendingQuestionRejected { id };
    lemma_announced(room_id, e, id_event("pending_question_rejected"@, "id"@, id));
    lemma_one_event(live, stored, max, now, reject_question(live, room_id, id), e);
    let e = EventView::MessageDeleted { id };
    lemma_announced(room_id, e, id_event("message_deleted"@, "id"@, id));
    lemma_without_len(live.messages, id);
    lemma_one_event(live, stored, max, now, delete_message(live, room_id, id), e);
}

/// What admins do to questions.
proof fn lemma_board_mirrors(
    live: RoomView,
    stored: RoomView,
    room_id: Seq<char>,
    max: nat,
    now: u64,
    id: u64,
)
    requires
        mirrors(live, stored, now),
        live.messages.len() <= max,
        room_id != "test"@,
    ensures
        logged_alike(pin_question(live, room_id, id), stored, max, now),
        logged_alike(answer_question(live, room_id, id), stored, max, now),
        logged_alike(dismiss_question(live, room_id, id), stored, max, now),
{
    let pinned = !is_pinned(live.questions, id);
    let e = EventView::QuestionPinned { question_id: id, pinned };
    lemma_announced(room_id, e, pin_event(id, pinned));
    lemma_one_event(live, stored, max, now, pin_question(live, room_id, id), e);
    let e = EventView::QuestionAnswered { question_id: id };
    lemma_announced(room_id, e, id_event("question_answered"@, "question_id"@, id));
    lemma_one_event(live, stored, max, now, answer_question(live, room_id, id), e);
    let e = EventView::QuestionDismissed { question_id: id };
    lemma_announced(room_id, e, id_event("question_dismissed"@, "question_id"@, id));
    lemma_one_event(live, stored, max, now, dismiss_question(live, room_id, id), e);
}

/// What admins do to polls.
proof fn lemma_polls_mirrors(
    live: RoomView,
    stored: RoomView,
    room_id: Seq<char>,
    max: nat,
    now: u64,
    id: u64,
)
    requires
        mirrors(live, stored, now),
        live.messages.len() <= max,
        room_id != "test"@,
    ensures
        logged_alike(end_poll(live, room_id, id), stored, max, now),
        logged_alike(delete_poll(live, room_id, id), stored, max, now),
{
    let e = EventView::PollClosed { poll_id: id };
    lemma_announced(room_id, e, id_event("poll_closed"@, "poll_id"@, id));
    lemma_one_event(live, stored, max, now, end_poll(live, room_id, id), e);
    let e = EventView::PollDeleted { poll_id: id };
    lemma_announced(room_id, e, id_event("poll_deleted"@, "poll_id"@, id));
    lemma_one_event(live, stored, max, now, delete_poll(live, room_id, id), e);
}

proof fn lemma_create_poll_mirrors(
    live: RoomView,
    stored: RoomView,
    room_id: Seq<char>,
    max: nat,
    now: u64,
    question: Seq<char>,
    options: Seq<Seq<char>>,
)
    requires
        mirrors(live, stored, now),
        live.messages.len() <= max,
        live.next_poll_id < u64::MAX,
        room_id != "test"@,
    ensures
        logged_alike(create_poll(live, room_id, question, options), stored, max, now),
{
    let step = create_poll(live, room_id, question, options);
    if question.len() == 0 || !(2 <= options.len() <= 6) {
        lemma_silent(step.1);
    } else {
        let id = (live.next_poll_id + 1) as u64;
        let e = EventView::PollCreated { id, question, options };
        lemma_announced(
            room_id,
            e,
            event("poll_created"@, poll_json(new_poll(id, question, options))),
        );
        lemma_one_event(live, stored, max, now, step, e);
    }
}

proof fn lemma_set_lock_mirrors(
    live: RoomView,
    stored: RoomView,
    room_id: Seq<char>,
    max: nat,
    now: u64,
    locked: bool,
    duration: Option<u64>,
)
    requires
        mirrors(live, stored, now),
        live.messages.len() <= max,
        room_id != "test"@,
    ensures
        logged_alike(set_lock(live, room_id, now, locked, duration), stored, max, now),
{
    let until = lock_deadline(locked, duration, now);
    let e = EventView::Lock { locked, until };
    let j = lock_event(locked, until);
    let fx = announced(room_id, e, j);
    let epoch = (live.lock_epoch + 1) as u64;
    lemma_announced(room_id, e, j);
    assert forall|seconds: u64| log_of(
        #[trigger] fx.push(EffectView::ScheduleUnlock { seconds, epoch }),
    ) == seq![e] by {
        lemma_log_push(fx, EffectView::ScheduleUnlock { seconds, epoch });
    }
    lemma_replay_one(stored, e, max);
}

/// Whatever is done in a room, replaying what is logged of it does the same to
/// the stored room. Not for the test room, of which nothing is logged.
pub proof fn law_perform_logged(
    live: RoomView,
    stored: RoomView,
    room_id: Seq<char>,
    cfg: RoomConfig,
    who: Seq<char>,
    is_admin: bool,
    now: u64,
    a: ActionView,
)
    requires
        consistent(live, cfg),
        can_grow(live),
        mirrors(live, stored, now),
        room_id != "test"@,
    ensures
        logged_alike(
            perform(live, room_id, cfg, who, is_admin, now, a),
            stored,
            cfg.max_messages as nat,
            now,
        ),
{
    let max = cfg.max_messages as nat;
    match a {
        ActionView::Message { text } => {
            lemma_send_mirrors(live, stored, room_id, cfg, who, is_admin, now, text);
        },
        ActionView::Reaction { message_id, emoji } => {
            lemma_react_mirrors(live, stored, room_id, cfg, who, now, message_id, emoji);
        },
        ActionView::Question { text } => {
            lemma_ask_mirrors(live, stored, room_id, cfg, is_admin, now, text);
        },
        ActionView::Vote { question_id } => {
            lemma_vote_mirrors(live, stored, room_id, max, who, is_admin, now, question_id);
        },
        ActionView::PollVote { poll_id, option_index } => {
            lemma_poll_vote_mirrors(
                live,
                stored,
                room_id,
                max,
                who,
                is_admin,
                now,
                poll_id,
                option_index,
            );
        },
        ActionView::ApproveMessage { message_id } => {
            lemma_approve_mirrors(live, stored, room_id, cfg, now, message_id);
        },
        ActionView::RejectMessage { message_id } => {
            lemma_moderation_mirrors(live, stored, room_id, max, now, message_id);
        },
        ActionView::ApproveQuestion { question_id } => {
            lemma_approve_mirrors(live, stored, room_id, cfg, now, question_id);
        },
        ActionView::RejectQuestion { question_id } => {
            lemma_moderation_mirrors(live, stored, room_id, max, now, question_id);
        },
        ActionView::Lock { locked, duration_seconds } => {
            lemma_set_lock_mirrors(live, stored, room_id, max, now, locked, duration_seconds);
        },
        ActionView::DeleteMessage { message_id } => {
            lemma_moderation_mirrors(live, stored, room_id, max, now, message_id);
        },
        ActionView::PinQuestion { question_id } => {
            lemma_board_mirrors(live, stored, room_id, max, now, question_id);
        },
        ActionView::AnswerQuestion { question_id } => {
            lemma_board_mirrors(live, stored, room_id, max, now, question_id);
        },
        ActionView::DismissQuestion { question_id } => {
            lemma_board_mirrors(live, stored, room_id, max, now, question_id);
        },
        ActionView::CreatePoll { question, options } => {
            lemma_create_poll_mirrors(live, stored, room_id, max, now, question, options);
        },
        ActionView::ClosePoll { poll_id } => {
            lemma_polls_mirrors(live, stored, room_id, max, now, poll_id);
        },
        ActionView::DeletePoll { poll_id } => {
            lemma_polls_mirrors(live, stored, room_id, max, now, poll_id);
        },
        _ => {
            lemma_silent(perform(live, room_id, cfg, who, is_admin, now, a).1);
        },
    }
}

/// Whatever a client sends, replaying what is logged of it does the same to the
/// stored room.
pub proof fn law_handle_logged(
    live: RoomView,
    stored: RoomView,
    room_id: Seq<char>,
    cfg: RoomConfig,
    who: Seq<char>,
    is_admin: bool,
    is_display: bool,
    now: u64,
    frame: Option<JsonView>,
)
    requires
        consistent(live, cfg),
        can_grow(live),
        mirrors(live, stored, now),
        room_id != "test"@,
    ensures
        logged_alike(
            handle(live, room_id, cfg, who, is_admin, is_display, now, frame),
            stored,
            cfg.max_messages as nat,
            now,
        ),
{
    let step = handle(live, room_id, cfg, who, is_admin, is_display, now, frame);
    match frame {
        None => {
            lemma_silent(step.1);
        },
        Some(f) => {
            if is_display || (has_prefix(frame_kind(f), "admin_"@) && !is_admin) {
                lemma_silent(step.1);
            } else {
                law_perform_logged(
                    live,
                    stored,
                    room_id,
                    cfg,
                    who,
                    is_admin,
                    now,
                    decode_action(frame_kind(f), frame_payload(f)),
                );
            }
        },
    }
}

/// Whether a timer that runs out now is on time: the lock that it lifts, if it
/// lifts one, is a timed one whose deadline has passed.
pub open spec fn on_time(s: RoomView, epoch: u64, now: u64) -> bool {
    s.lock_epoch == epoch && s.locked ==> (s.locked_until matches Some(until) && until <= now)
}

/// A timed lock that is lifted on time need not be logged as lifted.
pub proof fn law_unlock_not_logged(live: RoomView, stored: RoomView, epoch: u64, now: u64)
    requires
        mirrors(live, stored, now),
        on_time(live, epoch, now),
    ensures
        mirrors(auto_unlock(live, epoch).0, stored, now),
        log_of(auto_unlock(live, epoch).1) == Seq::<EventView>::empty(),
{
    let step = auto_unlock(live, epoch);
    lemma_silent(step.1);
    if live.lock_epoch == epoch && live.locked {
        assert forall|t: u64| now <= t implies #[trigger] step.0.locked_at(t) == stored.locked_at(
            t,
        ) && (step.0.locked_at(t) ==> step.0.locked_until == stored.locked_until) by {
            assert(live.locked_at(t) == stored.locked_at(t));
        }
    }
}

/// Clients see after a restart what they saw before it, but for the number of
/// participants.
pub proof fn law_restart_looks_the_same(
    live: RoomView,
    stored: RoomView,
    now: u64,
    room_id: Seq<char>,
    is_admin: bool,
    title: Option<Seq<char>>,
    later: u64,
)
    requires
        mirrors(live, stored, now),
        now <= later,
    ensures
        stored.snapshot(room_id, is_admin, title, later) == (RoomView {
            participants: stored.participants,
            ..live
        }).snapshot(room_id, is_admin, title, later),
{
    let seen = RoomView { participants: stored.participants, ..live };
    assert(live.locked_at(later) == stored.locked_at(later));
    assert(seen.locked_at(later) == live.locked_at(later));
}

// ── From start to restart ───────────────────────────────────────────────────

/// What can happen to a room.
pub enum Happening {
    /// A client sends a frame.
    Frame { who: Seq<char>, is_admin: bool, is_display: bool, frame: Option<JsonView> },
    /// A timer runs out.
    Timer { epoch: u64 },
    /// Clients join, connect or leave.
    Presence { sessions: Set<Seq<char>>, participants: usize },
}

/// A room after something has happened to it, and what is to be done about it.
pub open spec fn happen(
    s: RoomView,
    room_id: Seq<char>,
    cfg: RoomConfig,
    now: u64,
    h: Happening,
) -> Step {
    match h {
        Happening::Frame { who, is_admin, is_display, frame } => handle(
            s,
            room_id,
            cfg,
            who,
            is_admin,
            is_display,
            now,
            frame,
        ),
        Happening::Timer { epoch } => auto_unlock(s, epoch),
        Happening::Presence { sessions, participants } => (
            RoomView { sessions, participants, ..s },
            Seq::empty(),
        ),
    }
}

/// A new room after all that has happened to it, each with its time, and what
/// was logged meanwhile.
pub open spec fn history(
    room_id: Seq<char>,
    cfg: RoomConfig,
    all: Seq<(u64, Happening)>,
) -> (RoomView, Seq<EventView>)
    decreases all.len(),
{
    if all.len() == 0 {
        (empty_room(), Seq::empty())
    } else {
        let before = history(room_id, cfg, all.drop_last());
        let step = happen(before.0, room_id, cfg, all.last().0, all.last().1);
        (step.0, before.1 + log_of(step.1))
    }
}

/// When the last of all that has happened did.
pub open spec fn last_time(all: Seq<(u64, Happening)>) -> u64 {
    if all.len() == 0 {
        0
    } else {
        all.last().0
    }
}

/// Whether time only went forward, no counter had reached the end of its range,
/// and timers ran out on time.
pub open spec fn orderly(room_id: Seq<char>, cfg: RoomConfig, all: Seq<(u64, Happening)>) -> bool
    decreases all.len(),
{
    all.len() > 0 ==> {
        let before = all.drop_last();
        let s = history(room_id, cfg, before).0;
        let now = all.last().0;
        &&& orderly(room_id, cfg, before)
        &&& last_time(before) <= now
        &&& can_grow(s)
        &&& all.last().1 matches Happening::Timer { epoch } ==> on_time(s, epoch, now)
    }
}

proof fn lemma_replay_concat(s: RoomView, a: Seq<EventView>, b: Seq<EventView>, max: nat)
    ensures
        replay(s, a + b, max) == replay(replay(s, a, max), b, max),
    decreases b.len(),
{
    if b.len() == 0 {
        assert(a + b == a);
    } else {
        lemma_replay_concat(s, a, b.drop_last(), max);
        assert((a + b).drop_last() == a + b.drop_last());
    }
}

/// Rooms that mirror each other still do later.
proof fn lemma_mirrors_later(live: RoomView, stored: RoomView, before: u64, now: u64)
    requires
        mirrors(live, stored, before),
        before <= now,
    ensures
        mirrors(live, stored, now),
{
    lemma_lock_kept(live, stored, live, stored, before, now);
}

/// Whatever has happened to a room, the room that its log leads to is the same
/// room, but for what is not stored.
pub proof fn law_log_leads_back(
    room_id: Seq<char>,
    cfg: RoomConfig,
    all: Seq<(u64, Happening)>,
)
    requires
        orderly(room_id, cfg, all),
        room_id != "test"@,
    ensures
        consistent(history(room_id, cfg, all).0, cfg),
        mirrors(
            history(room_id, cfg, all).0,
            replay(empty_room(), history(room_id, cfg, all).1, cfg.max_messages as nat),
            last_time(all),
        ),
    decreases all.len(),
{
    if all.len() == 0 {
        law_new_room_consistent(cfg);
    } else {
        let before = all.drop_last();
        law_log_leads_back(room_id, cfg, before);
        let (s, log) = history(room_id, cfg, before);
        let (now, h) = all.last();
        let max = cfg.max_messages as nat;
        let stored = replay(empty_room(), log, max);
        let step = happen(s, room_id, cfg, now, h);
        lemma_mirrors_later(s, stored, last_time(before), now);
        match h {
            Happening::Frame { who, is_admin, is_display, frame } => {
                law_handle_consistent(s, room_id, cfg, who, is_admin, is_display, now, frame);
                law_handle_logged(
                    s,
                    stored,
                    room_id,
                    cfg,
                    who,
                    is_admin,
                    is_display,
                    now,
                    frame,
                );
            },
            Happening::Timer { epoch } => {
                law_auto_unlock_consistent(s, cfg, epoch);
                law_unlock_not_logged(s, stored, epoch, now);
            },
            Happening::Presence { sessions, participants } => {
                law_presence_consistent(s, cfg, sessions, participants);
                lemma_silent(step.1);
                lemma_lock_kept(s, stored, step.0, stored, now, now);
            },
        }
        assert(logged_alike(step, stored, max, now));
        lemma_replay_concat(empty_room(), log, log_of(step.1), max);
    }
}

/// How many messages a log holds.
pub open spec fn posted(log: Seq<EventView>) -> nat
    decreases log.len(),
{
    if log.len() == 0 {
        0
    } else {
        posted(log.drop_last()) + if log.last() is Message {
            1nat
        } else {
            0
        }
    }
}

/// A room after the events of a log, in order, each taken by itself: no message
/// is dropped for the sake of later ones.
pub open spec fn applied(s: RoomView, log: Seq<EventView>) -> RoomView
    decreases log.len(),
{
    if log.len() == 0 {
        s
    } else {
        apply(applied(s, log.drop_last()), log.last())
    }
}

/// While there are no more messages than a room keeps, keeping the last of them
/// is keeping all.
pub proof fn law_short_history_kept(s: RoomView, log: Seq<EventView>, max: nat)
    requires
        s.messages.len() + posted(log) <= max,
    ensures
        replay(s, log, max) == applied(s, log),
        applied(s, log).messages.len() <= s.messages.len() + posted(log),
    decreases log.len(),
{
    if log.len() > 0 {
        law_short_history_kept(s, log.drop_last(), max);
        let before = applied(s, log.drop_last());
        if let EventView::MessageDeleted { id } = log.last() {
            lemma_without_len(before.messages, id);
        }
    }
}

/// Whatever has happened to a room, as long as no more messages were posted than
/// it keeps, applying the events of its log one by one leads to the same room,
/// but for what is not stored.
pub proof fn law_short_log_leads_back(
    room_id: Seq<char>,
    cfg: RoomConfig,
    all: Seq<(u64, Happening)>,
)
    requires
        orderly(room_id, cfg, all),
        room_id != "test"@,
        posted(history(room_id, cfg, all).1) <= cfg.max_messages,
    ensures
        mirrors(
            history(room_id, cfg, all).0,
            applied(empty_room(), history(room_id, cfg, all).1),
            last_time(all),
        ),
{
    law_log_leads_back(room_id, cfg, all);
    law_short_history_kept(
        empty_room(),
        history(room_id, cfg, all).1,
        cfg.max_messages as nat,
    );
}

// ── Through the rows ────────────────────────────────────────────────────────

/// Whether rows hold a log: each the kind of its event, and a text that reads
/// as its payload.
pub open spec fn rows_hold(rows: Seq<EventRowView>, log: Seq<EventView>) -> bool {
    &&& rows.len() == log.len()
    &&& forall|i: int|
        0 <= i < rows.len() ==> {
            let row = #[trigger] rows[i];
            &&& row.kind == event_kind(log[i])
            &&& json_of_text(row.payload) == Some(event_payload(log[i]))
        }
}

/// Whether every event of a log can be stored.
pub open spec fn all_storable(log: Seq<EventView>) -> bool {
    forall|i: int| 0 <= i < log.len() ==> storable(#[trigger] log[i])
}

/// Replaying the rows that hold a log is replaying the log.
pub proof fn law_rows_replay(
    s: RoomView,
    rows: Seq<EventRowView>,
    log: Seq<EventView>,
    max: nat,
)
    requires
        rows_hold(rows, log),
        all_storable(log),
    ensures
        apply_rows(s, rows, max) == replay(s, log, max),
    decreases rows.len(),
{
    if rows.len() > 0 {
        let r = rows.drop_last();
        let l = log.drop_last();
        assert(rows_hold(r, l)) by {
            assert forall|i: int| 0 <= i < r.len() implies ({
                let row = #[trigger] r[i];
                &&& row.kind == event_kind(l[i])
                &&& json_of_text(row.payload) == Some(event_payload(l[i]))
            }) by {
                assert(rows[i] == r[i]);
            }
        }
        assert(all_storable(l)) by {
            assert forall|i: int| 0 <= i < l.len() implies storable(#[trigger] l[i]) by {
                assert(log[i] == l[i]);
            }
        }
        law_rows_replay(s, r, l, max);
        let n = rows.len() - 1;
        assert(rows[n].kind == event_kind(log[n]));
        assert(storable(log[n]));
        law_events_read_back(log.last());
    }
}

/// Everything a room logs can be stored.
proof fn lemma_log_storable(
    s: RoomView,
    room_id: Seq<char>,
    cfg: RoomConfig,
    now: u64,
    h: Happening,
)
    ensures
        all_storable(log_of(happen(s, room_id, cfg, now, h).1)),
{
    let fx = happen(s, room_id, cfg, now, h).1;
    assert forall|i: int| 0 <= i < fx.len() implies ((#[trigger] fx[i]) matches EffectView::Persist(
        e,
    ) ==> storable(e)) by {
        if let Happening::Frame { who, is_admin, is_display, frame } = h {
            if let Some(f) = frame {
                lemma_effects_storable(
                    s,
                    room_id,
                    cfg,
                    who,
                    is_admin,
                    now,
                    decode_action(frame_kind(f), frame_payload(f)),
                );
            }
        }
    }
    lemma_log_of_storable(fx);
}

proof fn lemma_log_of_storable(fx: Seq<EffectView>)
    requires
        forall|i: int|
            0 <= i < fx.len() ==> ((#[trigger] fx[i]) matches EffectView::Persist(e)
                ==> storable(e)),
    ensures
        all_storable(log_of(fx)),
    decreases fx.len(),
{
    if fx.len() > 0 {
        let rest = fx.drop_last();
        assert forall|i: int| 0 <= i < rest.len() implies ((
        #[trigger] rest[i]) matches EffectView::Persist(e) ==> storable(e)) by {
            assert(fx[i] == rest[i]);
        }
        lemma_log_of_storable(rest);
        assert(fx[fx.len() - 1] == fx.last());
    }
}

proof fn lemma_effects_storable(
    s: RoomView,
    room_id: Seq<char>,
    cfg: RoomConfig,
    who: Seq<char>,
    is_admin: bool,
    now: u64,
    a: ActionView,
)
    ensures
        ({
            let fx = perform(s, room_id, cfg, who, is_admin, now, a).1;
            forall|i: int|
                0 <= i < fx.len() ==> ((#[trigger] fx[i]) matches EffectView::Persist(e)
                    ==> storable(e))
        }),
{
}

/// Everything that was ever logged of a room can be stored.
pub proof fn law_history_storable(
    room_id: Seq<char>,
    cfg: RoomConfig,
    all: Seq<(u64, Happening)>,
)
    ensures
        all_storable(history(room_id, cfg, all).1),
    decreases all.len(),
{
    if all.len() > 0 {
        let before = all.drop_last();
        law_history_storable(room_id, cfg, before);
        let (s, log) = history(room_id, cfg, before);
        let (now, h) = all.last();
        lemma_log_storable(s, room_id, cfg, now, h);
        let more = log_of(happen(s, room_id, cfg, now, h).1);
        assert forall|i: int| 0 <= i < (log + more).len() implies storable(
            #[trigger] (log + more)[i],
        ) by {
            if i < log.len() {
                assert(storable(log[i]));
            } else {
                assert(storable(more[i - log.len()]));
            }
        }
    }
}

/// A restart brings back every room: whatever has happened to it, replaying the
/// rows that hold its log leads to the same room, but for what is not stored.
pub proof fn law_restart(
    room_id: Seq<char>,
    cfg: RoomConfig,
    all: Seq<(u64, Happening)>,
    rows: Seq<EventRowView>,
)
    requires
        orderly(room_id, cfg, all),
        room_id != "test"@,
        rows_hold(rows, history(room_id, cfg, all).1),
    ensures
        mirrors(
            history(room_id, cfg, all).0,
            apply_rows(empty_room(), rows, cfg.max_messages as nat),
            last_time(all),
        ),
{
    law_log_leads_back(room_id, cfg, all);
    law_history_storable(room_id, cfg, all);
    law_rows_replay(
        empty_room(),
        rows,
        history(room_id, cfg, all).1,
        cfg.max_messages as nat,
    );
}

/// Whether a stored room is alive at a time: it has no expiry, or one that has
/// not come.
pub open spec fn lives(row: RoomRowView, now: u64) -> bool {
    row.expires_at matches Some(at) ==> now < at
}

/// A restart brings rooms back one by one and in order: every room that is alive
/// and whose log could be read, whatever else its row says, and no other. A row
/// whose expiry lies before the epoch is none that is ever written.
pub proof fn law_rooms_come_back_in_order(
    a: Seq<StoredView>,
    b: Seq<StoredView>,
    one: StoredView,
    now: u64,
)
    requires
        one.row.expires_at matches Some(at) ==> at >= 0,
    ensures
        all_replayed(Seq::empty(), now) == Seq::<RoomModel>::empty(),
        all_replayed(a + b, now) == all_replayed(a, now) + all_replayed(b, now),
        all_replayed(seq![one], now) == match one.events {
            Some(events) => if lives(one.row, now) {
                seq![replayed(one.row, events)]
            } else {
                Seq::empty()
            },
            None => Seq::empty(),
        },
    decreases b.len(),
{
    assert(seq![one].drop_last() == Seq::<StoredView>::empty());
    assert(all_replayed(seq![one].drop_last(), now) == Seq::<RoomModel>::empty());
    if let Some(events) = one.events {
        let room = replayed(one.row, events);
        assert(Seq::<RoomModel>::empty().push(room) == seq![room]);
    }
    if b.len() == 0 {
        assert(a + b == a);
        assert(all_replayed(a, now) + all_replayed(b, now) == all_replayed(a, now));
    } else {
        law_rooms_come_back_in_order(a, b.drop_last(), one, now);
        assert((a + b).drop_last() == a + b.drop_last());
        assert((a + b).last() == b.last());
        assert(all_replayed(a + b, now) =~= all_replayed(a, now) + all_replayed(b, now));
    }
}

/// No living room is lost: each whose log could be read is among those that come
/// back, whatever its title, its password, its secret and its limits.
pub proof fn law_living_rooms_come_back(
    stored: Seq<StoredView>,
    now: u64,
    i: int,
    events: Seq<EventRowView>,
)
    requires
        0 <= i < stored.len(),
        stored[i].events == Some(events),
        stored[i].row.expires_at matches Some(at) ==> 0 <= at && now < at,
    ensures
        all_replayed(stored, now).contains(replayed(stored[i].row, events)),
{
    let a = stored.take(i);
    let one = stored[i];
    let b = stored.skip(i + 1);
    let room = replayed(one.row, events);
    assert(stored == a + (seq![one] + b));
    law_rooms_come_back_in_order(a, seq![one] + b, one, now);
    law_rooms_come_back_in_order(seq![one], b, one, now);
    let k = all_replayed(a, now).len() as int;
    assert(all_replayed(stored, now)[k] == room);
}

/// A stored room comes back as its row says: who owns it, how long it lives and
/// what it may hold; and it holds what its log leads to.
pub proof fn law_rows_say_what_rooms_are(row: RoomRowView, events: Seq<EventRowView>)
    requires
        row.expires_at matches Some(at) ==> at >= 0,
        row.max_messages >= 0,
        row.max_participants >= 0,
        row.rate_limit_ms >= 0,
        row.max_message_length >= 0,
    ensures
        ({
            let r = replayed(row, events);
            &&& r.id == row.id
            &&& r.title == row.title
            &&& r.secret == row.secret
            &&& r.password_hash == row.password_hash
            &&& match row.expires_at {
                Some(at) => r.expires_at == at,
                None => r.expires_at == u64::MAX,
            }
            &&& r.cfg.max_messages == row.max_messages
            &&& r.cfg.max_participants == row.max_participants
            &&& r.cfg.rate_limit_ms == row.rate_limit_ms
            &&& r.cfg.max_message_length == row.max_message_length
            &&& r.cfg.moderated == row.moderated
            &&& r.inner == apply_rows(empty_room(), events, row.max_messages as nat)
        }),
{
}

/// Nothing has happened in a new room.
pub proof fn law_new_room_is_empty(id: u64, key: (u64, Seq<char>), who: Seq<char>, now: u64)
    ensures
        ({
            let s = empty_room();
            &&& s.messages.len() == 0 && s.pending_messages.len() == 0
            &&& s.questions.len() == 0 && s.pending_questions.len() == 0
            &&& s.polls.len() == 0
            &&& !s.locked && s.locked_until is None && s.lock_epoch == 0 && !s.locked_at(now)
            &&& s.participants == 0
            &&& s.next_msg_id == 0 && s.next_question_id == 0 && s.next_poll_id == 0
            &&& !s.sessions.contains(who) && !s.last_message_at.contains_key(who)
            &&& !s.question_voters.contains_key(id) && !s.poll_voters.contains_key(id)
            &&& !s.reaction_users.contains_key(key)
        }),
{
}

/// A restart brings back the whole room: what its row and the rows of its log
/// stand for is the room that was lost, but for what is not stored.
pub proof fn law_room_restored(
    room: RoomModel,
    all: Seq<(u64, Happening)>,
    rows: Seq<EventRowView>,
)
    requires
        fits_columns(room),
        room.id != "test"@,
        orderly(room.id, room.cfg, all),
        room.inner == history(room.id, room.cfg, all).0,
        rows_hold(rows, history(room.id, room.cfg, all).1),
    ensures
        ({
            let back = replayed(row_of(room), rows);
            &&& back == (RoomModel { inner: back.inner, ..room })
            &&& mirrors(room.inner, back.inner, last_time(all))
        }),
{
    law_rows_read_back(room, rows);
    law_restart(room.id, room.cfg, all, rows);
}

} // verus!
