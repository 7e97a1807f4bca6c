//! The JSON that goes over the wire: what rooms hold, and the events they send.

use std::collections::VecDeque;

use vstd::prelude::*;

use crate::json::{
    empty_object, items_view, lemma_items_push, number, number_or_null, text_or_null, writable,
    Json, JsonView,
};
use crate::list::views;
use crate::state::{
    Message, MessageView, Poll, PollOption, PollOptionView, PollView, Question, QuestionView,
    RoomView,
};
use crate::table::{entries_view, lemma_entries_push, StrMap};

verus! {

// ── What rooms hold ─────────────────────────────────────────────────────────

/// Reaction counts by emoji, as the members of an object.
pub open spec fn counts_json(m: Map<Seq<char>, u32>) -> Map<Seq<char>, JsonView> {
    Map::new(|k: Seq<char>| m.contains_key(k), |k: Seq<char>| number(m[k] as int))
}

/// A message.
pub open spec fn message_json(m: MessageView) -> JsonView {
    empty_object().with("id"@, number(m.id as int)).with("role"@, JsonView::Str(m.role)).with(
        "text"@,
        JsonView::Str(m.text),
    ).with("ts"@, number(m.ts as int)).with(
        "reactions"@,
        JsonView::Object(counts_json(m.reactions)),
    )
}

/// Messages, in order.
pub open spec fn messages_json(s: Seq<MessageView>) -> Seq<JsonView> {
    Seq::new(s.len(), |i: int| message_json(s[i]))
}

/// A question.
pub open spec fn question_json(q: QuestionView) -> JsonView {
    empty_object().with("id"@, number(q.id as int)).with("text"@, JsonView::Str(q.text)).with(
        "votes"@,
        number(q.votes as int),
    ).with("pinned"@, JsonView::Bool(q.pinned)).with("answered"@, JsonView::Bool(q.answered))
}

/// Questions, in order.
pub open spec fn questions_json(s: Seq<QuestionView>) -> Seq<JsonView> {
    Seq::new(s.len(), |i: int| question_json(s[i]))
}

/// One answer of a poll, with its votes.
pub open spec fn option_json(o: PollOptionView) -> JsonView {
    empty_object().with("text"@, JsonView::Str(o.text)).with("votes"@, number(o.votes as int))
}

/// The answers of a poll, in order.
pub open spec fn options_json(s: Seq<PollOptionView>) -> Seq<JsonView> {
    Seq::new(s.len(), |i: int| option_json(s[i]))
}

/// A poll.
pub open spec fn poll_json(p: PollView) -> JsonView {
    empty_object().with("id"@, number(p.id as int)).with(
        "question"@,
        JsonView::Str(p.question),
    ).with("options"@, JsonView::Array(options_json(p.options))).with(
        "closed"@,
        JsonView::Bool(p.closed),
    )
}

/// Polls, in order.
pub open spec fn polls_json(s: Seq<PollView>) -> Seq<JsonView> {
    Seq::new(s.len(), |i: int| poll_json(s[i]))
}

// ── Events ──────────────────────────────────────────────────────────────────

/// An event: its type and its payload.
pub open spec fn event(kind: Seq<char>, payload: JsonView) -> JsonView {
    empty_object().with("type"@, JsonView::Str(kind)).with("payload"@, payload)
}

/// An error that one client is told.
pub open spec fn error_event(code: Seq<char>, message: Seq<char>) -> JsonView {
    event(
        "error"@,
        empty_object().with("code"@, JsonView::Str(code)).with("message"@, JsonView::Str(message)),
    )
}

/// An event that only names a thing by its id, under the given member.
pub open spec fn id_event(kind: Seq<char>, key: Seq<char>, id: u64) -> JsonView {
    event(kind, empty_object().with(key, number(id as int)))
}

/// The count of an emoji on a message has changed; 0 means that it is gone.
pub open spec fn reaction_event(id: u64, emoji: Seq<char>, count: u32) -> JsonView {
    event(
        "reaction"@,
        empty_object().with("message_id"@, number(id as int)).with(
            "emoji"@,
            JsonView::Str(emoji),
        ).with("count"@, number(count as int)),
    )
}

/// The votes of a question have changed.
pub open spec fn vote_event(id: u64, votes: u32) -> JsonView {
    event(
        "vote"@,
        empty_object().with("question_id"@, number(id as int)).with(
            "votes"@,
            number(votes as int),
        ),
    )
}

/// The votes of a poll have changed.
pub open spec fn poll_update_event(id: u64, options: Seq<PollOptionView>) -> JsonView {
    event(
        "poll_update"@,
        empty_object().with("poll_id"@, number(id as int)).with(
            "options"@,
            JsonView::Array(options_json(options)),
        ),
    )
}

/// The room was locked, perhaps until a deadline, or unlocked.
pub open spec fn lock_event(locked: bool, until: Option<u64>) -> JsonView {
    event(
        "lock"@,
        empty_object().with("locked"@, JsonView::Bool(locked)).with(
            "until"@,
            number_or_null(until),
        ),
    )
}

/// A timed lock ran out.
pub open spec fn unlock_event() -> JsonView {
    event("lock"@, empty_object().with("locked"@, JsonView::Bool(false)))
}

/// A question was pinned or unpinned.
pub open spec fn pin_event(id: u64, pinned: bool) -> JsonView {
    event(
        "question_pinned"@,
        empty_object().with("question_id"@, number(id as int)).with(
            "pinned"@,
            JsonView::Bool(pinned),
        ),
    )
}

/// The presenter switched the display to another panel.
pub open spec fn display_event(mode: Seq<char>) -> JsonView {
    event("display_mode"@, empty_object().with("mode"@, JsonView::Str(mode)))
}

/// The room was closed.
pub open spec fn room_closed_event() -> JsonView {
    event("room_closed"@, empty_object())
}

/// How many participants are connected.
pub open spec fn participants_event(count: usize) -> JsonView {
    event("participant_count"@, empty_object().with("count"@, number(count as int)))
}

/// A full picture of the room.
pub open spec fn snapshot_event(snapshot: JsonView) -> JsonView {
    event("snapshot"@, snapshot)
}

// ── Building them ───────────────────────────────────────────────────────────

/// Reaction counts by emoji, as an object.
fn reactions_to_json(t: &StrMap<u32>) -> (r: Json)
    ensures
        r@ == JsonView::Object(counts_json(t@)),
{
    let mut r: Json = Json::object();
    let mut i: usize = 0;
    assert(counts_json(Map::<Seq<char>, u32>::empty()) == Map::<Seq<char>, JsonView>::empty());
    assert(t.entries@.take(0) == Seq::<(String, u32)>::empty());
    while i < t.entries.len()
        invariant
            i <= t.entries@.len(),
            r@ == JsonView::Object(counts_json(entries_view(t.entries@.take(i as int)))),
        decreases t.entries@.len() - i,
    {
        let ghost part = t.entries@.take(i as int);
        let ghost next = t.entries@[i as int];
        r = r.with(t.entries[i].0.as_str(), Json::number(t.entries[i].1 as u64));
        proof {
            assert(t.entries@.take(i + 1) == part.push(next));
            lemma_entries_push(part, next);
            assert(counts_json(entries_view(part).insert(next.0@, next.1)) == counts_json(
                entries_view(part),
            ).insert(next.0@, number(next.1 as int)));
        }
        i += 1;
    }
    assert(t.entries@.take(i as int) == t.entries@);
    r
}

/// A message.
pub fn message_to_json(m: &Message) -> (r: Json)
    ensures
        r@ == message_json(m@),
{
    Json::object().with("id", Json::number(m.id)).with("role", Json::text(m.role.as_str())).with(
        "text",
        Json::text(m.text.as_str()),
    ).with("ts", Json::number(m.ts)).with("reactions", reactions_to_json(&m.reactions))
}

/// Messages, in order.
pub fn messages_to_json(v: &VecDeque<Message>) -> (r: Json)
    ensures
        r@ == JsonView::Array(messages_json(views(v@))),
{
    let mut items: Vec<Json> = Vec::new();
    let mut i: usize = 0;
    while i < v.len()
        invariant
            i <= v@.len(),
            items_view(items@) == messages_json(views(v@)).take(i as int),
        decreases v@.len() - i,
    {
        let item: Json = message_to_json(&v[i]);
        proof {
            lemma_items_push(items@, item);
            assert(messages_json(views(v@)).take(i + 1) == messages_json(views(v@)).take(
                i as int,
            ).push(item@));
        }
        items.push(item);
        i += 1;
    }
    assert(messages_json(views(v@)).take(i as int) == messages_json(views(v@)));
    Json::Array(items)
}

/// Pending messages, in order.
pub fn pending_to_json(v: &Vec<Message>) -> (r: Json)
    ensures
        r@ == JsonView::Array(messages_json(views(v@))),
{
    let mut items: Vec<Json> = Vec::new();
    let mut i: usize = 0;
    while i < v.len()
        invariant
            i <= v@.len(),
            items_view(items@) == messages_json(views(v@)).take(i as int),
        decreases v@.len() - i,
    {
        let item: Json = message_to_json(&v[i]);
        proof {
            lemma_items_push(items@, item);
            assert(messages_json(views(v@)).take(i + 1) == messages_json(views(v@)).take(
                i as int,
            ).push(item@));
        }
        items.push(item);
        i += 1;
    }
    assert(messages_json(views(v@)).take(i as int) == messages_json(views(v@)));
    Json::Array(items)
}

/// A question.
pub fn question_to_json(q: &Question) -> (r: Json)
    ensures
        r@ == question_json(q@),
{
    Json::object().with("id", Json::number(q.id)).with("text", Json::text(q.text.as_str())).with(
        "votes",
        Json::number(q.votes as u64),
    ).with("pinned", Json::Bool(q.pinned)).with("answered", Json::Bool(q.answered))
}

/// Questions, in order.
pub fn questions_to_json(v: &Vec<Question>) -> (r: Json)
    ensures
        r@ == JsonView::Array(questions_json(views(v@))),
{
    let mut items: Vec<Json> = Vec::new();
    let mut i: usize = 0;
    while i < v.len()
        invariant
            i <= v@.len(),
            items_view(items@) == questions_json(views(v@)).take(i as int),
        decreases v@.len() - i,
    {
        let item: Json = question_to_json(&v[i]);
        proof {
            lemma_items_push(items@, item);
            assert(questions_json(views(v@)).take(i + 1) == questions_json(views(v@)).take(
                i as int,
            ).push(item@));
        }
        items.push(item);
        i += 1;
    }
    assert(questions_json(views(v@)).take(i as int) == questions_json(views(v@)));
    Json::Array(items)
}

/// The answers of a poll, in order.
pub fn options_to_json(v: &Vec<PollOption>) -> (r: Json)
    ensures
        r@ == JsonView::Array(options_json(views(v@))),
{
    let mut items: Vec<Json> = Vec::new();
    let mut i: usize = 0;
    while i < v.len()
        invariant
            i <= v@.len(),
            items_view(items@) == options_json(views(v@)).take(i as int),
        decreases v@.len() - i,
    {
        let item: Json = Json::object().with("text", Json::text(v[i].text.as_str())).with(
            "votes",
            Json::number(v[i].votes as u64),
        );
        proof {
            lemma_items_push(items@, item);
            assert(options_json(views(v@)).take(i + 1) == options_json(views(v@)).take(
                i as int,
            ).push(item@));
        }
        items.push(item);
        i += 1;
    }
    assert(options_json(views(v@)).take(i as int) == options_json(views(v@)));
    Json::Array(items)
}

/// A poll.
pub fn poll_to_json(p: &Poll) -> (r: Json)
    ensures
        r@ == poll_json(p@),
{
    Json::object().with("id", Json::number(p.id)).with(
        "question",
        Json::text(p.question.as_str()),
    ).with("options", options_to_json(&p.options)).with("closed", Json::Bool(p.closed))
}

/// Polls, in order.
pub fn polls_to_json(v: &Vec<Poll>) -> (r: Json)
    ensures
        r@ == JsonView::Array(polls_json(views(v@))),
{
    let mut items: Vec<Json> = Vec::new();
    let mut i: usize = 0;
    while i < v.len()
        invariant
            i <= v@.len(),
            items_view(items@) == polls_json(views(v@)).take(i as int),
        decreases v@.len() - i,
    {
        let item: Json = poll_to_json(&v[i]);
        proof {
            lemma_items_push(items@, item);
            assert(polls_json(views(v@)).take(i + 1) == polls_json(views(v@)).take(i as int).push(
                item@,
            ));
        }
        items.push(item);
        i += 1;
    }
    assert(polls_json(views(v@)).take(i as int) == polls_json(views(v@)));
    Json::Array(items)
}

/// An event: its type and its payload.
pub fn make_event(kind: &str, payload: Json) -> (r: Json)
    ensures
        r@ == event(kind@, payload@),
{
    Json::object().with("type", Json::text(kind)).with("payload", payload)
}

/// An error that one client is told.
pub fn make_error(code: &str, message: &str) -> (r: Json)
    ensures
        r@ == error_event(code@, message@),
{
    make_event(
        "error",
        Json::object().with("code", Json::text(code)).with("message", Json::text(message)),
    )
}

/// An event that only names a thing by its id, under the given member.
pub fn make_id_event(kind: &str, key: &str, id: u64) -> (r: Json)
    ensures
        r@ == id_event(kind@, key@, id),
{
    make_event(kind, Json::object().with(key, Json::number(id)))
}

/// A full picture of the room.
pub fn make_snapshot_event(snapshot: Json) -> (r: Json)
    ensures
        r@ == snapshot_event(snapshot@),
{
    make_event("snapshot", snapshot)
}

/// How many participants are connected.
pub fn make_participants_event(count: usize) -> (r: Json)
    ensures
        r@ == participants_event(count),
{
    make_event("participant_count", Json::object().with("count", Json::number(count as u64)))
}

/// The room was closed.
pub fn make_room_closed_event() -> (r: Json)
    ensures
        r@ == room_closed_event(),
{
    make_event("room_closed", Json::object())
}

// ── They can all be written out ─────────────────────────────────────────────

/// Deeper limits admit what shallower ones admit.
pub proof fn lemma_writable_more(j: JsonView, d: nat, e: nat)
    requires
        writable(j, d),
        d <= e,
    ensures
        writable(j, e),
    decreases d,
{
    match j {
        JsonView::Array(s) => {
            assert forall|i: int| 0 <= i < s.len() implies writable(
                #[trigger] s[i],
                (e - 1) as nat,
            ) by {
                assert(writable(s[i], (d - 1) as nat));
                lemma_writable_more(s[i], (d - 1) as nat, (e - 1) as nat);
            }
        },
        JsonView::Object(m) => {
            assert forall|k: Seq<char>| #[trigger] m.contains_key(k) implies writable(
                m[k],
                (e - 1) as nat,
            ) by {
                assert(writable(m[k], (d - 1) as nat));
                lemma_writable_more(m[k], (d - 1) as nat, (e - 1) as nat);
            }
        },
        _ => {},
    }
}

pub proof fn lemma_message_writable(m: MessageView)
    ensures
        writable(message_json(m), 2),
{
    reveal_with_fuel(writable, 3);
}

pub proof fn lemma_question_writable(q: QuestionView)
    ensures
        writable(question_json(q), 1),
{
    reveal_with_fuel(writable, 2);
}

pub proof fn lemma_options_writable(s: Seq<PollOptionView>)
    ensures
        writable(JsonView::Array(options_json(s)), 2),
{
    reveal_with_fuel(writable, 3);
}

pub proof fn lemma_poll_writable(p: PollView)
    ensures
        writable(poll_json(p), 3),
{
    lemma_options_writable(p.options);
    reveal_with_fuel(writable, 2);
}

pub proof fn lemma_event_writable(kind: Seq<char>, payload: JsonView, d: nat)
    requires
        writable(payload, d),
    ensures
        writable(event(kind, payload), d + 1),
{
    reveal_with_fuel(writable, 2);
}

/// The members of an object are writable if those it was built from are.
pub proof fn lemma_with_writable(j: JsonView, key: Seq<char>, v: JsonView, d: nat)
    requires
        j is Object,
        writable(j, d + 1),
        writable(v, d),
    ensures
        writable(j.with(key, v), d + 1),
        j.with(key, v) is Object,
{
    let before = j->Object_0;
    let after = before.insert(key, v);
    assert forall|k: Seq<char>| #[trigger] after.contains_key(k) implies writable(after[k], d) by {
        if k != key {
            assert(before.contains_key(k));
        }
    }
}

pub proof fn lemma_messages_writable(s: Seq<MessageView>)
    ensures
        writable(JsonView::Array(messages_json(s)), 3),
{
    assert forall|i: int| 0 <= i < messages_json(s).len() implies writable(
        #[trigger] messages_json(s)[i],
        2,
    ) by {
        lemma_message_writable(s[i]);
    }
}

pub proof fn lemma_questions_writable(s: Seq<QuestionView>)
    ensures
        writable(JsonView::Array(questions_json(s)), 2),
{
    assert forall|i: int| 0 <= i < questions_json(s).len() implies writable(
        #[trigger] questions_json(s)[i],
        1,
    ) by {
        lemma_question_writable(s[i]);
    }
}

pub proof fn lemma_polls_writable(s: Seq<PollView>)
    ensures
        writable(JsonView::Array(polls_json(s)), 4),
{
    assert forall|i: int| 0 <= i < polls_json(s).len() implies writable(
        #[trigger] polls_json(s)[i],
        3,
    ) by {
        lemma_poll_writable(s[i]);
    }
}

/// The picture of a room can be written out.
pub proof fn lemma_snapshot_writable(
    s: RoomView,
    room_id: Seq<char>,
    is_admin: bool,
    title: Option<Seq<char>>,
    now: u64,
)
    ensures
        writable(s.snapshot(room_id, is_admin, title, now), 5),
        s.snapshot(room_id, is_admin, title, now) is Object,
{
    lemma_messages_writable(s.messages);
    lemma_questions_writable(s.questions);
    lemma_polls_writable(s.polls);
    lemma_messages_writable(s.pending_messages);
    lemma_questions_writable(s.pending_questions);
    let messages = JsonView::Array(messages_json(s.messages));
    let questions = JsonView::Array(questions_json(s.questions));
    let polls = JsonView::Array(polls_json(s.polls));
    let pending_messages = JsonView::Array(messages_json(s.pending_messages));
    let pending_questions = JsonView::Array(questions_json(s.pending_questions));
    lemma_writable_more(messages, 3, 4);
    lemma_writable_more(questions, 2, 4);
    lemma_writable_more(pending_messages, 3, 4);
    lemma_writable_more(pending_questions, 2, 4);
    let locked = s.locked_at(now);
    let until = number_or_null(
        if locked {
            s.locked_until
        } else {
            None
        },
    );
    let j0 = empty_object();
    let j1 = j0.with("id"@, JsonView::Str(room_id));
    let j2 = j1.with("title"@, text_or_null(title));
    let j3 = j2.with("locked"@, JsonView::Bool(locked));
    let j4 = j3.with("locked_until"@, until);
    let j5 = j4.with("participants"@, number(s.participants as int));
    let j6 = j5.with("messages"@, messages);
    let j7 = j6.with("questions"@, questions);
    let j8 = j7.with("polls"@, polls);
    let j9 = j8.with("pending_messages"@, pending_messages);
    lemma_with_writable(j0, "id"@, JsonView::Str(room_id), 4);
    lemma_with_writable(j1, "title"@, text_or_null(title), 4);
    lemma_with_writable(j2, "locked"@, JsonView::Bool(locked), 4);
    lemma_with_writable(j3, "locked_until"@, until, 4);
    lemma_with_writable(j4, "participants"@, number(s.participants as int), 4);
    lemma_with_writable(j5, "messages"@, messages, 4);
    lemma_with_writable(j6, "questions"@, questions, 4);
    lemma_with_writable(j7, "polls"@, polls, 4);
    lemma_with_writable(j8, "pending_messages"@, pending_messages, 4);
    lemma_with_writable(j9, "pending_questions"@, pending_questions, 4);
}

} // verus!
