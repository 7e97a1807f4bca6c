//! The JSON that clients get and the rows that are stored, member by member, and
//! how texts are taken apart.

use vstd::prelude::*;

use crate::event::{event_kind, event_payload, EventView};
use crate::frames::{notice, shut};
use crate::json::JsonView;
use crate::outside::{json_of_text, json_text, white_space};
use crate::socket::{
    client_step, count_frame, first_frame, handle_client, unlock_client, CallerView, OutgoingView,
};
use crate::state::{MessageView, PollOptionView, PollView, QuestionView, RoomModel, RoomView};
use crate::text::{decimal, digits_value, first_index, lowered, pieces, stripped, trimmed};
use crate::wire::{message_json, options_json, poll_json, question_json};
use crate::ws::{auto_unlock, handle, EffectView};

verus! {

// ── What clients get ────────────────────────────────────────────────────────

/// A number on the wire.
pub open spec fn num(n: u64) -> JsonView {
    JsonView::Number(Some(n))
}

/// A message on the wire: its id, the badge of its author, its text, its time
/// and the count of each emoji.
pub proof fn law_message_format(m: MessageView, emoji: Seq<char>)
    ensures
        message_json(m) matches JsonView::Object(o) && {
            &&& o.dom() == set!["id"@, "role"@, "text"@, "ts"@, "reactions"@]
            &&& o["id"@] == num(m.id)
            &&& o["role"@] == JsonView::Str(m.role)
            &&& o["text"@] == JsonView::Str(m.text)
            &&& o["ts"@] == num(m.ts)
            &&& o["reactions"@] matches JsonView::Object(c) && {
                &&& c.contains_key(emoji) == m.reactions.contains_key(emoji)
                &&& m.reactions.contains_key(emoji) ==> c[emoji] == num(m.reactions[emoji] as u64)
            }
        },
{
    lemma_item_members();
    let o = message_json(m)->Object_0;
    assert(o.dom() =~= set!["id"@, "role"@, "text"@, "ts"@, "reactions"@]);
}

/// A question on the wire.
pub proof fn law_question_format(q: QuestionView)
    ensures
        question_json(q) matches JsonView::Object(o) && {
            &&& o.dom() == set!["id"@, "text"@, "votes"@, "pinned"@, "answered"@]
            &&& o["id"@] == num(q.id)
            &&& o["text"@] == JsonView::Str(q.text)
            &&& o["votes"@] == num(q.votes as u64)
            &&& o["pinned"@] == JsonView::Bool(q.pinned)
            &&& o["answered"@] == JsonView::Bool(q.answered)
        },
{
    lemma_item_members();
    let o = question_json(q)->Object_0;
    assert(o.dom() =~= set!["id"@, "text"@, "votes"@, "pinned"@, "answered"@]);
}

/// The answers of a poll on the wire: each with its text and its votes, in
/// order.
pub proof fn law_answers_format(options: Seq<PollOptionView>, k: int)
    requires
        0 <= k < options.len(),
    ensures
        options_json(options).len() == options.len(),
        options_json(options)[k] == JsonView::Object(
            map![
                "text"@ => JsonView::Str(options[k].text),
                "votes"@ => num(options[k].votes as u64),
            ],
        ),
{
}

/// A poll on the wire.
pub proof fn law_poll_format(p: PollView)
    ensures
        poll_json(p) matches JsonView::Object(o) && {
            &&& o.dom() == set!["id"@, "question"@, "options"@, "closed"@]
            &&& o["id"@] == num(p.id)
            &&& o["question"@] == JsonView::Str(p.question)
            &&& o["options"@] == JsonView::Array(options_json(p.options))
            &&& o["closed"@] == JsonView::Bool(p.closed)
        },
{
    lemma_item_members();
    let o = poll_json(p)->Object_0;
    assert(o.dom() =~= set!["id"@, "question"@, "options"@, "closed"@]);
}

/// The members of items differ: in length, or in the first letter.
proof fn lemma_item_members()
    ensures
        "id"@.len() == 2 && "id"@[0] == 'i',
        "ts"@.len() == 2 && "ts"@[0] == 't',
        "role"@.len() == 4 && "role"@[0] == 'r',
        "text"@.len() == 4 && "text"@[0] == 't',
        "votes"@.len() == 5,
        "pinned"@.len() == 6 && "pinned"@[0] == 'p',
        "closed"@.len() == 6 && "closed"@[0] == 'c',
        "options"@.len() == 7,
        "question"@.len() == 8 && "question"@[0] == 'q',
        "answered"@.len() == 8 && "answered"@[0] == 'a',
        "reactions"@.len() == 9,
{
    reveal_strlit("id");
    reveal_strlit("ts");
    reveal_strlit("role");
    reveal_strlit("text");
    reveal_strlit("votes");
    reveal_strlit("pinned");
    reveal_strlit("closed");
    reveal_strlit("options");
    reveal_strlit("question");
    reveal_strlit("answered");
    reveal_strlit("reactions");
}

/// The members of pictures differ.
proof fn lemma_picture_members()
    ensures
        "id"@.len() == 2,
        "title"@.len() == 5 && "title"@[0] == 't',
        "polls"@.len() == 5 && "polls"@[0] == 'p',
        "locked"@.len() == 6,
        "messages"@.len() == 8,
        "questions"@.len() == 9,
        "locked_until"@.len() == 12 && "locked_until"@[0] == 'l',
        "participants"@.len() == 12 && "participants"@[0] == 'p',
        "pending_messages"@.len() == 16,
        "pending_questions"@.len() == 17,
{
    reveal_strlit("id");
    reveal_strlit("title");
    reveal_strlit("polls");
    reveal_strlit("locked");
    reveal_strlit("messages");
    reveal_strlit("questions");
    reveal_strlit("locked_until");
    reveal_strlit("participants");
    reveal_strlit("pending_messages");
    reveal_strlit("pending_questions");
}

/// Whether an array holds messages, in order.
pub open spec fn shows_messages(j: JsonView, s: Seq<MessageView>) -> bool {
    j matches JsonView::Array(a) && a.len() == s.len() && forall|i: int|
        0 <= i < s.len() ==> #[trigger] a[i] == message_json(s[i])
}

/// Whether an array holds questions, in order.
pub open spec fn shows_questions(j: JsonView, s: Seq<QuestionView>) -> bool {
    j matches JsonView::Array(a) && a.len() == s.len() && forall|i: int|
        0 <= i < s.len() ==> #[trigger] a[i] == question_json(s[i])
}

/// Whether an array holds polls, in order.
pub open spec fn shows_polls(j: JsonView, s: Seq<PollView>) -> bool {
    j matches JsonView::Array(a) && a.len() == s.len() && forall|i: int|
        0 <= i < s.len() ==> #[trigger] a[i] == poll_json(s[i])
}

/// A picture of a room shows what the room holds: its id and title, whether and
/// until when it is shut at the time, how many take part, and all messages,
/// questions and polls, in order. What is pending is in it for admins, and for
/// nobody else.
pub proof fn law_picture_format(
    s: RoomView,
    room_id: Seq<char>,
    is_admin: bool,
    title: Option<Seq<char>>,
    now: u64,
)
    ensures
        s.snapshot(room_id, is_admin, title, now) matches JsonView::Object(o) && {
            &&& o.contains_key("id"@) && o["id"@] == JsonView::Str(room_id)
            &&& o.contains_key("title"@) && o["title"@] == match title {
                Some(t) => JsonView::Str(t),
                None => JsonView::Null,
            }
            &&& o.contains_key("locked"@) && o["locked"@] == JsonView::Bool(shut(s, now))
            &&& o.contains_key("locked_until"@) && o["locked_until"@] == (if shut(s, now)
                && s.locked_until is Some {
                num(s.locked_until->0)
            } else {
                JsonView::Null
            })
            &&& o.contains_key("participants"@) && o["participants"@] == num(s.participants as u64)
            &&& o.contains_key("messages"@) && shows_messages(o["messages"@], s.messages)
            &&& o.contains_key("questions"@) && shows_questions(o["questions"@], s.questions)
            &&& o.contains_key("polls"@) && shows_polls(o["polls"@], s.polls)
            &&& o.contains_key("pending_messages"@) == is_admin
            &&& o.contains_key("pending_questions"@) == is_admin
            &&& is_admin ==> shows_messages(o["pending_messages"@], s.pending_messages)
            &&& is_admin ==> shows_questions(o["pending_questions"@], s.pending_questions)
        },
{
    lemma_picture_members();
}

/// What a connection gets first is a picture of its room, under its own id and
/// title; what all get when someone comes or goes is the number of participants.
pub proof fn law_first_frames(r: RoomModel, is_admin: bool, now: u64)
    ensures
        first_frame(r, is_admin, now) == json_text(
            JsonView::Object(
                map![
                    "type"@ => JsonView::Str("snapshot"@),
                    "payload"@ => r.inner.snapshot(r.id, is_admin, r.title, now),
                ],
            ),
        ),
        count_frame(r) == json_text(
            notice("participant_count"@, map!["count"@ => num(r.inner.participants as u64)]),
        ),
{
}

/// Whether an effect goes out as text the way it was meant: to whom it was
/// addressed, as the text of what it says.
pub open spec fn goes_out_as(e: EffectView, out: OutgoingView) -> bool {
    match e {
        EffectView::Reply(j) => out == OutgoingView::Reply(json_text(j)),
        EffectView::Broadcast(j) => out == OutgoingView::Broadcast(json_text(j)),
        EffectView::BroadcastAdmin(j) => out == OutgoingView::BroadcastAdmin(json_text(j)),
        EffectView::Persist(e) => out matches OutgoingView::Append(row) && row.kind == event_kind(e)
            && row.payload == json_text(event_payload(e)),
        EffectView::ScheduleUnlock { seconds, epoch } => out == (OutgoingView::ScheduleUnlock {
            seconds,
            epoch,
        }),
        EffectView::CloseRoom => out == OutgoingView::CloseRoom,
    }
}

/// Whether all effects go out the way they were meant, in order.
pub open spec fn all_go_out(fx: Seq<EffectView>, out: Seq<OutgoingView>) -> bool {
    out.len() == fx.len() && forall|i: int|
        0 <= i < fx.len() ==> goes_out_as(fx[i], #[trigger] out[i])
}

/// The text of a client is handled as the frame it reads as, in the room it was
/// sent to, under the identity and the rights of its sender. Of the room only
/// what it holds changes. The same goes for a timer.
pub proof fn law_texts_are_frames(
    r: RoomModel,
    caller: CallerView,
    now: u64,
    text: Seq<char>,
    epoch: u64,
)
    ensures
        ({
            let (t, out) = handle_client(r, caller, now, text);
            let (inner, fx) = handle(
                r.inner,
                r.id,
                r.cfg,
                caller.identity,
                caller.is_admin,
                caller.is_display,
                now,
                json_of_text(text),
            );
            &&& t == (RoomModel { inner, ..r })
            &&& all_go_out(fx, out)
            &&& client_step(r, caller, now, text) == (inner, fx)
        }),
        ({
            let (t, out) = unlock_client(r, epoch);
            &&& t == (RoomModel { inner: auto_unlock(r.inner, epoch).0, ..r })
            &&& all_go_out(auto_unlock(r.inner, epoch).1, out)
        }),
{
}

/// A timer lifts the lock it was set with, and tells everyone; any other lock it
/// leaves alone.
pub proof fn law_timers_lift_their_lock(s: RoomView, epoch: u64, u: u64)
    requires
        s.lock_epoch < u64::MAX,
    ensures
        ({
            let (t, fx) = auto_unlock(s, epoch);
            if s.locked && s.lock_epoch == epoch {
                &&& t == (RoomView {
                    locked: false,
                    locked_until: None,
                    lock_epoch: (epoch + 1) as u64,
                    ..s
                })
                &&& !shut(t, u)
                &&& fx == seq![
                    EffectView::Broadcast(
                        notice("lock"@, map!["locked"@ => JsonView::Bool(false)]),
                    ),
                ]
            } else {
                t == s && fx.len() == 0
            }
        }),
{
}

/// Whether a room is locked at a time depends on its lock and the deadline of
/// it alone.
pub proof fn law_locked_at(s: RoomView, r: RoomModel, now: u64)
    ensures
        s.locked_at(now) == shut(s, now),
        r.expired_at(now) <==> r.expires_at <= now,
{
}

// ── What is stored ──────────────────────────────────────────────────────────

/// The kind of a stored event and the members of its payload.
pub proof fn law_stored_format(e: EventView)
    ensures
        event_payload(e) matches JsonView::Object(o) && match e {
            EventView::Message { id, role, text, ts } => event_kind(e) == "message"@ && o == map![
                "id"@ => num(id),
                "role"@ => JsonView::Str(role),
                "text"@ => JsonView::Str(text),
                "ts"@ => num(ts),
            ],
            EventView::PendingMessage { id, role, text, ts } => event_kind(e)
                == "pending_message"@ && o == map![
                "id"@ => num(id),
                "role"@ => JsonView::Str(role),
                "text"@ => JsonView::Str(text),
                "ts"@ => num(ts),
            ],
            EventView::MessageDeleted { id } => event_kind(e) == "message_deleted"@ && o
                == map!["id"@ => num(id)],
            EventView::PendingMessageRejected { id } => event_kind(e)
                == "pending_message_rejected"@ && o == map!["id"@ => num(id)],
            EventView::PendingQuestionRejected { id } => event_kind(e)
                == "pending_question_rejected"@ && o == map!["id"@ => num(id)],
            EventView::ReactionAdd { message_id, emoji, voter } => event_kind(e) == "reaction_add"@
                && o == map![
                "message_id"@ => num(message_id),
                "emoji"@ => JsonView::Str(emoji),
                "voter"@ => JsonView::Str(voter),
            ],
            EventView::ReactionRemove { message_id, emoji, voter } => event_kind(e)
                == "reaction_remove"@ && o == map![
                "message_id"@ => num(message_id),
                "emoji"@ => JsonView::Str(emoji),
                "voter"@ => JsonView::Str(voter),
            ],
            EventView::Question { id, text } => event_kind(e) == "question"@ && o
                == map!["id"@ => num(id), "text"@ => JsonView::Str(text)],
            EventView::PendingQuestion { id, text } => event_kind(e) == "pending_question"@ && o
                == map!["id"@ => num(id), "text"@ => JsonView::Str(text)],
            EventView::VoteAdd { question_id, voter } => event_kind(e) == "vote_add"@ && o
                == map!["question_id"@ => num(question_id), "voter"@ => JsonView::Str(voter)],
            EventView::VoteRemove { question_id, voter } => event_kind(e) == "vote_remove"@ && o
                == map!["question_id"@ => num(question_id), "voter"@ => JsonView::Str(voter)],
            EventView::QuestionPinned { question_id, pinned } => event_kind(e)
                == "question_pinned"@ && o
                == map!["question_id"@ => num(question_id), "pinned"@ => JsonView::Bool(pinned)],
            EventView::QuestionAnswered { question_id } => event_kind(e) == "question_answered"@
                && o == map!["question_id"@ => num(question_id)],
            EventView::QuestionDismissed { question_id } => event_kind(e)
                == "question_dismissed"@ && o == map!["question_id"@ => num(question_id)],
            EventView::PollCreated { id, question, options } => {
                &&& event_kind(e) == "poll_created"@
                &&& o["id"@] == num(id) && o["question"@] == JsonView::Str(question)
                &&& o["options"@] matches JsonView::Array(a) && a.len() == options.len()
                    && forall|k: int|
                    0 <= k < a.len() ==> #[trigger] a[k] == JsonView::Object(
                        map!["text"@ => JsonView::Str(options[k])],
                    )
            },
            EventView::PollVote { poll_id, option_index, voter } => event_kind(e) == "poll_vote"@
                && o == map![
                "poll_id"@ => num(poll_id),
                "option_index"@ => num(option_index as u64),
                "voter"@ => JsonView::Str(voter),
            ],
            EventView::PollClosed { poll_id } => event_kind(e) == "poll_closed"@ && o
                == map!["poll_id"@ => num(poll_id)],
            EventView::PollDeleted { poll_id } => event_kind(e) == "poll_deleted"@ && o
                == map!["poll_id"@ => num(poll_id)],
            EventView::Lock { locked, until } => event_kind(e) == "lock"@ && o == map![
                "locked"@ => JsonView::Bool(locked),
                "until"@ => match until {
                    Some(n) => num(n),
                    None => JsonView::Null,
                },
            ],
        },
{
    lemma_item_members();
}

// ── Texts ───────────────────────────────────────────────────────────────────

/// Whether a text is white space throughout.
pub open spec fn blank(s: Seq<char>) -> bool {
    forall|i: int| 0 <= i < s.len() ==> white_space(#[trigger] s[i])
}

/// Trimming a text takes the white space in front of it and behind it, and
/// nothing else.
pub proof fn law_trimming(a: Seq<char>, s: Seq<char>, b: Seq<char>)
    requires
        blank(a),
        blank(b),
        s.len() > 0 ==> !white_space(s[0]) && !white_space(s.last()),
    ensures
        trimmed(a + s + b) == s,
    decreases a.len() + b.len(),
{
    let all = a + s + b;
    if a.len() > 0 {
        assert(white_space(a[0]));
        assert(all[0] == a[0]);
        let rest = a.drop_first();
        assert forall|i: int| 0 <= i < rest.len() implies white_space(#[trigger] rest[i]) by {
            assert(white_space(a[i + 1]));
        }
        law_trimming(rest, s, b);
        assert(all.drop_first() == rest + s + b);
    } else if s.len() > 0 {
        assert(all[0] == s[0]);
        if b.len() > 0 {
            assert(white_space(b[b.len() - 1]));
            assert(all.last() == b.last());
            let rest = b.drop_last();
            assert forall|i: int| 0 <= i < rest.len() implies white_space(#[trigger] rest[i]) by {
                assert(white_space(b[i]));
            }
            law_trimming(a, s, rest);
            assert(all.drop_last() == a + s + rest);
        } else {
            assert(all == s);
        }
    } else if b.len() > 0 {
        assert(white_space(b[0]));
        assert(all[0] == b[0]);
        let rest = b.drop_first();
        assert forall|i: int| 0 <= i < rest.len() implies white_space(#[trigger] rest[i]) by {
            assert(white_space(b[i + 1]));
        }
        law_trimming(a, s, rest);
        assert(all.drop_first() == a + s + rest);
    } else {
        assert(all == s);
    }
}

/// A text splits at every separator: what stands behind the last one is the last
/// piece, and what stands in front of it splits the same way.
pub proof fn law_splitting(front: Seq<char>, last: Seq<char>, sep: char)
    requires
        forall|i: int| 0 <= i < last.len() ==> #[trigger] last[i] != sep,
    ensures
        pieces(last, sep) == seq![last],
        pieces(front.push(sep) + last, sep) == pieces(front, sep).push(last),
        pieces(front, sep).len() > 0,
    decreases last.len(), front.len(),
{
    if front.len() > 0 {
        law_splitting(front.drop_last(), Seq::empty(), sep);
    }
    if last.len() == 0 {
        assert(last == Seq::<char>::empty());
        assert(front.push(sep) + last == front.push(sep));
        assert(front.push(sep).drop_last() == front);
    } else {
        let less = last.drop_last();
        law_splitting(front, less, sep);
        let all = front.push(sep) + last;
        assert(all.drop_last() == front.push(sep) + less);
        assert(all.last() == last.last());
        assert(less.push(last.last()) == last);
        assert(pieces(front, sep).push(less).drop_last() == pieces(front, sep));
        assert(seq![less].drop_last() == Seq::<Seq<char>>::empty());
        assert(Seq::<Seq<char>>::empty().push(last) == seq![last]);
    }
}

/// A character is found where it occurs first.
pub proof fn law_finding(front: Seq<char>, c: char, rest: Seq<char>)
    requires
        forall|i: int| 0 <= i < front.len() ==> #[trigger] front[i] != c,
    ensures
        first_index(front.push(c) + rest, c) == Some(front.len() as int),
        first_index(front, c) is None,
    decreases front.len(),
{
    let all = front.push(c) + rest;
    if front.len() > 0 {
        law_finding(front.drop_first(), c, rest);
        assert(all.drop_first() == front.drop_first().push(c) + rest);
        assert(all[0] == front[0]);
    } else {
        assert(all[0] == c);
    }
}

/// Stripping a text takes the character off its end, however often it stands
/// there, and nothing else.
pub proof fn law_stripping(s: Seq<char>, c: char, n: nat)
    requires
        s.len() > 0 ==> s.last() != c,
    ensures
        stripped(s + Seq::new(n, |i: int| c), c) == s,
    decreases n,
{
    let all = s + Seq::new(n, |i: int| c);
    if n > 0 {
        law_stripping(s, c, (n - 1) as nat);
        assert(all.drop_last() == s + Seq::new((n - 1) as nat, |i: int| c));
        assert(all.last() == c);
    } else {
        assert(all == s);
    }
}

/// A number is read digit by digit, with a plus sign in front or not; a text
/// with anything else in it, an empty one, or a number above the limit is none.
pub proof fn law_reading_numbers(s: Seq<char>, c: char, max: int)
    ensures
        digits_value(Seq::empty()) == 0,
        '0' <= c <= '9' ==> digits_value(s.push(c)) == digits_value(s) * 10 + (c as int
            - '0' as int),
        decimal(Seq::empty(), max) is None,
        s.len() > 0 && s[0] != '+' ==> decimal(s, max) == (if (forall|i: int|
            0 <= i < s.len() ==> '0' <= #[trigger] s[i] <= '9') && digits_value(s) <= max {
            Some(digits_value(s) as int)
        } else {
            None
        }),
        s.len() > 0 && s[0] != '+' ==> decimal(seq!['+'] + s, max) == decimal(s, max),
{
    assert(s.push(c).drop_last() == s);
    assert((seq!['+'] + s).drop_first() == s);
}

/// Lowering a text changes its ASCII capitals, and nothing else.
pub proof fn law_lowering(s: Seq<char>, i: int)
    requires
        0 <= i < s.len(),
    ensures
        lowered(s).len() == s.len(),
        'A' <= s[i] <= 'Z' ==> lowered(s)[i] as int == s[i] as int + 32,
        !('A' <= s[i] <= 'Z') ==> lowered(s)[i] == s[i],
{
}

} // verus!
