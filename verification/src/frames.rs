//! What each frame of a client does, said of the frame and of the room alone:
//! which type of frame changes what, what stays as it was, what everyone is told
//! and what is logged.

use vstd::prelude::*;

use crate::event::EventView;
use crate::json::JsonView;
use crate::list::{
    distinct_ids, find_id, has_id, is_first, lemma_find, lemma_find_at, lemma_without_absent,
    lemma_without_one, without, HasId,
};
use crate::state::{MessageView, PollView, QuestionView, RoomConfig, RoomView};
use crate::text::trimmed;
use crate::wire::{message_json, options_json, poll_json, question_json};
use crate::ws::{handle, option_texts, EffectView};

verus! {

// ── Frames and effects ──────────────────────────────────────────────────────

/// Whether a value is a frame of a type, with a payload that has the given
/// members.
pub open spec fn is_frame(frame: JsonView, kind: Seq<char>, p: Map<Seq<char>, JsonView>) -> bool {
    frame matches JsonView::Object(m) && m.contains_key("type"@) && m["type"@] == JsonView::Str(
        kind,
    ) && m.contains_key("payload"@) && m["payload"@] == JsonView::Object(p)
}

/// Whether a payload holds a number under a name.
pub open spec fn holds(p: Map<Seq<char>, JsonView>, key: Seq<char>, n: u64) -> bool {
    p.contains_key(key) && p[key] == JsonView::Number(Some(n))
}

/// Whether a payload holds no number in range under a name.
pub open spec fn lacks(p: Map<Seq<char>, JsonView>, key: Seq<char>) -> bool {
    !(p.contains_key(key) && (p[key] matches JsonView::Number(n) && n is Some))
}

/// The text that a payload holds under a name; empty if it holds none.
pub open spec fn text_in(p: Map<Seq<char>, JsonView>, key: Seq<char>) -> Seq<char> {
    if p.contains_key(key) {
        match p[key] {
            JsonView::Str(t) => t,
            _ => Seq::empty(),
        }
    } else {
        Seq::empty()
    }
}

/// What is sent of a type, with a payload that has the given members.
pub open spec fn notice(kind: Seq<char>, p: Map<Seq<char>, JsonView>) -> JsonView {
    JsonView::Object(map!["type"@ => JsonView::Str(kind), "payload"@ => JsonView::Object(p)])
}

/// A notice that only gives the id of something.
pub open spec fn id_notice(kind: Seq<char>, key: Seq<char>, id: u64) -> JsonView {
    notice(kind, map![key => JsonView::Number(Some(id))])
}

/// A notice about something that is sent whole.
pub open spec fn item_notice(kind: Seq<char>, item: JsonView) -> JsonView {
    JsonView::Object(map!["type"@ => JsonView::Str(kind), "payload"@ => item])
}

/// Whether everyone is told of something, and it is logged after that. Of the
/// test room nothing is logged.
pub open spec fn told_and_logged(
    fx: Seq<EffectView>,
    room_id: Seq<char>,
    j: JsonView,
    e: EventView,
) -> bool {
    if room_id == "test"@ {
        fx.len() == 1 && fx[0] == EffectView::Broadcast(j)
    } else {
        fx.len() == 2 && fx[0] == EffectView::Broadcast(j) && fx[1] == EffectView::Persist(e)
    }
}

/// Whether only the author and the admins are told of something, and it is
/// logged after that.
pub open spec fn held_and_logged(
    fx: Seq<EffectView>,
    room_id: Seq<char>,
    j: JsonView,
    e: EventView,
) -> bool {
    &&& fx.len() == if room_id == "test"@ {
        2int
    } else {
        3int
    }
    &&& fx[0] == EffectView::Reply(j)
    &&& fx[1] == EffectView::BroadcastAdmin(j)
    &&& room_id != "test"@ ==> fx[2] == EffectView::Persist(e)
}

/// Whether the only effect is that the client is told of an error.
pub open spec fn told_off(fx: Seq<EffectView>, code: Seq<char>, message: Seq<char>) -> bool {
    fx.len() == 1 && fx[0] == EffectView::Reply(
        notice(
            "error"@,
            map!["code"@ => JsonView::Str(code), "message"@ => JsonView::Str(message)],
        ),
    )
}

/// Whether the first item with an id is at a place.
pub open spec fn stands_at<X: HasId>(s: Seq<X>, id: u64, i: int) -> bool {
    &&& 0 <= i < s.len()
    &&& s[i].id_of() == id
    &&& forall|j: int| 0 <= j < i ==> (#[trigger] s[j]).id_of() != id
}

/// Whether no item has an id.
pub open spec fn nowhere<X: HasId>(s: Seq<X>, id: u64) -> bool {
    forall|i: int| 0 <= i < s.len() ==> (#[trigger] s[i]).id_of() != id
}

/// Whether users cannot write at a time: there is a lock, and if it is a timed
/// one, its deadline has not come.
pub open spec fn shut(s: RoomView, now: u64) -> bool {
    s.locked && (s.locked_until matches Some(until) ==> now < until)
}

/// Items are told apart by their ids.
pub proof fn law_items_have_their_ids(m: MessageView, q: QuestionView, p: PollView)
    ensures
        m.id_of() == m.id,
        q.id_of() == q.id,
        p.id_of() == p.id,
{
}

proof fn lemma_stands<X: HasId>(s: Seq<X>, id: u64, i: int)
    requires
        stands_at(s, id, i),
    ensures
        find_id(s, id) == Some(i),
{
    assert(is_first(s, id, i));
    lemma_find_at(s, id, i);
}

proof fn lemma_nowhere<X: HasId>(s: Seq<X>, id: u64)
    requires
        nowhere(s, id),
    ensures
        find_id(s, id) is None,
        without(s, id) == s,
{
    lemma_find(s, id);
    assert(!has_id(s, id));
    lemma_without_absent(s, id);
}

/// The types of frames differ.
proof fn lemma_types()
    ensures
        "message"@.len() == 7 && "message"@[0] == 'm',
        "reaction"@.len() == 8 && "reaction"@[0] == 'r',
        "question"@.len() == 8 && "question"@[0] == 'q',
        "vote"@.len() == 4 && "vote"@[0] == 'v',
        "poll_vote"@.len() == 9 && "poll_vote"@[0] == 'p',
        "admin_approve_message"@.len() == 21 && "admin_approve_message"@[7] == 'p',
        "admin_reject_message"@.len() == 20 && "admin_reject_message"@[6] == 'r',
        "admin_approve_question"@.len() == 22 && "admin_approve_question"@[6] == 'a',
        "admin_reject_question"@.len() == 21 && "admin_reject_question"@[7] == 'e',
        "admin_lock"@.len() == 10,
        "admin_delete_message"@.len() == 20 && "admin_delete_message"@[6] == 'd',
        "admin_pin_question"@.len() == 18 && "admin_pin_question"@[6] == 'p',
        "admin_answer_question"@.len() == 21 && "admin_answer_question"@[7] == 'n',
        "admin_dismiss_question"@.len() == 22 && "admin_dismiss_question"@[6] == 'd',
        "admin_create_poll"@.len() == 17 && "admin_create_poll"@[6] == 'c',
        "admin_close_poll"@.len() == 16 && "admin_close_poll"@[12] == 'p',
        "admin_delete_poll"@.len() == 17 && "admin_delete_poll"@[6] == 'd',
        "admin_display_mode"@.len() == 18 && "admin_display_mode"@[6] == 'd',
        "admin_close_room"@.len() == 16 && "admin_close_room"@[12] == 'r',
        "admin_"@.len() == 6 && "admin_"@[0] == 'a',
{
    reveal_strlit("message");
    reveal_strlit("reaction");
    reveal_strlit("question");
    reveal_strlit("vote");
    reveal_strlit("poll_vote");
    reveal_strlit("admin_approve_message");
    reveal_strlit("admin_reject_message");
    reveal_strlit("admin_approve_question");
    reveal_strlit("admin_reject_question");
    reveal_strlit("admin_lock");
    reveal_strlit("admin_delete_message");
    reveal_strlit("admin_pin_question");
    reveal_strlit("admin_answer_question");
    reveal_strlit("admin_dismiss_question");
    reveal_strlit("admin_create_poll");
    reveal_strlit("admin_close_poll");
    reveal_strlit("admin_delete_poll");
    reveal_strlit("admin_display_mode");
    reveal_strlit("admin_close_room");
    reveal_strlit("admin_");
}

// ── The question board ──────────────────────────────────────────────────────

/// `admin_answer_question` marks the question it names as answered and unpins
/// it. It stays where it is, with its text and its votes, and nothing else
/// changes.
pub proof fn law_frame_answers(
    s: RoomView,
    room_id: Seq<char>,
    cfg: RoomConfig,
    who: Seq<char>,
    now: u64,
    frame: JsonView,
    p: Map<Seq<char>, JsonView>,
    id: u64,
    i: int,
)
    requires
        is_frame(frame, "admin_answer_question"@, p),
        holds(p, "question_id"@, id),
    ensures
        ({
            let (t, fx) = handle(s, room_id, cfg, who, true, false, now, Some(frame));
            &&& t == (RoomView { questions: t.questions, ..s })
            &&& t.questions.len() == s.questions.len()
            &&& stands_at(s.questions, id, i) ==> {
                &&& t.questions[i].answered
                &&& !t.questions[i].pinned
                &&& t.questions[i].id == s.questions[i].id
                &&& t.questions[i].text == s.questions[i].text
                &&& t.questions[i].votes == s.questions[i].votes
                &&& forall|j: int|
                    0 <= j < s.questions.len() && j != i ==> #[trigger] t.questions[j]
                        == s.questions[j]
            }
            &&& nowhere(s.questions, id) ==> t == s
            &&& told_and_logged(
                fx,
                room_id,
                id_notice("question_answered"@, "question_id"@, id),
                EventView::QuestionAnswered { question_id: id },
            )
        }),
{
    lemma_types();
    lemma_find(s.questions, id);
    if stands_at(s.questions, id, i) {
        lemma_stands(s.questions, id, i);
    }
    if nowhere(s.questions, id) {
        lemma_nowhere(s.questions, id);
    }
}

/// `admin_pin_question` pins the question it names, and no other; if it is
/// pinned already, it unpins all. Nothing but pins changes.
pub proof fn law_frame_pins(
    s: RoomView,
    room_id: Seq<char>,
    cfg: RoomConfig,
    who: Seq<char>,
    now: u64,
    frame: JsonView,
    p: Map<Seq<char>, JsonView>,
    id: u64,
)
    requires
        is_frame(frame, "admin_pin_question"@, p),
        holds(p, "question_id"@, id),
    ensures
        ({
            let (t, fx) = handle(s, room_id, cfg, who, true, false, now, Some(frame));
            let pins = forall|i: int|
                0 <= i < s.questions.len() && (#[trigger] s.questions[i]).id == id
                    ==> !s.questions[i].pinned;
            &&& t == (RoomView { questions: t.questions, ..s })
            &&& t.questions.len() == s.questions.len()
            &&& forall|i: int|
                0 <= i < s.questions.len() ==> {
                    &&& (#[trigger] t.questions[i]).pinned == (pins && s.questions[i].id == id)
                    &&& t.questions[i].id == s.questions[i].id
                    &&& t.questions[i].text == s.questions[i].text
                    &&& t.questions[i].votes == s.questions[i].votes
                    &&& t.questions[i].answered == s.questions[i].answered
                }
            &&& told_and_logged(
                fx,
                room_id,
                notice(
                    "question_pinned"@,
                    map![
                        "question_id"@ => JsonView::Number(Some(id)),
                        "pinned"@ => JsonView::Bool(pins),
                    ],
                ),
                EventView::QuestionPinned { question_id: id, pinned: pins },
            )
        }),
{
    lemma_types();
}

/// `admin_dismiss_question` takes the question it names off the board, with
/// those who have voted for it, and no other.
pub proof fn law_frame_dismisses(
    s: RoomView,
    room_id: Seq<char>,
    cfg: RoomConfig,
    who: Seq<char>,
    now: u64,
    frame: JsonView,
    p: Map<Seq<char>, JsonView>,
    id: u64,
    i: int,
)
    requires
        is_frame(frame, "admin_dismiss_question"@, p),
        holds(p, "question_id"@, id),
        distinct_ids(s.questions),
    ensures
        ({
            let (t, fx) = handle(s, room_id, cfg, who, true, false, now, Some(frame));
            &&& t == (RoomView {
                questions: t.questions,
                question_voters: s.question_voters.remove(id),
                ..s
            })
            &&& stands_at(s.questions, id, i) ==> t.questions == s.questions.remove(i)
            &&& nowhere(s.questions, id) ==> t.questions == s.questions
            &&& told_and_logged(
                fx,
                room_id,
                id_notice("question_dismissed"@, "question_id"@, id),
                EventView::QuestionDismissed { question_id: id },
            )
        }),
{
    lemma_types();
    if stands_at(s.questions, id, i) {
        lemma_without_one(s.questions, id, i);
    }
    if nowhere(s.questions, id) {
        lemma_nowhere(s.questions, id);
    }
}

/// `question` asks a question. It enters the board, or the queue if users are
/// moderated, as it was asked, without votes, under the next id. A blank one is
/// passed over, and one that is too long, or comes while the room is shut for
/// users, is refused.
pub proof fn law_frame_asks(
    s: RoomView,
    room_id: Seq<char>,
    cfg: RoomConfig,
    who: Seq<char>,
    is_admin: bool,
    now: u64,
    frame: JsonView,
    p: Map<Seq<char>, JsonView>,
)
    requires
        is_frame(frame, "question"@, p),
        s.next_question_id < u64::MAX,
    ensures
        ({
            let (t, fx) = handle(s, room_id, cfg, who, is_admin, false, now, Some(frame));
            let text = trimmed(text_in(p, "text"@));
            let q = QuestionView {
                id: (s.next_question_id + 1) as u64,
                text,
                votes: 0,
                pinned: false,
                answered: false,
            };
            if text.len() == 0 {
                t == s && fx.len() == 0
            } else if text.len() > cfg.max_message_length {
                t == s && told_off(fx, "too_long"@, "question exceeds max length"@)
            } else if shut(s, now) && !is_admin {
                t == s && told_off(fx, "locked"@, "room is locked"@)
            } else if cfg.moderated && !is_admin {
                &&& t == (RoomView {
                    next_question_id: q.id,
                    pending_questions: s.pending_questions.push(q),
                    ..s
                })
                &&& held_and_logged(
                    fx,
                    room_id,
                    item_notice("pending_question"@, question_json(q)),
                    EventView::PendingQuestion { id: q.id, text },
                )
            } else {
                &&& t == (RoomView {
                    next_question_id: q.id,
                    questions: s.questions.push(q),
                    ..s
                })
                &&& told_and_logged(
                    fx,
                    room_id,
                    item_notice("question"@, question_json(q)),
                    EventView::Question { id: q.id, text },
                )
            }
        }),
{
    lemma_types();
    lemma_no_text();
}

/// A payload without a text counts as one with an empty text.
proof fn lemma_no_text()
    ensures
        ""@ == Seq::<char>::empty(),
        trimmed(""@) == Seq::<char>::empty(),
{
    reveal_strlit("");
    assert(""@ =~= Seq::<char>::empty());
}

/// `vote` votes for the question it names, or takes the vote back: the votes of
/// that question go up by one, or down by one, and those of no other; the voter
/// is remembered, or forgotten, and nobody else is. An answered question takes
/// no votes, and neither does a room that is shut for users.
pub proof fn law_frame_votes(
    s: RoomView,
    room_id: Seq<char>,
    cfg: RoomConfig,
    who: Seq<char>,
    is_admin: bool,
    now: u64,
    frame: JsonView,
    p: Map<Seq<char>, JsonView>,
    id: u64,
    i: int,
)
    requires
        is_frame(frame, "vote"@, p),
        holds(p, "question_id"@, id),
        stands_at(s.questions, id, i),
        s.questions[i].votes < u32::MAX,
    ensures
        ({
            let (t, fx) = handle(s, room_id, cfg, who, is_admin, false, now, Some(frame));
            let q = s.questions[i];
            let had = s.question_voters.contains_key(id) && s.question_voters[id].contains(who);
            let votes = if !had {
                (q.votes + 1) as u32
            } else if q.votes > 0 {
                (q.votes - 1) as u32
            } else {
                0
            };
            if shut(s, now) && !is_admin {
                t == s && told_off(fx, "locked"@, "room is locked"@)
            } else if q.answered {
                t == s && told_off(fx, "answered"@, "question already answered"@)
            } else {
                &&& t == (RoomView {
                    questions: t.questions,
                    question_voters: t.question_voters,
                    ..s
                })
                &&& t.questions.len() == s.questions.len()
                &&& t.questions[i] == (QuestionView { votes, ..q })
                &&& forall|j: int|
                    0 <= j < s.questions.len() && j != i ==> #[trigger] t.questions[j]
                        == s.questions[j]
                &&& t.question_voters.contains_key(id)
                &&& t.question_voters[id].contains(who) == !had
                &&& forall|x: Seq<char>|
                    x != who ==> (#[trigger] t.question_voters[id].contains(x) <==> (
                    s.question_voters.contains_key(id) && s.question_voters[id].contains(x)))
                &&& t.question_voters.remove(id) == s.question_voters.remove(id)
                &&& told_and_logged(
                    fx,
                    room_id,
                    notice(
                        "vote"@,
                        map![
                            "question_id"@ => JsonView::Number(Some(id)),
                            "votes"@ => JsonView::Number(Some(votes as u64)),
                        ],
                    ),
                    if had {
                        EventView::VoteRemove { question_id: id, voter: who }
                    } else {
                        EventView::VoteAdd { question_id: id, voter: who }
                    },
                )
            }
        }),
{
    lemma_types();
    lemma_stands(s.questions, id, i);
    let t = handle(s, room_id, cfg, who, is_admin, false, now, Some(frame)).0;
    assert(t.question_voters.remove(id) =~= s.question_voters.remove(id));
}

/// A vote for a question that is not there changes nothing.
pub proof fn law_frame_votes_for_nothing(
    s: RoomView,
    room_id: Seq<char>,
    cfg: RoomConfig,
    who: Seq<char>,
    is_admin: bool,
    now: u64,
    frame: JsonView,
    p: Map<Seq<char>, JsonView>,
    id: u64,
)
    requires
        is_frame(frame, "vote"@, p),
        holds(p, "question_id"@, id),
        nowhere(s.questions, id),
    ensures
        ({
            let (t, fx) = handle(s, room_id, cfg, who, is_admin, false, now, Some(frame));
            &&& t == s
            &&& if shut(s, now) && !is_admin {
                told_off(fx, "locked"@, "room is locked"@)
            } else {
                fx.len() == 0
            }
        }),
{
    lemma_types();
    lemma_nowhere(s.questions, id);
}

// ── Messages and reactions ──────────────────────────────────────────────────

/// The last of some messages, as many as a room keeps.
pub open spec fn kept(all: Seq<MessageView>, max: usize) -> Seq<MessageView> {
    if all.len() <= max {
        all
    } else {
        all.subrange(all.len() - max, all.len() as int)
    }
}

/// `message` sends a message. It enters the history, or the queue if users are
/// moderated, as it was sent, under the next id, with the badge of its author
/// and the time. A blank one is passed over; one that is too long, or that a
/// user sends while the room is shut or too soon after their last one, is
/// refused. Only users are timed.
pub proof fn law_frame_sends(
    s: RoomView,
    room_id: Seq<char>,
    cfg: RoomConfig,
    who: Seq<char>,
    is_admin: bool,
    now: u64,
    frame: JsonView,
    p: Map<Seq<char>, JsonView>,
)
    requires
        is_frame(frame, "message"@, p),
        s.next_msg_id < u64::MAX,
    ensures
        ({
            let (t, fx) = handle(s, room_id, cfg, who, is_admin, false, now, Some(frame));
            let text = trimmed(text_in(p, "text"@));
            let m = MessageView {
                id: (s.next_msg_id + 1) as u64,
                role: if is_admin {
                    "admin"@
                } else {
                    "user"@
                },
                text,
                ts: now,
                reactions: Map::empty(),
            };
            let times = if is_admin {
                s.last_message_at
            } else {
                s.last_message_at.insert(who, now)
            };
            if text.len() == 0 {
                t == s && fx.len() == 0
            } else if shut(s, now) && !is_admin {
                t == s && told_off(fx, "locked"@, "room is locked"@)
            } else if text.len() > cfg.max_message_length {
                t == s && told_off(fx, "too_long"@, "message exceeds max length"@)
            } else if !is_admin && cfg.rate_limit_ms > 0 && s.last_message_at.contains_key(who)
                && now < s.last_message_at[who] + cfg.rate_limit_ms {
                t == s && told_off(fx, "rate_limited"@, "slow down"@)
            } else if cfg.moderated && !is_admin {
                &&& t == (RoomView {
                    next_msg_id: m.id,
                    last_message_at: times,
                    pending_messages: s.pending_messages.push(m),
                    ..s
                })
                &&& held_and_logged(
                    fx,
                    room_id,
                    item_notice("pending_message"@, message_json(m)),
                    EventView::PendingMessage { id: m.id, role: m.role, text, ts: now },
                )
            } else {
                &&& t == (RoomView {
                    next_msg_id: m.id,
                    last_message_at: times,
                    messages: kept(s.messages.push(m), cfg.max_messages),
                    ..s
                })
                &&& told_and_logged(
                    fx,
                    room_id,
                    item_notice("message"@, message_json(m)),
                    EventView::Message { id: m.id, role: m.role, text, ts: now },
                )
            }
        }),
{
    lemma_types();
    lemma_no_text();
}

/// The emoji that can be reacted with.
pub open spec fn offered_emoji(emoji: Seq<char>) -> bool {
    emoji == "👍"@ || emoji == "❤️"@ || emoji == "😂"@ || emoji == "🔥"@ || emoji == "🤔"@
}

/// Who reacts to a message with an emoji.
pub open spec fn reacting(s: RoomView, id: u64, emoji: Seq<char>) -> Set<Seq<char>> {
    if s.reaction_users.contains_key((id, emoji)) {
        s.reaction_users[(id, emoji)]
    } else {
        Set::empty()
    }
}

/// `reaction` adds a reaction to the message it names, or takes it back: its
/// author is recorded, or no longer, and nobody else is; the message shows how
/// many react with the emoji, and nothing if nobody does. Other emoji and other
/// messages stay as they were. A lock does not hold reactions back.
pub proof fn law_frame_reacts(
    s: RoomView,
    room_id: Seq<char>,
    cfg: RoomConfig,
    who: Seq<char>,
    is_admin: bool,
    now: u64,
    frame: JsonView,
    p: Map<Seq<char>, JsonView>,
    id: u64,
    emoji: Seq<char>,
    i: int,
)
    requires
        is_frame(frame, "reaction"@, p),
        holds(p, "message_id"@, id),
        p.contains_key("emoji"@),
        p["emoji"@] == JsonView::Str(emoji),
        offered_emoji(emoji),
        stands_at(s.messages, id, i),
        reacting(s, id, emoji).finite(),
        reacting(s, id, emoji).len() < u32::MAX,
    ensures
        ({
            let (t, fx) = handle(s, room_id, cfg, who, is_admin, false, now, Some(frame));
            let before = reacting(s, id, emoji);
            let after = reacting(t, id, emoji);
            &&& t == (RoomView { messages: t.messages, reaction_users: t.reaction_users, ..s })
            &&& after == if before.contains(who) {
                before.remove(who)
            } else {
                before.insert(who)
            }
            &&& t.reaction_users.contains_key((id, emoji)) == (after.len() > 0)
            &&& t.reaction_users.remove((id, emoji)) == s.reaction_users.remove((id, emoji))
            &&& t.messages.len() == s.messages.len()
            &&& t.messages[i] == (MessageView {
                reactions: if after.len() > 0 {
                    s.messages[i].reactions.insert(emoji, after.len() as u32)
                } else {
                    s.messages[i].reactions.remove(emoji)
                },
                ..s.messages[i]
            })
            &&& forall|j: int|
                0 <= j < s.messages.len() && j != i ==> #[trigger] t.messages[j] == s.messages[j]
            &&& told_and_logged(
                fx,
                room_id,
                notice(
                    "reaction"@,
                    map![
                        "message_id"@ => JsonView::Number(Some(id)),
                        "emoji"@ => JsonView::Str(emoji),
                        "count"@ => JsonView::Number(Some(after.len() as u64)),
                    ],
                ),
                if before.contains(who) {
                    EventView::ReactionRemove { message_id: id, emoji, voter: who }
                } else {
                    EventView::ReactionAdd { message_id: id, emoji, voter: who }
                },
            )
        }),
{
    lemma_types();
    lemma_stands(s.messages, id, i);
    let t = handle(s, room_id, cfg, who, is_admin, false, now, Some(frame)).0;
    let before = reacting(s, id, emoji);
    let toggled = if before.contains(who) {
        before.remove(who)
    } else {
        before.insert(who)
    };
    if toggled.len() == 0 {
        assert(toggled =~= Set::empty());
    }
    assert(reacting(t, id, emoji) =~= toggled);
    assert(t.reaction_users.remove((id, emoji)) =~= s.reaction_users.remove((id, emoji)));
}

/// A reaction with another emoji is refused; one to a message that is not there
/// is passed over.
pub proof fn law_frame_reacts_in_vain(
    s: RoomView,
    room_id: Seq<char>,
    cfg: RoomConfig,
    who: Seq<char>,
    is_admin: bool,
    now: u64,
    frame: JsonView,
    p: Map<Seq<char>, JsonView>,
    id: u64,
    emoji: Seq<char>,
)
    requires
        is_frame(frame, "reaction"@, p),
        holds(p, "message_id"@, id),
        p.contains_key("emoji"@),
        p["emoji"@] == JsonView::Str(emoji),
        !offered_emoji(emoji) || nowhere(s.messages, id),
    ensures
        ({
            let (t, fx) = handle(s, room_id, cfg, who, is_admin, false, now, Some(frame));
            &&& t == s
            &&& if offered_emoji(emoji) {
                fx.len() == 0
            } else {
                told_off(fx, "bad_emoji"@, "unsupported reaction"@)
            }
        }),
{
    lemma_types();
    if nowhere(s.messages, id) {
        lemma_nowhere(s.messages, id);
    }
}

/// `admin_delete_message` takes the message it names out of the history, with
/// the reactions to it, and no other.
pub proof fn law_frame_deletes(
    s: RoomView,
    room_id: Seq<char>,
    cfg: RoomConfig,
    who: Seq<char>,
    now: u64,
    frame: JsonView,
    p: Map<Seq<char>, JsonView>,
    id: u64,
    i: int,
)
    requires
        is_frame(frame, "admin_delete_message"@, p),
        holds(p, "message_id"@, id),
        distinct_ids(s.messages),
    ensures
        ({
            let (t, fx) = handle(s, room_id, cfg, who, true, false, now, Some(frame));
            &&& t == (RoomView { messages: t.messages, reaction_users: t.reaction_users, ..s })
            &&& stands_at(s.messages, id, i) ==> t.messages == s.messages.remove(i)
            &&& nowhere(s.messages, id) ==> t.messages == s.messages
            &&& forall|k: (u64, Seq<char>)|
                #![trigger t.reaction_users.contains_key(k)]
                {
                    &&& t.reaction_users.contains_key(k) <==> k.0 != id
                        && s.reaction_users.contains_key(k)
                    &&& t.reaction_users.contains_key(k) ==> t.reaction_users[k]
                        == s.reaction_users[k]
                }
            &&& told_and_logged(
                fx,
                room_id,
                id_notice("message_deleted"@, "id"@, id),
                EventView::MessageDeleted { id },
            )
        }),
{
    lemma_types();
    if stands_at(s.messages, id, i) {
        lemma_without_one(s.messages, id, i);
    }
    if nowhere(s.messages, id) {
        lemma_nowhere(s.messages, id);
    }
}

// ── The queue ───────────────────────────────────────────────────────────────

/// `admin_approve_question` publishes the pending question it names, as it was
/// asked, and takes it and no other out of the queue.
pub proof fn law_frame_approves_question(
    s: RoomView,
    room_id: Seq<char>,
    cfg: RoomConfig,
    who: Seq<char>,
    now: u64,
    frame: JsonView,
    p: Map<Seq<char>, JsonView>,
    id: u64,
    i: int,
)
    requires
        is_frame(frame, "admin_approve_question"@, p),
        holds(p, "question_id"@, id),
    ensures
        ({
            let (t, fx) = handle(s, room_id, cfg, who, true, false, now, Some(frame));
            &&& stands_at(s.pending_questions, id, i) ==> {
                let q = s.pending_questions[i];
                &&& t == (RoomView {
                    questions: s.questions.push(q),
                    pending_questions: s.pending_questions.remove(i),
                    ..s
                })
                &&& told_and_logged(
                    fx,
                    room_id,
                    item_notice("question"@, question_json(q)),
                    EventView::Question { id, text: q.text },
                )
            }
            &&& nowhere(s.pending_questions, id) ==> t == s && fx.len() == 0
        }),
{
    lemma_types();
    if stands_at(s.pending_questions, id, i) {
        lemma_stands(s.pending_questions, id, i);
    }
    if nowhere(s.pending_questions, id) {
        lemma_nowhere(s.pending_questions, id);
    }
}

/// `admin_approve_message` publishes the pending message it names, as it was
/// sent, and takes it and no other out of the queue.
pub proof fn law_frame_approves_message(
    s: RoomView,
    room_id: Seq<char>,
    cfg: RoomConfig,
    who: Seq<char>,
    now: u64,
    frame: JsonView,
    p: Map<Seq<char>, JsonView>,
    id: u64,
    i: int,
)
    requires
        is_frame(frame, "admin_approve_message"@, p),
        holds(p, "message_id"@, id),
    ensures
        ({
            let (t, fx) = handle(s, room_id, cfg, who, true, false, now, Some(frame));
            &&& stands_at(s.pending_messages, id, i) ==> {
                let m = s.pending_messages[i];
                &&& t == (RoomView {
                    messages: kept(s.messages.push(m), cfg.max_messages),
                    pending_messages: s.pending_messages.remove(i),
                    ..s
                })
                &&& told_and_logged(
                    fx,
                    room_id,
                    item_notice("message"@, message_json(m)),
                    EventView::Message { id, role: m.role, text: m.text, ts: m.ts },
                )
            }
            &&& nowhere(s.pending_messages, id) ==> t == s && fx.len() == 0
        }),
{
    lemma_types();
    if stands_at(s.pending_messages, id, i) {
        lemma_stands(s.pending_messages, id, i);
    }
    if nowhere(s.pending_messages, id) {
        lemma_nowhere(s.pending_messages, id);
    }
}

/// `admin_reject_message` drops the pending message it names, and no other, and
/// everyone is told.
pub proof fn law_frame_rejects_message(
    s: RoomView,
    room_id: Seq<char>,
    cfg: RoomConfig,
    who: Seq<char>,
    now: u64,
    frame: JsonView,
    p: Map<Seq<char>, JsonView>,
    id: u64,
    i: int,
)
    requires
        is_frame(frame, "admin_reject_message"@, p),
        holds(p, "message_id"@, id),
        distinct_ids(s.pending_messages),
    ensures
        ({
            let (t, fx) = handle(s, room_id, cfg, who, true, false, now, Some(frame));
            &&& stands_at(s.pending_messages, id, i) ==> t == (RoomView {
                pending_messages: s.pending_messages.remove(i),
                ..s
            })
            &&& nowhere(s.pending_messages, id) ==> t == s
            &&& told_and_logged(
                fx,
                room_id,
                id_notice("pending_message_rejected"@, "id"@, id),
                EventView::PendingMessageRejected { id },
            )
        }),
{
    lemma_types();
    if stands_at(s.pending_messages, id, i) {
        lemma_without_one(s.pending_messages, id, i);
    }
    if nowhere(s.pending_messages, id) {
        lemma_nowhere(s.pending_messages, id);
    }
}

/// `admin_reject_question` drops the pending question it names, and no other,
/// and everyone is told.
pub proof fn law_frame_rejects_question(
    s: RoomView,
    room_id: Seq<char>,
    cfg: RoomConfig,
    who: Seq<char>,
    now: u64,
    frame: JsonView,
    p: Map<Seq<char>, JsonView>,
    id: u64,
    i: int,
)
    requires
        is_frame(frame, "admin_reject_question"@, p),
        holds(p, "question_id"@, id),
        distinct_ids(s.pending_questions),
    ensures
        ({
            let (t, fx) = handle(s, room_id, cfg, who, true, false, now, Some(frame));
            &&& stands_at(s.pending_questions, id, i) ==> t == (RoomView {
                pending_questions: s.pending_questions.remove(i),
                ..s
            })
            &&& nowhere(s.pending_questions, id) ==> t == s
            &&& told_and_logged(
                fx,
                room_id,
                id_notice("pending_question_rejected"@, "id"@, id),
                EventView::PendingQuestionRejected { id },
            )
        }),
{
    lemma_types();
    if stands_at(s.pending_questions, id, i) {
        lemma_without_one(s.pending_questions, id, i);
    }
    if nowhere(s.pending_questions, id) {
        lemma_nowhere(s.pending_questions, id);
    }
}

// ── Polls ───────────────────────────────────────────────────────────────────

/// `poll_vote` votes in the poll it names for the answer it names: that answer,
/// and no other, gets one vote more, and the voter is remembered. Who has voted
/// in the poll is refused, and so is a vote for an answer that is not there, in
/// a closed poll, or of a user while the room is shut.
pub proof fn law_frame_votes_in_poll(
    s: RoomView,
    room_id: Seq<char>,
    cfg: RoomConfig,
    who: Seq<char>,
    is_admin: bool,
    now: u64,
    frame: JsonView,
    p: Map<Seq<char>, JsonView>,
    id: u64,
    option: usize,
    i: int,
)
    requires
        is_frame(frame, "poll_vote"@, p),
        holds(p, "poll_id"@, id),
        holds(p, "option_index"@, option as u64),
        stands_at(s.polls, id, i),
        option < s.polls[i].options.len() ==> s.polls[i].options[option as int].votes < u32::MAX,
    ensures
        ({
            let (t, fx) = handle(s, room_id, cfg, who, is_admin, false, now, Some(frame));
            let poll = s.polls[i];
            let had = s.poll_voters.contains_key(id) && s.poll_voters[id].contains(who);
            if shut(s, now) && !is_admin {
                t == s && told_off(fx, "locked"@, "room is locked"@)
            } else if poll.closed {
                t == s && told_off(fx, "poll_closed"@, "poll is closed"@)
            } else if option >= poll.options.len() {
                t == s && told_off(fx, "bad_option"@, "invalid option"@)
            } else if had {
                t == s && told_off(fx, "already_voted"@, "you already voted"@)
            } else {
                let options = t.polls[i].options;
                &&& t == (RoomView { polls: t.polls, poll_voters: t.poll_voters, ..s })
                &&& t.polls.len() == s.polls.len()
                &&& forall|j: int|
                    0 <= j < s.polls.len() && j != i ==> #[trigger] t.polls[j] == s.polls[j]
                &&& t.polls[i] == (PollView { options, ..poll })
                &&& options.len() == poll.options.len()
                &&& options[option as int].votes == poll.options[option as int].votes + 1
                &&& options[option as int].text == poll.options[option as int].text
                &&& forall|k: int|
                    0 <= k < options.len() && k != option ==> #[trigger] options[k]
                        == poll.options[k]
                &&& t.poll_voters.contains_key(id)
                &&& t.poll_voters[id].contains(who)
                &&& forall|x: Seq<char>|
                    x != who ==> (#[trigger] t.poll_voters[id].contains(x) <==> (
                    s.poll_voters.contains_key(id) && s.poll_voters[id].contains(x)))
                &&& t.poll_voters.remove(id) == s.poll_voters.remove(id)
                &&& told_and_logged(
                    fx,
                    room_id,
                    notice(
                        "poll_update"@,
                        map![
                            "poll_id"@ => JsonView::Number(Some(id)),
                            "options"@ => JsonView::Array(options_json(options)),
                        ],
                    ),
                    EventView::PollVote { poll_id: id, option_index: option, voter: who },
                )
            }
        }),
{
    lemma_types();
    lemma_stands(s.polls, id, i);
    let t = handle(s, room_id, cfg, who, is_admin, false, now, Some(frame)).0;
    assert(t.poll_voters.remove(id) =~= s.poll_voters.remove(id));
}

/// A vote in a poll that is not there changes nothing.
pub proof fn law_frame_votes_in_no_poll(
    s: RoomView,
    room_id: Seq<char>,
    cfg: RoomConfig,
    who: Seq<char>,
    is_admin: bool,
    now: u64,
    frame: JsonView,
    p: Map<Seq<char>, JsonView>,
    id: u64,
    option: usize,
)
    requires
        is_frame(frame, "poll_vote"@, p),
        holds(p, "poll_id"@, id),
        holds(p, "option_index"@, option as u64),
        nowhere(s.polls, id),
    ensures
        ({
            let (t, fx) = handle(s, room_id, cfg, who, is_admin, false, now, Some(frame));
            &&& t == s
            &&& if shut(s, now) && !is_admin {
                told_off(fx, "locked"@, "room is locked"@)
            } else {
                fx.len() == 0
            }
        }),
{
    lemma_types();
    lemma_nowhere(s.polls, id);
}

/// The answers in a frame are read one by one: each that is a text, and not
/// blank, counts without the white space around it; all else is skipped.
pub proof fn law_answers_read_in_order(a: Seq<JsonView>, b: Seq<JsonView>, x: JsonView)
    ensures
        option_texts(Seq::empty()) == Seq::<Seq<char>>::empty(),
        option_texts(a + b) == option_texts(a) + option_texts(b),
        option_texts(seq![x]) == match x {
            JsonView::Str(t) => if trimmed(t).len() > 0 {
                seq![trimmed(t)]
            } else {
                Seq::empty()
            },
            _ => Seq::empty(),
        },
    decreases b.len(),
{
    assert(seq![x].drop_last() == Seq::<JsonView>::empty());
    assert(option_texts(seq![x].drop_last()) == Seq::<Seq<char>>::empty());
    if let JsonView::Str(t) = x {
        assert(Seq::<Seq<char>>::empty().push(trimmed(t)) == seq![trimmed(t)]);
    }
    if b.len() == 0 {
        assert(a + b == a);
        assert(option_texts(a) + option_texts(b) == option_texts(a));
    } else {
        law_answers_read_in_order(a, b.drop_last(), x);
        assert((a + b).drop_last() == a + b.drop_last());
        assert((a + b).last() == b.last());
        assert(option_texts(a + b) =~= option_texts(a) + option_texts(b));
    }
}

/// The answers that a payload gives.
pub open spec fn answers_in(p: Map<Seq<char>, JsonView>) -> Seq<Seq<char>> {
    if p.contains_key("options"@) {
        match p["options"@] {
            JsonView::Array(items) => option_texts(items),
            _ => Seq::empty(),
        }
    } else {
        Seq::empty()
    }
}

/// `admin_create_poll` opens a poll under the next id, with the question and the
/// answers it gives, in order and without votes. It is refused without a
/// question, or with fewer than 2 or more than 6 answers.
pub proof fn law_frame_creates_poll(
    s: RoomView,
    room_id: Seq<char>,
    cfg: RoomConfig,
    who: Seq<char>,
    now: u64,
    frame: JsonView,
    p: Map<Seq<char>, JsonView>,
)
    requires
        is_frame(frame, "admin_create_poll"@, p),
        s.next_poll_id < u64::MAX,
    ensures
        ({
            let (t, fx) = handle(s, room_id, cfg, who, true, false, now, Some(frame));
            let question = trimmed(text_in(p, "question"@));
            let answers = answers_in(p);
            if question.len() == 0 || answers.len() < 2 || answers.len() > 6 {
                t == s && told_off(fx, "bad_poll"@, "need a question and 2–6 options"@)
            } else {
                let poll = t.polls.last();
                &&& t == (RoomView {
                    next_poll_id: (s.next_poll_id + 1) as u64,
                    polls: s.polls.push(poll),
                    ..s
                })
                &&& poll.id == s.next_poll_id + 1
                &&& poll.question == question
                &&& !poll.closed
                &&& poll.options.len() == answers.len()
                &&& forall|k: int|
                    0 <= k < answers.len() ==> (#[trigger] poll.options[k]).text == answers[k]
                        && poll.options[k].votes == 0
                &&& told_and_logged(
                    fx,
                    room_id,
                    item_notice("poll_created"@, poll_json(poll)),
                    EventView::PollCreated { id: poll.id, question, options: answers },
                )
            }
        }),
{
    lemma_types();
    lemma_no_text();
}

/// `admin_close_poll` closes the poll it names, which keeps its votes, and no
/// other.
pub proof fn law_frame_closes_poll(
    s: RoomView,
    room_id: Seq<char>,
    cfg: RoomConfig,
    who: Seq<char>,
    now: u64,
    frame: JsonView,
    p: Map<Seq<char>, JsonView>,
    id: u64,
    i: int,
)
    requires
        is_frame(frame, "admin_close_poll"@, p),
        holds(p, "poll_id"@, id),
    ensures
        ({
            let (t, fx) = handle(s, room_id, cfg, who, true, false, now, Some(frame));
            &&& stands_at(s.polls, id, i) ==> {
                &&& t == (RoomView { polls: t.polls, ..s })
                &&& t.polls.len() == s.polls.len()
                &&& t.polls[i] == (PollView { closed: true, ..s.polls[i] })
                &&& forall|j: int|
                    0 <= j < s.polls.len() && j != i ==> #[trigger] t.polls[j] == s.polls[j]
            }
            &&& nowhere(s.polls, id) ==> t == s
            &&& told_and_logged(
                fx,
                room_id,
                id_notice("poll_closed"@, "poll_id"@, id),
                EventView::PollClosed { poll_id: id },
            )
        }),
{
    lemma_types();
    if stands_at(s.polls, id, i) {
        lemma_stands(s.polls, id, i);
    }
    if nowhere(s.polls, id) {
        lemma_nowhere(s.polls, id);
    }
}

/// `admin_delete_poll` removes the poll it names, with those who have voted in
/// it, and no other.
pub proof fn law_frame_deletes_poll(
    s: RoomView,
    room_id: Seq<char>,
    cfg: RoomConfig,
    who: Seq<char>,
    now: u64,
    frame: JsonView,
    p: Map<Seq<char>, JsonView>,
    id: u64,
    i: int,
)
    requires
        is_frame(frame, "admin_delete_poll"@, p),
        holds(p, "poll_id"@, id),
        distinct_ids(s.polls),
    ensures
        ({
            let (t, fx) = handle(s, room_id, cfg, who, true, false, now, Some(frame));
            &&& t == (RoomView { polls: t.polls, poll_voters: s.poll_voters.remove(id), ..s })
            &&& stands_at(s.polls, id, i) ==> t.polls == s.polls.remove(i)
            &&& nowhere(s.polls, id) ==> t.polls == s.polls
            &&& told_and_logged(
                fx,
                room_id,
                id_notice("poll_deleted"@, "poll_id"@, id),
                EventView::PollDeleted { poll_id: id },
            )
        }),
{
    lemma_types();
    if stands_at(s.polls, id, i) {
        lemma_without_one(s.polls, id, i);
    }
    if nowhere(s.polls, id) {
        lemma_nowhere(s.polls, id);
    }
}

// ── The lock, the display, the end ──────────────────────────────────────────

/// `admin_lock` sets the lock to what it says, whatever it was. A lock that is
/// set for so many seconds, a day at most, ends by itself: it has a deadline,
/// and a timer. Any other has none. Nothing but the lock changes.
pub proof fn law_frame_locks(
    s: RoomView,
    room_id: Seq<char>,
    cfg: RoomConfig,
    who: Seq<char>,
    now: u64,
    frame: JsonView,
    p: Map<Seq<char>, JsonView>,
    locked: bool,
    d: u64,
    u: u64,
)
    requires
        is_frame(frame, "admin_lock"@, p),
        locked == (p.contains_key("locked"@) && p["locked"@] == JsonView::Bool(true)),
        s.lock_epoch < u64::MAX,
    ensures
        ({
            let (t, fx) = handle(s, room_id, cfg, who, true, false, now, Some(frame));
            let epoch = (s.lock_epoch + 1) as u64;
            let seconds = if d < 86_400 {
                d
            } else {
                86_400
            };
            let end = now + seconds * 1000;
            let timed = locked && holds(p, "duration_seconds"@, d);
            let until = if !timed {
                None
            } else if end < u64::MAX {
                Some(end as u64)
            } else {
                Some(u64::MAX)
            };
            let j = notice(
                "lock"@,
                map![
                    "locked"@ => JsonView::Bool(locked),
                    "until"@ => match until {
                        Some(n) => JsonView::Number(Some(n)),
                        None => JsonView::Null,
                    },
                ],
            );
            let e = EventView::Lock { locked, until };
            &&& timed || lacks(p, "duration_seconds"@) || !locked ==> {
                &&& t == (RoomView { locked, locked_until: until, lock_epoch: epoch, ..s })
                &&& shut(t, u) == (locked && (timed ==> u < end && u < u64::MAX))
                &&& t.locked_at(u) == shut(t, u)
            }
            &&& !timed && (lacks(p, "duration_seconds"@) || !locked) ==> told_and_logged(
                fx,
                room_id,
                j,
                e,
            )
            &&& timed ==> {
                &&& fx.len() == if room_id == "test"@ {
                    2int
                } else {
                    3int
                }
                &&& told_and_logged(fx.drop_last(), room_id, j, e)
                &&& fx.last() == (EffectView::ScheduleUnlock { seconds, epoch })
            }
        }),
{
    lemma_types();
}

/// `admin_display_mode` switches the display to one of its panels, to the
/// questions if it names none; other panels do not exist. The room stays as it
/// is, and nothing is logged.
pub proof fn law_frame_switches_display(
    s: RoomView,
    room_id: Seq<char>,
    cfg: RoomConfig,
    who: Seq<char>,
    now: u64,
    frame: JsonView,
    p: Map<Seq<char>, JsonView>,
    mode: Seq<char>,
)
    requires
        is_frame(frame, "admin_display_mode"@, p),
        mode == (if p.contains_key("mode"@) && p["mode"@] is Str {
            p["mode"@]->Str_0
        } else {
            "questions"@
        }),
    ensures
        ({
            let (t, fx) = handle(s, room_id, cfg, who, true, false, now, Some(frame));
            &&& t == s
            &&& if mode == "questions"@ || mode == "messages"@ || mode == "polls"@ || mode
                == "qr"@ {
                fx == seq![
                    EffectView::Broadcast(
                        notice("display_mode"@, map!["mode"@ => JsonView::Str(mode)]),
                    ),
                ]
            } else {
                fx.len() == 0
            }
        }),
{
    lemma_types();
}

/// `admin_close_room` tells everyone that the room is closed, and then closes
/// it.
pub proof fn law_frame_closes_room(
    s: RoomView,
    room_id: Seq<char>,
    cfg: RoomConfig,
    who: Seq<char>,
    now: u64,
    frame: JsonView,
    p: Map<Seq<char>, JsonView>,
)
    requires
        is_frame(frame, "admin_close_room"@, p),
    ensures
        handle(s, room_id, cfg, who, true, false, now, Some(frame)) == (
            s,
            seq![
                EffectView::Broadcast(notice("room_closed"@, Map::empty())),
                EffectView::CloseRoom,
            ],
        ),
{
    lemma_types();
}

// ── What is passed over or refused ──────────────────────────────────────────

/// The types of frames that name something by an id alone, and what they call
/// the id.
pub open spec fn names_by(kind: Seq<char>, key: Seq<char>) -> bool {
    ||| (kind == "vote"@ || kind == "admin_approve_question"@ || kind == "admin_reject_question"@
        || kind == "admin_pin_question"@ || kind == "admin_answer_question"@ || kind
        == "admin_dismiss_question"@) && key == "question_id"@
    ||| (kind == "reaction"@ || kind == "admin_approve_message"@ || kind
        == "admin_reject_message"@ || kind == "admin_delete_message"@) && key == "message_id"@
    ||| (kind == "poll_vote"@ || kind == "admin_close_poll"@ || kind == "admin_delete_poll"@)
        && key == "poll_id"@
    ||| kind == "poll_vote"@ && key == "option_index"@
}

/// A frame that does not say what it is about is passed over.
pub proof fn law_frame_incomplete(
    s: RoomView,
    room_id: Seq<char>,
    cfg: RoomConfig,
    who: Seq<char>,
    is_admin: bool,
    now: u64,
    frame: JsonView,
    p: Map<Seq<char>, JsonView>,
    kind: Seq<char>,
    key: Seq<char>,
)
    requires
        is_frame(frame, kind, p),
        is_admin || kind == "vote"@ || kind == "reaction"@ || kind == "poll_vote"@,
        names_by(kind, key) && lacks(p, key) || kind == "reaction"@ && !(p.contains_key("emoji"@)
            && p["emoji"@] is Str),
    ensures
        ({
            let (t, fx) = handle(s, room_id, cfg, who, is_admin, false, now, Some(frame));
            t == s && fx.len() == 0
        }),
{
    lemma_types();
}

/// The types of frames that there are.
pub open spec fn is_known(kind: Seq<char>) -> bool {
    ||| kind == "message"@ || kind == "reaction"@ || kind == "question"@ || kind == "vote"@ || kind
        == "poll_vote"@
    ||| kind == "admin_approve_message"@ || kind == "admin_reject_message"@ || kind
        == "admin_approve_question"@ || kind == "admin_reject_question"@
    ||| kind == "admin_lock"@ || kind == "admin_delete_message"@ || kind == "admin_pin_question"@
        || kind == "admin_answer_question"@ || kind == "admin_dismiss_question"@
    ||| kind == "admin_create_poll"@ || kind == "admin_close_poll"@ || kind
        == "admin_delete_poll"@ || kind == "admin_display_mode"@ || kind == "admin_close_room"@
}

/// A frame of another type, or of none, is refused.
pub proof fn law_frame_unknown(
    s: RoomView,
    room_id: Seq<char>,
    cfg: RoomConfig,
    who: Seq<char>,
    is_admin: bool,
    now: u64,
    frame: JsonView,
)
    requires
        frame matches JsonView::Object(members) ==> {
            !(members.contains_key("type"@) && (members["type"@] matches JsonView::Str(kind) && (
            is_known(kind) || !is_admin && kind.len() >= 6 && kind.take(6) == "admin_"@)))
        },
    ensures
        ({
            let (t, fx) = handle(s, room_id, cfg, who, is_admin, false, now, Some(frame));
            t == s && told_off(fx, "unknown"@, "unknown message type"@)
        }),
{
    lemma_types();
    reveal_strlit("");
}

/// Whoever is not admin is refused every frame whose type begins with `admin_`,
/// whatever it holds.
pub proof fn law_frame_forbidden(
    s: RoomView,
    room_id: Seq<char>,
    cfg: RoomConfig,
    who: Seq<char>,
    now: u64,
    m: Map<Seq<char>, JsonView>,
    rest: Seq<char>,
)
    requires
        m.contains_key("type"@),
        m["type"@] == JsonView::Str("admin_"@ + rest),
    ensures
        ({
            let frame = Some(JsonView::Object(m));
            let (t, fx) = handle(s, room_id, cfg, who, false, false, now, frame);
            t == s && told_off(fx, "forbidden"@, "admin token required"@)
        }),
{
    assert(("admin_"@ + rest).take("admin_"@.len() as int) == "admin_"@);
}

/// Whatever a display window sends that is JSON is dropped without a word; what
/// is not JSON is refused, whoever sends it.
pub proof fn law_frame_dropped(
    s: RoomView,
    room_id: Seq<char>,
    cfg: RoomConfig,
    who: Seq<char>,
    is_admin: bool,
    is_display: bool,
    now: u64,
    frame: JsonView,
)
    ensures
        ({
            let (t, fx) = handle(s, room_id, cfg, who, is_admin, true, now, Some(frame));
            t == s && fx.len() == 0
        }),
        ({
            let (t, fx) = handle(s, room_id, cfg, who, is_admin, is_display, now, None);
            t == s && told_off(fx, "bad_json"@, "invalid JSON"@)
        }),
{
}

/// A frame without a payload, or with one that has no members, counts as one
/// with an empty payload.
pub proof fn law_frame_without_payload(
    s: RoomView,
    room_id: Seq<char>,
    cfg: RoomConfig,
    who: Seq<char>,
    is_admin: bool,
    now: u64,
    m: Map<Seq<char>, JsonView>,
)
    requires
        !m.contains_key("payload"@) || !(m["payload"@] is Object),
    ensures
        ({
            let empty = JsonView::Object(Map::empty());
            handle(s, room_id, cfg, who, is_admin, false, now, Some(JsonView::Object(m)))
                == handle(
                s,
                room_id,
                cfg,
                who,
                is_admin,
                false,
                now,
                Some(JsonView::Object(m.insert("payload"@, empty))),
            )
        }),
{
    reveal_strlit("type");
    reveal_strlit("payload");
    assert("type"@ != "payload"@) by {
        assert("type"@.len() != "payload"@.len());
    }
}

} // verus!
