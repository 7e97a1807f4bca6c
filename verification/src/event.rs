//! The event log: what is written down of a room, and how a room is rebuilt
//! from it.

use vstd::hash_set::StringHashSet;
use vstd::prelude::*;

use crate::json::{
    empty_object, items_view, lemma_items_push, lemma_items_view, number, number_or_null, plain,
    writable, Json, JsonView,
};
use crate::list::{
    drop_id, drop_queued, find, find_id, find_queued, keep_last, lemma_find, views, without,
};
use crate::state::{
    drop_voters, put_voters, take_voters, voters_of, without_message, Message, MessageView, Poll,
    PollOption, PollOptionView, PollView, Question, QuestionView, RoomInner, RoomView,
};
use crate::table::StrMap;
use crate::text::str_eq;

verus! {

/// One entry of a room's event log.
#[derive(Debug)]
pub enum RoomEvent {
    /// A message became visible.
    Message { id: u64, role: String, text: String, ts: u64 },
    /// A message was deleted.
    MessageDeleted { id: u64 },
    /// Someone reacted to a message.
    ReactionAdd { message_id: u64, emoji: String, voter: String },
    /// Someone took a reaction back.
    ReactionRemove { message_id: u64, emoji: String, voter: String },
    /// A message awaits approval.
    PendingMessage { id: u64, role: String, text: String, ts: u64 },
    /// A pending message was rejected.
    PendingMessageRejected { id: u64 },
    /// A question became visible.
    Question { id: u64, text: String },
    /// Someone voted for a question.
    VoteAdd { question_id: u64, voter: String },
    /// Someone took a vote back.
    VoteRemove { question_id: u64, voter: String },
    /// A question was pinned, or all were unpinned.
    QuestionPinned { question_id: u64, pinned: bool },
    /// A question was answered.
    QuestionAnswered { question_id: u64 },
    /// A question was dismissed.
    QuestionDismissed { question_id: u64 },
    /// A question awaits approval.
    PendingQuestion { id: u64, text: String },
    /// A pending question was rejected.
    PendingQuestionRejected { id: u64 },
    /// A poll was opened.
    PollCreated { id: u64, question: String, options: Vec<String> },
    /// Someone voted in a poll.
    PollVote { poll_id: u64, option_index: usize, voter: String },
    /// A poll was closed.
    PollClosed { poll_id: u64 },
    /// A poll was deleted.
    PollDeleted { poll_id: u64 },
    /// The room was locked or unlocked.
    Lock { locked: bool, until: Option<u64> },
}

pub enum EventView {
    Message { id: u64, role: Seq<char>, text: Seq<char>, ts: u64 },
    MessageDeleted { id: u64 },
    ReactionAdd { message_id: u64, emoji: Seq<char>, voter: Seq<char> },
    ReactionRemove { message_id: u64, emoji: Seq<char>, voter: Seq<char> },
    PendingMessage { id: u64, role: Seq<char>, text: Seq<char>, ts: u64 },
    PendingMessageRejected { id: u64 },
    Question { id: u64, text: Seq<char> },
    VoteAdd { question_id: u64, voter: Seq<char> },
    VoteRemove { question_id: u64, voter: Seq<char> },
    QuestionPinned { question_id: u64, pinned: bool },
    QuestionAnswered { question_id: u64 },
    QuestionDismissed { question_id: u64 },
    PendingQuestion { id: u64, text: Seq<char> },
    PendingQuestionRejected { id: u64 },
    PollCreated { id: u64, question: Seq<char>, options: Seq<Seq<char>> },
    PollVote { poll_id: u64, option_index: usize, voter: Seq<char> },
    PollClosed { poll_id: u64 },
    PollDeleted { poll_id: u64 },
    Lock { locked: bool, until: Option<u64> },
}

impl View for RoomEvent {
    type V = EventView;

    open spec fn view(&self) -> EventView {
        match *self {
            RoomEvent::Message { id, role, text, ts } => EventView::Message {
                id,
                role: role@,
                text: text@,
                ts,
            },
            RoomEvent::MessageDeleted { id } => EventView::MessageDeleted { id },
            RoomEvent::ReactionAdd { message_id, emoji, voter } => EventView::ReactionAdd {
                message_id,
                emoji: emoji@,
                voter: voter@,
            },
            RoomEvent::ReactionRemove { message_id, emoji, voter } => EventView::ReactionRemove {
                message_id,
                emoji: emoji@,
                voter: voter@,
            },
            RoomEvent::PendingMessage { id, role, text, ts } => EventView::PendingMessage {
                id,
                role: role@,
                text: text@,
                ts,
            },
            RoomEvent::PendingMessageRejected { id } => EventView::PendingMessageRejected { id },
            RoomEvent::Question { id, text } => EventView::Question { id, text: text@ },
            RoomEvent::VoteAdd { question_id, voter } => EventView::VoteAdd {
                question_id,
                voter: voter@,
            },
            RoomEvent::VoteRemove { question_id, voter } => EventView::VoteRemove {
                question_id,
                voter: voter@,
            },
            RoomEvent::QuestionPinned { question_id, pinned } => EventView::QuestionPinned {
                question_id,
                pinned,
            },
            RoomEvent::QuestionAnswered { question_id } => EventView::QuestionAnswered {
                question_id,
            },
            RoomEvent::QuestionDismissed { question_id } => EventView::QuestionDismissed {
                question_id,
            },
            RoomEvent::PendingQuestion { id, text } => EventView::PendingQuestion {
                id,
                text: text@,
            },
            RoomEvent::PendingQuestionRejected { id } => EventView::PendingQuestionRejected { id },
            RoomEvent::PollCreated { id, question, options } => EventView::PollCreated {
                id,
                question: question@,
                options: views(options@),
            },
            RoomEvent::PollVote { poll_id, option_index, voter } => EventView::PollVote {
                poll_id,
                option_index,
                voter: voter@,
            },
            RoomEvent::PollClosed { poll_id } => EventView::PollClosed { poll_id },
            RoomEvent::PollDeleted { poll_id } => EventView::PollDeleted { poll_id },
            RoomEvent::Lock { locked, until } => EventView::Lock { locked, until },
        }
    }
}

// ── As rows ─────────────────────────────────────────────────────────────────

/// The kind under which an event is stored.
pub open spec fn event_kind(e: EventView) -> Seq<char> {
    match e {
        EventView::Message { .. } => "message"@,
        EventView::MessageDeleted { .. } => "message_deleted"@,
        EventView::ReactionAdd { .. } => "reaction_add"@,
        EventView::ReactionRemove { .. } => "reaction_remove"@,
        EventView::PendingMessage { .. } => "pending_message"@,
        EventView::PendingMessageRejected { .. } => "pending_message_rejected"@,
        EventView::Question { .. } => "question"@,
        EventView::VoteAdd { .. } => "vote_add"@,
        EventView::VoteRemove { .. } => "vote_remove"@,
        EventView::QuestionPinned { .. } => "question_pinned"@,
        EventView::QuestionAnswered { .. } => "question_answered"@,
        EventView::QuestionDismissed { .. } => "question_dismissed"@,
        EventView::PendingQuestion { .. } => "pending_question"@,
        EventView::PendingQuestionRejected { .. } => "pending_question_rejected"@,
        EventView::PollCreated { .. } => "poll_created"@,
        EventView::PollVote { .. } => "poll_vote"@,
        EventView::PollClosed { .. } => "poll_closed"@,
        EventView::PollDeleted { .. } => "poll_deleted"@,
        EventView::Lock { .. } => "lock"@,
    }
}

/// The answers of a new poll, as they are stored.
pub open spec fn texts_json(s: Seq<Seq<char>>) -> Seq<JsonView> {
    Seq::new(s.len(), |i: int| empty_object().with("text"@, JsonView::Str(s[i])))
}

/// The payload with which an event is stored.
pub open spec fn event_payload(e: EventView) -> JsonView {
    match e {
        EventView::Message { id, role, text, ts } => empty_object()
            .with("id"@, number(id as int))
            .with("role"@, JsonView::Str(role))
            .with("text"@, JsonView::Str(text))
            .with("ts"@, number(ts as int)),
        EventView::MessageDeleted { id } => empty_object().with("id"@, number(id as int)),
        EventView::ReactionAdd { message_id, emoji, voter } => empty_object()
            .with("message_id"@, number(message_id as int))
            .with("emoji"@, JsonView::Str(emoji))
            .with("voter"@, JsonView::Str(voter)),
        EventView::ReactionRemove { message_id, emoji, voter } => empty_object()
            .with("message_id"@, number(message_id as int))
            .with("emoji"@, JsonView::Str(emoji))
            .with("voter"@, JsonView::Str(voter)),
        EventView::PendingMessage { id, role, text, ts } => empty_object()
            .with("id"@, number(id as int))
            .with("role"@, JsonView::Str(role))
            .with("text"@, JsonView::Str(text))
            .with("ts"@, number(ts as int)),
        EventView::PendingMessageRejected { id } => empty_object().with("id"@, number(id as int)),
        EventView::Question { id, text } => empty_object()
            .with("id"@, number(id as int))
            .with("text"@, JsonView::Str(text)),
        EventView::VoteAdd { question_id, voter } => empty_object()
            .with("question_id"@, number(question_id as int))
            .with("voter"@, JsonView::Str(voter)),
        EventView::VoteRemove { question_id, voter } => empty_object()
            .with("question_id"@, number(question_id as int))
            .with("voter"@, JsonView::Str(voter)),
        EventView::QuestionPinned { question_id, pinned } => empty_object()
            .with("question_id"@, number(question_id as int))
            .with("pinned"@, JsonView::Bool(pinned)),
        EventView::QuestionAnswered { question_id } => empty_object()
            .with("question_id"@, number(question_id as int)),
        EventView::QuestionDismissed { question_id } => empty_object()
            .with("question_id"@, number(question_id as int)),
        EventView::PendingQuestion { id, text } => empty_object()
            .with("id"@, number(id as int))
            .with("text"@, JsonView::Str(text)),
        EventView::PendingQuestionRejected { id } => empty_object().with("id"@, number(id as int)),
        EventView::PollCreated { id, question, options } => empty_object()
            .with("id"@, number(id as int))
            .with("question"@, JsonView::Str(question))
            .with("options"@, JsonView::Array(texts_json(options))),
        EventView::PollVote { poll_id, option_index, voter } => empty_object()
            .with("poll_id"@, number(poll_id as int))
            .with("option_index"@, number(option_index as int))
            .with("voter"@, JsonView::Str(voter)),
        EventView::PollClosed { poll_id } => empty_object()
            .with("poll_id"@, number(poll_id as int)),
        EventView::PollDeleted { poll_id } => empty_object()
            .with("poll_id"@, number(poll_id as int)),
        EventView::Lock { locked, until } => empty_object()
            .with("locked"@, JsonView::Bool(locked))
            .with("until"@, number_or_null(until)),
    }
}

/// The texts in the items of an array; items without one are skipped.
pub open spec fn item_texts(s: Seq<JsonView>) -> Seq<Seq<char>>
    decreases s.len(),
{
    if s.len() == 0 {
        Seq::empty()
    } else {
        match s.last().text_at("text"@) {
            Some(t) => item_texts(s.drop_last()).push(t),
            None => item_texts(s.drop_last()),
        }
    }
}

/// The answers of a new poll, as they are read back.
pub open spec fn stored_options(p: JsonView) -> Seq<Seq<char>> {
    match p.items_at("options"@) {
        Some(s) => item_texts(s),
        None => Seq::empty(),
    }
}

/// The event that a stored row stands for. Rows of an unknown kind, and rows
/// that lack something, stand for none.
pub open spec fn decode_event(kind: Seq<char>, p: JsonView) -> Option<EventView> {
    if kind == "message"@ {
        match (p.uint_at("id"@), p.text_at("role"@), p.text_at("text"@), p.uint_at("ts"@)) {
            (Some(id), Some(role), Some(text), Some(ts)) => Some(
                EventView::Message { id, role, text, ts },
            ),
            _ => None,
        }
    } else if kind == "message_deleted"@ {
        match p.uint_at("id"@) {
            Some(id) => Some(EventView::MessageDeleted { id }),
            _ => None,
        }
    } else if kind == "reaction_add"@ {
        match (p.uint_at("message_id"@), p.text_at("emoji"@), p.text_at("voter"@)) {
            (Some(message_id), Some(emoji), Some(voter)) => Some(
                EventView::ReactionAdd { message_id, emoji, voter },
            ),
            _ => None,
        }
    } else if kind == "reaction_remove"@ {
        match (p.uint_at("message_id"@), p.text_at("emoji"@), p.text_at("voter"@)) {
            (Some(message_id), Some(emoji), Some(voter)) => Some(
                EventView::ReactionRemove { message_id, emoji, voter },
            ),
            _ => None,
        }
    } else if kind == "pending_message"@ {
        match (p.uint_at("id"@), p.text_at("role"@), p.text_at("text"@), p.uint_at("ts"@)) {
            (Some(id), Some(role), Some(text), Some(ts)) => Some(
                EventView::PendingMessage { id, role, text, ts },
            ),
            _ => None,
        }
    } else if kind == "pending_message_rejected"@ {
        match p.uint_at("id"@) {
            Some(id) => Some(EventView::PendingMessageRejected { id }),
            _ => None,
        }
    } else if kind == "question"@ {
        match (p.uint_at("id"@), p.text_at("text"@)) {
            (Some(id), Some(text)) => Some(EventView::Question { id, text }),
            _ => None,
        }
    } else if kind == "vote_add"@ {
        match (p.uint_at("question_id"@), p.text_at("voter"@)) {
            (Some(question_id), Some(voter)) => Some(EventView::VoteAdd { question_id, voter }),
            _ => None,
        }
    } else if kind == "vote_remove"@ {
        match (p.uint_at("question_id"@), p.text_at("voter"@)) {
            (Some(question_id), Some(voter)) => Some(EventView::VoteRemove { question_id, voter }),
            _ => None,
        }
    } else if kind == "question_pinned"@ {
        match (p.uint_at("question_id"@), p.boolean_at("pinned"@)) {
            (Some(question_id), Some(pinned)) => Some(
                EventView::QuestionPinned { question_id, pinned },
            ),
            _ => None,
        }
    } else if kind == "question_answered"@ {
        match p.uint_at("question_id"@) {
            Some(question_id) => Some(EventView::QuestionAnswered { question_id }),
            _ => None,
        }
    } else if kind == "question_dismissed"@ {
        match p.uint_at("question_id"@) {
            Some(question_id) => Some(EventView::QuestionDismissed { question_id }),
            _ => None,
        }
    } else if kind == "pending_question"@ {
        match (p.uint_at("id"@), p.text_at("text"@)) {
            (Some(id), Some(text)) => Some(EventView::PendingQuestion { id, text }),
            _ => None,
        }
    } else if kind == "pending_question_rejected"@ {
        match p.uint_at("id"@) {
            Some(id) => Some(EventView::PendingQuestionRejected { id }),
            _ => None,
        }
    } else if kind == "poll_created"@ {
        match (p.uint_at("id"@), p.text_at("question"@)) {
            (Some(id), Some(question)) => if stored_options(p).len() > 0 {
                Some(EventView::PollCreated { id, question, options: stored_options(p) })
            } else {
                None
            },
            _ => None,
        }
    } else if kind == "poll_vote"@ {
        match (p.uint_at("poll_id"@), p.uint_at("option_index"@), p.text_at("voter"@)) {
            (Some(poll_id), Some(option_index), Some(voter)) => Some(
                EventView::PollVote { poll_id, option_index: option_index as usize, voter },
            ),
            _ => None,
        }
    } else if kind == "poll_closed"@ {
        match p.uint_at("poll_id"@) {
            Some(poll_id) => Some(EventView::PollClosed { poll_id }),
            _ => None,
        }
    } else if kind == "poll_deleted"@ {
        match p.uint_at("poll_id"@) {
            Some(poll_id) => Some(EventView::PollDeleted { poll_id }),
            _ => None,
        }
    } else if kind == "lock"@ {
        match p.boolean_at("locked"@) {
            Some(locked) => Some(EventView::Lock { locked, until: p.uint_at("until"@) }),
            _ => None,
        }
    } else {
        None
    }
}

impl RoomEvent {
    /// The kind under which the event is stored.
    pub fn kind(&self) -> (r: &'static str)
        ensures
            r@ == event_kind(self@),
    {
        match self {
            RoomEvent::Message { .. } => "message",
            RoomEvent::MessageDeleted { .. } => "message_deleted",
            RoomEvent::ReactionAdd { .. } => "reaction_add",
            RoomEvent::ReactionRemove { .. } => "reaction_remove",
            RoomEvent::PendingMessage { .. } => "pending_message",
            RoomEvent::PendingMessageRejected { .. } => "pending_message_rejected",
            RoomEvent::Question { .. } => "question",
            RoomEvent::VoteAdd { .. } => "vote_add",
            RoomEvent::VoteRemove { .. } => "vote_remove",
            RoomEvent::QuestionPinned { .. } => "question_pinned",
            RoomEvent::QuestionAnswered { .. } => "question_answered",
            RoomEvent::QuestionDismissed { .. } => "question_dismissed",
            RoomEvent::PendingQuestion { .. } => "pending_question",
            RoomEvent::PendingQuestionRejected { .. } => "pending_question_rejected",
            RoomEvent::PollCreated { .. } => "poll_created",
            RoomEvent::PollVote { .. } => "poll_vote",
            RoomEvent::PollClosed { .. } => "poll_closed",
            RoomEvent::PollDeleted { .. } => "poll_deleted",
            RoomEvent::Lock { .. } => "lock",
        }
    }

    /// The payload with which the event is stored.
    pub fn payload(&self) -> (r: Json)
        ensures
            r@ == event_payload(self@),
    {
        match self {
            RoomEvent::Message { id, role, text, ts } => Json::object()
                .with("id", Json::number(*id))
                .with("role", Json::text(role.as_str()))
                .with("text", Json::text(text.as_str()))
                .with("ts", Json::number(*ts)),
            RoomEvent::MessageDeleted { id } => Json::object().with("id", Json::number(*id)),
            RoomEvent::ReactionAdd { message_id, emoji, voter } => Json::object()
                .with("message_id", Json::number(*message_id))
                .with("emoji", Json::text(emoji.as_str()))
                .with("voter", Json::text(voter.as_str())),
            RoomEvent::ReactionRemove { message_id, emoji, voter } => Json::object()
                .with("message_id", Json::number(*message_id))
                .with("emoji", Json::text(emoji.as_str()))
                .with("voter", Json::text(voter.as_str())),
            RoomEvent::PendingMessage { id, role, text, ts } => Json::object()
                .with("id", Json::number(*id))
                .with("role", Json::text(role.as_str()))
                .with("text", Json::text(text.as_str()))
                .with("ts", Json::number(*ts)),
            RoomEvent::PendingMessageRejected { id } => Json::object()
                .with("id", Json::number(*id)),
            RoomEvent::Question { id, text } => Json::object()
                .with("id", Json::number(*id))
                .with("text", Json::text(text.as_str())),
            RoomEvent::VoteAdd { question_id, voter } => Json::object()
                .with("question_id", Json::number(*question_id))
                .with("voter", Json::text(voter.as_str())),
            RoomEvent::VoteRemove { question_id, voter } => Json::object()
                .with("question_id", Json::number(*question_id))
                .with("voter", Json::text(voter.as_str())),
            RoomEvent::QuestionPinned { question_id, pinned } => Json::object()
                .with("question_id", Json::number(*question_id))
                .with("pinned", Json::Bool(*pinned)),
            RoomEvent::QuestionAnswered { question_id } => Json::object()
                .with("question_id", Json::number(*question_id)),
            RoomEvent::QuestionDismissed { question_id } => Json::object()
                .with("question_id", Json::number(*question_id)),
            RoomEvent::PendingQuestion { id, text } => Json::object()
                .with("id", Json::number(*id))
                .with("text", Json::text(text.as_str())),
            RoomEvent::PendingQuestionRejected { id } => Json::object()
                .with("id", Json::number(*id)),
            RoomEvent::PollCreated { id, question, options } => Json::object()
                .with("id", Json::number(*id))
                .with("question", Json::text(question.as_str()))
                .with("options", texts_to_json(options)),
            RoomEvent::PollVote { poll_id, option_index, voter } => Json::object()
                .with("poll_id", Json::number(*poll_id))
                .with("option_index", Json::number(*option_index as u64))
                .with("voter", Json::text(voter.as_str())),
            RoomEvent::PollClosed { poll_id } => Json::object()
                .with("poll_id", Json::number(*poll_id)),
            RoomEvent::PollDeleted { poll_id } => Json::object()
                .with("poll_id", Json::number(*poll_id)),
            RoomEvent::Lock { locked, until } => Json::object()
                .with("locked", Json::Bool(*locked))
                .with("until", Json::number_or_null(*until)),
        }
    }

    /// The event that a stored row stands for.
    pub fn decode(kind: &str, p: &Json) -> (r: Option<RoomEvent>)
        ensures
            match r {
                Some(e) => decode_event(kind@, p@) == Some(e@),
                None => decode_event(kind@, p@) is None,
            },
    {
        if str_eq(kind, "message") {
            match (p.u64_at("id"), p.str_at("role"), p.str_at("text"), p.u64_at("ts")) {
                (Some(id), Some(role), Some(text), Some(ts)) => Some(
                    RoomEvent::Message { id, role: role.to_owned(), text: text.to_owned(), ts },
                ),
                _ => None,
            }
        } else if str_eq(kind, "message_deleted") {
            match p.u64_at("id") {
                Some(id) => Some(RoomEvent::MessageDeleted { id }),
                _ => None,
            }
        } else if str_eq(kind, "reaction_add") {
            match (p.u64_at("message_id"), p.str_at("emoji"), p.str_at("voter")) {
                (Some(message_id), Some(emoji), Some(voter)) => Some(
                    RoomEvent::ReactionAdd {
                        message_id,
                        emoji: emoji.to_owned(),
                        voter: voter.to_owned(),
                    },
                ),
                _ => None,
            }
        } else if str_eq(kind, "reaction_remove") {
            match (p.u64_at("message_id"), p.str_at("emoji"), p.str_at("voter")) {
                (Some(message_id), Some(emoji), Some(voter)) => Some(
                    RoomEvent::ReactionRemove {
                        message_id,
                        emoji: emoji.to_owned(),
                        voter: voter.to_owned(),
                    },
                ),
                _ => None,
            }
        } else if str_eq(kind, "pending_message") {
            match (p.u64_at("id"), p.str_at("role"), p.str_at("text"), p.u64_at("ts")) {
                (Some(id), Some(role), Some(text), Some(ts)) => Some(
                    RoomEvent::PendingMessage {
                        id,
                        role: role.to_owned(),
                        text: text.to_owned(),
                        ts,
                    },
                ),
                _ => None,
            }
        } else if str_eq(kind, "pending_message_rejected") {
            match p.u64_at("id") {
                Some(id) => Some(RoomEvent::PendingMessageRejected { id }),
                _ => None,
            }
        } else if str_eq(kind, "question") {
            match (p.u64_at("id"), p.str_at("text")) {
                (Some(id), Some(text)) => Some(RoomEvent::Question { id, text: text.to_owned() }),
                _ => None,
            }
        } else if str_eq(kind, "vote_add") {
            match (p.u64_at("question_id"), p.str_at("voter")) {
                (Some(question_id), Some(voter)) => Some(
                    RoomEvent::VoteAdd { question_id, voter: voter.to_owned() },
                ),
                _ => None,
            }
        } else if str_eq(kind, "vote_remove") {
            match (p.u64_at("question_id"), p.str_at("voter")) {
                (Some(question_id), Some(voter)) => Some(
                    RoomEvent::VoteRemove { question_id, voter: voter.to_owned() },
                ),
                _ => None,
            }
        } else if str_eq(kind, "question_pinned") {
            match (p.u64_at("question_id"), p.bool_at("pinned")) {
                (Some(question_id), Some(pinned)) => Some(
                    RoomEvent::QuestionPinned { question_id, pinned },
                ),
                _ => None,
            }
        } else if str_eq(kind, "question_answered") {
            match p.u64_at("question_id") {
                Some(question_id) => Some(RoomEvent::QuestionAnswered { question_id }),
                _ => None,
            }
        } else if str_eq(kind, "question_dismissed") {
            match p.u64_at("question_id") {
                Some(question_id) => Some(RoomEvent::QuestionDismissed { question_id }),
                _ => None,
            }
        } else if str_eq(kind, "pending_question") {
            match (p.u64_at("id"), p.str_at("text")) {
                (Some(id), Some(text)) => Some(
                    RoomEvent::PendingQuestion { id, text: text.to_owned() },
                ),
                _ => None,
            }
        } else if str_eq(kind, "pending_question_rejected") {
            match p.u64_at("id") {
                Some(id) => Some(RoomEvent::PendingQuestionRejected { id }),
                _ => None,
            }
        } else if str_eq(kind, "poll_created") {
            match (p.u64_at("id"), p.str_at("question")) {
                (Some(id), Some(question)) => {
                    let options: Vec<String> = read_options(p);
                    if options.len() > 0 {
                        Some(RoomEvent::PollCreated { id, question: question.to_owned(), options })
                    } else {
                        None
                    }
                },
                _ => None,
            }
        } else if str_eq(kind, "poll_vote") {
            match (p.u64_at("poll_id"), p.u64_at("option_index"), p.str_at("voter")) {
                (Some(poll_id), Some(option_index), Some(voter)) => Some(
                    RoomEvent::PollVote {
                        poll_id,
                        option_index: #[verifier::truncate] (option_index as usize),
                        voter: voter.to_owned(),
                    },
                ),
                _ => None,
            }
        } else if str_eq(kind, "poll_closed") {
            match p.u64_at("poll_id") {
                Some(poll_id) => Some(RoomEvent::PollClosed { poll_id }),
                _ => None,
            }
        } else if str_eq(kind, "poll_deleted") {
            match p.u64_at("poll_id") {
                Some(poll_id) => Some(RoomEvent::PollDeleted { poll_id }),
                _ => None,
            }
        } else if str_eq(kind, "lock") {
            match p.bool_at("locked") {
                Some(locked) => Some(RoomEvent::Lock { locked, until: p.u64_at("until") }),
                _ => None,
            }
        } else {
            None
        }
    }
}

/// The answers of a new poll, as they are stored.
fn texts_to_json(v: &Vec<String>) -> (r: Json)
    ensures
        r@ == JsonView::Array(texts_json(views(v@))),
{
    let mut items: Vec<Json> = Vec::new();
    let mut i: usize = 0;
    while i < v.len()
        invariant
            i <= v@.len(),
            items_view(items@) == texts_json(views(v@)).take(i as int),
        decreases v@.len() - i,
    {
        let item: Json = Json::object().with("text", Json::text(v[i].as_str()));
        proof {
            lemma_items_push(items@, item);
            assert(texts_json(views(v@)).take(i + 1) == texts_json(views(v@)).take(i as int).push(
                item@,
            ));
        }
        items.push(item);
        i += 1;
    }
    assert(texts_json(views(v@)).take(i as int) == texts_json(views(v@)));
    Json::Array(items)
}

/// The answers of a new poll, as they are read back.
fn read_options(p: &Json) -> (r: Vec<String>)
    ensures
        views(r@) == stored_options(p@),
{
    let mut r: Vec<String> = Vec::new();
    match p.get("options") {
        Some(a) => match a.as_array() {
            Some(items) => {
                let ghost all = items_view(items@);
                let mut i: usize = 0;
                proof {
                    lemma_items_view(items@);
                }
                assert(views(r@) == item_texts(all.take(0)));
                while i < items.len()
                    invariant
                        i <= items@.len(),
                        all == items_view(items@),
                        all.len() == items@.len(),
                        forall|k: int| 0 <= k < items@.len() ==> #[trigger] all[k] == items@[k]@,
                        views(r@) == item_texts(all.take(i as int)),
                    decreases items@.len() - i,
                {
                    assert(all.take(i + 1).drop_last() == all.take(i as int));
                    assert(all.take(i + 1).last() == all[i as int]);
                    match items[i].str_at("text") {
                        Some(t) => {
                            let ghost before = r@;
                            r.push(t.to_owned());
                            assert(views(r@) == views(before).push(t@));
                        },
                        None => {},
                    }
                    i += 1;
                }
                assert(all.take(i as int) == all);
            },
            None => {
                assert(views(r@) == Seq::<Seq<char>>::empty());
            },
        },
        None => {
            assert(views(r@) == Seq::<Seq<char>>::empty());
        },
    }
    r
}

/// The payload of an event can be written out.
pub proof fn lemma_payload_writable(e: EventView)
    ensures
        writable(event_payload(e), 3),
{
    reveal_with_fuel(writable, 4);
}

/// No member of a payload has a name that begins with a dollar sign.
pub proof fn lemma_payload_plain(e: EventView)
    ensures
        plain(event_payload(e), 64),
{
    reveal_strlit("id");
    reveal_strlit("role");
    reveal_strlit("text");
    reveal_strlit("ts");
    reveal_strlit("message_id");
    reveal_strlit("emoji");
    reveal_strlit("voter");
    reveal_strlit("question_id");
    reveal_strlit("pinned");
    reveal_strlit("question");
    reveal_strlit("options");
    reveal_strlit("poll_id");
    reveal_strlit("option_index");
    reveal_strlit("locked");
    reveal_strlit("until");
    reveal_with_fuel(plain, 4);
}

// ── Replay ──────────────────────────────────────────────────────────────────

/// The larger of two ids.
pub open spec fn max_id(a: u64, b: u64) -> u64 {
    if a < b {
        b
    } else {
        a
    }
}

/// The messages after the count of an emoji on one of them was set, or dropped.
pub open spec fn with_count(
    s: Seq<MessageView>,
    id: u64,
    emoji: Seq<char>,
    count: u32,
    dropped: bool,
) -> Seq<MessageView> {
    match find_id(s, id) {
        Some(i) => s.update(
            i,
            MessageView {
                reactions: if dropped {
                    s[i].reactions.remove(emoji)
                } else {
                    s[i].reactions.insert(emoji, count)
                },
                ..s[i]
            },
        ),
        None => s,
    }
}

/// The questions after one of them got one vote more.
pub open spec fn vote_added(s: Seq<QuestionView>, id: u64) -> Seq<QuestionView> {
    match find_id(s, id) {
        Some(i) => s.update(i, QuestionView { votes: (s[i].votes + 1) as u32, ..s[i] }),
        None => s,
    }
}

/// The questions after one of them got one vote less; none goes below 0.
pub open spec fn vote_removed(s: Seq<QuestionView>, id: u64) -> Seq<QuestionView> {
    match find_id(s, id) {
        Some(i) => s.update(
            i,
            QuestionView {
                votes: if s[i].votes > 0 {
                    (s[i].votes - 1) as u32
                } else {
                    0
                },
                ..s[i]
            },
        ),
        None => s,
    }
}

/// The questions after the one with the given id, and no other, was pinned; or
/// after all were unpinned.
pub open spec fn pinned_only(s: Seq<QuestionView>, id: u64, pinned: bool) -> Seq<QuestionView> {
    Seq::new(s.len(), |i: int| QuestionView { pinned: pinned && s[i].id == id, ..s[i] })
}

/// The questions after one of them was answered, which also unpins it.
pub open spec fn answered_one(s: Seq<QuestionView>, id: u64) -> Seq<QuestionView> {
    match find_id(s, id) {
        Some(i) => s.update(i, QuestionView { answered: true, pinned: false, ..s[i] }),
        None => s,
    }
}

/// Whether there is a poll with the given id, and it has the given answer.
pub open spec fn has_option(s: Seq<PollView>, id: u64, option: usize) -> bool {
    find_id(s, id) matches Some(i) && option < s[i].options.len()
}

/// The polls after an answer of one of them got one vote more. An answer that
/// does not exist gets none.
pub open spec fn poll_voted(s: Seq<PollView>, id: u64, option: usize) -> Seq<PollView> {
    match find_id(s, id) {
        Some(i) => if option < s[i].options.len() {
            let o = s[i].options[option as int];
            s.update(
                i,
                PollView {
                    options: s[i].options.update(
                        option as int,
                        PollOptionView { votes: (o.votes + 1) as u32, ..o },
                    ),
                    ..s[i]
                },
            )
        } else {
            s
        },
        None => s,
    }
}

/// The polls after one of them was closed.
pub open spec fn poll_closed(s: Seq<PollView>, id: u64) -> Seq<PollView> {
    match find_id(s, id) {
        Some(i) => s.update(i, PollView { closed: true, ..s[i] }),
        None => s,
    }
}

/// A message as it enters a room.
pub open spec fn new_message(id: u64, role: Seq<char>, text: Seq<char>, ts: u64) -> MessageView {
    MessageView { id, role, text, ts, reactions: Map::empty() }
}

/// A question as it enters a room.
pub open spec fn new_question(id: u64, text: Seq<char>) -> QuestionView {
    QuestionView { id, text, votes: 0, pinned: false, answered: false }
}

/// A poll as it enters a room.
pub open spec fn new_poll(id: u64, question: Seq<char>, options: Seq<Seq<char>>) -> PollView {
    PollView {
        id,
        question,
        options: Seq::new(options.len(), |i: int| PollOptionView { text: options[i], votes: 0 }),
        closed: false,
    }
}

/// Whether the question with the given id can get one vote more.
pub open spec fn votable(s: Seq<QuestionView>, id: u64) -> bool {
    forall|i: int| 0 <= i < s.len() && (#[trigger] s[i]).id == id ==> s[i].votes < u32::MAX
}

/// Whether an answer of the poll with the given id can get one vote more.
pub open spec fn poll_votable(s: Seq<PollView>, id: u64, option: usize) -> bool {
    forall|i: int|
        0 <= i < s.len() && (#[trigger] s[i]).id == id && option < s[i].options.len()
            ==> s[i].options[option as int].votes < u32::MAX
}

/// Whether what an event counts up has not reached the end of its range.
pub open spec fn can_apply(s: RoomView, e: EventView) -> bool {
    match e {
        EventView::VoteAdd { question_id, .. } => votable(s.questions, question_id),
        EventView::PollVote { poll_id, option_index, .. } => poll_votable(
            s.polls,
            poll_id,
            option_index,
        ),
        EventView::Lock { .. } => s.lock_epoch < u64::MAX,
        _ => true,
    }
}

/// The room after an event of its log. A vote, or a reaction, on something that
/// is not there changes nothing.
pub open spec fn apply(s: RoomView, e: EventView) -> RoomView {
    match e {
        EventView::PendingMessage { id, role, text, ts } => RoomView {
            next_msg_id: max_id(s.next_msg_id, id),
            pending_messages: s.pending_messages.push(new_message(id, role, text, ts)),
            ..s
        },
        EventView::PendingMessageRejected { id } => RoomView {
            pending_messages: without(s.pending_messages, id),
            ..s
        },
        EventView::Message { id, role, text, ts } => RoomView {
            next_msg_id: max_id(s.next_msg_id, id),
            pending_messages: without(s.pending_messages, id),
            messages: s.messages.push(new_message(id, role, text, ts)),
            ..s
        },
        EventView::MessageDeleted { id } => RoomView {
            messages: without(s.messages, id),
            reaction_users: without_message(s.reaction_users, id),
            ..s
        },
        EventView::PendingQuestion { id, text } => RoomView {
            next_question_id: max_id(s.next_question_id, id),
            pending_questions: s.pending_questions.push(new_question(id, text)),
            ..s
        },
        EventView::PendingQuestionRejected { id } => RoomView {
            pending_questions: without(s.pending_questions, id),
            ..s
        },
        EventView::Question { id, text } => RoomView {
            next_question_id: max_id(s.next_question_id, id),
            pending_questions: without(s.pending_questions, id),
            questions: s.questions.push(new_question(id, text)),
            ..s
        },
        EventView::VoteAdd { question_id, voter } => {
            let voters = voters_of(s.question_voters, question_id);
            if find_id(s.questions, question_id) is None || voters.contains(voter) {
                s
            } else {
                RoomView {
                    question_voters: s.question_voters.insert(question_id, voters.insert(voter)),
                    questions: vote_added(s.questions, question_id),
                    ..s
                }
            }
        },
        EventView::VoteRemove { question_id, voter } => {
            let voters = voters_of(s.question_voters, question_id);
            if find_id(s.questions, question_id) is None {
                s
            } else {
                RoomView {
                    question_voters: s.question_voters.insert(question_id, voters.remove(voter)),
                    questions: if voters.contains(voter) {
                        vote_removed(s.questions, question_id)
                    } else {
                        s.questions
                    },
                    ..s
                }
            }
        },
        EventView::QuestionPinned { question_id, pinned } => RoomView {
            questions: pinned_only(s.questions, question_id, pinned),
            ..s
        },
        EventView::QuestionAnswered { question_id } => RoomView {
            questions: answered_one(s.questions, question_id),
            ..s
        },
        EventView::QuestionDismissed { question_id } => RoomView {
            questions: without(s.questions, question_id),
            question_voters: s.question_voters.remove(question_id),
            ..s
        },
        EventView::ReactionAdd { message_id, emoji, voter } => {
            let key = (message_id, emoji);
            let users = if s.reaction_users.contains_key(key) {
                s.reaction_users[key].insert(voter)
            } else {
                Set::empty().insert(voter)
            };
            if find_id(s.messages, message_id) is None {
                s
            } else {
                RoomView {
                    reaction_users: s.reaction_users.insert(key, users),
                    messages: with_count(s.messages, message_id, emoji, users.len() as u32, false),
                    ..s
                }
            }
        },
        EventView::ReactionRemove { message_id, emoji, voter } => {
            let key = (message_id, emoji);
            if find_id(s.messages, message_id) is Some && s.reaction_users.contains_key(key) {
                let users = s.reaction_users[key].remove(voter);
                let count = users.len() as u32;
                RoomView {
                    reaction_users: if count == 0 {
                        s.reaction_users.remove(key)
                    } else {
                        s.reaction_users.insert(key, users)
                    },
                    messages: with_count(s.messages, message_id, emoji, count, count == 0),
                    ..s
                }
            } else {
                s
            }
        },
        EventView::PollCreated { id, question, options } => RoomView {
            next_poll_id: max_id(s.next_poll_id, id),
            polls: s.polls.push(new_poll(id, question, options)),
            ..s
        },
        EventView::PollVote { poll_id, option_index, voter } => {
            let voters = voters_of(s.poll_voters, poll_id);
            if !has_option(s.polls, poll_id, option_index) || voters.contains(voter) {
                s
            } else {
                RoomView {
                    poll_voters: s.poll_voters.insert(poll_id, voters.insert(voter)),
                    polls: poll_voted(s.polls, poll_id, option_index),
                    ..s
                }
            }
        },
        EventView::PollClosed { poll_id } => RoomView { polls: poll_closed(s.polls, poll_id), ..s },
        EventView::PollDeleted { poll_id } => RoomView {
            polls: without(s.polls, poll_id),
            poll_voters: s.poll_voters.remove(poll_id),
            ..s
        },
        EventView::Lock { locked, until } => RoomView {
            locked,
            locked_until: until,
            lock_epoch: (s.lock_epoch + 1) as u64,
            ..s
        },
    }
}

/// A room that keeps its last `max` messages.
pub open spec fn capped(s: RoomView, max: nat) -> RoomView {
    RoomView { messages: keep_last(s.messages, max), ..s }
}

/// Sets the count of an emoji on a message, or drops it.
pub fn set_count(
    messages: &mut std::collections::VecDeque<Message>,
    id: u64,
    emoji: &str,
    count: u32,
    dropped: bool,
)
    ensures
        views(final(messages)@) == with_count(views(old(messages)@), id, emoji@, count, dropped),
{
    match find_queued(messages, id) {
        Some(i) => {
            match messages.remove(i) {
                Some(m) => {
                    let mut m = m;
                    if dropped {
                        m.reactions.take(emoji);
                    } else {
                        m.reactions.insert(emoji.to_owned(), count);
                    }
                    messages.insert(i, m);
                },
                None => {},
            }
            assert(views(messages@) =~= with_count(
                views(old(messages)@),
                id,
                emoji@,
                count,
                dropped,
            ));
        },
        None => {},
    }
}

/// Gives a question one vote more.
pub fn add_vote(questions: &mut Vec<Question>, id: u64)
    requires
        votable(views(old(questions)@), id),
    ensures
        views(final(questions)@) == vote_added(views(old(questions)@), id),
{
    match find(questions, id) {
        Some(i) => {
            proof {
                lemma_find(views(questions@), id);
            }
            assert(views(questions@)[i as int].votes < u32::MAX);
            questions[i].votes = questions[i].votes + 1;
            assert(views(questions@) =~= vote_added(views(old(questions)@), id));
        },
        None => {},
    }
}

/// Gives a question one vote less; it never goes below 0.
pub fn remove_vote(questions: &mut Vec<Question>, id: u64)
    ensures
        views(final(questions)@) == vote_removed(views(old(questions)@), id),
{
    match find(questions, id) {
        Some(i) => {
            questions[i].votes = questions[i].votes.saturating_sub(1);
            assert(views(questions@) =~= vote_removed(views(old(questions)@), id));
        },
        None => {},
    }
}

/// Pins the question with the given id and no other, or unpins all.
pub fn pin_only(questions: &mut Vec<Question>, id: u64, pinned: bool)
    ensures
        views(final(questions)@) == pinned_only(views(old(questions)@), id, pinned),
{
    let mut i: usize = 0;
    while i < questions.len()
        invariant
            i <= questions@.len() == old(questions)@.len(),
            forall|k: int|
                0 <= k < i ==> #[trigger] views(questions@)[k] == pinned_only(
                    views(old(questions)@),
                    id,
                    pinned,
                )[k],
            forall|k: int| i <= k < questions@.len() ==> questions@[k] == old(questions)@[k],
        decreases questions@.len() - i,
    {
        let ghost before = questions@;
        questions[i].pinned = pinned && questions[i].id == id;
        assert(questions@ == before.update(i as int, questions@[i as int]));
        assert forall|k: int| 0 <= k < i + 1 implies #[trigger] views(questions@)[k]
            == pinned_only(views(old(questions)@), id, pinned)[k] by {
            if k < i {
                assert(views(before)[k] == pinned_only(views(old(questions)@), id, pinned)[k]);
            }
        }
        i += 1;
    }
    assert(views(questions@) =~= pinned_only(views(old(questions)@), id, pinned));
}

/// Marks a question as answered, and unpins it.
pub fn answer_one(questions: &mut Vec<Question>, id: u64)
    ensures
        views(final(questions)@) == answered_one(views(old(questions)@), id),
{
    match find(questions, id) {
        Some(i) => {
            questions[i].answered = true;
            questions[i].pinned = false;
            assert(views(questions@) =~= answered_one(views(old(questions)@), id));
        },
        None => {},
    }
}

/// Gives an answer of a poll one vote more.
pub fn vote_poll(polls: &mut Vec<Poll>, id: u64, option: usize)
    requires
        poll_votable(views(old(polls)@), id, option),
    ensures
        views(final(polls)@) == poll_voted(views(old(polls)@), id, option),
{
    match find(polls, id) {
        Some(i) => {
            if option < polls[i].options.len() {
                proof {
                    lemma_find(views(polls@), id);
                }
                assert(views(polls@)[i as int].options[option as int].votes < u32::MAX);
                polls[i].options[option].votes = polls[i].options[option].votes + 1;
                assert(views(polls@[i as int].options@) =~= poll_voted(
                    views(old(polls)@),
                    id,
                    option,
                )[i as int].options);
                assert(views(polls@) =~= poll_voted(views(old(polls)@), id, option));
            }
        },
        None => {},
    }
}

/// Closes a poll.
pub fn close_poll(polls: &mut Vec<Poll>, id: u64)
    ensures
        views(final(polls)@) == poll_closed(views(old(polls)@), id),
{
    match find(polls, id) {
        Some(i) => {
            polls[i].closed = true;
            assert(views(polls@) =~= poll_closed(views(old(polls)@), id));
        },
        None => {},
    }
}

/// A poll as it enters a room.
pub fn make_poll(id: u64, question: String, texts: Vec<String>) -> (r: Poll)
    ensures
        r@ == new_poll(id, question@, views(texts@)),
{
    let mut options: Vec<PollOption> = Vec::new();
    let mut i: usize = 0;
    while i < texts.len()
        invariant
            i <= texts@.len(),
            options@.len() == i,
            forall|k: int|
                0 <= k < i ==> (#[trigger] options@[k])@ == (PollOptionView {
                    text: texts@[k]@,
                    votes: 0,
                }),
        decreases texts@.len() - i,
    {
        options.push(PollOption { text: texts[i].clone(), votes: 0 });
        i += 1;
    }
    let r = Poll { id, question, options, closed: false };
    assert(r@.options =~= new_poll(id, question@, views(texts@)).options);
    r
}

/// A message as it enters a room.
pub fn make_message(id: u64, role: String, text: String, ts: u64) -> (r: Message)
    ensures
        r@ == new_message(id, role@, text@, ts),
{
    Message { id, role, text, ts, reactions: StrMap::new() }
}

/// A question as it enters a room.
pub fn make_question(id: u64, text: String) -> (r: Question)
    ensures
        r@ == new_question(id, text@),
{
    Question { id, text, votes: 0, pinned: false, answered: false }
}

impl RoomInner {
    /// Makes `id` the last message id issued, unless a later one was.
    fn raise_msg_id(&mut self, id: u64)
        ensures
            final(self)@ == (RoomView {
                next_msg_id: max_id(old(self)@.next_msg_id, id),
                ..old(self)@
            }),
    {
        if self.next_msg_id < id {
            self.next_msg_id = id;
        }
    }

    /// Makes `id` the last question id issued, unless a later one was.
    fn raise_question_id(&mut self, id: u64)
        ensures
            final(self)@ == (RoomView {
                next_question_id: max_id(old(self)@.next_question_id, id),
                ..old(self)@
            }),
    {
        if self.next_question_id < id {
            self.next_question_id = id;
        }
    }

    /// Brings the room to where it was after an event of its log.
    pub fn apply(&mut self, e: RoomEvent)
        requires
            can_apply(old(self)@, e@),
        ensures
            final(self)@ == apply(old(self)@, e@),
    {
        let ghost s = self@;
        match e {
            RoomEvent::PendingMessage { id, role, text, ts } => {
                self.raise_msg_id(id);
                self.pending_messages.push(make_message(id, role, text, ts));
                assert(self@ =~= apply(s, e@));
            },
            RoomEvent::PendingMessageRejected { id } => {
                drop_id(&mut self.pending_messages, id);
            },
            RoomEvent::Message { id, role, text, ts } => {
                self.raise_msg_id(id);
                drop_id(&mut self.pending_messages, id);
                self.messages.push_back(make_message(id, role, text, ts));
                assert(self@ =~= apply(s, e@));
            },
            RoomEvent::MessageDeleted { id } => {
                drop_queued(&mut self.messages, id);
                self.reaction_users.drop_message(id);
            },
            RoomEvent::PendingQuestion { id, text } => {
                self.raise_question_id(id);
                self.pending_questions.push(make_question(id, text));
                assert(self@ =~= apply(s, e@));
            },
            RoomEvent::PendingQuestionRejected { id } => {
                drop_id(&mut self.pending_questions, id);
            },
            RoomEvent::Question { id, text } => {
                self.raise_question_id(id);
                drop_id(&mut self.pending_questions, id);
                self.questions.push(make_question(id, text));
                assert(self@ =~= apply(s, e@));
            },
            RoomEvent::VoteAdd { question_id, voter } => {
                if find(&self.questions, question_id).is_some() {
                    let mut voters: StringHashSet = take_voters(
                        &mut self.question_voters,
                        question_id,
                    );
                    if voters.insert(voter) {
                        add_vote(&mut self.questions, question_id);
                    }
                    put_voters(&mut self.question_voters, question_id, voters);
                    proof {
                        let before = voters_of(s.question_voters, question_id);
                        if before.contains(e@->VoteAdd_voter) {
                            assert(voters@ =~= before);
                            assert(self@.question_voters =~= s.question_voters);
                        }
                    }
                    assert(self@ =~= apply(s, e@));
                }
            },
            RoomEvent::VoteRemove { question_id, voter } => {
                if find(&self.questions, question_id).is_some() {
                    let mut voters: StringHashSet = take_voters(
                        &mut self.question_voters,
                        question_id,
                    );
                    if voters.remove(voter.as_str()) {
                        remove_vote(&mut self.questions, question_id);
                    }
                    put_voters(&mut self.question_voters, question_id, voters);
                    assert(self@ =~= apply(s, e@));
                }
            },
            RoomEvent::QuestionPinned { question_id, pinned } => {
                pin_only(&mut self.questions, question_id, pinned);
            },
            RoomEvent::QuestionAnswered { question_id } => {
                answer_one(&mut self.questions, question_id);
            },
            RoomEvent::QuestionDismissed { question_id } => {
                drop_id(&mut self.questions, question_id);
                drop_voters(&mut self.question_voters, question_id);
            },
            RoomEvent::ReactionAdd { message_id, emoji, voter } => {
                if find_queued(&self.messages, message_id).is_some() {
                    let mut users: StringHashSet = match self.reaction_users.take(
                        message_id,
                        emoji.as_str(),
                    ) {
                        Some(users) => users,
                        None => StringHashSet::new(),
                    };
                    users.insert(voter);
                    let count: u32 = #[verifier::truncate] (users.len() as u32);
                    self.reaction_users.insert(message_id, emoji.as_str(), users);
                    set_count(&mut self.messages, message_id, emoji.as_str(), count, false);
                    assert(self@ =~= apply(s, e@));
                }
            },
            RoomEvent::ReactionRemove { message_id, emoji, voter } => {
                if find_queued(&self.messages, message_id).is_some() {
                    match self.reaction_users.take(message_id, emoji.as_str()) {
                        Some(users) => {
                            let mut users = users;
                            users.remove(voter.as_str());
                            let count: u32 = #[verifier::truncate] (users.len() as u32);
                            set_count(
                                &mut self.messages,
                                message_id,
                                emoji.as_str(),
                                count,
                                count == 0,
                            );
                            if count != 0 {
                                self.reaction_users.insert(message_id, emoji.as_str(), users);
                            }
                        },
                        None => {},
                    }
                    assert(self@ =~= apply(s, e@));
                }
            },
            RoomEvent::PollCreated { id, question, options } => {
                if self.next_poll_id < id {
                    self.next_poll_id = id;
                }
                self.polls.push(make_poll(id, question, options));
                assert(self@ =~= apply(s, e@));
            },
            RoomEvent::PollVote { poll_id, option_index, voter } => {
                let offered: bool = match find(&self.polls, poll_id) {
                    Some(i) => option_index < self.polls[i].options.len(),
                    None => false,
                };
                assert(offered == has_option(s.polls, poll_id, option_index));
                if offered {
                    let mut voters: StringHashSet = take_voters(&mut self.poll_voters, poll_id);
                    if voters.insert(voter) {
                        vote_poll(&mut self.polls, poll_id, option_index);
                    }
                    put_voters(&mut self.poll_voters, poll_id, voters);
                    proof {
                        let before = voters_of(s.poll_voters, poll_id);
                        if before.contains(e@->PollVote_voter) {
                            assert(voters@ =~= before);
                            assert(self@.poll_voters =~= s.poll_voters);
                        }
                    }
                    assert(self@ =~= apply(s, e@));
                }
            },
            RoomEvent::PollClosed { poll_id } => {
                close_poll(&mut self.polls, poll_id);
            },
            RoomEvent::PollDeleted { poll_id } => {
                drop_id(&mut self.polls, poll_id);
                drop_voters(&mut self.poll_voters, poll_id);
            },
            RoomEvent::Lock { locked, until } => {
                self.locked = locked;
                self.locked_until = until;
                self.lock_epoch += 1;
            },
        }
    }

    /// Applies one stored row of the event log. A row of an unknown kind, or
    /// one that lacks something, changes nothing.
    pub fn apply_event(&mut self, kind: &str, p: &Json)
        requires
            decode_event(kind@, p@) matches Some(e) ==> can_apply(old(self)@, e),
        ensures
            final(self)@ == match decode_event(kind@, p@) {
                Some(e) => apply(old(self)@, e),
                None => old(self)@,
            },
    {
        match RoomEvent::decode(kind, p) {
            Some(e) => self.apply(e),
            None => {},
        }
    }
}

} // verus!
