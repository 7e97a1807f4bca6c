//! What each stored row does to a room that is being rebuilt, said of the row and
//! of the room alone.

use vstd::prelude::*;

use crate::db::{apply_row, apply_rows, EventRowView};
use crate::event::item_texts;
use crate::frames::{kept, nowhere, reacting, stands_at};
use crate::json::JsonView;
use crate::list::{
    find_id, is_first, lemma_find, lemma_find_at, lemma_without_absent, lemma_without_concat,
    lemma_without_push, without, HasId,
};
use crate::outside::json_of_text;
use crate::state::{MessageView, PollView, QuestionView, RoomView};

verus! {

// ── Rows ────────────────────────────────────────────────────────────────────

/// Whether a row is of a kind, with a payload that has the given members.
pub open spec fn is_row(row: EventRowView, kind: Seq<char>, p: Map<Seq<char>, JsonView>) -> bool {
    row.kind == kind && json_of_text(row.payload) == Some(JsonView::Object(p))
}

/// Whether a payload gives a number under a name.
pub open spec fn gives(p: Map<Seq<char>, JsonView>, key: Seq<char>, n: u64) -> bool {
    p.contains_key(key) && p[key] == JsonView::Number(Some(n))
}

/// Whether a payload gives a text under a name.
pub open spec fn says(p: Map<Seq<char>, JsonView>, key: Seq<char>, t: Seq<char>) -> bool {
    p.contains_key(key) && p[key] == JsonView::Str(t)
}

/// The later of two ids.
pub open spec fn later(a: u64, b: u64) -> u64 {
    if a >= b {
        a
    } else {
        b
    }
}

/// To drop an id from a list is to drop every item that has it, and nothing
/// else: the others stay, in order.
pub proof fn law_dropping<X: HasId>(a: Seq<X>, b: Seq<X>, x: X, id: u64)
    ensures
        without(Seq::<X>::empty(), id) == Seq::<X>::empty(),
        without(a + b, id) == without(a, id) + without(b, id),
        without(seq![x], id) == if x.id_of() == id {
            Seq::empty()
        } else {
            seq![x]
        },
{
    lemma_without_concat(a, b, id);
    lemma_without_absent(Seq::<X>::empty(), id);
    lemma_without_push(Seq::<X>::empty(), id, x);
    assert(Seq::<X>::empty().push(x) == seq![x]);
}

proof fn lemma_place<X: HasId>(s: Seq<X>, id: u64, i: int)
    ensures
        stands_at(s, id, i) ==> find_id(s, id) == Some(i),
        nowhere(s, id) ==> find_id(s, id) is None,
{
    lemma_find(s, id);
    if stands_at(s, id, i) {
        assert(is_first(s, id, i));
        lemma_find_at(s, id, i);
    }
}

/// The kinds of rows differ: in length, in the first letter, or in the sixth.
proof fn lemma_row_kinds()
    ensures
        "message"@.len() == 7,
        "message_deleted"@.len() == 15 && "message_deleted"@[0] == 'm',
        "reaction_add"@.len() == 12 && "reaction_add"@[0] == 'r',
        "reaction_remove"@.len() == 15 && "reaction_remove"@[0] == 'r',
        "pending_message"@.len() == 15 && "pending_message"@[0] == 'p',
        "pending_message_rejected"@.len() == 24,
        "question"@.len() == 8 && "question"@[0] == 'q',
        "vote_add"@.len() == 8 && "vote_add"@[0] == 'v',
        "vote_remove"@.len() == 11 && "vote_remove"@[0] == 'v',
        "question_pinned"@.len() == 15 && "question_pinned"@[0] == 'q',
        "question_answered"@.len() == 17,
        "question_dismissed"@.len() == 18,
        "pending_question"@.len() == 16,
        "pending_question_rejected"@.len() == 25,
        "poll_created"@.len() == 12 && "poll_created"@[0] == 'p' && "poll_created"@[5] == 'c',
        "poll_vote"@.len() == 9,
        "poll_closed"@.len() == 11 && "poll_closed"@[0] == 'p',
        "poll_deleted"@.len() == 12 && "poll_deleted"@[0] == 'p' && "poll_deleted"@[5] == 'd',
        "lock"@.len() == 4,
{
    reveal_strlit("message");
    reveal_strlit("message_deleted");
    reveal_strlit("reaction_add");
    reveal_strlit("reaction_remove");
    reveal_strlit("pending_message");
    reveal_strlit("pending_message_rejected");
    reveal_strlit("question");
    reveal_strlit("vote_add");
    reveal_strlit("vote_remove");
    reveal_strlit("question_pinned");
    reveal_strlit("question_answered");
    reveal_strlit("question_dismissed");
    reveal_strlit("pending_question");
    reveal_strlit("pending_question_rejected");
    reveal_strlit("poll_created");
    reveal_strlit("poll_vote");
    reveal_strlit("poll_closed");
    reveal_strlit("poll_deleted");
    reveal_strlit("lock");
}

/// Rows are replayed in order, one after the other, and after each the room
/// keeps no more messages than it may: the last ones.
pub proof fn law_rows_replayed_in_order(
    s: RoomView,
    rows: Seq<EventRowView>,
    row: EventRowView,
    max: usize,
)
    ensures
        apply_rows(s, Seq::empty(), max as nat) == s,
        ({
            let t = apply_row(apply_rows(s, rows, max as nat), row);
            apply_rows(s, rows.push(row), max as nat) == (RoomView {
                messages: kept(t.messages, max),
                ..t
            })
        }),
{
    assert(rows.push(row).drop_last() == rows);
}

/// A message becomes the last one, and is no longer pending.
pub proof fn law_row_message(
    s: RoomView,
    row: EventRowView,
    p: Map<Seq<char>, JsonView>,
    id: u64,
    role: Seq<char>,
    text: Seq<char>,
    ts: u64,
)
    requires
        is_row(row, "message"@, p),
        gives(p, "id"@, id),
        says(p, "role"@, role),
        says(p, "text"@, text),
        gives(p, "ts"@, ts),
    ensures
        apply_row(s, row) == (RoomView {
            next_msg_id: later(s.next_msg_id, id),
            pending_messages: without(s.pending_messages, id),
            messages: s.messages.push(
                MessageView { id, role, text, ts, reactions: Map::empty() },
            ),
            ..s
        }),
{
    lemma_row_kinds();
}

/// A pending message joins the queue.
pub proof fn law_row_pending_message(
    s: RoomView,
    row: EventRowView,
    p: Map<Seq<char>, JsonView>,
    id: u64,
    role: Seq<char>,
    text: Seq<char>,
    ts: u64,
)
    requires
        is_row(row, "pending_message"@, p),
        gives(p, "id"@, id),
        says(p, "role"@, role),
        says(p, "text"@, text),
        gives(p, "ts"@, ts),
    ensures
        apply_row(s, row) == (RoomView {
            next_msg_id: later(s.next_msg_id, id),
            pending_messages: s.pending_messages.push(
                MessageView { id, role, text, ts, reactions: Map::empty() },
            ),
            ..s
        }),
{
    lemma_row_kinds();
}

/// A rejected message, or question, leaves the queue.
pub proof fn law_row_rejected(
    s: RoomView,
    row: EventRowView,
    p: Map<Seq<char>, JsonView>,
    id: u64,
)
    requires
        is_row(row, "pending_message_rejected"@, p) || is_row(row, "pending_question_rejected"@, p),
        gives(p, "id"@, id),
    ensures
        row.kind == "pending_message_rejected"@ ==> apply_row(s, row) == (RoomView {
            pending_messages: without(s.pending_messages, id),
            ..s
        }),
        row.kind == "pending_question_rejected"@ ==> apply_row(s, row) == (RoomView {
            pending_questions: without(s.pending_questions, id),
            ..s
        }),
{
    lemma_row_kinds();
}

/// A deleted message is gone, with the reactions to it.
pub proof fn law_row_message_deleted(
    s: RoomView,
    row: EventRowView,
    p: Map<Seq<char>, JsonView>,
    id: u64,
    k: (u64, Seq<char>),
)
    requires
        is_row(row, "message_deleted"@, p),
        gives(p, "id"@, id),
    ensures
        ({
            let t = apply_row(s, row);
            &&& t == (RoomView {
                messages: without(s.messages, id),
                reaction_users: t.reaction_users,
                ..s
            })
            &&& t.reaction_users.contains_key(k) <==> k.0 != id && s.reaction_users.contains_key(k)
            &&& t.reaction_users.contains_key(k) ==> t.reaction_users[k] == s.reaction_users[k]
        }),
{
    lemma_row_kinds();
}

/// A question joins the board, without votes, and is no longer pending; a
/// pending one joins the queue.
pub proof fn law_row_question(
    s: RoomView,
    row: EventRowView,
    p: Map<Seq<char>, JsonView>,
    id: u64,
    text: Seq<char>,
)
    requires
        is_row(row, "question"@, p) || is_row(row, "pending_question"@, p),
        gives(p, "id"@, id),
        says(p, "text"@, text),
    ensures
        ({
            let q = QuestionView { id, text, votes: 0, pinned: false, answered: false };
            apply_row(s, row) == if row.kind == "question"@ {
                RoomView {
                    next_question_id: later(s.next_question_id, id),
                    pending_questions: without(s.pending_questions, id),
                    questions: s.questions.push(q),
                    ..s
                }
            } else {
                RoomView {
                    next_question_id: later(s.next_question_id, id),
                    pending_questions: s.pending_questions.push(q),
                    ..s
                }
            }
        }),
{
    lemma_row_kinds();
}

/// A vote counts once for each voter, and is taken back once; on a question that
/// is not there it counts for nothing.
pub proof fn law_row_vote(
    s: RoomView,
    row: EventRowView,
    p: Map<Seq<char>, JsonView>,
    id: u64,
    voter: Seq<char>,
    i: int,
)
    requires
        is_row(row, "vote_add"@, p) || is_row(row, "vote_remove"@, p),
        gives(p, "question_id"@, id),
        says(p, "voter"@, voter),
        stands_at(s.questions, id, i) ==> s.questions[i].votes < u32::MAX,
    ensures
        ({
            let t = apply_row(s, row);
            let had = s.question_voters.contains_key(id) && s.question_voters[id].contains(voter);
            let adds = row.kind == "vote_add"@;
            let q = s.questions[i];
            &&& nowhere(s.questions, id) ==> t == s
            &&& stands_at(s.questions, id, i) ==> {
                &&& t == (RoomView {
                    questions: t.questions,
                    question_voters: t.question_voters,
                    ..s
                })
                &&& t.questions.len() == s.questions.len()
                &&& t.questions[i] == (QuestionView {
                    votes: if adds && !had {
                        (q.votes + 1) as u32
                    } else if !adds && had && q.votes > 0 {
                        (q.votes - 1) as u32
                    } else {
                        q.votes
                    },
                    ..q
                })
                &&& forall|j: int|
                    0 <= j < s.questions.len() && j != i ==> #[trigger] t.questions[j]
                        == s.questions[j]
                &&& (t.question_voters.contains_key(id) && t.question_voters[id].contains(voter))
                    == adds
                &&& forall|x: Seq<char>|
                    x != voter ==> ((t.question_voters.contains_key(id)
                        && #[trigger] t.question_voters[id].contains(x)) <==> (
                    s.question_voters.contains_key(id) && s.question_voters[id].contains(x)))
                &&& t.question_voters.remove(id) == s.question_voters.remove(id)
            }
        }),
{
    lemma_row_kinds();
    lemma_place(s.questions, id, i);
    let t = apply_row(s, row);
    assert(t.question_voters.remove(id) =~= s.question_voters.remove(id));
}

/// A question is pinned, and no other, or all are unpinned; a question is
/// answered, and so unpinned; or it is dismissed, with its voters.
pub proof fn law_row_board(
    s: RoomView,
    row: EventRowView,
    p: Map<Seq<char>, JsonView>,
    id: u64,
    i: int,
    pinned: bool,
)
    requires
        gives(p, "question_id"@, id),
        is_row(row, "question_pinned"@, p) && p.contains_key("pinned"@) && p["pinned"@]
            == JsonView::Bool(pinned) || is_row(row, "question_answered"@, p) || is_row(
            row,
            "question_dismissed"@,
            p,
        ),
    ensures
        ({
            let t = apply_row(s, row);
            &&& row.kind == "question_pinned"@ ==> {
                &&& t == (RoomView { questions: t.questions, ..s })
                &&& t.questions.len() == s.questions.len()
                &&& forall|j: int|
                    0 <= j < s.questions.len() ==> #[trigger] t.questions[j] == (QuestionView {
                        pinned: pinned && s.questions[j].id == id,
                        ..s.questions[j]
                    })
            }
            &&& row.kind == "question_answered"@ && nowhere(s.questions, id) ==> t == s
            &&& row.kind == "question_answered"@ && stands_at(s.questions, id, i) ==> {
                &&& t == (RoomView { questions: t.questions, ..s })
                &&& t.questions == s.questions.update(
                    i,
                    QuestionView { answered: true, pinned: false, ..s.questions[i] },
                )
            }
            &&& row.kind == "question_dismissed"@ ==> t == (RoomView {
                questions: without(s.questions, id),
                question_voters: s.question_voters.remove(id),
                ..s
            })
        }),
{
    lemma_row_kinds();
    lemma_place(s.questions, id, i);
}

/// A reaction is recorded once for each voter, and taken back once; the message
/// shows how many are recorded, and nothing if nobody is. On a message that is not
/// there it counts for nothing.
pub proof fn law_row_reaction(
    s: RoomView,
    row: EventRowView,
    p: Map<Seq<char>, JsonView>,
    id: u64,
    emoji: Seq<char>,
    voter: Seq<char>,
    i: int,
)
    requires
        is_row(row, "reaction_add"@, p) || is_row(row, "reaction_remove"@, p),
        gives(p, "message_id"@, id),
        says(p, "emoji"@, emoji),
        says(p, "voter"@, voter),
        reacting(s, id, emoji).finite(),
        reacting(s, id, emoji).len() < u32::MAX,
    ensures
        ({
            let t = apply_row(s, row);
            let adds = row.kind == "reaction_add"@;
            let before = reacting(s, id, emoji);
            let after = if adds {
                before.insert(voter)
            } else {
                before.remove(voter)
            };
            let counted = adds || s.reaction_users.contains_key((id, emoji));
            &&& nowhere(s.messages, id) || !counted ==> t == s
            &&& stands_at(s.messages, id, i) && counted ==> {
                &&& t == (RoomView { messages: t.messages, reaction_users: t.reaction_users, ..s })
                &&& reacting(t, id, emoji) == after
                &&& t.reaction_users.contains_key((id, emoji)) == (after.len() > 0)
                &&& t.reaction_users.remove((id, emoji)) == s.reaction_users.remove((id, emoji))
                &&& t.messages == s.messages.update(
                    i,
                    MessageView {
                        reactions: if after.len() > 0 {
                            s.messages[i].reactions.insert(emoji, after.len() as u32)
                        } else {
                            s.messages[i].reactions.remove(emoji)
                        },
                        ..s.messages[i]
                    },
                )
            }
        }),
{
    lemma_row_kinds();
    lemma_place(s.messages, id, i);
    let t = apply_row(s, row);
    let before = reacting(s, id, emoji);
    let after = if row.kind == "reaction_add"@ {
        before.insert(voter)
    } else {
        before.remove(voter)
    };
    assert(Set::<Seq<char>>::empty().insert(voter).finite());
    if after.len() == 0 {
        assert(after =~= Set::empty());
    }
    assert(t.reaction_users.remove((id, emoji)) =~= s.reaction_users.remove((id, emoji)));
}

/// A new poll has the answers of the row, in order and without votes. A row
/// without answers opens none.
pub proof fn law_row_poll_created(
    s: RoomView,
    row: EventRowView,
    p: Map<Seq<char>, JsonView>,
    id: u64,
    question: Seq<char>,
    items: Seq<JsonView>,
)
    requires
        is_row(row, "poll_created"@, p),
        gives(p, "id"@, id),
        says(p, "question"@, question),
        p.contains_key("options"@),
        p["options"@] == JsonView::Array(items),
    ensures
        ({
            let t = apply_row(s, row);
            let texts = item_texts(items);
            let poll = t.polls.last();
            if texts.len() == 0 {
                t == s
            } else {
                &&& t == (RoomView {
                    next_poll_id: later(s.next_poll_id, id),
                    polls: s.polls.push(poll),
                    ..s
                })
                &&& poll.id == id && poll.question == question && !poll.closed
                &&& poll.options.len() == texts.len()
                &&& forall|k: int|
                    0 <= k < texts.len() ==> (#[trigger] poll.options[k]).text == texts[k]
                        && poll.options[k].votes == 0
            }
        }),
{
    lemma_row_kinds();
}

/// A vote in a poll counts once for each voter, for the answer of the row and no
/// other; without such a poll, or such an answer, it counts for nothing.
pub proof fn law_row_poll_vote(
    s: RoomView,
    row: EventRowView,
    p: Map<Seq<char>, JsonView>,
    id: u64,
    option: usize,
    voter: Seq<char>,
    i: int,
)
    requires
        is_row(row, "poll_vote"@, p),
        gives(p, "poll_id"@, id),
        gives(p, "option_index"@, option as u64),
        says(p, "voter"@, voter),
        stands_at(s.polls, id, i) && option < s.polls[i].options.len()
            ==> s.polls[i].options[option as int].votes < u32::MAX,
    ensures
        ({
            let t = apply_row(s, row);
            let poll = s.polls[i];
            let had = s.poll_voters.contains_key(id) && s.poll_voters[id].contains(voter);
            let options = t.polls[i].options;
            &&& nowhere(s.polls, id) ==> t == s
            &&& stands_at(s.polls, id, i) && (had || option >= poll.options.len()) ==> t == s
            &&& stands_at(s.polls, id, i) && !had && option < poll.options.len() ==> {
                &&& t == (RoomView { polls: t.polls, poll_voters: t.poll_voters, ..s })
                &&& t.polls == s.polls.update(i, PollView { options, ..poll })
                &&& options.len() == poll.options.len()
                &&& options[option as int].votes == poll.options[option as int].votes + 1
                &&& options[option as int].text == poll.options[option as int].text
                &&& forall|k: int|
                    0 <= k < options.len() && k != option ==> #[trigger] options[k]
                        == poll.options[k]
                &&& t.poll_voters.contains_key(id) && t.poll_voters[id].contains(voter)
                &&& forall|x: Seq<char>|
                    x != voter ==> (#[trigger] t.poll_voters[id].contains(x) <==> (
                    s.poll_voters.contains_key(id) && s.poll_voters[id].contains(x)))
                &&& t.poll_voters.remove(id) == s.poll_voters.remove(id)
            }
        }),
{
    lemma_row_kinds();
    lemma_place(s.polls, id, i);
    let t = apply_row(s, row);
    assert(t.poll_voters.remove(id) =~= s.poll_voters.remove(id));
}

/// A poll is closed and keeps its votes, or it is deleted, with its voters.
pub proof fn law_row_poll_ended(
    s: RoomView,
    row: EventRowView,
    p: Map<Seq<char>, JsonView>,
    id: u64,
    i: int,
)
    requires
        is_row(row, "poll_closed"@, p) || is_row(row, "poll_deleted"@, p),
        gives(p, "poll_id"@, id),
    ensures
        ({
            let t = apply_row(s, row);
            &&& row.kind == "poll_closed"@ && nowhere(s.polls, id) ==> t == s
            &&& row.kind == "poll_closed"@ && stands_at(s.polls, id, i) ==> t == (RoomView {
                polls: s.polls.update(i, PollView { closed: true, ..s.polls[i] }),
                ..s
            })
            &&& row.kind == "poll_deleted"@ ==> t == (RoomView {
                polls: without(s.polls, id),
                poll_voters: s.poll_voters.remove(id),
                ..s
            })
        }),
{
    lemma_row_kinds();
    lemma_place(s.polls, id, i);
}

/// The lock is what the last row says of it.
pub proof fn law_row_lock(
    s: RoomView,
    row: EventRowView,
    p: Map<Seq<char>, JsonView>,
    locked: bool,
    until: Option<u64>,
)
    requires
        is_row(row, "lock"@, p),
        p.contains_key("locked"@),
        p["locked"@] == JsonView::Bool(locked),
        until == (if p.contains_key("until"@) && p["until"@] is Number {
            p["until"@]->Number_0
        } else {
            None
        }),
        s.lock_epoch < u64::MAX,
    ensures
        apply_row(s, row) == (RoomView {
            locked,
            locked_until: until,
            lock_epoch: (s.lock_epoch + 1) as u64,
            ..s
        }),
{
    lemma_row_kinds();
}

/// The answers in a row are read one by one: each item with a text counts, all
/// else is skipped.
pub proof fn law_stored_answers(a: Seq<JsonView>, b: Seq<JsonView>, x: JsonView)
    ensures
        item_texts(Seq::empty()) == Seq::<Seq<char>>::empty(),
        item_texts(a + b) == item_texts(a) + item_texts(b),
        item_texts(seq![x]) == (if x is Object && x->Object_0.contains_key("text"@)
            && x->Object_0["text"@] is Str {
            seq![x->Object_0["text"@]->Str_0]
        } else {
            Seq::empty()
        }),
    decreases b.len(),
{
    assert(seq![x].drop_last() == Seq::<JsonView>::empty());
    assert(item_texts(seq![x].drop_last()) == Seq::<Seq<char>>::empty());
    if x is Object && x->Object_0.contains_key("text"@) && x->Object_0["text"@] is Str {
        let t = x->Object_0["text"@]->Str_0;
        assert(Seq::<Seq<char>>::empty().push(t) == seq![t]);
    }
    if b.len() == 0 {
        assert(a + b == a);
        assert(item_texts(a) + item_texts(b) == item_texts(a));
    } else {
        law_stored_answers(a, b.drop_last(), x);
        assert((a + b).drop_last() == a + b.drop_last());
        assert((a + b).last() == b.last());
        assert(item_texts(a + b) =~= item_texts(a) + item_texts(b));
    }
}

/// The kinds of rows that there are.
pub open spec fn is_stored_kind(kind: Seq<char>) -> bool {
    ||| kind == "message"@ || kind == "message_deleted"@ || kind == "reaction_add"@ || kind
        == "reaction_remove"@
    ||| kind == "pending_message"@ || kind == "pending_message_rejected"@ || kind == "question"@
        || kind == "vote_add"@ || kind == "vote_remove"@
    ||| kind == "question_pinned"@ || kind == "question_answered"@ || kind
        == "question_dismissed"@ || kind == "pending_question"@ || kind
        == "pending_question_rejected"@
    ||| kind == "poll_created"@ || kind == "poll_vote"@ || kind == "poll_closed"@ || kind
        == "poll_deleted"@ || kind == "lock"@
}

/// A row of another kind, or whose payload cannot be read or has no members,
/// changes nothing.
pub proof fn law_row_passed_over(s: RoomView, row: EventRowView)
    requires
        !is_stored_kind(row.kind) || match json_of_text(row.payload) {
            Some(JsonView::Object(p)) => p.dom() == Set::<Seq<char>>::empty(),
            _ => true,
        },
    ensures
        apply_row(s, row) == s,
{
    lemma_row_kinds();
    if let Some(JsonView::Object(p)) = json_of_text(row.payload) {
        if p.dom() == Set::<Seq<char>>::empty() {
            assert(p =~= Map::<Seq<char>, JsonView>::empty());
        }
    }
}

/// The numbers that a kind of row has to give.
pub open spec fn needs_number(kind: Seq<char>, key: Seq<char>) -> bool {
    ||| (kind == "message"@ || kind == "pending_message"@) && (key == "id"@ || key == "ts"@)
    ||| (kind == "message_deleted"@ || kind == "pending_message_rejected"@ || kind
        == "pending_question_rejected"@ || kind == "question"@ || kind == "pending_question"@
        || kind == "poll_created"@) && key == "id"@
    ||| (kind == "reaction_add"@ || kind == "reaction_remove"@) && key == "message_id"@
    ||| (kind == "vote_add"@ || kind == "vote_remove"@ || kind == "question_pinned"@ || kind
        == "question_answered"@ || kind == "question_dismissed"@) && key == "question_id"@
    ||| (kind == "poll_vote"@ || kind == "poll_closed"@ || kind == "poll_deleted"@) && key
        == "poll_id"@
    ||| kind == "poll_vote"@ && key == "option_index"@
}

/// The texts that a kind of row has to give.
pub open spec fn needs_text(kind: Seq<char>, key: Seq<char>) -> bool {
    ||| (kind == "message"@ || kind == "pending_message"@) && (key == "role"@ || key == "text"@)
    ||| (kind == "question"@ || kind == "pending_question"@) && key == "text"@
    ||| (kind == "reaction_add"@ || kind == "reaction_remove"@) && (key == "emoji"@ || key
        == "voter"@)
    ||| (kind == "vote_add"@ || kind == "vote_remove"@ || kind == "poll_vote"@) && key == "voter"@
    ||| kind == "poll_created"@ && key == "question"@
}

/// The flags that a kind of row has to give.
pub open spec fn needs_flag(kind: Seq<char>, key: Seq<char>) -> bool {
    kind == "question_pinned"@ && key == "pinned"@ || kind == "lock"@ && key == "locked"@
}

/// A row that lacks something changes nothing.
pub proof fn law_row_incomplete(
    s: RoomView,
    row: EventRowView,
    kind: Seq<char>,
    p: Map<Seq<char>, JsonView>,
    key: Seq<char>,
)
    requires
        is_row(row, kind, p),
        ({
            ||| needs_number(kind, key) && !(p.contains_key(key) && (
            p[key] matches JsonView::Number(n) && n is Some))
            ||| needs_text(kind, key) && !(p.contains_key(key) && p[key] is Str)
            ||| needs_flag(kind, key) && !(p.contains_key(key) && p[key] is Bool)
        }),
    ensures
        apply_row(s, row) == s,
{
    lemma_row_kinds();
}

} // verus!
