//! What holds of every room at every time, and that everything a client can do
//! keeps it so.

use vstd::prelude::*;

use crate::event::{new_message, new_poll, new_question, poll_closed};
use crate::json::JsonView;
use crate::list::{
    disjoint_ids, distinct_ids, find_id, has_id, ids_within, keep_last, lemma_find, lemma_without,
    lemma_without_distinct, lemma_without_one, without,
};
use crate::state::{
    empty_room, voters_of, MessageView, PollOptionView, QuestionView, RoomConfig, RoomView,
};
use crate::ws::{
    approve_message, approve_question, ask_question, auto_unlock, create_poll, decode_action,
    delete_message, delete_poll, dismiss_question, frame_kind, frame_payload, handle, is_reaction,
    perform, react, role_of, send_message, users_of, vote, vote_in_poll, ActionView,
};

verus! {

/// Ids are never used twice: those of visible and of pending items are all
/// different, and none is above the last one issued.
pub open spec fn ids_in_order(s: RoomView) -> bool {
    &&& distinct_ids(s.messages)
    &&& distinct_ids(s.pending_messages)
    &&& disjoint_ids(s.messages, s.pending_messages)
    &&& ids_within(s.messages, s.next_msg_id)
    &&& ids_within(s.pending_messages, s.next_msg_id)
    &&& distinct_ids(s.questions)
    &&& distinct_ids(s.pending_questions)
    &&& disjoint_ids(s.questions, s.pending_questions)
    &&& ids_within(s.questions, s.next_question_id)
    &&& ids_within(s.pending_questions, s.next_question_id)
    &&& distinct_ids(s.polls)
    &&& ids_within(s.polls, s.next_poll_id)
}

/// Nobody has reacted to, voted for, pinned or answered what is still pending.
pub open spec fn pending_untouched(s: RoomView) -> bool {
    &&& forall|i: int|
        0 <= i < s.pending_messages.len() ==> (#[trigger] s.pending_messages[i]).reactions
            == Map::<Seq<char>, u32>::empty()
    &&& forall|i: int|
        0 <= i < s.pending_questions.len() ==> {
            let q = #[trigger] s.pending_questions[i];
            q.votes == 0 && !q.pinned && !q.answered
        }
}

/// The votes of every question are those of the people who have voted for it,
/// and nobody has voted for a question that is not there.
pub open spec fn votes_counted(s: RoomView) -> bool {
    &&& forall|id: u64| #[trigger]
        s.question_voters.contains_key(id) ==> has_id(s.questions, id)
            && s.question_voters[id].finite()
    &&& forall|i: int|
        0 <= i < s.questions.len() ==> {
            let q = #[trigger] s.questions[i];
            q.votes == voters_of(s.question_voters, q.id).len()
        }
}

/// The votes for all answers of a poll together.
pub open spec fn total_votes(options: Seq<PollOptionView>) -> nat
    decreases options.len(),
{
    if options.len() == 0 {
        0
    } else {
        total_votes(options.drop_last()) + options.last().votes as nat
    }
}

/// The votes in every poll together are as many as the people who have voted in
/// it, and nobody has voted in a poll that is not there.
pub open spec fn polls_counted(s: RoomView) -> bool {
    &&& forall|id: u64| #[trigger]
        s.poll_voters.contains_key(id) ==> has_id(s.polls, id) && s.poll_voters[id].finite()
    &&& forall|i: int|
        0 <= i < s.polls.len() ==> {
            let p = #[trigger] s.polls[i];
            total_votes(p.options) == voters_of(s.poll_voters, p.id).len()
        }
}

/// The count of every emoji on every visible message is that of the people who
/// have reacted with it, and an emoji that nobody reacts with any more is gone.
pub open spec fn reactions_counted(s: RoomView) -> bool {
    &&& forall|k: (u64, Seq<char>)| #[trigger]
        s.reaction_users.contains_key(k) ==> {
            &&& s.reaction_users[k].finite()
            &&& 0 < s.reaction_users[k].len() <= u32::MAX
            &&& k.0 <= s.next_msg_id
            &&& !has_id(s.pending_messages, k.0)
        }
    &&& forall|i: int, e: Seq<char>|
        0 <= i < s.messages.len() ==> (#[trigger] s.messages[i].reactions.contains_key(e)
            <==> s.reaction_users.contains_key((s.messages[i].id, e)))
    &&& forall|i: int, e: Seq<char>|
        0 <= i < s.messages.len() && #[trigger] s.messages[i].reactions.contains_key(e)
            ==> s.messages[i].reactions[e] == s.reaction_users[(s.messages[i].id, e)].len()
}

/// At most one question is pinned.
pub open spec fn one_pinned(s: RoomView) -> bool {
    forall|i: int, j: int|
        0 <= i < j < s.questions.len() ==> !((#[trigger] s.questions[i]).pinned && (
        #[trigger] s.questions[j]).pinned)
}

/// Whether a text may be posted: it is not empty, and not too long.
pub open spec fn postable(text: Seq<char>, cfg: RoomConfig) -> bool {
    0 < text.len() <= cfg.max_message_length
}

/// The history is no longer than the room keeps, every text was fit to be
/// posted, and every poll has a question and 2 to 6 answers.
pub open spec fn within_limits(s: RoomView, cfg: RoomConfig) -> bool {
    &&& s.messages.len() <= cfg.max_messages
    &&& forall|i: int|
        0 <= i < s.messages.len() ==> postable((#[trigger] s.messages[i]).text, cfg)
    &&& forall|i: int|
        0 <= i < s.pending_messages.len() ==> postable(
            (#[trigger] s.pending_messages[i]).text,
            cfg,
        )
    &&& forall|i: int|
        0 <= i < s.questions.len() ==> postable((#[trigger] s.questions[i]).text, cfg)
    &&& forall|i: int|
        0 <= i < s.pending_questions.len() ==> postable(
            (#[trigger] s.pending_questions[i]).text,
            cfg,
        )
    &&& forall|i: int|
        0 <= i < s.polls.len() ==> (#[trigger] s.polls[i]).question.len() > 0 && 2
            <= s.polls[i].options.len() <= 6
}

/// What holds of every room.
pub open spec fn consistent(s: RoomView, cfg: RoomConfig) -> bool {
    &&& ids_in_order(s)
    &&& pending_untouched(s)
    &&& votes_counted(s)
    &&& polls_counted(s)
    &&& reactions_counted(s)
    &&& one_pinned(s)
    &&& within_limits(s, cfg)
}

/// Whether every count can go up by one: that of each emoji, and all others.
pub open spec fn can_grow(s: RoomView) -> bool {
    &&& s.has_headroom()
    &&& forall|k: (u64, Seq<char>)| #[trigger]
        s.reaction_users.contains_key(k) ==> s.reaction_users[k].len() < u32::MAX
}

/// A new room is consistent.
pub proof fn law_new_room_consistent(cfg: RoomConfig)
    ensures
        consistent(empty_room(), cfg),
{
}

// ── Step by step ────────────────────────────────────────────────────────────

/// Keeping the last messages keeps what holds of each of them.
proof fn lemma_trimmed_consistent(s: RoomView, all: Seq<MessageView>, cfg: RoomConfig)
    requires
        consistent(RoomView { messages: Seq::empty(), ..s }, cfg),
        distinct_ids(all),
        ids_within(all, s.next_msg_id),
        disjoint_ids(all, s.pending_messages),
        forall|i: int| 0 <= i < all.len() ==> postable((#[trigger] all[i]).text, cfg),
        forall|i: int, e: Seq<char>|
            0 <= i < all.len() ==> (#[trigger] all[i].reactions.contains_key(e)
                <==> s.reaction_users.contains_key((all[i].id, e))),
        forall|i: int, e: Seq<char>|
            0 <= i < all.len() && #[trigger] all[i].reactions.contains_key(e)
                ==> all[i].reactions[e] == s.reaction_users[(all[i].id, e)].len(),
    ensures
        consistent(
            RoomView { messages: keep_last(all, cfg.max_messages as nat), ..s },
            cfg,
        ),
{
    let kept = keep_last(all, cfg.max_messages as nat);
    let cut = all.len() - kept.len();
    let t = RoomView { messages: kept, ..s };
    let bare = RoomView { messages: Seq::empty(), ..s };
    assert(forall|i: int| 0 <= i < kept.len() ==> #[trigger] kept[i] == all[i + cut]);
    assert(ids_in_order(bare) && pending_untouched(bare) && votes_counted(bare));
    assert(ids_in_order(t)) by {
        assert forall|i: int, j: int| 0 <= i < j < kept.len() implies (
        #[trigger] kept[i]).id != (#[trigger] kept[j]).id by {
            assert(all[i + cut].id != all[j + cut].id);
        }
        assert forall|i: int, j: int| 0 <= i < kept.len() && 0 <= j < s.pending_messages.len()
            implies (#[trigger] kept[i]).id != (#[trigger] s.pending_messages[j]).id by {
            assert(all[i + cut].id != s.pending_messages[j].id);
        }
        assert forall|i: int| 0 <= i < kept.len() implies (#[trigger] kept[i]).id
            <= s.next_msg_id by {
            assert(all[i + cut].id <= s.next_msg_id);
        }
    }
    assert(reactions_counted(t)) by {
        assert(reactions_counted(bare));
        assert forall|i: int, e: Seq<char>| 0 <= i < kept.len() implies (
        #[trigger] kept[i].reactions.contains_key(e) <==> s.reaction_users.contains_key(
            (kept[i].id, e),
        )) by {
            assert(all[i + cut].reactions.contains_key(e) <==> s.reaction_users.contains_key(
                (all[i + cut].id, e),
            ));
        }
        assert forall|i: int, e: Seq<char>|
            0 <= i < kept.len() && #[trigger] kept[i].reactions.contains_key(
                e,
            ) implies kept[i].reactions[e] == s.reaction_users[(kept[i].id, e)].len() by {
            assert(all[i + cut].reactions.contains_key(e));
        }
        assert(t.messages == kept);
        assert(t.reaction_users == s.reaction_users);
        assert forall|k: (u64, Seq<char>)| #[trigger] t.reaction_users.contains_key(k) implies {
            &&& t.reaction_users[k].finite()
            &&& 0 < t.reaction_users[k].len() <= u32::MAX
            &&& k.0 <= t.next_msg_id
            &&& !has_id(t.pending_messages, k.0)
        } by {
            assert(bare.reaction_users.contains_key(k));
        }
    }
    assert(polls_counted(bare) && one_pinned(bare) && within_limits(bare, cfg));
    assert(pending_untouched(t));
    assert(t.questions == bare.questions && t.question_voters == bare.question_voters);
    assert(t.polls == bare.polls && t.poll_voters == bare.poll_voters);
    assert(votes_counted(t)) by {
        assert forall|id: u64| #[trigger] t.question_voters.contains_key(id) implies has_id(
            t.questions,
            id,
        ) && t.question_voters[id].finite() by {
            assert(bare.question_voters.contains_key(id));
        }
    }
    assert(polls_counted(t)) by {
        assert forall|id: u64| #[trigger] t.poll_voters.contains_key(id) implies has_id(
            t.polls,
            id,
        ) && t.poll_voters[id].finite() by {
            assert(bare.poll_voters.contains_key(id));
        }
    }
    assert(one_pinned(t));
    assert(within_limits(t, cfg)) by {
        assert forall|i: int| 0 <= i < kept.len() implies postable(
            (#[trigger] kept[i]).text,
            cfg,
        ) by {
            assert(postable(all[i + cut].text, cfg));
        }
    }
}

proof fn lemma_send_consistent(
    s: RoomView,
    room_id: Seq<char>,
    cfg: RoomConfig,
    who: Seq<char>,
    is_admin: bool,
    now: u64,
    text: Seq<char>,
)
    requires
        consistent(s, cfg),
        can_grow(s),
    ensures
        consistent(send_message(s, room_id, cfg, who, is_admin, now, text).0, cfg),
{
    let t = send_message(s, room_id, cfg, who, is_admin, now, text).0;
    if t != s {
        let id = (s.next_msg_id + 1) as u64;
        let m = new_message(id, role_of(is_admin), text, now);
        assert(t.next_msg_id == id);
        if cfg.moderated && !is_admin {
            assert(t.pending_messages == s.pending_messages.push(m));
            assert(reactions_counted(t)) by {
                assert forall|k: (u64, Seq<char>)| #[trigger]
                    t.reaction_users.contains_key(k) implies !has_id(t.pending_messages, k.0) by {
                    if has_id(t.pending_messages, k.0) {
                        let i = choose|i: int|
                            0 <= i < t.pending_messages.len() && (
                            #[trigger] t.pending_messages[i]).id == k.0;
                        if i < s.pending_messages.len() {
                            assert(s.pending_messages[i].id == k.0);
                        }
                    }
                }
            }
        } else {
            let all = s.messages.push(m);
            let bare = RoomView { messages: Seq::empty(), ..t };
            assert(consistent(bare, cfg));
            assert forall|i: int, e: Seq<char>| 0 <= i < all.len() implies (
            #[trigger] all[i].reactions.contains_key(e) <==> t.reaction_users.contains_key(
                (all[i].id, e),
            )) by {
                if i < s.messages.len() {
                    assert(s.messages[i].reactions.contains_key(e)
                        <==> s.reaction_users.contains_key((s.messages[i].id, e)));
                }
            }
            assert forall|i: int, e: Seq<char>|
                0 <= i < all.len() && #[trigger] all[i].reactions.contains_key(
                    e,
                ) implies all[i].reactions[e] == t.reaction_users[(all[i].id, e)].len() by {
                assert(s.messages[i].reactions.contains_key(e));
            }
            lemma_trimmed_consistent(t, all, cfg);
        }
    }
}

proof fn lemma_ask_consistent(
    s: RoomView,
    room_id: Seq<char>,
    cfg: RoomConfig,
    is_admin: bool,
    now: u64,
    text: Seq<char>,
)
    requires
        consistent(s, cfg),
        can_grow(s),
    ensures
        consistent(ask_question(s, room_id, cfg, is_admin, now, text).0, cfg),
{
    let t = ask_question(s, room_id, cfg, is_admin, now, text).0;
    if t != s {
        let id = (s.next_question_id + 1) as u64;
        let q = new_question(id, text);
        if cfg.moderated && !is_admin {
            assert(t.pending_questions == s.pending_questions.push(q));
        } else {
            assert(t.questions == s.questions.push(q));
            lemma_pushed_question(s, t, q);
        }
    }
}

/// A question that enters with a new id has no votes yet.
proof fn lemma_pushed_question(s: RoomView, t: RoomView, q: QuestionView)
    requires
        votes_counted(s),
        !has_id(s.questions, q.id),
        q.votes == 0,
        t.questions == s.questions.push(q),
        t.question_voters == s.question_voters,
    ensures
        votes_counted(t),
{
    assert forall|id: u64| #[trigger] t.question_voters.contains_key(id) implies has_id(
        t.questions,
        id,
    ) && t.question_voters[id].finite() by {
        assert(s.question_voters.contains_key(id));
        let i = choose|i: int| 0 <= i < s.questions.len() && (#[trigger] s.questions[i]).id == id;
        assert(t.questions[i].id == id);
    }
    assert forall|i: int| 0 <= i < t.questions.len() implies ({
        let p = #[trigger] t.questions[i];
        p.votes == voters_of(t.question_voters, p.id).len()
    }) by {
        if i < s.questions.len() {
            assert(s.questions[i] == t.questions[i]);
        } else {
            assert(!s.question_voters.contains_key(q.id));
        }
    }
}

proof fn lemma_react_consistent(
    s: RoomView,
    room_id: Seq<char>,
    cfg: RoomConfig,
    who: Seq<char>,
    id: u64,
    emoji: Seq<char>,
)
    requires
        consistent(s, cfg),
        can_grow(s),
    ensures
        consistent(react(s, room_id, who, id, emoji).0, cfg),
{
    let t = react(s, room_id, who, id, emoji).0;
    lemma_find(s.messages, id);
    if is_reaction(emoji) && find_id(s.messages, id) is Some {
        let i = find_id(s.messages, id)->0;
        let key = (id, emoji);
        let users = users_of(s.reaction_users, id, emoji);
        let after = if users.contains(who) {
            users.remove(who)
        } else {
            users.insert(who)
        };
        assert(users.finite() && users.len() < u32::MAX);
        assert(after.finite() && after.len() <= u32::MAX);
        assert(s.messages[i].id == id);
        assert(t.messages.len() == s.messages.len());
        assert(forall|j: int|
            0 <= j < s.messages.len() && j != i ==> #[trigger] t.messages[j] == s.messages[j]);
        assert(ids_in_order(t));
        assert(!has_id(s.pending_messages, id));
        assert forall|k: (u64, Seq<char>)| #[trigger] t.reaction_users.contains_key(k) implies {
            &&& t.reaction_users[k].finite()
            &&& 0 < t.reaction_users[k].len() <= u32::MAX
            &&& k.0 <= t.next_msg_id
            &&& !has_id(t.pending_messages, k.0)
        } by {
            if k != key {
                assert(s.reaction_users.contains_key(k));
            }
        }
        assert forall|j: int, e: Seq<char>| 0 <= j < t.messages.len() implies (
        #[trigger] t.messages[j].reactions.contains_key(e) <==> t.reaction_users.contains_key(
            (t.messages[j].id, e),
        )) by {
            assert(s.messages[j].reactions.contains_key(e) <==> s.reaction_users.contains_key(
                (s.messages[j].id, e),
            ));
            if j != i {
                assert(s.messages[j].id != id);
            }
        }
        assert forall|j: int, e: Seq<char>|
            0 <= j < t.messages.len() && #[trigger] t.messages[j].reactions.contains_key(
                e,
            ) implies t.messages[j].reactions[e] == t.reaction_users[(
            t.messages[j].id,
            e,
        )].len() by {
            if j != i {
                assert(s.messages[j].id != id);
                assert(s.messages[j].reactions.contains_key(e));
            } else if e != emoji {
                assert(s.messages[j].reactions.contains_key(e));
            }
        }
    }
}

proof fn lemma_vote_consistent(
    s: RoomView,
    room_id: Seq<char>,
    cfg: RoomConfig,
    who: Seq<char>,
    is_admin: bool,
    now: u64,
    id: u64,
)
    requires
        consistent(s, cfg),
        can_grow(s),
    ensures
        consistent(vote(s, room_id, who, is_admin, now, id).0, cfg),
{
    let t = vote(s, room_id, who, is_admin, now, id).0;
    lemma_find(s.questions, id);
    if t != s {
        let i = find_id(s.questions, id)->0;
        let voters = voters_of(s.question_voters, id);
        assert(s.questions[i].id == id);
        assert(s.questions[i].votes == voters.len());
        assert(voters.finite());
        assert(s.questions[i].votes < u32::MAX);
        assert(t.questions.len() == s.questions.len());
        assert(forall|j: int|
            0 <= j < s.questions.len() && j != i ==> #[trigger] t.questions[j] == s.questions[j]);
        assert(t.questions[i].id == id && t.questions[i].text == s.questions[i].text
            && t.questions[i].pinned == s.questions[i].pinned);
        assert(votes_counted(t)) by {
            assert forall|k: u64| #[trigger] t.question_voters.contains_key(k) implies has_id(
                t.questions,
                k,
            ) && t.question_voters[k].finite() by {
                if k == id {
                    assert(t.questions[i].id == k);
                } else {
                    assert(s.question_voters.contains_key(k));
                    let j = choose|j: int|
                        0 <= j < s.questions.len() && (#[trigger] s.questions[j]).id == k;
                    assert(t.questions[j].id == k);
                }
            }
            assert forall|j: int| 0 <= j < t.questions.len() implies ({
                let q = #[trigger] t.questions[j];
                q.votes == voters_of(t.question_voters, q.id).len()
            }) by {
                if j != i {
                    assert(s.questions[j].id != id);
                    assert(t.questions[j] == s.questions[j]);
                }
            }
        }
    }
}

/// One more vote for an answer is one more vote in all.
proof fn lemma_total_voted(options: Seq<PollOptionView>, k: int)
    requires
        0 <= k < options.len(),
        options[k].votes < u32::MAX,
    ensures
        total_votes(
            options.update(
                k,
                PollOptionView { votes: (options[k].votes + 1) as u32, ..options[k] },
            ),
        ) == total_votes(options) + 1,
    decreases options.len(),
{
    let more = PollOptionView { votes: (options[k].votes + 1) as u32, ..options[k] };
    let t = options.update(k, more);
    if k < options.len() - 1 {
        lemma_total_voted(options.drop_last(), k);
        assert(t.drop_last() == options.drop_last().update(k, more));
    } else {
        assert(t.drop_last() == options.drop_last());
    }
}

/// A poll starts without votes.
proof fn lemma_total_none(options: Seq<PollOptionView>)
    requires
        forall|i: int| 0 <= i < options.len() ==> (#[trigger] options[i]).votes == 0,
    ensures
        total_votes(options) == 0,
    decreases options.len(),
{
    if options.len() > 0 {
        lemma_total_none(options.drop_last());
    }
}

proof fn lemma_poll_vote_consistent(
    s: RoomView,
    room_id: Seq<char>,
    cfg: RoomConfig,
    who: Seq<char>,
    is_admin: bool,
    now: u64,
    id: u64,
    option: usize,
)
    requires
        consistent(s, cfg),
        can_grow(s),
    ensures
        consistent(vote_in_poll(s, room_id, who, is_admin, now, id, option).0, cfg),
{
    let t = vote_in_poll(s, room_id, who, is_admin, now, id, option).0;
    lemma_find(s.polls, id);
    if t != s {
        let i = find_id(s.polls, id)->0;
        let voters = voters_of(s.poll_voters, id);
        assert(s.polls[i].id == id);
        assert(voters.finite());
        assert(s.polls[i].options[option as int].votes < u32::MAX);
        lemma_total_voted(s.polls[i].options, option as int);
        assert(t.polls.len() == s.polls.len());
        assert(forall|j: int|
            0 <= j < s.polls.len() && j != i ==> #[trigger] t.polls[j] == s.polls[j]);
        assert(polls_counted(t)) by {
            assert forall|k: u64| #[trigger] t.poll_voters.contains_key(k) implies has_id(
                t.polls,
                k,
            ) && t.poll_voters[k].finite() by {
                if k == id {
                    assert(t.polls[i].id == k);
                } else {
                    assert(s.poll_voters.contains_key(k));
                    let j = choose|j: int|
                        0 <= j < s.polls.len() && (#[trigger] s.polls[j]).id == k;
                    assert(t.polls[j].id == k);
                }
            }
            assert forall|j: int| 0 <= j < t.polls.len() implies ({
                let p = #[trigger] t.polls[j];
                total_votes(p.options) == voters_of(t.poll_voters, p.id).len()
            }) by {
                assert(total_votes(s.polls[j].options) == voters_of(
                    s.poll_voters,
                    s.polls[j].id,
                ).len());
                if j != i {
                    assert(s.polls[j].id != id);
                }
            }
        }
    }
}

proof fn lemma_create_poll_consistent(
    s: RoomView,
    room_id: Seq<char>,
    cfg: RoomConfig,
    question: Seq<char>,
    options: Seq<Seq<char>>,
)
    requires
        consistent(s, cfg),
        can_grow(s),
    ensures
        consistent(create_poll(s, room_id, question, options).0, cfg),
{
    let t = create_poll(s, room_id, question, options).0;
    if t != s {
        let id = (s.next_poll_id + 1) as u64;
        let p = new_poll(id, question, options);
        lemma_total_none(p.options);
        assert(t.polls == s.polls.push(p));
        assert(polls_counted(t)) by {
            assert forall|k: u64| #[trigger] t.poll_voters.contains_key(k) implies has_id(
                t.polls,
                k,
            ) && t.poll_voters[k].finite() by {
                assert(s.poll_voters.contains_key(k));
                let j = choose|j: int| 0 <= j < s.polls.len() && (#[trigger] s.polls[j]).id == k;
                assert(t.polls[j].id == k);
            }
            assert forall|j: int| 0 <= j < t.polls.len() implies ({
                let p = #[trigger] t.polls[j];
                total_votes(p.options) == voters_of(t.poll_voters, p.id).len()
            }) by {
                if j < s.polls.len() {
                    assert(t.polls[j] == s.polls[j]);
                } else {
                    assert(!s.poll_voters.contains_key(id));
                }
            }
        }
    }
}

/// A pending message that leaves the queue leaves the rest as it was.
proof fn lemma_dequeued_message(s: RoomView, id: u64, cfg: RoomConfig)
    requires
        consistent(s, cfg),
    ensures
        consistent(RoomView { pending_messages: without(s.pending_messages, id), ..s }, cfg),
{
    let t = RoomView { pending_messages: without(s.pending_messages, id), ..s };
    lemma_without(s.pending_messages, id);
    lemma_without_distinct(s.pending_messages, id);
    assert forall|i: int| 0 <= i < t.pending_messages.len() implies exists|j: int|
        0 <= j < s.pending_messages.len() && #[trigger] s.pending_messages[j] == (
        #[trigger] t.pending_messages[i]) by {
        assert(s.pending_messages.contains(t.pending_messages[i]));
    }
    assert(ids_in_order(t));
    assert(pending_untouched(t));
    assert(votes_counted(t)) by {
        assert(s.question_voters == t.question_voters && s.questions == t.questions);
    }
    assert(polls_counted(t)) by {
        assert(s.poll_voters == t.poll_voters && s.polls == t.polls);
    }
    assert(reactions_counted(t)) by {
        assert forall|k: (u64, Seq<char>)| #[trigger] t.reaction_users.contains_key(k) implies {
            &&& t.reaction_users[k].finite()
            &&& 0 < t.reaction_users[k].len() <= u32::MAX
            &&& k.0 <= t.next_msg_id
            &&& !has_id(t.pending_messages, k.0)
        } by {
            assert(s.reaction_users.contains_key(k));
        }
        assert forall|i: int, e: Seq<char>| 0 <= i < t.messages.len() implies (
        #[trigger] t.messages[i].reactions.contains_key(e) <==> t.reaction_users.contains_key(
            (t.messages[i].id, e),
        )) by {
            assert(s.messages[i].reactions.contains_key(e) <==> s.reaction_users.contains_key(
                (s.messages[i].id, e),
            ));
        }
    }
    assert(within_limits(t, cfg));
}

proof fn lemma_approve_message_consistent(
    s: RoomView,
    room_id: Seq<char>,
    cfg: RoomConfig,
    id: u64,
)
    requires
        consistent(s, cfg),
    ensures
        consistent(approve_message(s, room_id, cfg, id).0, cfg),
{
    let t = approve_message(s, room_id, cfg, id).0;
    lemma_find(s.pending_messages, id);
    if find_id(s.pending_messages, id) is Some {
        let i = find_id(s.pending_messages, id)->0;
        let m = s.pending_messages[i];
        lemma_without_one(s.pending_messages, id, i);
        lemma_without_distinct(s.pending_messages, id);
        lemma_dequeued_message(s, id, cfg);
        let left = RoomView { pending_messages: s.pending_messages.remove(i), ..s };
        let bare = RoomView { messages: Seq::empty(), ..left };
        let all = s.messages.push(m);
        assert(has_id(s.pending_messages, id));
        assert(consistent(left, cfg));
        assert(consistent(bare, cfg)) by {
            lemma_no_history(left, cfg);
        }
        assert(distinct_ids(all));
        assert(disjoint_ids(all, left.pending_messages)) by {
            assert forall|a: int, b: int|
                0 <= a < all.len() && 0 <= b < left.pending_messages.len() implies (
            #[trigger] all[a]).id != (#[trigger] left.pending_messages[b]).id by {
                if a < s.messages.len() {
                    assert(left.messages[a].id != left.pending_messages[b].id);
                } else if left.pending_messages[b].id == id {
                    assert(has_id(left.pending_messages, id));
                }
            }
        }
        assert forall|j: int, e: Seq<char>| 0 <= j < all.len() implies (
        #[trigger] all[j].reactions.contains_key(e) <==> left.reaction_users.contains_key(
            (all[j].id, e),
        )) by {
            if j < s.messages.len() {
                assert(s.messages[j].reactions.contains_key(e) <==> s.reaction_users.contains_key(
                    (s.messages[j].id, e),
                ));
            } else {
                if s.reaction_users.contains_key((m.id, e)) {
                    assert(!has_id(s.pending_messages, m.id));
                }
            }
        }
        assert forall|j: int, e: Seq<char>|
            0 <= j < all.len() && #[trigger] all[j].reactions.contains_key(
                e,
            ) implies all[j].reactions[e] == left.reaction_users[(all[j].id, e)].len() by {
            assert(s.messages[j].reactions.contains_key(e));
        }
        lemma_trimmed_consistent(left, all, cfg);
    }
}

/// A room without its messages is still consistent.
proof fn lemma_no_history(s: RoomView, cfg: RoomConfig)
    requires
        consistent(s, cfg),
    ensures
        consistent(RoomView { messages: Seq::empty(), ..s }, cfg),
{
    let t = RoomView { messages: Seq::empty(), ..s };
    assert(votes_counted(t)) by {
        assert(s.question_voters == t.question_voters && s.questions == t.questions);
    }
    assert(polls_counted(t)) by {
        assert(s.poll_voters == t.poll_voters && s.polls == t.polls);
    }
    assert(reactions_counted(t)) by {
        assert forall|k: (u64, Seq<char>)| #[trigger] t.reaction_users.contains_key(k) implies {
            &&& t.reaction_users[k].finite()
            &&& 0 < t.reaction_users[k].len() <= u32::MAX
            &&& k.0 <= t.next_msg_id
            &&& !has_id(t.pending_messages, k.0)
        } by {
            assert(s.reaction_users.contains_key(k));
        }
    }
}

proof fn lemma_delete_message_consistent(s: RoomView, room_id: Seq<char>, cfg: RoomConfig, id: u64)
    requires
        consistent(s, cfg),
    ensures
        consistent(delete_message(s, room_id, id).0, cfg),
{
    let t = delete_message(s, room_id, id).0;
    lemma_without(s.messages, id);
    lemma_without_distinct(s.messages, id);
    s.messages.lemma_filter_len(|x: MessageView| crate::list::HasId::id_of(x) != id);
    assert forall|i: int| 0 <= i < t.messages.len() implies t.messages[i].id != id && exists|
        j: int,
    |
        0 <= j < s.messages.len() && #[trigger] s.messages[j] == (#[trigger] t.messages[i]) by {
        assert(s.messages.contains(t.messages[i]));
    }
    assert(ids_in_order(t));
    assert(votes_counted(t)) by {
        assert(s.question_voters == t.question_voters && s.questions == t.questions);
    }
    assert(polls_counted(t)) by {
        assert(s.poll_voters == t.poll_voters && s.polls == t.polls);
    }
    assert(reactions_counted(t)) by {
        assert forall|k: (u64, Seq<char>)| #[trigger] t.reaction_users.contains_key(k) implies {
            &&& t.reaction_users[k].finite()
            &&& 0 < t.reaction_users[k].len() <= u32::MAX
            &&& k.0 <= t.next_msg_id
            &&& !has_id(t.pending_messages, k.0)
        } by {
            assert(s.reaction_users.contains_key(k));
        }
        assert forall|i: int, e: Seq<char>| 0 <= i < t.messages.len() implies (
        #[trigger] t.messages[i].reactions.contains_key(e) <==> t.reaction_users.contains_key(
            (t.messages[i].id, e),
        )) by {
            let j = choose|j: int|
                0 <= j < s.messages.len() && #[trigger] s.messages[j] == t.messages[i];
            assert(s.messages[j].reactions.contains_key(e) <==> s.reaction_users.contains_key(
                (s.messages[j].id, e),
            ));
        }
        assert forall|i: int, e: Seq<char>|
            0 <= i < t.messages.len() && #[trigger] t.messages[i].reactions.contains_key(
                e,
            ) implies t.messages[i].reactions[e] == t.reaction_users[(
            t.messages[i].id,
            e,
        )].len() by {
            let j = choose|j: int|
                0 <= j < s.messages.len() && #[trigger] s.messages[j] == t.messages[i];
            assert(s.messages[j].reactions.contains_key(e));
        }
    }
    assert(within_limits(t, cfg));
}

/// A pending question that leaves the queue leaves the rest as it was.
proof fn lemma_dequeued_question(s: RoomView, id: u64, cfg: RoomConfig)
    requires
        consistent(s, cfg),
    ensures
        consistent(RoomView { pending_questions: without(s.pending_questions, id), ..s }, cfg),
{
    let t = RoomView { pending_questions: without(s.pending_questions, id), ..s };
    lemma_without(s.pending_questions, id);
    lemma_without_distinct(s.pending_questions, id);
    assert forall|i: int| 0 <= i < t.pending_questions.len() implies exists|j: int|
        0 <= j < s.pending_questions.len() && #[trigger] s.pending_questions[j] == (
        #[trigger] t.pending_questions[i]) by {
        assert(s.pending_questions.contains(t.pending_questions[i]));
    }
    assert(ids_in_order(t));
    assert(pending_untouched(t));
    lemma_same_books(s, t);
    assert(within_limits(t, cfg));
}

/// Where the boards and the books are the same, the counts are.
proof fn lemma_same_books(s: RoomView, t: RoomView)
    requires
        votes_counted(s),
        polls_counted(s),
        reactions_counted(s),
        t.questions == s.questions,
        t.question_voters == s.question_voters,
        t.polls == s.polls,
        t.poll_voters == s.poll_voters,
        t.messages == s.messages,
        t.pending_messages == s.pending_messages,
        t.reaction_users == s.reaction_users,
        t.next_msg_id == s.next_msg_id,
    ensures
        votes_counted(t),
        polls_counted(t),
        reactions_counted(t),
{
}

proof fn lemma_approve_question_consistent(
    s: RoomView,
    room_id: Seq<char>,
    cfg: RoomConfig,
    id: u64,
)
    requires
        consistent(s, cfg),
    ensures
        consistent(approve_question(s, room_id, id).0, cfg),
{
    let t = approve_question(s, room_id, id).0;
    lemma_find(s.pending_questions, id);
    if find_id(s.pending_questions, id) is Some {
        let i = find_id(s.pending_questions, id)->0;
        let q = s.pending_questions[i];
        lemma_without_one(s.pending_questions, id, i);
        lemma_without_distinct(s.pending_questions, id);
        lemma_dequeued_question(s, id, cfg);
        let left = RoomView { pending_questions: s.pending_questions.remove(i), ..s };
        assert(consistent(left, cfg));
        assert(t.questions == left.questions.push(q));
        assert(!has_id(s.questions, id)) by {
            if has_id(s.questions, id) {
                let a = choose|a: int|
                    0 <= a < s.questions.len() && (#[trigger] s.questions[a]).id == id;
                assert(s.questions[a].id != s.pending_questions[i].id);
            }
        }
        assert(ids_in_order(t)) by {
            assert forall|a: int, b: int|
                0 <= a < t.questions.len() && 0 <= b < t.pending_questions.len() implies (
            #[trigger] t.questions[a]).id != (#[trigger] t.pending_questions[b]).id by {
                if a < s.questions.len() {
                    assert(left.questions[a].id != left.pending_questions[b].id);
                } else if left.pending_questions[b].id == id {
                    assert(has_id(left.pending_questions, id));
                }
            }
            assert forall|a: int, b: int| 0 <= a < b < t.questions.len() implies (
            #[trigger] t.questions[a]).id != (#[trigger] t.questions[b]).id by {
                if b == s.questions.len() && t.questions[a].id == id {
                    assert(s.questions[a].id == id);
                }
            }
        }
        lemma_pushed_question(left, t, q);
        assert(polls_counted(t)) by {
            assert(s.poll_voters == t.poll_voters && s.polls == t.polls);
        }
        assert(reactions_counted(t)) by {
            lemma_same_books(left, RoomView { questions: left.questions, ..t });
        }
        assert(one_pinned(t));
        assert(within_limits(t, cfg));
    }
}

/// Where only pins and marks of questions change, everything else holds on.
proof fn lemma_marked_questions(s: RoomView, questions: Seq<QuestionView>, cfg: RoomConfig)
    requires
        consistent(s, cfg),
        questions.len() == s.questions.len(),
        forall|i: int|
            0 <= i < questions.len() ==> {
                let q = #[trigger] questions[i];
                &&& q.id == s.questions[i].id
                &&& q.text == s.questions[i].text
                &&& q.votes == s.questions[i].votes
            },
        forall|i: int, j: int|
            0 <= i < j < questions.len() ==> !((#[trigger] questions[i]).pinned && (
            #[trigger] questions[j]).pinned),
    ensures
        consistent(RoomView { questions, ..s }, cfg),
{
    let t = RoomView { questions, ..s };
    assert(ids_in_order(t)) by {
        assert forall|i: int, j: int| 0 <= i < j < questions.len() implies (
        #[trigger] questions[i]).id != (#[trigger] questions[j]).id by {
            assert(s.questions[i].id != s.questions[j].id);
        }
        assert forall|i: int, j: int|
            0 <= i < questions.len() && 0 <= j < s.pending_questions.len() implies (
        #[trigger] questions[i]).id != (#[trigger] s.pending_questions[j]).id by {
            assert(s.questions[i].id != s.pending_questions[j].id);
        }
        assert forall|i: int| 0 <= i < questions.len() implies (#[trigger] questions[i]).id
            <= s.next_question_id by {
            assert(s.questions[i].id <= s.next_question_id);
        }
    }
    assert(votes_counted(t)) by {
        assert forall|id: u64| #[trigger] t.question_voters.contains_key(id) implies has_id(
            t.questions,
            id,
        ) && t.question_voters[id].finite() by {
            assert(s.question_voters.contains_key(id));
            let i = choose|i: int|
                0 <= i < s.questions.len() && (#[trigger] s.questions[i]).id == id;
            assert(t.questions[i].id == id);
        }
        assert forall|i: int| 0 <= i < t.questions.len() implies ({
            let q = #[trigger] t.questions[i];
            q.votes == voters_of(t.question_voters, q.id).len()
        }) by {
            assert(s.questions[i].votes == voters_of(
                s.question_voters,
                s.questions[i].id,
            ).len());
        }
    }
    lemma_same_books(s, RoomView { questions: s.questions, ..t });
    assert(polls_counted(t)) by {
        assert(s.poll_voters == t.poll_voters && s.polls == t.polls);
    }
    assert(reactions_counted(t));
    assert(within_limits(t, cfg)) by {
        assert forall|i: int| 0 <= i < questions.len() implies postable(
            (#[trigger] questions[i]).text,
            cfg,
        ) by {
            assert(postable(s.questions[i].text, cfg));
        }
    }
}

proof fn lemma_dismiss_consistent(s: RoomView, room_id: Seq<char>, cfg: RoomConfig, id: u64)
    requires
        consistent(s, cfg),
    ensures
        consistent(dismiss_question(s, room_id, id).0, cfg),
{
    let t = dismiss_question(s, room_id, id).0;
    lemma_without(s.questions, id);
    lemma_without_distinct(s.questions, id);
    lemma_find(s.questions, id);
    match find_id(s.questions, id) {
        Some(i) => {
            lemma_without_one(s.questions, id, i);
            assert forall|k: int| 0 <= k < t.questions.len() implies #[trigger] t.questions[k]
                == s.questions[if k < i {
                k
            } else {
                k + 1
            }] by {}
        },
        None => {
            assert(!has_id(s.questions, id));
            crate::list::lemma_without_absent(s.questions, id);
        },
    }
    assert forall|i: int| 0 <= i < t.questions.len() implies t.questions[i].id != id && exists|
        j: int,
    |
        0 <= j < s.questions.len() && #[trigger] s.questions[j] == (#[trigger] t.questions[i]) by {
        assert(s.questions.contains(t.questions[i]));
    }
    assert(ids_in_order(t));
    assert(votes_counted(t)) by {
        assert forall|k: u64| #[trigger] t.question_voters.contains_key(k) implies has_id(
            t.questions,
            k,
        ) && t.question_voters[k].finite() by {
            assert(s.question_voters.contains_key(k));
            assert(has_id(s.questions, k));
        }
        assert forall|i: int| 0 <= i < t.questions.len() implies ({
            let q = #[trigger] t.questions[i];
            q.votes == voters_of(t.question_voters, q.id).len()
        }) by {
            let j = choose|j: int|
                0 <= j < s.questions.len() && #[trigger] s.questions[j] == t.questions[i];
            assert(s.questions[j].votes == voters_of(
                s.question_voters,
                s.questions[j].id,
            ).len());
        }
    }
    assert(polls_counted(t)) by {
        assert(s.poll_voters == t.poll_voters && s.polls == t.polls);
    }
    assert(reactions_counted(t)) by {
        lemma_same_books(
            s,
            RoomView { questions: s.questions, question_voters: s.question_voters, ..t },
        );
    }
    assert(one_pinned(t));
    assert(within_limits(t, cfg));
}

proof fn lemma_close_poll_consistent(s: RoomView, cfg: RoomConfig, id: u64)
    requires
        consistent(s, cfg),
    ensures
        consistent(RoomView { polls: poll_closed(s.polls, id), ..s }, cfg),
{
    let t = RoomView { polls: poll_closed(s.polls, id), ..s };
    lemma_find(s.polls, id);
    assert(t.polls.len() == s.polls.len());
    assert(forall|i: int|
        0 <= i < t.polls.len() ==> (#[trigger] t.polls[i]).id == s.polls[i].id
            && t.polls[i].options == s.polls[i].options && t.polls[i].question
            == s.polls[i].question);
    assert(ids_in_order(t));
    assert(polls_counted(t)) by {
        assert forall|k: u64| #[trigger] t.poll_voters.contains_key(k) implies has_id(t.polls, k)
            && t.poll_voters[k].finite() by {
            assert(s.poll_voters.contains_key(k));
            let j = choose|j: int| 0 <= j < s.polls.len() && (#[trigger] s.polls[j]).id == k;
            assert(t.polls[j].id == k);
        }
        assert forall|j: int| 0 <= j < t.polls.len() implies ({
            let p = #[trigger] t.polls[j];
            total_votes(p.options) == voters_of(t.poll_voters, p.id).len()
        }) by {
            assert(total_votes(s.polls[j].options) == voters_of(
                s.poll_voters,
                s.polls[j].id,
            ).len());
        }
    }
    lemma_same_books(s, RoomView { polls: s.polls, ..t });
    assert(votes_counted(t)) by {
        assert(s.question_voters == t.question_voters && s.questions == t.questions);
    }
    assert(within_limits(t, cfg));
}

proof fn lemma_delete_poll_consistent(s: RoomView, room_id: Seq<char>, cfg: RoomConfig, id: u64)
    requires
        consistent(s, cfg),
    ensures
        consistent(delete_poll(s, room_id, id).0, cfg),
{
    let t = delete_poll(s, room_id, id).0;
    lemma_without(s.polls, id);
    lemma_without_distinct(s.polls, id);
    assert forall|i: int| 0 <= i < t.polls.len() implies t.polls[i].id != id && exists|j: int|
        0 <= j < s.polls.len() && #[trigger] s.polls[j] == (#[trigger] t.polls[i]) by {
        assert(s.polls.contains(t.polls[i]));
    }
    assert(ids_in_order(t));
    assert(polls_counted(t)) by {
        assert forall|k: u64| #[trigger] t.poll_voters.contains_key(k) implies has_id(t.polls, k)
            && t.poll_voters[k].finite() by {
            assert(s.poll_voters.contains_key(k));
            assert(has_id(s.polls, k));
        }
        assert forall|i: int| 0 <= i < t.polls.len() implies ({
            let p = #[trigger] t.polls[i];
            total_votes(p.options) == voters_of(t.poll_voters, p.id).len()
        }) by {
            let j = choose|j: int|
                0 <= j < s.polls.len() && #[trigger] s.polls[j] == t.polls[i];
            assert(total_votes(s.polls[j].options) == voters_of(
                s.poll_voters,
                s.polls[j].id,
            ).len());
        }
    }
    lemma_same_books(s, RoomView { polls: s.polls, poll_voters: s.poll_voters, ..t });
    assert(votes_counted(t)) by {
        assert(s.question_voters == t.question_voters && s.questions == t.questions);
    }
    assert(within_limits(t, cfg));
}

// ── Altogether ──────────────────────────────────────────────────────────────

/// Whatever is done in a consistent room leaves it consistent.
pub proof fn law_perform_consistent(
    s: RoomView,
    room_id: Seq<char>,
    cfg: RoomConfig,
    who: Seq<char>,
    is_admin: bool,
    now: u64,
    a: ActionView,
)
    requires
        consistent(s, cfg),
        can_grow(s),
    ensures
        consistent(perform(s, room_id, cfg, who, is_admin, now, a).0, cfg),
{
    let t = perform(s, room_id, cfg, who, is_admin, now, a).0;
    match a {
        ActionView::Message { text } => {
            lemma_send_consistent(s, room_id, cfg, who, is_admin, now, text);
        },
        ActionView::Reaction { message_id, emoji } => {
            lemma_react_consistent(s, room_id, cfg, who, message_id, emoji);
        },
        ActionView::Question { text } => {
            lemma_ask_consistent(s, room_id, cfg, is_admin, now, text);
        },
        ActionView::Vote { question_id } => {
            lemma_vote_consistent(s, room_id, cfg, who, is_admin, now, question_id);
        },
        ActionView::PollVote { poll_id, option_index } => {
            lemma_poll_vote_consistent(
                s,
                room_id,
                cfg,
                who,
                is_admin,
                now,
                poll_id,
                option_index,
            );
        },
        ActionView::ApproveMessage { message_id } => {
            lemma_approve_message_consistent(s, room_id, cfg, message_id);
        },
        ActionView::RejectMessage { message_id } => {
            lemma_dequeued_message(s, message_id, cfg);
        },
        ActionView::ApproveQuestion { question_id } => {
            lemma_approve_question_consistent(s, room_id, cfg, question_id);
        },
        ActionView::RejectQuestion { question_id } => {
            lemma_dequeued_question(s, question_id, cfg);
        },
        ActionView::Lock { locked, duration_seconds } => {
            lemma_same_books(s, t);
        },
        ActionView::DeleteMessage { message_id } => {
            lemma_delete_message_consistent(s, room_id, cfg, message_id);
        },
        ActionView::PinQuestion { question_id } => {
            assert forall|i: int, j: int| 0 <= i < j < t.questions.len() implies !((
            #[trigger] t.questions[i]).pinned && (#[trigger] t.questions[j]).pinned) by {
                assert(s.questions[i].id != s.questions[j].id);
            }
            lemma_marked_questions(s, t.questions, cfg);
        },
        ActionView::AnswerQuestion { question_id } => {
            lemma_find(s.questions, question_id);
            assert(t.questions.len() == s.questions.len());
            assert forall|i: int, j: int| 0 <= i < j < t.questions.len() implies !((
            #[trigger] t.questions[i]).pinned && (#[trigger] t.questions[j]).pinned) by {
                assert(!(s.questions[i].pinned && s.questions[j].pinned));
            }
            lemma_marked_questions(s, t.questions, cfg);
        },
        ActionView::DismissQuestion { question_id } => {
            lemma_dismiss_consistent(s, room_id, cfg, question_id);
        },
        ActionView::CreatePoll { question, options } => {
            lemma_create_poll_consistent(s, room_id, cfg, question, options);
        },
        ActionView::ClosePoll { poll_id } => {
            lemma_close_poll_consistent(s, cfg, poll_id);
        },
        ActionView::DeletePoll { poll_id } => {
            lemma_delete_poll_consistent(s, room_id, cfg, poll_id);
        },
        _ => {},
    }
}

/// Whatever a client sends, it leaves a consistent room consistent.
pub proof fn law_handle_consistent(
    s: RoomView,
    room_id: Seq<char>,
    cfg: RoomConfig,
    who: Seq<char>,
    is_admin: bool,
    is_display: bool,
    now: u64,
    frame: Option<JsonView>,
)
    requires
        consistent(s, cfg),
        can_grow(s),
    ensures
        consistent(handle(s, room_id, cfg, who, is_admin, is_display, now, frame).0, cfg),
{
    if let Some(f) = frame {
        law_perform_consistent(
            s,
            room_id,
            cfg,
            who,
            is_admin,
            now,
            decode_action(frame_kind(f), frame_payload(f)),
        );
    }
}

/// A timer that runs out leaves a consistent room consistent.
pub proof fn law_auto_unlock_consistent(s: RoomView, cfg: RoomConfig, epoch: u64)
    requires
        consistent(s, cfg),
    ensures
        consistent(auto_unlock(s, epoch).0, cfg),
{
    lemma_same_books(s, auto_unlock(s, epoch).0);
}

/// Clients that join, connect or leave keep a consistent room consistent.
pub proof fn law_presence_consistent(
    s: RoomView,
    cfg: RoomConfig,
    sessions: Set<Seq<char>>,
    participants: usize,
)
    requires
        consistent(s, cfg),
    ensures
        consistent(RoomView { sessions, participants, ..s }, cfg),
{
    lemma_same_books(s, RoomView { sessions, participants, ..s });
}

} // verus!
