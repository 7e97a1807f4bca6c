//! What clients and presenters can rely on, whatever happens: who may do what,
//! what one action undoes of another, and what rooms and the server promise.

use vstd::prelude::*;

use crate::auth::{password_fits, HashError};
use crate::config::{clamped, clamped_rate, MAX_RATE_LIMIT_SECONDS};
use crate::consistency::{can_grow, consistent};
use crate::db::{apply_rows, replayed, row_of, EventRowView};
use crate::event::{apply, new_message, EventView};
use crate::handlers::{
    admitted, creations_of, display_prefix, first_free, issued_token, joining, knows_password,
    lemma_recent_twice, may_create, missing, open_room, recent_creations, reconnects, surviving,
    viewing, CreateRoomReq, JoinReq, ReplyView,
};
use crate::json::JsonView;
use crate::list::{find_id, is_first, keep_last, lemma_find, lemma_find_at, HasId};
use crate::outside::{hex_digit, hex_text, white_space};
use crate::recovery::applied;
use crate::socket::{
    admission, caller_of, carried_token, entered, handle_client, left, listed_protocols,
    offered_protocol, pump, token_prefix, unlock_client, AdmissionView, CallerView, Pump, PumpInput,
    PumpStep,
};
use crate::state::{
    empty_room, seconds_after, voters_of, AppView, MessageView, RoomConfig, RoomModel, RoomView,
};
use crate::text::{has_prefix, pieces, trimmed};
use crate::wire::{event, message_json};
use crate::ws::{
    approve_message, ask_question, auto_unlock, frame_kind, handle, ignored, is_pinned, is_reaction,
    perform, pin_question, react, refused, role_of, send_message, set_lock, too_soon, users_of,
    vote, vote_in_poll, ActionView, EffectView, MAX_LOCK_SECONDS,
};

verus! {

// ── Who may do what ─────────────────────────────────────────────────────────

/// Display windows change nothing, and nobody else hears of what they send.
pub proof fn law_displays_change_nothing(
    s: RoomView,
    room_id: Seq<char>,
    cfg: RoomConfig,
    who: Seq<char>,
    is_admin: bool,
    now: u64,
    frame: Option<JsonView>,
)
    ensures
        ({
            let step = handle(s, room_id, cfg, who, is_admin, true, now, frame);
            &&& step.0 == s
            &&& forall|i: int| 0 <= i < step.1.len() ==> (#[trigger] step.1[i]) is Reply
        }),
{
}

/// Whoever is not admin is refused every admin action, whatever its payload.
pub proof fn law_admin_actions_refused(
    s: RoomView,
    room_id: Seq<char>,
    cfg: RoomConfig,
    who: Seq<char>,
    now: u64,
    frame: JsonView,
)
    requires
        has_prefix(frame_kind(frame), "admin_"@),
    ensures
        handle(s, room_id, cfg, who, false, false, now, Some(frame)) == refused(
            s,
            "forbidden"@,
            "admin token required"@,
        ),
{
}

/// In a locked room, what users write, ask or vote changes nothing.
pub proof fn law_lock_blocks_users(
    s: RoomView,
    room_id: Seq<char>,
    cfg: RoomConfig,
    who: Seq<char>,
    now: u64,
    a: ActionView,
)
    requires
        s.locked_at(now),
        a is Message || a is Question || a is Vote || a is PollVote,
    ensures
        perform(s, room_id, cfg, who, false, now, a).0 == s,
{
}

/// A lock does not hold back admins: what they do in a locked room they do in
/// the same room unlocked.
pub proof fn law_lock_spares_admins(
    s: RoomView,
    room_id: Seq<char>,
    cfg: RoomConfig,
    who: Seq<char>,
    now: u64,
    a: ActionView,
)
    requires
        a is Message || a is Question || a is Vote || a is PollVote,
    ensures
        ({
            let open = RoomView { locked: false, ..s };
            let step = perform(s, room_id, cfg, who, true, now, a);
            let free = perform(open, room_id, cfg, who, true, now, a);
            &&& step.0 == (RoomView { locked: s.locked, ..free.0 })
            &&& step.1 == free.1
        }),
{
    let open = RoomView { locked: false, ..s };
    assert(s == RoomView { locked: s.locked, ..open });
}

// ── Messages ────────────────────────────────────────────────────────────────

/// Whether a user's text is a message that only the rate limit can hold back.
pub open spec fn sayable(s: RoomView, cfg: RoomConfig, now: u64, text: Seq<char>) -> bool {
    0 < text.len() <= cfg.max_message_length && !s.locked_at(now)
}

/// A user who has just written is told to slow down until the rate limit is
/// over, and can write again from then on.
pub proof fn law_rate_limit(
    s: RoomView,
    room_id: Seq<char>,
    cfg: RoomConfig,
    who: Seq<char>,
    first: u64,
    one: Seq<char>,
    second: u64,
    other: Seq<char>,
)
    requires
        s.next_msg_id < u64::MAX,
        sayable(s, cfg, first, one),
        !too_soon(s, cfg, who, first),
        first <= second,
        sayable(s, cfg, second, other),
    ensures
        ({
            let after = send_message(s, room_id, cfg, who, false, first, one).0;
            let again = send_message(after, room_id, cfg, who, false, second, other);
            if second - first < cfg.rate_limit_ms {
                again == refused(after, "rate_limited"@, "slow down"@)
            } else {
                after.next_msg_id < u64::MAX ==> again.0.next_msg_id == after.next_msg_id + 1
            }
        }),
{
}

/// Users are rate limited one by one: that someone has just written holds back
/// nobody else.
pub proof fn law_rate_limit_per_user(
    s: RoomView,
    room_id: Seq<char>,
    cfg: RoomConfig,
    who: Seq<char>,
    is_admin: bool,
    first: u64,
    text: Seq<char>,
    other: Seq<char>,
    second: u64,
)
    requires
        other != who,
    ensures
        ({
            let after = send_message(s, room_id, cfg, who, is_admin, first, text).0;
            too_soon(after, cfg, other, second) == too_soon(s, cfg, other, second)
        }),
{
}

/// Admins are not rate limited: each of their messages that is not blank nor too
/// long goes out.
pub proof fn law_admins_not_limited(
    s: RoomView,
    room_id: Seq<char>,
    cfg: RoomConfig,
    who: Seq<char>,
    now: u64,
    text: Seq<char>,
)
    requires
        s.next_msg_id < u64::MAX,
        0 < text.len() <= cfg.max_message_length,
    ensures
        ({
            let m = new_message((s.next_msg_id + 1) as u64, role_of(true), text, now);
            let step = send_message(s, room_id, cfg, who, true, now, text);
            &&& step.0.messages == keep_last(s.messages.push(m), cfg.max_messages as nat)
            &&& step.1.first() == EffectView::Broadcast(event("message"@, message_json(m)))
        }),
{
}

/// In a moderated room nobody sees a user's message before an admin has let it
/// through: it is neither among the messages nor sent to everyone.
pub proof fn law_moderation_holds_back(
    s: RoomView,
    room_id: Seq<char>,
    cfg: RoomConfig,
    who: Seq<char>,
    now: u64,
    text: Seq<char>,
)
    requires
        cfg.moderated,
    ensures
        ({
            let sent = send_message(s, room_id, cfg, who, false, now, text);
            let asked = ask_question(s, room_id, cfg, false, now, text);
            &&& sent.0.messages == s.messages
            &&& forall|i: int| 0 <= i < sent.1.len() ==> !((#[trigger] sent.1[i]) is Broadcast)
            &&& asked.0.questions == s.questions
            &&& forall|i: int| 0 <= i < asked.1.len() ==> !((#[trigger] asked.1[i]) is Broadcast)
        }),
{
}

/// A pending message that is let through becomes the last message, as it was
/// sent.
pub proof fn law_approval_publishes(
    s: RoomView,
    room_id: Seq<char>,
    cfg: RoomConfig,
    who: Seq<char>,
    now: u64,
    text: Seq<char>,
)
    requires
        consistent(s, cfg),
        can_grow(s),
        cfg.moderated,
        cfg.max_messages > 0,
        sayable(s, cfg, now, text),
        !too_soon(s, cfg, who, now),
    ensures
        ({
            let id = (s.next_msg_id + 1) as u64;
            let m = new_message(id, role_of(false), text, now);
            let held = send_message(s, room_id, cfg, who, false, now, text).0;
            let shown = approve_message(held, room_id, cfg, id).0;
            &&& held.pending_messages == s.pending_messages.push(m)
            &&& shown.pending_messages == s.pending_messages
            &&& shown.messages == keep_last(s.messages.push(m), cfg.max_messages as nat)
            &&& shown.messages.last() == m
        }),
{
    let id = (s.next_msg_id + 1) as u64;
    let m = new_message(id, role_of(false), text, now);
    let held = send_message(s, room_id, cfg, who, false, now, text).0;
    let i = s.pending_messages.len() as int;
    assert(held.pending_messages[i] == m);
    assert(is_first(held.pending_messages, id, i));
    lemma_find_at(held.pending_messages, id, i);
    assert(held.pending_messages.remove(i) == s.pending_messages);
}

/// What users see of a room does not depend on what is pending.
pub proof fn law_pending_hidden(
    s: RoomView,
    t: RoomView,
    room_id: Seq<char>,
    title: Option<Seq<char>>,
    now: u64,
)
    requires
        s == (RoomView {
            pending_messages: s.pending_messages,
            pending_questions: s.pending_questions,
            ..t
        }),
    ensures
        s.snapshot(room_id, false, title, now) == t.snapshot(room_id, false, title, now),
{
}

// ── Votes and reactions ─────────────────────────────────────────────────────

/// Voting for a question twice takes the vote back.
pub proof fn law_vote_toggles(
    s: RoomView,
    room_id: Seq<char>,
    cfg: RoomConfig,
    who: Seq<char>,
    is_admin: bool,
    now: u64,
    id: u64,
)
    requires
        consistent(s, cfg),
        can_grow(s),
        is_admin || !s.locked_at(now),
    ensures
        ({
            let once = vote(s, room_id, who, is_admin, now, id).0;
            let twice = vote(once, room_id, who, is_admin, now, id).0;
            &&& twice == (RoomView { question_voters: twice.question_voters, ..s })
            &&& forall|k: u64|
                voters_of(twice.question_voters, k) == #[trigger] voters_of(s.question_voters, k)
        }),
{
    let once = vote(s, room_id, who, is_admin, now, id).0;
    let twice = vote(once, room_id, who, is_admin, now, id).0;
    lemma_find(s.questions, id);
    if find_id(s.questions, id) is Some && !s.questions[find_id(s.questions, id)->0].answered {
        let i = find_id(s.questions, id)->0;
        let voters = voters_of(s.question_voters, id);
        assert(s.questions[i].votes == voters.len());
        assert(s.questions[i].votes < u32::MAX);
        assert(voters.finite());
        assert(once.questions[i].id == id);
        assert forall|j: int| 0 <= j < i implies #[trigger] once.questions[j].id != id by {
            assert(s.questions[j].id != id);
        }
        assert(is_first(once.questions, id, i));
        lemma_find_at(once.questions, id, i);
        assert(twice.questions =~= s.questions);
        let back = voters_of(twice.question_voters, id);
        assert(back =~= voters);
        assert forall|k: u64| voters_of(twice.question_voters, k) == #[trigger] voters_of(
            s.question_voters,
            k,
        ) by {
            if k == id {
            }
        }
    }
}

/// A vote counts for one: it changes the votes of a question by one, up or
/// down, and those of no other.
pub proof fn law_vote_counts_once(
    s: RoomView,
    room_id: Seq<char>,
    cfg: RoomConfig,
    who: Seq<char>,
    is_admin: bool,
    now: u64,
    id: u64,
    i: int,
)
    requires
        consistent(s, cfg),
        can_grow(s),
        is_admin || !s.locked_at(now),
        0 <= i < s.questions.len(),
        s.questions[i].id == id,
        !s.questions[i].answered,
    ensures
        ({
            let t = vote(s, room_id, who, is_admin, now, id).0;
            &&& t.questions.len() == s.questions.len()
            &&& t.questions[i].votes == s.questions[i].votes + (if voters_of(
                s.question_voters,
                id,
            ).contains(who) {
                -1int
            } else {
                1int
            })
            &&& forall|j: int|
                0 <= j < s.questions.len() && j != i ==> #[trigger] t.questions[j]
                    == s.questions[j]
        }),
{
    lemma_find(s.questions, id);
    let k = find_id(s.questions, id)->0;
    if k < i {
        assert(s.questions[k].id != s.questions[i].id);
    } else if i < k {
        assert(s.questions[i].id != id);
    }
    let voters = voters_of(s.question_voters, id);
    assert(s.questions[i].votes == voters.len());
    assert(s.questions[i].votes < u32::MAX);
}

/// An answered question takes no more votes.
pub proof fn law_answered_takes_no_votes(
    s: RoomView,
    room_id: Seq<char>,
    cfg: RoomConfig,
    who: Seq<char>,
    is_admin: bool,
    now: u64,
    i: int,
)
    requires
        consistent(s, cfg),
        0 <= i < s.questions.len(),
        s.questions[i].answered,
    ensures
        vote(s, room_id, who, is_admin, now, s.questions[i].id).0 == s,
{
    let id = s.questions[i].id;
    lemma_find(s.questions, id);
    let k = find_id(s.questions, id)->0;
    if k < i {
        assert(s.questions[k].id != s.questions[i].id);
    } else if i < k {
        assert(s.questions[i].id != id);
    }
}

/// Pinning a question leaves it the only one pinned; pinning it again leaves
/// none pinned.
pub proof fn law_pin_toggles(s: RoomView, room_id: Seq<char>, id: u64, i: int)
    requires
        0 <= i < s.questions.len(),
        s.questions[i].id == id,
        !is_pinned(s.questions, id),
    ensures
        ({
            let once = pin_question(s, room_id, id).0;
            let twice = pin_question(once, room_id, id).0;
            &&& forall|j: int|
                0 <= j < s.questions.len() ==> (#[trigger] once.questions[j]).pinned == (
                s.questions[j].id == id)
            &&& forall|j: int|
                0 <= j < s.questions.len() ==> !(#[trigger] twice.questions[j]).pinned
        }),
{
    let once = pin_question(s, room_id, id).0;
    assert(once.questions[i].id == id && once.questions[i].pinned);
    assert(is_pinned(once.questions, id));
}

/// Reacting twice with the same emoji changes nothing.
pub proof fn law_reaction_toggles(
    s: RoomView,
    room_id: Seq<char>,
    cfg: RoomConfig,
    who: Seq<char>,
    id: u64,
    emoji: Seq<char>,
)
    requires
        consistent(s, cfg),
        can_grow(s),
    ensures
        react(react(s, room_id, who, id, emoji).0, room_id, who, id, emoji).0 == s,
{
    let once = react(s, room_id, who, id, emoji).0;
    let twice = react(once, room_id, who, id, emoji).0;
    lemma_find(s.messages, id);
    if is_reaction(emoji) && find_id(s.messages, id) is Some {
        let i = find_id(s.messages, id)->0;
        let key = (id, emoji);
        let users = users_of(s.reaction_users, id, emoji);
        let after = if users.contains(who) {
            users.remove(who)
        } else {
            users.insert(who)
        };
        assert(users.finite() && users.len() < u32::MAX);
        assert(once.messages[i].id == id);
        assert forall|j: int| 0 <= j < i implies #[trigger] once.messages[j].id != id by {
            assert(s.messages[j].id != id);
        }
        assert(is_first(once.messages, id, i));
        lemma_find_at(once.messages, id, i);
        assert(users_of(once.reaction_users, id, emoji) =~= after) by {
            if after.len() == 0 {
                assert(after =~= Set::empty());
            }
        }
        let back = if after.contains(who) {
            after.remove(who)
        } else {
            after.insert(who)
        };
        assert(back =~= users);
        assert(s.messages[i].reactions.contains_key(emoji) <==> s.reaction_users.contains_key(
            (s.messages[i].id, emoji),
        ));
        if users.len() == 0 {
            assert(!s.reaction_users.contains_key(key));
        } else {
            assert(s.reaction_users.contains_key(key));
            assert(s.messages[i].reactions[emoji] == users.len());
        }
        assert(twice.reaction_users =~= s.reaction_users);
        assert(twice.messages[i].reactions =~= s.messages[i].reactions);
        assert(twice.messages[i] =~= s.messages[i]);
        assert(twice.messages =~= s.messages);
        assert(twice =~= s);
    }
}

/// Whoever has voted in a poll cannot vote in it again.
pub proof fn law_one_vote_per_poll(
    s: RoomView,
    room_id: Seq<char>,
    who: Seq<char>,
    is_admin: bool,
    now: u64,
    id: u64,
    option: usize,
    later: u64,
    other: usize,
)
    ensures
        ({
            let once = vote_in_poll(s, room_id, who, is_admin, now, id, option).0;
            once != s ==> vote_in_poll(once, room_id, who, is_admin, later, id, other).0 == once
        }),
{
    let once = vote_in_poll(s, room_id, who, is_admin, now, id, option).0;
    if once != s {
        assert(voters_of(once.poll_voters, id).contains(who));
    }
}

/// A vote in a poll holds back nobody else: another participant's vote counts
/// just the same.
pub proof fn law_poll_votes_independent(
    s: RoomView,
    room_id: Seq<char>,
    cfg: RoomConfig,
    one: Seq<char>,
    two: Seq<char>,
    now: u64,
    i: int,
    option: usize,
)
    requires
        consistent(s, cfg),
        one != two,
        0 <= i < s.polls.len(),
        !s.polls[i].closed,
        option < s.polls[i].options.len(),
        s.polls[i].options[option as int].votes < u32::MAX - 1,
        !voters_of(s.poll_voters, s.polls[i].id).contains(one),
        !voters_of(s.poll_voters, s.polls[i].id).contains(two),
    ensures
        ({
            let id = s.polls[i].id;
            let first = vote_in_poll(s, room_id, one, true, now, id, option).0;
            let both = vote_in_poll(first, room_id, two, true, now, id, option).0;
            &&& first.polls[i].options[option as int].votes
                == s.polls[i].options[option as int].votes + 1
            &&& both.polls[i].options[option as int].votes
                == s.polls[i].options[option as int].votes + 2
        }),
{
    let id = s.polls[i].id;
    lemma_find(s.polls, id);
    let k = find_id(s.polls, id)->0;
    if k < i {
        assert(s.polls[k].id != s.polls[i].id);
    } else if i < k {
        assert(s.polls[i].id != id);
    }
    let first = vote_in_poll(s, room_id, one, true, now, id, option).0;
    assert forall|j: int| 0 <= j < i implies #[trigger] first.polls[j].id != id by {
        assert(s.polls[j].id != id);
    }
    assert(is_first(first.polls, id, i));
    lemma_find_at(first.polls, id, i);
    assert(!voters_of(first.poll_voters, id).contains(two));
}

// ── Reactions in a log ──────────────────────────────────────────────────────

/// The log of reactions to one message with one emoji: of whom each is, and
/// whether it was added or taken back.
pub open spec fn reaction_log(id: u64, emoji: Seq<char>, rs: Seq<(Seq<char>, bool)>) -> Seq<
    EventView,
> {
    Seq::new(
        rs.len(),
        |i: int|
            if rs[i].1 {
                EventView::ReactionAdd { message_id: id, emoji, voter: rs[i].0 }
            } else {
                EventView::ReactionRemove { message_id: id, emoji, voter: rs[i].0 }
            },
    )
}

/// Whether someone's last reaction was added, not taken back.
pub open spec fn still_reacts(rs: Seq<(Seq<char>, bool)>, who: Seq<char>) -> bool {
    exists|i: int|
        0 <= i < rs.len() && #[trigger] rs[i] == (who, true) && forall|j: int|
            i < j < rs.len() ==> (#[trigger] rs[j]).0 != who
}

/// Those whose last reaction was added, not taken back.
pub open spec fn still_reacting(rs: Seq<(Seq<char>, bool)>) -> Set<Seq<char>> {
    Set::new(|who: Seq<char>| still_reacts(rs, who))
}

/// One more reaction adds its author, or takes them out.
proof fn lemma_one_reaction(rs: Seq<(Seq<char>, bool)>)
    requires
        rs.len() > 0,
    ensures
        still_reacting(rs) == if rs.last().1 {
            still_reacting(rs.drop_last()).insert(rs.last().0)
        } else {
            still_reacting(rs.drop_last()).remove(rs.last().0)
        },
{
    let before = rs.drop_last();
    let (author, added) = rs.last();
    let n = rs.len() - 1;
    assert forall|who: Seq<char>| #[trigger] still_reacts(rs, who) == (if who == author {
        added
    } else {
        still_reacts(before, who)
    }) by {
        if still_reacts(rs, who) {
            let i = choose|i: int|
                0 <= i < rs.len() && #[trigger] rs[i] == (who, true) && forall|j: int|
                    i < j < rs.len() ==> (#[trigger] rs[j]).0 != who;
            assert(rs[n].0 == author);
            if i < n {
                assert(before[i] == (who, true));
                assert forall|j: int| i < j < before.len() implies (#[trigger] before[j]).0
                    != who by {
                    assert(rs[j].0 != who);
                }
            }
        }
        if who == author && added {
            assert(rs[n] == (who, true));
        }
        if who != author && still_reacts(before, who) {
            let i = choose|i: int|
                0 <= i < before.len() && #[trigger] before[i] == (who, true) && forall|j: int|
                    i < j < before.len() ==> (#[trigger] before[j]).0 != who;
            assert(rs[i] == (who, true));
            assert forall|j: int| i < j < rs.len() implies (#[trigger] rs[j]).0 != who by {
                if j < n {
                    assert(before[j].0 != who);
                }
            }
        }
    }
}

/// Whether any of some reactions was added.
pub open spec fn any_added(rs: Seq<(Seq<char>, bool)>) -> bool {
    exists|i: int| 0 <= i < rs.len() && (#[trigger] rs[i]).1
}

/// A room after reactions to the message at `i` with an emoji. Until one was
/// added, nothing happens to what the message shows.
spec fn after_reactions(
    s: RoomView,
    i: int,
    emoji: Seq<char>,
    rs: Seq<(Seq<char>, bool)>,
) -> RoomView {
    let m = s.messages[i];
    let users = still_reacting(rs);
    RoomView {
        reaction_users: if users.len() == 0 {
            s.reaction_users
        } else {
            s.reaction_users.insert((m.id, emoji), users)
        },
        messages: s.messages.update(
            i,
            MessageView {
                reactions: if users.len() > 0 {
                    m.reactions.insert(emoji, users.len() as u32)
                } else if any_added(rs) {
                    m.reactions.remove(emoji)
                } else {
                    m.reactions
                },
                ..m
            },
        ),
        ..s
    }
}

/// Reactions are replayed one after the other.
proof fn lemma_reactions_replayed(
    s: RoomView,
    id: u64,
    emoji: Seq<char>,
    rs: Seq<(Seq<char>, bool)>,
)
    requires
        find_id(s.messages, id) is Some,
        !s.reaction_users.contains_key((id, emoji)),
        forall|k: int|
            0 <= k <= rs.len() ==> still_reacting(#[trigger] rs.take(k)).len() <= u32::MAX,
    ensures
        still_reacting(rs).finite(),
        applied(s, reaction_log(id, emoji, rs)) == after_reactions(
            s,
            find_id(s.messages, id)->0,
            emoji,
            rs,
        ),
    decreases rs.len(),
{
    let i = find_id(s.messages, id)->0;
    let m = s.messages[i];
    let log = reaction_log(id, emoji, rs);
    let users = still_reacting(rs);
    lemma_find(s.messages, id);
    assert(rs.take(rs.len() as int) == rs);
    if rs.len() == 0 {
        assert(users =~= Set::empty());
        assert(s.messages.update(i, m) =~= s.messages);
    } else {
        let before = rs.drop_last();
        let was = still_reacting(before);
        let n = rs.len() - 1;
        assert forall|k: int| 0 <= k <= before.len() implies still_reacting(
            #[trigger] before.take(k),
        ).len() <= u32::MAX by {
            assert(before.take(k) == rs.take(k));
        }
        lemma_reactions_replayed(s, id, emoji, before);
        lemma_one_reaction(rs);
        assert(any_added(rs) == (any_added(before) || rs[n].1)) by {
            if any_added(before) {
                let k = choose|k: int| 0 <= k < before.len() && (#[trigger] before[k]).1;
                assert(rs[k].1);
            }
            if any_added(rs) && !rs[n].1 {
                let k = choose|k: int| 0 <= k < rs.len() && (#[trigger] rs[k]).1;
                assert(before[k].1);
            }
        }
        assert(log.drop_last() == reaction_log(id, emoji, before));
        let t = applied(s, log.drop_last());
        assert(is_first(t.messages, id, i)) by {
            assert forall|j: int| 0 <= j < i implies #[trigger] t.messages[j].id_of() != id by {
                assert(s.messages[j].id_of() != id);
            }
        }
        lemma_find_at(t.messages, id, i);
        lemma_someone_added(before);
        if was.len() == 0 {
            assert(was =~= Set::empty());
        }
        let old_count = was.len() as u32;
        let new_count = users.len() as u32;
        assert(m.reactions.insert(emoji, old_count).insert(emoji, new_count)
            =~= m.reactions.insert(emoji, new_count));
        assert(m.reactions.insert(emoji, old_count).remove(emoji) =~= m.reactions.remove(emoji));
        assert(m.reactions.remove(emoji).insert(emoji, new_count) =~= m.reactions.insert(
            emoji,
            new_count,
        ));
        assert(s.reaction_users.insert((id, emoji), was).insert((id, emoji), users)
            =~= s.reaction_users.insert((id, emoji), users));
        assert(s.reaction_users.insert((id, emoji), was).remove((id, emoji))
            =~= s.reaction_users);
        assert(apply(t, log.last()) == applied(s, log));
        assert(applied(s, log).messages =~= after_reactions(s, i, emoji, rs).messages);
    }
}

/// Whoever still reacts has added a reaction.
proof fn lemma_someone_added(rs: Seq<(Seq<char>, bool)>)
    ensures
        !any_added(rs) ==> still_reacting(rs) == Set::<Seq<char>>::empty(),
{
    assert forall|who: Seq<char>| #[trigger] still_reacts(rs, who) implies any_added(rs) by {
        let i = choose|i: int|
            0 <= i < rs.len() && #[trigger] rs[i] == (who, true) && forall|j: int|
                i < j < rs.len() ==> (#[trigger] rs[j]).0 != who;
        assert(rs[i].1);
    }
}

/// Replaying any reactions to a message with an emoji, however many there are
/// and however often they were added and taken back, leaves those recorded whose
/// last one was added, and the message shows their number; where nobody is left,
/// no trace remains. Nothing else changes. At no time may more people react than
/// a `u32` counts. A count that the message shows with nobody recorded is lost
/// with the first reaction that is added, so there must be one, or no such count.
pub proof fn law_reactions_replayed(
    s: RoomView,
    id: u64,
    emoji: Seq<char>,
    rs: Seq<(Seq<char>, bool)>,
)
    requires
        find_id(s.messages, id) is Some,
        !s.reaction_users.contains_key((id, emoji)),
        !s.messages[find_id(s.messages, id)->0].reactions.contains_key(emoji) || any_added(rs),
        forall|k: int|
            0 <= k <= rs.len() ==> still_reacting(#[trigger] rs.take(k)).len() <= u32::MAX,
    ensures
        ({
            let i = find_id(s.messages, id)->0;
            let m = s.messages[i];
            let users = still_reacting(rs);
            &&& users.finite()
            &&& users.len() <= u32::MAX
            &&& applied(s, reaction_log(id, emoji, rs)) == (RoomView {
                reaction_users: if users.len() == 0 {
                    s.reaction_users
                } else {
                    s.reaction_users.insert((id, emoji), users)
                },
                messages: s.messages.update(
                    i,
                    MessageView {
                        reactions: if users.len() == 0 {
                            m.reactions.remove(emoji)
                        } else {
                            m.reactions.insert(emoji, users.len() as u32)
                        },
                        ..m
                    },
                ),
                ..s
            })
        }),
{
    let i = find_id(s.messages, id)->0;
    let m = s.messages[i];
    lemma_find(s.messages, id);
    lemma_reactions_replayed(s, id, emoji, rs);
    assert(rs.take(rs.len() as int) == rs);
    if !m.reactions.contains_key(emoji) {
        assert(m.reactions.remove(emoji) =~= m.reactions);
    }
}

// ── Locks ───────────────────────────────────────────────────────────────────

/// A timed lock holds from the moment it is set until its deadline, and no
/// longer, whether or not its timer has run out; it never lasts more than a
/// day.
pub proof fn law_timed_lock_ends(
    s: RoomView,
    room_id: Seq<char>,
    now: u64,
    duration: u64,
    t: u64,
)
    requires
        now <= t,
    ensures
        ({
            let after = set_lock(s, room_id, now, true, Some(duration)).0;
            let seconds = if duration < MAX_LOCK_SECONDS {
                duration
            } else {
                MAX_LOCK_SECONDS
            };
            after.locked_at(t) <==> t < seconds_after(now, seconds)
        }),
{
}

/// The timer that was set with a lock lifts that lock.
pub proof fn law_timer_unlocks(
    s: RoomView,
    room_id: Seq<char>,
    now: u64,
    duration: u64,
    i: int,
    seconds: u64,
    epoch: u64,
    t: u64,
)
    requires
        s.lock_epoch < u64::MAX,
        ({
            let fx = set_lock(s, room_id, now, true, Some(duration)).1;
            0 <= i < fx.len() && fx[i] == (EffectView::ScheduleUnlock { seconds, epoch })
        }),
    ensures
        ({
            let after = set_lock(s, room_id, now, true, Some(duration)).0;
            !auto_unlock(after, epoch).0.locked_at(t)
        }),
{
}

/// A timer never undoes a later change of the lock: those that were set before
/// it change nothing.
pub proof fn law_stale_timers_do_nothing(
    s: RoomView,
    room_id: Seq<char>,
    now: u64,
    locked: bool,
    duration: Option<u64>,
    epoch: u64,
)
    requires
        s.lock_epoch < u64::MAX,
        epoch <= s.lock_epoch,
    ensures
        ({
            let after = set_lock(s, room_id, now, locked, duration).0;
            auto_unlock(after, epoch) == ignored(after)
        }),
{
}

// ── Presence and connections ────────────────────────────────────────────────

/// There are never more participants than the room admits; whoever enters and
/// leaves leaves the room as it was; display windows are not counted.
pub proof fn law_presence(r: RoomModel, is_display: bool)
    ensures
        match entered(r, is_display) {
            Some(after) => if is_display {
                after == r
            } else {
                after.inner.participants <= r.cfg.max_participants && left(after) == r
            },
            None => !is_display && r.inner.participants >= r.cfg.max_participants,
        },
{
    if let Some(after) = entered(r, is_display) {
        if !is_display {
            assert(left(after) =~= r);
        }
    }
}

/// Two admins are two people: connections with different fresh tokens act under
/// different identities.
pub proof fn law_admins_distinct(
    room: RoomModel,
    token: Seq<char>,
    one: Seq<char>,
    two: Seq<char>,
)
    requires
        room.is_admin_token(token),
        one != two,
    ensures
        caller_of(room, token, one).identity != caller_of(room, token, two).identity,
{
    let p = "admin:"@;
    if p + one == p + two {
        assert((p + one).skip(p.len() as int) == one);
        assert((p + two).skip(p.len() as int) == two);
    }
}

/// Whoever was admin when let in still is, and nobody becomes admin later:
/// whatever happens to a room, a token is its admin token afterwards if and only
/// if it was before.
pub proof fn law_admin_token_lasts(
    r: RoomModel,
    token: Seq<char>,
    caller: CallerView,
    now: u64,
    text: Seq<char>,
    epoch: u64,
    issued: Seq<char>,
    is_display: bool,
)
    ensures
        handle_client(r, caller, now, text).0.is_admin_token(token) == r.is_admin_token(token),
        unlock_client(r, epoch).0.is_admin_token(token) == r.is_admin_token(token),
        admitted(r, issued).is_admin_token(token) == r.is_admin_token(token),
        entered(r, is_display) matches Some(after) ==> after.is_admin_token(token)
            == r.is_admin_token(token),
        left(r).is_admin_token(token) == r.is_admin_token(token),
{
}

/// Two admins vote independently: two connections that were opened with the
/// admin token, and drew different fresh tokens, each have a vote of their own.
pub proof fn law_admins_vote_independently(
    room: RoomModel,
    token: Seq<char>,
    fresh: Seq<char>,
    other: Seq<char>,
    now: u64,
    i: int,
    option: usize,
)
    requires
        room.is_admin_token(token),
        fresh != other,
        consistent(room.inner, room.cfg),
        0 <= i < room.inner.polls.len(),
        !room.inner.polls[i].closed,
        option < room.inner.polls[i].options.len(),
        room.inner.polls[i].options[option as int].votes < u32::MAX - 1,
        ({
            let voters = voters_of(room.inner.poll_voters, room.inner.polls[i].id);
            &&& !voters.contains(caller_of(room, token, fresh).identity)
            &&& !voters.contains(caller_of(room, token, other).identity)
        }),
    ensures
        ({
            let s = room.inner;
            let id = s.polls[i].id;
            let a = caller_of(room, token, fresh);
            let b = caller_of(room, token, other);
            let first = vote_in_poll(s, room.id, a.identity, a.is_admin, now, id, option).0;
            let both = vote_in_poll(first, room.id, b.identity, b.is_admin, now, id, option).0;
            &&& both.polls[i].options[option as int].votes
                == s.polls[i].options[option as int].votes + 2
            &&& voters_of(both.poll_voters, id) == voters_of(s.poll_voters, id).insert(
                a.identity,
            ).insert(b.identity)
        }),
{
    let s = room.inner;
    let a = caller_of(room, token, fresh);
    let b = caller_of(room, token, other);
    law_admins_distinct(room, token, fresh, other);
    law_poll_votes_independent(s, room.id, room.cfg, a.identity, b.identity, now, i, option);
}

/// A text without the separator is one piece.
proof fn lemma_one_piece(s: Seq<char>, sep: char)
    requires
        forall|i: int| 0 <= i < s.len() ==> #[trigger] s[i] != sep,
    ensures
        pieces(s, sep) == seq![s],
    decreases s.len(),
{
    if s.len() > 0 {
        lemma_one_piece(s.drop_last(), sep);
        assert(s.drop_last().push(s.last()) == s);
        assert(seq![s.drop_last()].drop_last() == Seq::<Seq<char>>::empty());
        assert(Seq::<Seq<char>>::empty().push(s) == seq![s]);
    } else {
        assert(s == Seq::<char>::empty());
    }
}

/// A token without commas, and without white space at its end, travels in the
/// header that offers subprotocols.
pub proof fn law_token_travels(token: Seq<char>)
    requires
        forall|i: int| 0 <= i < token.len() ==> #[trigger] token[i] != ',',
        token.len() > 0 ==> !white_space(token.last()),
    ensures
        offered_protocol(token_prefix() + token) == Some(token_prefix() + token),
        carried_token(token_prefix() + token) == token,
{
    let raw = token_prefix() + token;
    reveal_strlit("void.token.");
    lemma_one_piece(raw, ',');
    if token.len() > 0 {
        assert(raw.last() == token.last());
    } else {
        assert(raw.last() == '.');
    }
    assert(trimmed(raw) == raw);
    assert(listed_protocols(raw) == seq![raw]);
    assert(raw.take(token_prefix().len() as int) == token_prefix());
}

/// Every token that is issued, and every admin token, travels in the header that
/// offers subprotocols.
pub proof fn law_issued_tokens_travel(bytes: Seq<u8>)
    ensures
        ({
            let token = hex_text(bytes);
            let shown = display_prefix() + token;
            &&& offered_protocol(token_prefix() + token) == Some(token_prefix() + token)
            &&& offered_protocol(token_prefix() + shown) == Some(token_prefix() + shown)
        }),
{
    let token = hex_text(bytes);
    let shown = display_prefix() + token;
    reveal_strlit("disp.");
    assert forall|i: int| 0 <= i < token.len() implies #[trigger] token[i] != ',' && !white_space(
        token[i],
    ) by {
        let n = if i % 2 == 0 {
            bytes[i / 2] / 16
        } else {
            bytes[i / 2] % 16
        };
        assert(token[i] == hex_digit(n) && n < 16);
    }
    law_token_travels(token);
    if token.len() > 0 {
        assert(shown.last() == token.last());
    } else {
        assert(shown.last() == '.');
    }
    law_token_travels(shown);
}

/// Whoever has joined a room may connect with the token they got, and does not
/// become admin by it unless it is the admin token.
pub proof fn law_joined_may_connect(
    app: AppView,
    room_id: Seq<char>,
    req: JoinReq,
    now: u64,
    fresh: Seq<char>,
    later: u64,
    protocols: Seq<char>,
    other: Seq<char>,
)
    requires
        joining(app, room_id, req, now, fresh).1 is Json,
        ({
            let token = issued_token(app.rooms[room_id], req, fresh);
            offered_protocol(protocols) == Some(token_prefix() + token)
        }),
        !app.rooms[room_id].expired_at(later),
    ensures
        ({
            let after = joining(app, room_id, req, now, fresh).0;
            let token = issued_token(app.rooms[room_id], req, fresh);
            admission(after, room_id, Some(protocols), later, other) == (AdmissionView::Admitted {
                caller: caller_of(app.rooms[room_id], token, other),
                protocol: Some(token_prefix() + token),
            })
        }),
{
    let token = issued_token(app.rooms[room_id], req, fresh);
    assert(carried_token(token_prefix() + token) == token);
}

/// Once a connection has fallen behind, nothing that the room had sent reaches
/// it before a fresh picture of the room has.
pub proof fn law_nothing_stale(state: Pump, inputs: Seq<PumpInput>)
    requires
        state is Draining,
        forall|i: int|
            0 <= i < inputs.len() ==> (#[trigger] inputs[i]) is Event || inputs[i] is Lagged,
    ensures
        pumped(state, inputs).0 is Draining,
        forall|i: int|
            0 <= i < inputs.len() ==> (#[trigger] pumped(state, inputs).1[i]) is TakeWaiting,
        pump(pumped(state, inputs).0, PumpInput::Empty) == (Pump::Live, PumpStep::SendSnapshot),
    decreases inputs.len(),
{
    if inputs.len() > 0 {
        assert(forall|i: int|
            0 <= i < inputs.drop_last().len() ==> inputs.drop_last()[i] == inputs[i]);
        assert(inputs[inputs.len() - 1] is Event || inputs[inputs.len() - 1] is Lagged);
        law_nothing_stale(state, inputs.drop_last());
        lemma_pumped_len(state, inputs.drop_last());
    }
}

/// What the sending side of a connection does about some inputs in a row.
pub open spec fn pumped(state: Pump, inputs: Seq<PumpInput>) -> (Pump, Seq<PumpStep>)
    decreases inputs.len(),
{
    if inputs.len() == 0 {
        (state, Seq::empty())
    } else {
        let before = pumped(state, inputs.drop_last());
        let next = pump(before.0, inputs.last());
        (next.0, before.1.push(next.1))
    }
}

proof fn lemma_pumped_len(state: Pump, inputs: Seq<PumpInput>)
    ensures
        pumped(state, inputs).1.len() == inputs.len(),
    decreases inputs.len(),
{
    if inputs.len() > 0 {
        lemma_pumped_len(state, inputs.drop_last());
    }
}

// ── Rooms and the server ────────────────────────────────────────────────────

/// A new room gets an id that no other room has, and no other room changes.
/// Until it expires it can be joined: by everyone if it has no password, else
/// by those who know it.
pub proof fn law_new_room_opens(
    app: AppView,
    address: Seq<char>,
    req: CreateRoomReq,
    now: u64,
    hash: Result<Option<Seq<char>>, HashError>,
    ids: Seq<Seq<char>>,
    secret: Seq<char>,
    id: Seq<char>,
    guest: JoinReq,
    later: u64,
    fresh: Seq<char>,
)
    requires
        open_room(app, address, req, now, hash, ids, secret).2 == Some(id),
    ensures
        ({
            let after = open_room(app, address, req, now, hash, ids, secret).0;
            &&& !app.rooms.contains_key(id)
            &&& after.rooms.remove(id) == app.rooms
            &&& after.rooms.contains_key(id)
            &&& after.rooms[id].id == id
            &&& after.rooms[id].secret == secret
            &&& !after.rooms[id].expired_at(later) ==> (joining(
                after,
                id,
                guest,
                later,
                fresh,
            ).1 is Json <==> match hash {
                Ok(Some(h)) => guest.password matches Some(pw) && password_fits(pw@, h),
                _ => true,
            })
        }),
{
    let after = open_room(app, address, req, now, hash, ids, secret).0;
    lemma_first_free(ids, app.rooms);
    assert(after.rooms.remove(id) =~= app.rooms);
}

proof fn lemma_first_free(ids: Seq<Seq<char>>, taken: Map<Seq<char>, RoomModel>)
    ensures
        first_free(ids, taken) matches Some(id) ==> !taken.contains_key(id),
    decreases ids.len(),
{
    if ids.len() > 0 {
        lemma_first_free(ids.drop_first(), taken);
    }
}

/// A room with a password is entered with it, or with a session the room has
/// admitted, and not otherwise.
pub proof fn law_password_gate(
    app: AppView,
    room_id: Seq<char>,
    req: JoinReq,
    now: u64,
    fresh: Seq<char>,
)
    requires
        missing(app, room_id, now) is None,
    ensures
        ({
            let room = app.rooms[room_id];
            let (after, reply) = joining(app, room_id, req, now, fresh);
            if reconnects(room, req) || knows_password(room, req) {
                &&& reply is Json
                &&& after.rooms[room_id].inner.sessions.contains(issued_token(room, req, fresh))
            } else {
                &&& reply == (ReplyView::Text { status: 403, text: "bad or missing password"@ })
                &&& after == app
            }
        }),
{
}

/// A session is good for reconnecting: whoever shows the token they got joins
/// again without the password, and keeps the token.
pub proof fn law_reconnect(
    app: AppView,
    room_id: Seq<char>,
    req: JoinReq,
    now: u64,
    fresh: Seq<char>,
    later: u64,
    again: JoinReq,
    other: Seq<char>,
)
    requires
        joining(app, room_id, req, now, fresh).1 is Json,
        again.session matches Some(t) && t@ == issued_token(app.rooms[room_id], req, fresh),
        !app.rooms[room_id].expired_at(later),
    ensures
        ({
            let after = joining(app, room_id, req, now, fresh).0;
            let token = issued_token(app.rooms[room_id], req, fresh);
            &&& joining(after, room_id, again, later, other).1 is Json
            &&& issued_token(after.rooms[room_id], again, other) == token
        }),
{
}

/// A room that was closed, or whose time is up, cannot be joined, looked at or
/// connected to.
pub proof fn law_gone_rooms_unreachable(
    app: AppView,
    room_id: Seq<char>,
    now: u64,
    req: JoinReq,
    fresh: Seq<char>,
    header: Option<Seq<char>>,
)
    requires
        !app.rooms.contains_key(room_id) || app.rooms[room_id].expired_at(now),
    ensures
        joining(app, room_id, req, now, fresh).0 == app,
        joining(app, room_id, req, now, fresh).1 matches ReplyView::Text { status, .. } && status
            == 404,
        viewing(app, room_id, header, now) matches ReplyView::Text { status, .. } && status
            == 404,
        admission(app, room_id, header, now, fresh) matches AdmissionView::Refused(
            ReplyView::Text { status, .. },
        ) && status == 404,
{
}

/// The sweep keeps exactly the rooms whose time is not up; doing it again at
/// the same time changes nothing.
pub proof fn law_sweep_settles(rooms: Map<Seq<char>, RoomModel>, now: u64)
    ensures
        surviving(surviving(rooms, now), now) == surviving(rooms, now),
        forall|id: Seq<char>| #[trigger]
            surviving(rooms, now).contains_key(id) <==> rooms.contains_key(id)
                && !rooms[id].expired_at(now),
{
    assert(surviving(surviving(rooms, now), now) =~= surviving(rooms, now));
}

/// Every room stands under its own id, whatever is opened, joined or swept.
pub proof fn law_rooms_well_keyed(
    app: AppView,
    address: Seq<char>,
    create: CreateRoomReq,
    now: u64,
    hash: Result<Option<Seq<char>>, HashError>,
    ids: Seq<Seq<char>>,
    secret: Seq<char>,
    room_id: Seq<char>,
    req: JoinReq,
    fresh: Seq<char>,
)
    requires
        app.well_keyed(),
    ensures
        open_room(app, address, create, now, hash, ids, secret).0.well_keyed(),
        joining(app, room_id, req, now, fresh).0.well_keyed(),
        (AppView { rooms: surviving(app.rooms, now), ..app }).well_keyed(),
        app.without_room(room_id).well_keyed(),
{
    let opened = open_room(app, address, create, now, hash, ids, secret).0;
    assert forall|id: Seq<char>| #[trigger] opened.rooms.contains_key(
        id,
    ) implies opened.rooms[id].id == id by {
        if app.rooms.contains_key(id) {
        }
    }
    let joined = joining(app, room_id, req, now, fresh).0;
    assert forall|id: Seq<char>| #[trigger] joined.rooms.contains_key(
        id,
    ) implies joined.rooms[id].id == id by {
        assert(app.rooms.contains_key(id));
    }
    let swept = AppView { rooms: surviving(app.rooms, now), ..app };
    assert forall|id: Seq<char>| #[trigger] swept.rooms.contains_key(
        id,
    ) implies swept.rooms[id].id == id by {
        assert(app.rooms.contains_key(id));
    }
    let fewer = app.without_room(room_id);
    assert forall|id: Seq<char>| #[trigger] fewer.rooms.contains_key(
        id,
    ) implies fewer.rooms[id].id == id by {
        assert(app.rooms.contains_key(id));
    }
}

/// An address never opens more rooms within the window than the limit allows,
/// and other addresses are not held back by it.
pub proof fn law_creation_limit(
    app: AppView,
    address: Seq<char>,
    req: CreateRoomReq,
    now: u64,
    hash: Result<Option<Seq<char>>, HashError>,
    ids: Seq<Seq<char>>,
    secret: Seq<char>,
    other: Seq<char>,
)
    requires
        app.config.room_creation_window_seconds > 0,
        other != address,
    ensures
        ({
            let (after, reply, opened) = open_room(app, address, req, now, hash, ids, secret);
            &&& opened is Some ==> recent_creations(after, address, now).len()
                <= app.config.room_creation_limit
            &&& opened is Some ==> recent_creations(after, address, now).len() == recent_creations(
                app,
                address,
                now,
            ).len() + 1
            &&& !may_create(app, address, now) ==> opened is None && reply == (ReplyView::Text {
                status: 429,
                text: "too many rooms"@,
            })
            &&& may_create(after, other, now) == may_create(app, other, now)
        }),
{
    let (after, reply, opened) = open_room(app, address, req, now, hash, ids, secret);
    let seconds = app.config.room_creation_window_seconds;
    let times = recent_creations(app, address, now);
    if opened is Some {
        lemma_recent_twice(creations_of(app, address), now, seconds);
        reveal(Seq::filter);
        assert(times.push(now).drop_last() == times);
        assert(creations_of(after, address) == times.push(now));
    }
    assert(creations_of(after, other) == creations_of(app, other));
}

/// What is asked of a new room is kept within the limits of the server.
pub proof fn law_limits_respected(
    requested: Option<int>,
    default: int,
    max: int,
    seconds: Option<u64>,
    usual: u64,
)
    requires
        max >= 1,
    ensures
        1 <= clamped(requested, default, max) <= max,
        requested matches Some(n) ==> 1 <= n <= max ==> clamped(requested, default, max) == n,
        clamped_rate(seconds, usual) <= MAX_RATE_LIMIT_SECONDS,
        seconds matches Some(n) ==> n <= MAX_RATE_LIMIT_SECONDS ==> clamped_rate(seconds, usual)
            == n,
{
}

/// Whether the numbers of a room fit into the columns they are stored in.
pub open spec fn fits_columns(room: RoomModel) -> bool {
    &&& room.expires_at == u64::MAX || room.expires_at <= i64::MAX
    &&& room.cfg.max_messages <= i32::MAX
    &&& room.cfg.max_participants <= i32::MAX
    &&& room.cfg.rate_limit_ms <= i64::MAX
    &&& room.cfg.max_message_length <= i32::MAX
}

/// A room that was stored comes back as it was, with what its log leads to.
pub proof fn law_rows_read_back(room: RoomModel, events: Seq<EventRowView>)
    requires
        fits_columns(room),
    ensures
        replayed(row_of(room), events) == (RoomModel {
            inner: apply_rows(empty_room(), events, room.cfg.max_messages as nat),
            ..room
        }),
{
}

} // verus!
