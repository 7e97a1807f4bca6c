//! What is stored of rooms, and how they are brought back at startup.
//!
//! A room is one row, and each event of its log another. Writing and reading
//! the rows is the server's work; what stands in them, and what they mean, is
//! decided here.

use vstd::prelude::*;

use crate::event::{
    apply, capped, decode_event, event_kind, event_payload, lemma_payload_plain,
    lemma_payload_writable, EventView, RoomEvent,
};
use crate::json::{empty_object, Json, JsonView};
use crate::list::{lemma_find, lemma_without, trim_queued, views};
use crate::outside::{json_of_text, json_text};
use crate::state::{
    empty_room, now_ms, opt_string, Room, RoomConfig, RoomInner, RoomModel, RoomView,
};
use crate::wire::lemma_writable_more;

verus! {

// ── Rows ────────────────────────────────────────────────────────────────────

/// The row of a room.
#[derive(Debug)]
pub struct RoomRow {
    pub id: String,
    pub title: Option<String>,
    pub secret: String,
    pub password_hash: Option<String>,
    /// In epoch milliseconds; none means never.
    pub expires_at: Option<i64>,
    pub max_messages: i32,
    pub max_participants: i32,
    pub rate_limit_ms: i64,
    pub max_message_length: i32,
    pub moderated: bool,
}

#[verifier::ext_equal]
pub struct RoomRowView {
    pub id: Seq<char>,
    pub title: Option<Seq<char>>,
    pub secret: Seq<char>,
    pub password_hash: Option<Seq<char>>,
    pub expires_at: Option<i64>,
    pub max_messages: i32,
    pub max_participants: i32,
    pub rate_limit_ms: i64,
    pub max_message_length: i32,
    pub moderated: bool,
}

impl View for RoomRow {
    type V = RoomRowView;

    open spec fn view(&self) -> RoomRowView {
        RoomRowView {
            id: self.id@,
            title: opt_string(self.title),
            secret: self.secret@,
            password_hash: opt_string(self.password_hash),
            expires_at: self.expires_at,
            max_messages: self.max_messages,
            max_participants: self.max_participants,
            rate_limit_ms: self.rate_limit_ms,
            max_message_length: self.max_message_length,
            moderated: self.moderated,
        }
    }
}

/// The row of an event.
#[derive(Debug)]
pub struct EventRow {
    pub kind: String,
    /// JSON text.
    pub payload: String,
}

pub struct EventRowView {
    pub kind: Seq<char>,
    pub payload: Seq<char>,
}

impl View for EventRow {
    type V = EventRowView;

    open spec fn view(&self) -> EventRowView {
        EventRowView { kind: self.kind@, payload: self.payload@ }
    }
}

/// How an expiry is stored: a room that never expires has none.
pub open spec fn stored_expiry(expires_at: u64) -> Option<i64> {
    if expires_at == u64::MAX {
        None
    } else {
        Some(expires_at as i64)
    }
}

/// What a stored expiry means.
pub open spec fn read_expiry(stored: Option<i64>) -> u64 {
    match stored {
        Some(v) => v as u64,
        None => u64::MAX,
    }
}

/// The row of a room.
pub open spec fn row_of(room: RoomModel) -> RoomRowView {
    RoomRowView {
        id: room.id,
        title: room.title,
        secret: room.secret,
        password_hash: room.password_hash,
        expires_at: stored_expiry(room.expires_at),
        max_messages: room.cfg.max_messages as i32,
        max_participants: room.cfg.max_participants as i32,
        rate_limit_ms: room.cfg.rate_limit_ms as i64,
        max_message_length: room.cfg.max_message_length as i32,
        moderated: room.cfg.moderated,
    }
}

/// The room that a row stands for, before its log is replayed.
pub open spec fn room_of(row: RoomRowView) -> RoomModel {
    RoomModel {
        id: row.id,
        title: row.title,
        secret: row.secret,
        password_hash: row.password_hash,
        expires_at: read_expiry(row.expires_at),
        cfg: RoomConfig {
            max_messages: row.max_messages as usize,
            max_participants: row.max_participants as usize,
            rate_limit_ms: row.rate_limit_ms as u64,
            max_message_length: row.max_message_length as usize,
            moderated: row.moderated,
        },
        inner: empty_room(),
    }
}

/// The row of an event.
pub open spec fn event_row_of(e: EventView) -> EventRowView {
    EventRowView { kind: event_kind(e), payload: json_text(event_payload(e)) }
}

/// The row of a room, to be inserted unless there is one.
pub fn persist_room(room: &Room) -> (r: RoomRow)
    ensures
        r@ == row_of(room@),
{
    let expires_at: Option<i64> = if room.expires_at == u64::MAX {
        None
    } else {
        Some(#[verifier::truncate] (room.expires_at as i64))
    };
    RoomRow {
        id: room.id.clone(),
        title: room.title.clone(),
        secret: room.secret.clone(),
        password_hash: room.password_hash.clone(),
        expires_at,
        max_messages: #[verifier::truncate] (room.cfg.max_messages as i32),
        max_participants: #[verifier::truncate] (room.cfg.max_participants as i32),
        rate_limit_ms: #[verifier::truncate] (room.cfg.rate_limit_ms as i64),
        max_message_length: #[verifier::truncate] (room.cfg.max_message_length as i32),
        moderated: room.cfg.moderated,
    }
}

/// The row of an event, to be appended to a room's log. Its text reads back as
/// the payload of the event.
pub fn append_event(e: &RoomEvent) -> (r: EventRow)
    ensures
        r@ == event_row_of(e@),
        json_of_text(r.payload@) == Some(event_payload(e@)),
{
    proof {
        lemma_payload_writable(e@);
        lemma_payload_plain(e@);
        lemma_writable_more(event_payload(e@), 3, 64);
    }
    EventRow { kind: e.kind().to_owned(), payload: e.payload().to_text() }
}

/// What a stored expiry means.
fn read_stored_expiry(stored: Option<i64>) -> (r: u64)
    ensures
        r == read_expiry(stored),
{
    match stored {
        Some(v) => #[verifier::truncate] (v as u64),
        None => u64::MAX,
    }
}

/// The room that a row stands for, before its log is replayed.
pub fn room_from_row(row: RoomRow) -> (r: Room)
    ensures
        r@ == room_of(row@),
{
    let expires_at: u64 = read_stored_expiry(row.expires_at);
    Room::new(
        row.id,
        row.title,
        row.secret,
        row.password_hash,
        expires_at,
        RoomConfig {
            max_messages: #[verifier::truncate] (row.max_messages as usize),
            max_participants: #[verifier::truncate] (row.max_participants as usize),
            rate_limit_ms: #[verifier::truncate] (row.rate_limit_ms as u64),
            max_message_length: #[verifier::truncate] (row.max_message_length as usize),
            moderated: row.moderated,
        },
    )
}

// ── Replay ──────────────────────────────────────────────────────────────────

/// The payload in a row; a text that is no JSON counts as an empty object.
pub open spec fn row_payload(text: Seq<char>) -> JsonView {
    match json_of_text(text) {
        Some(j) => j,
        None => empty_object(),
    }
}

/// A room after one more row of its log.
pub open spec fn apply_row(s: RoomView, row: EventRowView) -> RoomView {
    match decode_event(row.kind, row_payload(row.payload)) {
        Some(e) => apply(s, e),
        None => s,
    }
}

/// A room after the rows of its log, in order. Throughout it keeps its last
/// `max` messages.
pub open spec fn apply_rows(s: RoomView, rows: Seq<EventRowView>, max: nat) -> RoomView
    decreases rows.len(),
{
    if rows.len() == 0 {
        s
    } else {
        capped(apply_row(apply_rows(s, rows.drop_last(), max), rows.last()), max)
    }
}

/// Whether a stored room is still alive at the time `now`.
pub open spec fn row_alive(row: RoomRowView, now: u64) -> bool {
    let expires_at = read_expiry(row.expires_at);
    expires_at == u64::MAX || now < expires_at
}

impl RoomRow {
    /// Whether the room is still alive at the time `now`. If it is not, its log
    /// need not be read.
    pub fn is_alive_at(&self, now: u64) -> (r: bool)
        ensures
            r == row_alive(self@, now),
    {
        let expires_at: u64 = read_stored_expiry(self.expires_at);
        expires_at == u64::MAX || now < expires_at
    }
}

/// The room that a row and its log stand for.
pub open spec fn replayed(row: RoomRowView, events: Seq<EventRowView>) -> RoomModel {
    RoomModel {
        inner: apply_rows(empty_room(), events, room_of(row).cfg.max_messages as nat),
        ..room_of(row)
    }
}

/// A stored room: its row, and its log unless that could not be read.
#[derive(Debug)]
pub struct StoredRoom {
    pub row: RoomRow,
    pub events: Option<Vec<EventRow>>,
}

#[verifier::ext_equal]
pub struct StoredView {
    pub row: RoomRowView,
    pub events: Option<Seq<EventRowView>>,
}

impl View for StoredRoom {
    type V = StoredView;

    open spec fn view(&self) -> StoredView {
        StoredView {
            row: self.row@,
            events: match self.events {
                Some(events) => Some(views(events@)),
                None => None,
            },
        }
    }
}

/// The rooms brought back from storage at the time `now`, in order: those that
/// are still alive, and whose log could be read.
pub open spec fn all_replayed(stored: Seq<StoredView>, now: u64) -> Seq<RoomModel>
    decreases stored.len(),
{
    if stored.len() == 0 {
        Seq::empty()
    } else {
        let before = all_replayed(stored.drop_last(), now);
        let last = stored.last();
        match last.events {
            Some(events) => if row_alive(last.row, now) {
                before.push(replayed(last.row, events))
            } else {
                before
            },
            None => before,
        }
    }
}

/// Whether a room has counted to at most `n`.
pub open spec fn counted_to(s: RoomView, n: nat) -> bool {
    &&& s.lock_epoch <= n
    &&& forall|i: int| 0 <= i < s.questions.len() ==> (#[trigger] s.questions[i]).votes <= n
    &&& forall|i: int, k: int|
        0 <= i < s.polls.len() && 0 <= k < s.polls[i].options.len() ==> (
        #[trigger] s.polls[i].options[k]).votes <= n
}

/// One event counts up by at most one.
pub proof fn lemma_apply_counts(s: RoomView, e: EventView, n: nat)
    requires
        counted_to(s, n),
        n < u32::MAX,
    ensures
        counted_to(apply(s, e), n + 1),
{
    let t = apply(s, e);
    match e {
        EventView::QuestionDismissed { question_id } => {
            lemma_without(s.questions, question_id);
            assert forall|i: int| 0 <= i < t.questions.len() implies (
            #[trigger] t.questions[i]).votes <= n + 1 by {
                let j = choose|j: int|
                    0 <= j < s.questions.len() && s.questions[j] == t.questions[i];
                assert(s.questions[j].votes <= n);
            }
        },
        EventView::PollDeleted { poll_id } => {
            lemma_without(s.polls, poll_id);
            assert forall|i: int, k: int|
                0 <= i < t.polls.len() && 0 <= k < t.polls[i].options.len() implies (
            #[trigger] t.polls[i].options[k]).votes <= n + 1 by {
                let j = choose|j: int| 0 <= j < s.polls.len() && s.polls[j] == t.polls[i];
                assert(s.polls[j].options[k].votes <= n);
            }
        },
        EventView::VoteAdd { question_id, voter } => {
            lemma_find(s.questions, question_id);
        },
        EventView::VoteRemove { question_id, voter } => {
            lemma_find(s.questions, question_id);
        },
        EventView::QuestionAnswered { question_id } => {
            lemma_find(s.questions, question_id);
        },
        EventView::PollVote { poll_id, option_index, voter } => {
            lemma_find(s.polls, poll_id);
            assert forall|i: int, k: int|
                0 <= i < t.polls.len() && 0 <= k < t.polls[i].options.len() implies (
            #[trigger] t.polls[i].options[k]).votes <= n + 1 by {
                assert(s.polls[i].options[k].votes <= n);
            }
        },
        EventView::PollClosed { poll_id } => {
            lemma_find(s.polls, poll_id);
            assert forall|i: int, k: int|
                0 <= i < t.polls.len() && 0 <= k < t.polls[i].options.len() implies (
            #[trigger] t.polls[i].options[k]).votes <= n + 1 by {
                assert(s.polls[i].options[k].votes <= n);
            }
        },
        EventView::PollCreated { id, question, options } => {
            assert forall|i: int, k: int|
                0 <= i < t.polls.len() && 0 <= k < t.polls[i].options.len() implies (
            #[trigger] t.polls[i].options[k]).votes <= n + 1 by {
                if i < s.polls.len() {
                    assert(s.polls[i].options[k].votes <= n);
                }
            }
        },
        _ => {
            assert(t.polls == s.polls);
        },
    }
}

impl RoomInner {
    /// Applies the rows of a log, in order, keeping the last `max` messages.
    pub fn apply_rows(&mut self, rows: &Vec<EventRow>, max: usize)
        requires
            old(self)@ == empty_room(),
            rows@.len() < u32::MAX,
        ensures
            final(self)@ == apply_rows(empty_room(), views(rows@), max as nat),
    {
        let mut i: usize = 0;
        assert(views(rows@).take(0) == Seq::<EventRowView>::empty());
        while i < rows.len()
            invariant
                i <= rows@.len() < u32::MAX,
                self@ == apply_rows(empty_room(), views(rows@).take(i as int), max as nat),
                counted_to(self@, i as nat),
            decreases rows@.len() - i,
        {
            let payload: Json = match Json::parse(rows[i].payload.as_str()) {
                Some(j) => j,
                None => Json::object(),
            };
            proof {
                assert(views(rows@).take(i + 1).drop_last() == views(rows@).take(i as int));
                if let Some(e) = decode_event(rows@[i as int].kind@, payload@) {
                    lemma_apply_counts(self@, e, i as nat);
                }
            }
            self.apply_event(rows[i].kind.as_str(), &payload);
            trim_queued(&mut self.messages, max);
            i += 1;
        }
        assert(views(rows@).take(i as int) == views(rows@));
    }
}

/// Brings rooms back from storage at the time `now`.
pub fn replay_all_at(stored: Vec<StoredRoom>, now: u64) -> (r: Vec<Room>)
    requires
        forall|i: int|
            0 <= i < stored@.len() ==> ((#[trigger] stored@[i]).events matches Some(events)
                ==> events@.len() < u32::MAX),
    ensures
        views(r@) == all_replayed(views(stored@), now),
{
    let ghost all = views(stored@);
    let ghost total = stored@;
    let mut rooms: Vec<Room> = Vec::new();
    let mut stored = stored;
    let ghost mut done: int = 0;
    assert(all.take(0) == Seq::<StoredView>::empty());
    assert(views(rooms@) == Seq::<RoomModel>::empty());
    while stored.len() > 0
        invariant
            all == views(total),
            0 <= done <= total.len(),
            stored@ == total.skip(done),
            forall|i: int|
                0 <= i < total.len() ==> ((#[trigger] total[i]).events matches Some(events)
                    ==> events@.len() < u32::MAX),
            views(rooms@) == all_replayed(all.take(done), now),
        decreases stored@.len(),
    {
        let one: StoredRoom = stored.remove(0);
        let ghost before = rooms@;
        proof {
            assert(one == total[done]);
            assert(all.take(done + 1).drop_last() == all.take(done));
            assert(all.take(done + 1).last() == one@);
            assert(stored@ == total.skip(done + 1));
        }
        if one.row.is_alive_at(now) {
            match one.events {
                Some(events) => {
                    let mut room: Room = room_from_row(one.row);
                    let max: usize = room.cfg.max_messages;
                    room.inner.apply_rows(&events, max);
                    rooms.push(room);
                    assert(views(rooms@) =~= views(before).push(room@));
                },
                None => {},
            }
        }
        proof {
            done = done + 1;
        }
    }
    assert(all.take(done) == all);
    rooms
}

/// Brings rooms back from storage.
pub fn replay_all(stored: Vec<StoredRoom>) -> (r: Vec<Room>)
    requires
        forall|i: int|
            0 <= i < stored@.len() ==> ((#[trigger] stored@[i]).events matches Some(events)
                ==> events@.len() < u32::MAX),
    ensures
        exists|now: u64| views(r@) == #[trigger] all_replayed(views(stored@), now),
{
    let now: u64 = now_ms();
    replay_all_at(stored, now)
}

} // verus!
