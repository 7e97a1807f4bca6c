//! Connections: who is let in, what a connection is sent first, what becomes of
//! its frames, and what is sent while it lasts.
//!
//! The token travels in the `Sec-WebSocket-Protocol` header, never in the URL,
//! so it stays out of access logs.

use vstd::prelude::*;

use crate::auth::{is_session_token, new_session_token};
use crate::db::{append_event, event_row_of, EventRow, EventRowView};
use crate::event::{
    event_payload, lemma_payload_writable, new_message, new_poll, new_question, EventView,
};
use crate::handlers::{display_prefix, missing, HttpReply, ReplyView};
use crate::json::{empty_object, legible, number, plain, writable, Json, JsonView};
use crate::list::views;
use crate::outside::{json_of_text, json_text, rooms_insert, rooms_remove};
use crate::state::{
    now_ms, opt_string, opt_text, AppState, AppView, MessageView, PollOptionView, PollView,
    QuestionView, Room, RoomConfig, RoomModel, RoomView,
};
use crate::text::{has_prefix, join, pieces, split, starts_with, trim, trimmed};
use crate::wire::{
    display_event, error_event, event, id_event, lemma_event_writable, lemma_message_writable,
    lemma_options_writable, lemma_poll_writable, lemma_question_writable, lemma_snapshot_writable,
    lemma_with_writable, lemma_writable_more, lock_event, make_participants_event,
    make_room_closed_event, make_snapshot_event, message_json, options_json, participants_event,
    pin_event, poll_json, poll_update_event, question_json, reaction_event, room_closed_event,
    snapshot_event, unlock_event, vote_event,
};
use crate::ws::{
    announced, auto_unlock, decode_action, frame_kind, frame_payload, handle, is_pinned,
    lock_deadline, perform, role_of, submitted, users_of, ActionView, Effect, EffectView, Step,
};

verus! {

// ── Being let in ────────────────────────────────────────────────────────────

/// What the subprotocol that carries a token begins with.
pub open spec fn token_prefix() -> Seq<char> {
    "void.token."@
}

/// The first of some offered subprotocols that carries a token, from the `i`th
/// on.
pub open spec fn token_among(offered: Seq<Seq<char>>, i: int) -> Option<Seq<char>>
    decreases offered.len() - i,
{
    if i < 0 || i >= offered.len() {
        None
    } else if has_prefix(offered[i], token_prefix()) {
        Some(offered[i])
    } else {
        token_among(offered, i + 1)
    }
}

/// The subprotocols in a header that lists them with commas between.
pub open spec fn listed_protocols(raw: Seq<char>) -> Seq<Seq<char>> {
    Seq::new(pieces(raw, ',').len(), |i: int| trimmed(pieces(raw, ',')[i]))
}

/// The subprotocol that carries a token, in a header that lists them.
pub open spec fn offered_protocol(raw: Seq<char>) -> Option<Seq<char>> {
    token_among(listed_protocols(raw), 0)
}

/// The token that a subprotocol carries.
pub open spec fn carried_token(protocol: Seq<char>) -> Seq<char> {
    protocol.skip(token_prefix().len() as int)
}

/// The first of some subprotocols that carries a token, and the token.
pub fn first_token(offered: &Vec<String>) -> (r: Option<(String, String)>)
    ensures
        match r {
            Some(p) => token_among(views(offered@), 0) == Some(p.0@) && p.1@ == carried_token(
                p.0@,
            ),
            None => token_among(views(offered@), 0) is None,
        },
{
    let mut i: usize = 0;
    while i < offered.len()
        invariant
            i <= offered@.len(),
            token_among(views(offered@), 0) == token_among(views(offered@), i as int),
        decreases offered@.len() - i,
    {
        let p: &str = offered[i].as_str();
        if starts_with(p, "void.token.") {
            let from: usize = "void.token.".unicode_len();
            let to: usize = p.unicode_len();
            let token: String = p.substring_char(from, to).to_owned();
            assert(p@.subrange(from as int, to as int) == carried_token(p@));
            return Some((p.to_owned(), token));
        }
        i += 1;
    }
    None
}

/// The subprotocol that carries a token, and the token, in a header that lists
/// subprotocols with commas between.
pub fn token_protocol(raw: &str) -> (r: Option<(String, String)>)
    ensures
        match r {
            Some(p) => offered_protocol(raw@) == Some(p.0@) && p.1@ == carried_token(p.0@),
            None => offered_protocol(raw@) is None,
        },
{
    let listed: Vec<String> = split(raw, ',');
    let ghost all = listed_protocols(raw@);
    let mut offered: Vec<String> = Vec::new();
    while offered.len() < listed.len()
        invariant
            offered@.len() <= listed@.len(),
            all == listed_protocols(raw@),
            listed@.len() == all.len(),
            forall|k: int|
                0 <= k < listed@.len() ==> trimmed((#[trigger] listed@[k])@) == all[k],
            forall|k: int| 0 <= k < offered@.len() ==> (#[trigger] offered@[k])@ == all[k],
        decreases listed@.len() - offered@.len(),
    {
        let p: String = trim(listed[offered.len()].as_str());
        offered.push(p);
    }
    assert(views(offered@) =~= all);
    first_token(&offered)
}

/// Who a connection acts as.
#[derive(Debug)]
pub struct Caller {
    /// Under which it votes, reacts and is rate limited.
    pub identity: String,
    pub is_admin: bool,
    pub is_display: bool,
}

pub struct CallerView {
    pub identity: Seq<char>,
    pub is_admin: bool,
    pub is_display: bool,
}

impl View for Caller {
    type V = CallerView;

    open spec fn view(&self) -> CallerView {
        CallerView {
            identity: self.identity@,
            is_admin: self.is_admin,
            is_display: self.is_display,
        }
    }
}

/// Whether a connection is let in.
#[derive(Debug)]
pub enum Admission {
    Refused(HttpReply),
    /// Let in; the subprotocol is to be echoed.
    Admitted { caller: Caller, protocol: Option<String> },
}

pub enum AdmissionView {
    Refused(ReplyView),
    Admitted { caller: CallerView, protocol: Option<Seq<char>> },
}

impl View for Admission {
    type V = AdmissionView;

    open spec fn view(&self) -> AdmissionView {
        match *self {
            Admission::Refused(reply) => AdmissionView::Refused(reply@),
            Admission::Admitted { caller, protocol } => AdmissionView::Admitted {
                caller: caller@,
                protocol: opt_string(protocol),
            },
        }
    }
}

/// Who the holder of a token acts as. Each admin connection gets an identity of
/// its own, so that two admins vote, react and are counted independently.
pub open spec fn caller_as(token: Seq<char>, is_admin: bool, fresh: Seq<char>) -> CallerView {
    if is_admin {
        CallerView { identity: "admin:"@ + fresh, is_admin: true, is_display: false }
    } else {
        CallerView {
            identity: token,
            is_admin: false,
            is_display: has_prefix(token, display_prefix()),
        }
    }
}

/// Who the holder of a token acts as in a room.
pub open spec fn caller_of(room: RoomModel, token: Seq<char>, fresh: Seq<char>) -> CallerView {
    caller_as(token, room.is_admin_token(token), fresh)
}

/// A client wants to open a connection. Admins show the admin token, all others
/// a token that the room has admitted. `fresh` is a new session token.
pub open spec fn admission(
    app: AppView,
    room_id: Seq<char>,
    protocols: Option<Seq<char>>,
    now: u64,
    fresh: Seq<char>,
) -> AdmissionView {
    let room = app.rooms[room_id];
    let protocol = match protocols {
        Some(raw) => offered_protocol(raw),
        None => None,
    };
    let token = match protocol {
        Some(p) => carried_token(p),
        None => Seq::empty(),
    };
    match missing(app, room_id, now) {
        Some(reply) => AdmissionView::Refused(reply),
        None => if !room.is_admin_token(token) && !room.inner.sessions.contains(token) {
            AdmissionView::Refused(ReplyView::Text { status: 403, text: "join required"@ })
        } else {
            AdmissionView::Admitted { caller: caller_of(room, token, fresh), protocol }
        },
    }
}

impl Room {
    /// Decides whether the holder of a token may open a connection, given
    /// whether it is the admin token.
    pub fn let_in(&self, offered: Option<(String, String)>, is_admin: bool, fresh: String) -> (r:
        Admission)
        ensures
            ({
                let token = match offered {
                    Some(p) => p.1@,
                    None => Seq::empty(),
                };
                let protocol = match offered {
                    Some(p) => Some(p.0@),
                    None => None,
                };
                r@ == if !is_admin && !self@.inner.sessions.contains(token) {
                    AdmissionView::Refused(ReplyView::Text { status: 403, text: "join required"@ })
                } else {
                    AdmissionView::Admitted {
                        caller: caller_as(token, is_admin, fresh@),
                        protocol,
                    }
                }
            }),
    {
        let (protocol, token): (Option<String>, String) = match offered {
            Some((protocol, token)) => (Some(protocol), token),
            None => (None, String::new()),
        };
        if !is_admin && !self.inner.sessions.contains(token.as_str()) {
            return Admission::Refused(
                HttpReply::Text { status: 403, text: "join required".to_owned() },
            );
        }
        let caller: Caller = if is_admin {
            Caller { identity: join("admin:", fresh.as_str()), is_admin: true, is_display: false }
        } else {
            let is_display: bool = starts_with(token.as_str(), "disp.");
            Caller { identity: token, is_admin: false, is_display }
        };
        Admission::Admitted { caller, protocol }
    }
}

/// Decides at the time `now` whether a client may open a connection to a
/// room. `protocols` is its `Sec-WebSocket-Protocol` header, `fresh` a new
/// session token.
pub fn ws_handler_at(
    app: &mut AppState,
    room_id: &str,
    protocols: Option<&str>,
    now: u64,
    fresh: String,
) -> (r: Admission)
    ensures
        final(app)@ == old(app)@,
        r@ == admission(old(app)@, room_id@, opt_text(protocols), now, fresh@),
{
    let ghost start = app@;
    let room: Room = match rooms_remove(&mut app.rooms, room_id) {
        Some(room) => room,
        None => {
            assert(app@.rooms =~= start.rooms);
            return Admission::Refused(
                HttpReply::Text { status: 404, text: "room not found".to_owned() },
            );
        },
    };
    let r: Admission = if room.is_expired_at(now) {
        Admission::Refused(HttpReply::Text { status: 404, text: "room expired".to_owned() })
    } else {
        let offered: Option<(String, String)> = match protocols {
            Some(raw) => token_protocol(raw),
            None => None,
        };
        let is_admin: bool = match &offered {
            Some((_, token)) => room.is_admin_token(token.as_str()),
            None => room.is_admin_token(""),
        };
        proof {
            reveal_strlit("");
            assert(""@ =~= Seq::<char>::empty());
        }
        room.let_in(offered, is_admin, fresh)
    };
    rooms_insert(&mut app.rooms, room_id.to_owned(), room);
    assert(app@.rooms =~= start.rooms);
    r
}

/// Decides whether a client may open a connection to a room. The identity
/// of an admin is random, and the time is the clock's.
pub fn ws_handler(app: &mut AppState, room_id: &str, protocols: Option<&str>) -> (r: Admission)
    ensures
        final(app)@ == old(app)@,
        exists|now: u64, fresh: Seq<char>|
            is_session_token(fresh) && r@ == #[trigger] admission(
                old(app)@,
                room_id@,
                opt_text(protocols),
                now,
                fresh,
            ),
{
    let now: u64 = now_ms();
    let fresh: String = new_session_token();
    ws_handler_at(app, room_id, protocols, now, fresh)
}

// ── Entering and leaving ────────────────────────────────────────────────────

/// The room after a connection has entered; `None` if the room is full. Display
/// windows are not counted, and never turned away.
pub open spec fn entered(r: RoomModel, is_display: bool) -> Option<RoomModel> {
    if is_display {
        Some(r)
    } else if r.inner.participants >= r.cfg.max_participants {
        None
    } else {
        Some(
            RoomModel {
                inner: RoomView { participants: (r.inner.participants + 1) as usize, ..r.inner },
                ..r
            },
        )
    }
}

/// The room after a counted connection has left.
pub open spec fn left(r: RoomModel) -> RoomModel {
    RoomModel {
        inner: RoomView {
            participants: if r.inner.participants > 0 {
                (r.inner.participants - 1) as usize
            } else {
                0
            },
            ..r.inner
        },
        ..r
    }
}

/// What a connection is sent first: a picture of the room.
pub open spec fn first_frame(r: RoomModel, is_admin: bool, now: u64) -> Seq<char> {
    json_text(snapshot_event(r.snapshot(is_admin, now)))
}

/// What everyone is told when the number of participants changes.
pub open spec fn count_frame(r: RoomModel) -> Seq<char> {
    json_text(participants_event(r.inner.participants))
}

/// No member of a participant count has a name that begins with a dollar sign.
proof fn lemma_count_plain(count: usize)
    ensures
        plain(participants_event(count), 64),
{
    reveal_strlit("type");
    reveal_strlit("payload");
    reveal_strlit("count");
    reveal_with_fuel(plain, 3);
}

/// No member of what a closed room says has a name that begins with a dollar
/// sign.
proof fn lemma_closed_plain()
    ensures
        plain(room_closed_event(), 64),
{
    reveal_strlit("type");
    reveal_strlit("payload");
    reveal_with_fuel(plain, 3);
}

/// What a connection that has entered is sent first, and what everyone is told
/// once that was sent.
#[derive(Debug)]
pub struct Entrance {
    pub first: String,
    pub announcement: Option<String>,
}

impl Room {
    /// A picture of the room, as a frame.
    pub fn snapshot_frame(&self, is_admin: bool, now: u64) -> (r: String)
        ensures
            r@ == first_frame(self@, is_admin, now),
            legible(snapshot_event(self@.snapshot(is_admin, now))),
    {
        let picture: Json = self.picture(is_admin, now);
        proof {
            lemma_snapshot_writable(self@.inner, self@.id, is_admin, self@.title, now);
            lemma_event_writable("snapshot"@, picture@, 5);
            lemma_writable_more(snapshot_event(picture@), 6, 64);
        }
        make_snapshot_event(picture).to_text()
    }

    /// The number of participants, as a frame.
    fn count_frame(&self) -> (r: String)
        ensures
            r@ == count_frame(self@),
            json_of_text(r@) == Some(participants_event(self@.inner.participants)),
    {
        proof {
            reveal_with_fuel(writable, 3);
            assert(writable(participants_event(self@.inner.participants), 64));
            lemma_count_plain(self@.inner.participants);
        }
        make_participants_event(self.inner.participants).to_text()
    }

    /// A connection enters, unless the room is full.
    pub fn enter(&mut self, is_admin: bool, is_display: bool, now: u64) -> (r: Option<Entrance>)
        ensures
            match entered(old(self)@, is_display) {
                None => r is None && final(self)@ == old(self)@,
                Some(after) => {
                    &&& final(self)@ == after
                    &&& r matches Some(e) && e.first@ == first_frame(after, is_admin, now)
                        && opt_string(e.announcement) == if is_display {
                        None
                    } else {
                        Some(count_frame(after))
                    }
                    &&& legible(snapshot_event(after.snapshot(is_admin, now)))
                    &&& !is_display ==> json_of_text(count_frame(after)) == Some(
                        participants_event(after.inner.participants),
                    )
                },
            },
    {
        if !is_display {
            if self.inner.participants >= self.cfg.max_participants {
                return None;
            }
            self.inner.participants += 1;
        }
        let first: String = self.snapshot_frame(is_admin, now);
        let announcement: Option<String> = if is_display {
            None
        } else {
            Some(self.count_frame())
        };
        Some(Entrance { first, announcement })
    }

    /// A counted connection leaves. Returns what everyone is told.
    pub fn leave(&mut self) -> (r: String)
        ensures
            final(self)@ == left(old(self)@),
            r@ == count_frame(final(self)@),
            json_of_text(r@) == Some(participants_event(final(self)@.inner.participants)),
    {
        self.inner.participants = self.inner.participants.saturating_sub(1);
        self.count_frame()
    }
}

// ── Frames from a client ────────────────────────────────────────────────────

/// What is to be done about a frame, with everything that is to be sent or
/// stored as text.
#[derive(Debug)]
pub enum Outgoing {
    Reply(String),
    Broadcast(String),
    BroadcastAdmin(String),
    /// Append a row to the room's log.
    Append(EventRow),
    ScheduleUnlock { seconds: u64, epoch: u64 },
    CloseRoom,
}

pub enum OutgoingView {
    Reply(Seq<char>),
    Broadcast(Seq<char>),
    BroadcastAdmin(Seq<char>),
    Append(EventRowView),
    ScheduleUnlock { seconds: u64, epoch: u64 },
    CloseRoom,
}

impl View for Outgoing {
    type V = OutgoingView;

    open spec fn view(&self) -> OutgoingView {
        match *self {
            Outgoing::Reply(text) => OutgoingView::Reply(text@),
            Outgoing::Broadcast(text) => OutgoingView::Broadcast(text@),
            Outgoing::BroadcastAdmin(text) => OutgoingView::BroadcastAdmin(text@),
            Outgoing::Append(row) => OutgoingView::Append(row@),
            Outgoing::ScheduleUnlock { seconds, epoch } => OutgoingView::ScheduleUnlock {
                seconds,
                epoch,
            },
            Outgoing::CloseRoom => OutgoingView::CloseRoom,
        }
    }
}

/// Whether the JSON in an effect can be written out.
pub open spec fn sendable(e: EffectView) -> bool {
    match e {
        EffectView::Reply(j) => writable(j, 64),
        EffectView::Broadcast(j) => writable(j, 64),
        EffectView::BroadcastAdmin(j) => writable(j, 64),
        EffectView::Persist(e) => writable(event_payload(e), 64),
        _ => true,
    }
}

/// Whether the JSON in all effects can be written out.
pub open spec fn all_sendable(fx: Seq<EffectView>) -> bool {
    forall|i: int| 0 <= i < fx.len() ==> sendable(#[trigger] fx[i])
}

/// An effect as text.
pub open spec fn written(e: EffectView) -> OutgoingView {
    match e {
        EffectView::Reply(j) => OutgoingView::Reply(json_text(j)),
        EffectView::Broadcast(j) => OutgoingView::Broadcast(json_text(j)),
        EffectView::BroadcastAdmin(j) => OutgoingView::BroadcastAdmin(json_text(j)),
        EffectView::Persist(e) => OutgoingView::Append(event_row_of(e)),
        EffectView::ScheduleUnlock { seconds, epoch } => OutgoingView::ScheduleUnlock {
            seconds,
            epoch,
        },
        EffectView::CloseRoom => OutgoingView::CloseRoom,
    }
}

/// Whether the text of an effect reads back as what it was written for, unless
/// the name of a member begins with a dollar sign.
pub open spec fn reads_back(e: EffectView) -> bool {
    match e {
        EffectView::Reply(j) => legible(j),
        EffectView::Broadcast(j) => legible(j),
        EffectView::BroadcastAdmin(j) => legible(j),
        EffectView::Persist(e) => json_of_text(event_row_of(e).payload) == Some(event_payload(e)),
        _ => true,
    }
}

/// Whether the texts of all effects read back as what they were written for.
pub open spec fn all_read_back(fx: Seq<EffectView>) -> bool {
    forall|i: int| 0 <= i < fx.len() ==> reads_back(#[trigger] fx[i])
}

/// Effects as text, in order.
pub open spec fn all_written(fx: Seq<EffectView>) -> Seq<OutgoingView> {
    Seq::new(fx.len(), |i: int| written(fx[i]))
}

/// Writes effects out as text.
pub fn write_effects(fx: &Vec<Effect>) -> (r: Vec<Outgoing>)
    requires
        all_sendable(views(fx@)),
    ensures
        views(r@) == all_written(views(fx@)),
        all_read_back(views(fx@)),
{
    let mut r: Vec<Outgoing> = Vec::new();
    let mut i: usize = 0;
    while i < fx.len()
        invariant
            i <= fx@.len(),
            all_sendable(views(fx@)),
            forall|k: int| 0 <= k < i ==> reads_back(#[trigger] views(fx@)[k]),
            views(r@) == all_written(views(fx@)).take(i as int),
        decreases fx@.len() - i,
    {
        assert(sendable(views(fx@)[i as int]));
        let out: Outgoing = match &fx[i] {
            Effect::Reply(j) => Outgoing::Reply(j.to_text()),
            Effect::Broadcast(j) => Outgoing::Broadcast(j.to_text()),
            Effect::BroadcastAdmin(j) => Outgoing::BroadcastAdmin(j.to_text()),
            Effect::Persist(e) => Outgoing::Append(append_event(e)),
            Effect::ScheduleUnlock { seconds, epoch } => Outgoing::ScheduleUnlock {
                seconds: *seconds,
                epoch: *epoch,
            },
            Effect::CloseRoom => Outgoing::CloseRoom,
        };
        let ghost before = r@;
        r.push(out);
        proof {
            assert(views(r@) =~= views(before).push(out@));
            assert(all_written(views(fx@)).take(i + 1) == all_written(views(fx@)).take(
                i as int,
            ).push(out@));
        }
        i += 1;
    }
    assert(all_written(views(fx@)).take(i as int) == all_written(views(fx@)));
    r
}

/// One more effect that can be written out.
proof fn lemma_push_sendable(fx: Seq<EffectView>, e: EffectView)
    requires
        all_sendable(fx),
        sendable(e),
    ensures
        all_sendable(fx.push(e)),
{
}

/// What is sent out and logged can be written out.
proof fn lemma_announced_sendable(room_id: Seq<char>, e: EventView, j: JsonView)
    requires
        writable(j, 64),
    ensures
        all_sendable(announced(room_id, e, j)),
        all_sendable(submitted(room_id, e, j)),
{
    lemma_payload_writable(e);
    lemma_writable_more(event_payload(e), 3, 64);
}

/// Events with a flat payload can be written out.
proof fn lemma_flat_events(id: u64, n: u32, b: bool, until: Option<u64>, text: Seq<char>)
    ensures
        writable(reaction_event(id, text, n), 64),
        writable(vote_event(id, n), 64),
        writable(pin_event(id, b), 64),
        writable(lock_event(b, until), 64),
        writable(unlock_event(), 64),
        writable(display_event(text), 64),
        writable(room_closed_event(), 64),
{
    reveal_with_fuel(writable, 3);
}

proof fn lemma_id_event(kind: Seq<char>, key: Seq<char>, id: u64)
    ensures
        writable(id_event(kind, key, id), 64),
{
    reveal_with_fuel(writable, 3);
}

proof fn lemma_error_event(code: Seq<char>, message: Seq<char>)
    ensures
        writable(error_event(code, message), 64),
{
    reveal_with_fuel(writable, 3);
}

proof fn lemma_message_event(kind: Seq<char>, m: MessageView)
    ensures
        writable(event(kind, message_json(m)), 64),
{
    lemma_message_writable(m);
    lemma_event_writable(kind, message_json(m), 2);
    lemma_writable_more(event(kind, message_json(m)), 3, 64);
}

proof fn lemma_question_event(kind: Seq<char>, q: QuestionView)
    ensures
        writable(event(kind, question_json(q)), 64),
{
    lemma_question_writable(q);
    lemma_event_writable(kind, question_json(q), 1);
    lemma_writable_more(event(kind, question_json(q)), 2, 64);
}

proof fn lemma_poll_event(kind: Seq<char>, p: PollView)
    ensures
        writable(event(kind, poll_json(p)), 64),
{
    lemma_poll_writable(p);
    lemma_event_writable(kind, poll_json(p), 3);
    lemma_writable_more(event(kind, poll_json(p)), 4, 64);
}

proof fn lemma_poll_update(id: u64, options: Seq<PollOptionView>)
    ensures
        writable(poll_update_event(id, options), 64),
{
    lemma_options_writable(options);
    let answers = JsonView::Array(options_json(options));
    let first = empty_object().with("poll_id"@, number(id as int));
    reveal_with_fuel(writable, 2);
    lemma_with_writable(empty_object(), "poll_id"@, number(id as int), 2);
    lemma_with_writable(first, "options"@, answers, 2);
    lemma_event_writable("poll_update"@, first.with("options"@, answers), 3);
    lemma_writable_more(poll_update_event(id, options), 4, 64);
}

/// Whatever an action leads to can be written out.
pub proof fn lemma_perform_sendable(
    s: RoomView,
    room_id: Seq<char>,
    cfg: RoomConfig,
    who: Seq<char>,
    is_admin: bool,
    now: u64,
    a: ActionView,
)
    ensures
        all_sendable(perform(s, room_id, cfg, who, is_admin, now, a).1),
{
    assert forall|code: Seq<char>, message: Seq<char>| #[trigger]
        writable(error_event(code, message), 64) by {
        lemma_error_event(code, message);
    }
    assert forall|e: EventView, j: JsonView| writable(j, 64) implies #[trigger] all_sendable(
        announced(room_id, e, j),
    ) by {
        lemma_announced_sendable(room_id, e, j);
    }
    assert forall|kind: Seq<char>, key: Seq<char>, id: u64| #[trigger]
        writable(id_event(kind, key, id), 64) by {
        lemma_id_event(kind, key, id);
    }
    match a {
        ActionView::Message { text } => {
            let id = (s.next_msg_id + 1) as u64;
            let m = new_message(id, role_of(is_admin), text, now);
            lemma_message_event("message"@, m);
            lemma_message_event("pending_message"@, m);
            lemma_announced_sendable(
                room_id,
                EventView::PendingMessage { id: m.id, role: m.role, text: m.text, ts: m.ts },
                event("pending_message"@, message_json(m)),
            );
        },
        ActionView::Reaction { message_id, emoji } => {
            let before = users_of(s.reaction_users, message_id, emoji);
            let after = if before.contains(who) {
                before.remove(who)
            } else {
                before.insert(who)
            };
            lemma_flat_events(message_id, after.len() as u32, false, None, emoji);
        },
        ActionView::Question { text } => {
            let id = (s.next_question_id + 1) as u64;
            let q = new_question(id, text);
            lemma_question_event("question"@, q);
            lemma_question_event("pending_question"@, q);
            lemma_announced_sendable(
                room_id,
                EventView::PendingQuestion { id, text },
                event("pending_question"@, question_json(q)),
            );
        },
        ActionView::Vote { question_id } => {
            assert forall|votes: u32| #[trigger] writable(vote_event(question_id, votes), 64) by {
                lemma_flat_events(question_id, votes, false, None, Seq::empty());
            }
        },
        ActionView::PollVote { poll_id, option_index } => {
            assert forall|options: Seq<PollOptionView>| #[trigger]
                writable(poll_update_event(poll_id, options), 64) by {
                lemma_poll_update(poll_id, options);
            }
        },
        ActionView::ApproveMessage { message_id } => {
            assert forall|m: MessageView| #[trigger]
                writable(event("message"@, message_json(m)), 64) by {
                lemma_message_event("message"@, m);
            }
        },
        ActionView::ApproveQuestion { question_id } => {
            assert forall|q: QuestionView| #[trigger]
                writable(event("question"@, question_json(q)), 64) by {
                lemma_question_event("question"@, q);
            }
        },
        ActionView::Lock { locked, duration_seconds } => {
            let until = lock_deadline(locked, duration_seconds, now);
            lemma_flat_events(0, 0, locked, until, Seq::empty());
            let fx = announced(
                room_id,
                EventView::Lock { locked, until },
                lock_event(locked, until),
            );
            let epoch = (s.lock_epoch + 1) as u64;
            assert forall|seconds: u64| all_sendable(
                #[trigger] fx.push(EffectView::ScheduleUnlock { seconds, epoch }),
            ) by {
                lemma_push_sendable(fx, EffectView::ScheduleUnlock { seconds, epoch });
            }
        },
        ActionView::PinQuestion { question_id } => {
            lemma_flat_events(
                question_id,
                0,
                !is_pinned(s.questions, question_id),
                None,
                Seq::empty(),
            );
        },
        ActionView::CreatePoll { question, options } => {
            lemma_poll_event(
                "poll_created"@,
                new_poll((s.next_poll_id + 1) as u64, question, options),
            );
        },
        ActionView::DisplayMode { mode } => {
            lemma_flat_events(0, 0, false, None, mode);
        },
        ActionView::CloseRoom => {
            lemma_flat_events(0, 0, false, None, Seq::empty());
        },
        _ => {},
    }
}

/// Whatever a frame leads to can be written out.
pub proof fn lemma_handle_sendable(
    s: RoomView,
    room_id: Seq<char>,
    cfg: RoomConfig,
    who: Seq<char>,
    is_admin: bool,
    is_display: bool,
    now: u64,
    frame: Option<JsonView>,
)
    ensures
        all_sendable(handle(s, room_id, cfg, who, is_admin, is_display, now, frame).1),
{
    lemma_error_event("bad_json"@, "invalid JSON"@);
    lemma_error_event("forbidden"@, "admin token required"@);
    if let Some(f) = frame {
        lemma_perform_sendable(
            s,
            room_id,
            cfg,
            who,
            is_admin,
            now,
            decode_action(frame_kind(f), frame_payload(f)),
        );
    }
}

/// What a frame of a caller does to what a room holds, and what is to be done
/// about it.
pub open spec fn client_step(r: RoomModel, caller: CallerView, now: u64, text: Seq<char>) -> Step {
    handle(
        r.inner,
        r.id,
        r.cfg,
        caller.identity,
        caller.is_admin,
        caller.is_display,
        now,
        json_of_text(text),
    )
}

/// What a frame of a caller does to a room, and what is to be done about it.
pub open spec fn handle_client(
    r: RoomModel,
    caller: CallerView,
    now: u64,
    text: Seq<char>,
) -> (RoomModel, Seq<OutgoingView>) {
    let step = client_step(r, caller, now, text);
    (RoomModel { inner: step.0, ..r }, all_written(step.1))
}

/// What a timer that runs out does to a room, and what is to be sent.
pub open spec fn unlock_client(r: RoomModel, epoch: u64) -> (RoomModel, Seq<OutgoingView>) {
    let step = auto_unlock(r.inner, epoch);
    (RoomModel { inner: step.0, ..r }, all_written(step.1))
}

impl Room {
    /// Handles one frame of a caller at the time `now`.
    pub fn handle_client_at(&mut self, caller: &Caller, now: u64, text: &str) -> (r: Vec<Outgoing>)
        requires
            old(self)@.inner.has_headroom(),
        ensures
            (final(self)@, views(r@)) == handle_client(old(self)@, caller@, now, text@),
            all_read_back(client_step(old(self)@, caller@, now, text@).1),
    {
        let ghost before = self@;
        let frame: Option<Json> = Json::parse(text);
        proof {
            lemma_handle_sendable(
                before.inner,
                before.id,
                before.cfg,
                caller@.identity,
                caller@.is_admin,
                caller@.is_display,
                now,
                json_of_text(text@),
            );
        }
        let fx: Vec<Effect> = self.inner.handle_frame(
            self.id.as_str(),
            &self.cfg,
            caller.identity.as_str(),
            caller.is_admin,
            caller.is_display,
            now,
            frame,
        );
        write_effects(&fx)
    }

    /// Handles one frame of a caller.
    pub fn handle_client(&mut self, caller: &Caller, text: &str) -> (r: Vec<Outgoing>)
        requires
            old(self)@.inner.has_headroom(),
        ensures
            exists|now: u64|
                (final(self)@, views(r@)) == #[trigger] handle_client(
                    old(self)@,
                    caller@,
                    now,
                    text@,
                ) && all_read_back(client_step(old(self)@, caller@, now, text@).1),
    {
        let now: u64 = now_ms();
        self.handle_client_at(caller, now, text)
    }

    /// A timer set with a lock runs out.
    pub fn timer_fired(&mut self, epoch: u64) -> (r: Vec<Outgoing>)
        requires
            old(self)@.inner.lock_epoch < u64::MAX,
        ensures
            (final(self)@, views(r@)) == unlock_client(old(self)@, epoch),
            all_read_back(auto_unlock(old(self)@.inner, epoch).1),
    {
        proof {
            lemma_flat_events(0, 0, false, None, Seq::empty());
        }
        let fx: Vec<Effect> = self.inner.auto_unlock(epoch);
        write_effects(&fx)
    }
}

/// What everyone in a room is told when it is gone.
pub fn closed_frame() -> (r: String)
    ensures
        r@ == json_text(room_closed_event()),
        json_of_text(r@) == Some(room_closed_event()),
{
    proof {
        lemma_flat_events(0, 0, false, None, Seq::empty());
        lemma_closed_plain();
    }
    make_room_closed_event().to_text()
}

// ── While a connection lasts ────────────────────────────────────────────────

/// What comes in from a client.
#[derive(Debug)]
pub enum Inbound {
    Text(String),
    Close,
    /// A binary frame, a ping or a pong.
    Other,
    /// The stream has ended or failed.
    Ended,
}

/// What is done about it.
#[derive(Debug)]
pub enum InboundStep {
    Handle(String),
    Skip,
    Leave,
}

/// Texts are handled; a close frame or the end of the stream ends the
/// connection; all else is skipped.
pub fn inbound_step(frame: Inbound) -> (r: InboundStep)
    ensures
        match frame {
            Inbound::Text(text) => r == InboundStep::Handle(text),
            Inbound::Other => r == InboundStep::Skip,
            Inbound::Close => r == InboundStep::Leave,
            Inbound::Ended => r == InboundStep::Leave,
        },
{
    match frame {
        Inbound::Text(text) => InboundStep::Handle(text),
        Inbound::Other => InboundStep::Skip,
        Inbound::Close => InboundStep::Leave,
        Inbound::Ended => InboundStep::Leave,
    }
}

/// Where the sending side of a connection is.
#[derive(Debug, Clone, Copy)]
pub enum Pump {
    /// Passing on what the room sends.
    Live,
    /// Too far behind: what the room has sent is being thrown away.
    Draining,
}

/// What the sending side of a connection gets.
#[derive(Debug)]
pub enum PumpInput {
    /// The room has sent something.
    Event(String),
    /// The room has sent more than was kept for this connection.
    Lagged,
    /// Nothing more is waiting.
    Empty,
    /// The room sends nothing any more.
    Closed,
    /// Something for this connection alone.
    Private(String),
}

/// What the sending side of a connection does.
#[derive(Debug)]
pub enum PumpStep {
    Send(String),
    /// Take what is waiting from the room, without waiting for more.
    TakeWaiting,
    /// Send a picture of the room.
    SendSnapshot,
    Wait,
    Stop,
}

/// What the sending side of a connection does next. A connection that has
/// fallen behind throws away all that is waiting, and only then sends a fresh
/// picture of the room, so that nothing stale follows it.
pub open spec fn pump(state: Pump, input: PumpInput) -> (Pump, PumpStep) {
    match (state, input) {
        (Pump::Live, PumpInput::Event(text)) => (Pump::Live, PumpStep::Send(text)),
        (Pump::Live, PumpInput::Private(text)) => (Pump::Live, PumpStep::Send(text)),
        (Pump::Live, PumpInput::Lagged) => (Pump::Draining, PumpStep::TakeWaiting),
        (Pump::Live, PumpInput::Empty) => (Pump::Live, PumpStep::Wait),
        (Pump::Live, PumpInput::Closed) => (Pump::Live, PumpStep::Stop),
        (Pump::Draining, PumpInput::Event(_)) => (Pump::Draining, PumpStep::TakeWaiting),
        (Pump::Draining, PumpInput::Lagged) => (Pump::Draining, PumpStep::TakeWaiting),
        (Pump::Draining, PumpInput::Empty) => (Pump::Live, PumpStep::SendSnapshot),
        (Pump::Draining, PumpInput::Closed) => (Pump::Live, PumpStep::SendSnapshot),
        (Pump::Draining, PumpInput::Private(text)) => (Pump::Draining, PumpStep::Send(text)),
    }
}

/// What the sending side of a connection does next.
pub fn pump_step(state: Pump, input: PumpInput) -> (r: (Pump, PumpStep))
    ensures
        r == pump(state, input),
{
    match (state, input) {
        (Pump::Live, PumpInput::Event(text)) => (Pump::Live, PumpStep::Send(text)),
        (Pump::Live, PumpInput::Private(text)) => (Pump::Live, PumpStep::Send(text)),
        (Pump::Live, PumpInput::Lagged) => (Pump::Draining, PumpStep::TakeWaiting),
        (Pump::Live, PumpInput::Empty) => (Pump::Live, PumpStep::Wait),
        (Pump::Live, PumpInput::Closed) => (Pump::Live, PumpStep::Stop),
        (Pump::Draining, PumpInput::Event(_)) => (Pump::Draining, PumpStep::TakeWaiting),
        (Pump::Draining, PumpInput::Lagged) => (Pump::Draining, PumpStep::TakeWaiting),
        (Pump::Draining, PumpInput::Empty) => (Pump::Live, PumpStep::SendSnapshot),
        (Pump::Draining, PumpInput::Closed) => (Pump::Live, PumpStep::SendSnapshot),
        (Pump::Draining, PumpInput::Private(text)) => (Pump::Draining, PumpStep::Send(text)),
    }
}

} // verus!
