//! What the calls that change a room or the server come to: the state they leave
//! behind and what they hand back, for every state they can be made in.

use vstd::prelude::*;

use crate::auth::{
    admin_token_of, is_hex_of, is_room_id, is_session_token, new_room_id, new_secret,
    new_session_token, HashError,
};
use crate::config::Config;
use crate::db::{
    all_replayed, apply_row, apply_rows, replay_all, EventRow, EventRowView, StoredRoom,
};
use crate::formats::{all_go_out, law_texts_are_frames};
use crate::frames::shut;
use crate::handlers::{
    address_of, bearer, bearer_token, check_passes, check_password, client_address, create_room,
    draw_ids, drawn, hash_of_request, hash_requested, join_room, join_room_at, join_room_checked,
    joined_read, joining, joining_if, links_read, may_create, open_room, password_hash_for, pruned,
    reaped, removed, room_state, room_state_at, surviving, sweep_expired, viewing, CreateRoomReq,
    HttpReply, JoinReq, PasswordCheck, ReplyView,
};
use crate::json::Json;
use crate::list::views;
use crate::outside::{bcrypt_verdict, hex_digit, hex_text, json_of_text};
use crate::socket::{
    admission, count_frame, first_frame, handle_client, listed_protocols, offered_protocol,
    token_among, token_prefix, token_protocol, ws_handler, ws_handler_at, Admission, Caller,
    Entrance, Outgoing,
};
use crate::state::{
    clock_ms, empty_room, opt_string, opt_text, AppState, AppView, Room, RoomInner, RoomModel,
    RoomView,
};
use crate::text::{
    eq_ignore_case, first_index, has_prefix, index_of, join, lowered, pieces, split, starts_with,
    str_eq, strip_end, stripped, trim, trimmed,
};
use crate::ws::{auto_unlock, handle};

verus! {

/// A text of a client does to a room what the frame does that it reads as, and
/// all that comes of it goes out, in order.
pub proof fn law_call_handles(
    room: &mut Room,
    caller: &Caller,
    now: u64,
    text: &str,
    out: Vec<Outgoing>,
)
    requires
        old(room)@.inner.has_headroom(),
        call_ensures(Room::handle_client_at, (room, caller, now, text), out),
    ensures
        ({
            let r = old(room)@;
            let (inner, fx) = handle(
                r.inner,
                r.id,
                r.cfg,
                caller@.identity,
                caller@.is_admin,
                caller@.is_display,
                now,
                json_of_text(text@),
            );
            &&& final(room)@ == (RoomModel { inner, ..r })
            &&& all_go_out(fx, views(out@))
        }),
{
    law_texts_are_frames(old(room)@, caller@, now, text@, 0);
}

/// A timer that runs out does to a room what it was set for.
pub proof fn law_call_times(room: &mut Room, epoch: u64, out: Vec<Outgoing>)
    requires
        old(room)@.inner.lock_epoch < u64::MAX,
        call_ensures(Room::timer_fired, (room, epoch), out),
    ensures
        ({
            let r = old(room)@;
            let (inner, fx) = auto_unlock(r.inner, epoch);
            &&& final(room)@ == (RoomModel { inner, ..r })
            &&& all_go_out(fx, views(out@))
        }),
{
}

/// Whoever enters a room gets its picture, and is counted and announced unless
/// it is a display; a full room stays as it is.
pub proof fn law_call_enters(
    room: &mut Room,
    is_admin: bool,
    is_display: bool,
    now: u64,
    e: Option<Entrance>,
)
    requires
        call_ensures(Room::enter, (room, is_admin, is_display, now), e),
    ensures
        ({
            let r = old(room)@;
            let t = final(room)@;
            if !is_display && r.inner.participants >= r.cfg.max_participants {
                t == r && e is None
            } else {
                &&& t == (RoomModel {
                    inner: RoomView {
                        participants: if is_display {
                            r.inner.participants
                        } else {
                            (r.inner.participants + 1) as usize
                        },
                        ..r.inner
                    },
                    ..r
                })
                &&& e matches Some(e) && e.first@ == first_frame(t, is_admin, now) && (
                e.announcement is None <==> is_display) && (e.announcement matches Some(text)
                    ==> text@ == count_frame(t))
            }
        }),
{
}

/// Whoever leaves a room is counted no longer, and everyone is told.
pub proof fn law_call_leaves(room: &mut Room, text: String)
    requires
        call_ensures(Room::leave, (room,), text),
    ensures
        ({
            let r = old(room)@;
            let n = r.inner.participants;
            &&& final(room)@ == (RoomModel {
                inner: RoomView {
                    participants: if n == 0 {
                        0
                    } else {
                        (n - 1) as usize
                    },
                    ..r.inner
                },
                ..r
            })
            &&& text@ == count_frame(final(room)@)
        }),
{
}

/// A request to join is answered, and changes the server, as joining says.
pub proof fn law_call_joins(
    app: &mut AppState,
    room_id: &str,
    req: JoinReq,
    now: u64,
    fresh: String,
    reply: HttpReply,
)
    requires
        call_ensures(join_room_at, (app, room_id, req, now, fresh), reply),
    ensures
        (final(app)@, reply@) == joining(old(app)@, room_id@, req, now, fresh@),
{
}

/// The same goes where the password was checked ahead.
pub proof fn law_call_joins_checked(
    app: &mut AppState,
    room_id: &str,
    req: JoinReq,
    check: Option<PasswordCheck>,
    now: u64,
    fresh: String,
    reply: HttpReply,
)
    requires
        call_ensures(join_room_checked, (app, room_id, req, check, now, fresh), reply),
    ensures
        (final(app)@, reply@) == joining_if(
            old(app)@,
            room_id@,
            req,
            now,
            fresh@,
            check_passes(old(app)@.rooms[room_id@], check),
        ),
{
}

/// To ask for the state of a room, or for a connection to it, changes nothing.
pub proof fn law_call_looks(
    app: &mut AppState,
    other: &mut AppState,
    room_id: &str,
    header: Option<&str>,
    now: u64,
    fresh: String,
    reply: HttpReply,
    got: Admission,
)
    requires
        call_ensures(room_state_at, (app, room_id, header, now), reply),
        call_ensures(ws_handler_at, (other, room_id, header, now, fresh), got),
    ensures
        ({
            let raw = match header {
                Some(h) => Some(h@),
                None => None,
            };
            &&& final(app)@ == old(app)@
            &&& final(other)@ == old(other)@
            &&& reply@ == viewing(old(app)@, room_id@, raw, now)
            &&& got@ == admission(old(other)@, room_id@, raw, now, fresh@)
        }),
{
}

/// A request for a room is answered, and changes the server, as opening says.
pub proof fn law_call_opens(
    app: &mut AppState,
    address: &str,
    req: CreateRoomReq,
    now: u64,
    hash: Result<Option<String>, HashError>,
    ids: Vec<String>,
    secret: String,
    r: (HttpReply, Option<String>),
)
    requires
        old(app)@.config.usable(),
        call_ensures(AppState::open_room, (app, address, req, now, hash, ids, secret), r),
    ensures
        ({
            let hashed = match hash {
                Ok(Some(h)) => Ok(Some(h@)),
                Ok(None) => Ok(None),
                Err(e) => Err(e),
            };
            let opened = match r.1 {
                Some(id) => Some(id@),
                None => None,
            };
            (final(app)@, r.0@, opened) == open_room(
                old(app)@,
                address@,
                req,
                now,
                hashed,
                views(ids@),
                secret@,
            )
        }),
{
}

/// An address that may not open another room is told so; to ask changes nothing
/// but what is forgotten.
pub proof fn law_call_limits(
    app: &mut AppState,
    other: &mut AppState,
    address: &str,
    now: u64,
    may: bool,
    reply: Option<HttpReply>,
)
    requires
        call_ensures(AppState::may_create, (app, address, now), may),
        call_ensures(AppState::refuse_creation, (other, address, now), reply),
    ensures
        may == may_create(old(app)@, address@, now),
        final(app)@ == pruned(old(app)@, address@, now),
        reply is None <==> may_create(old(other)@, address@, now),
        reply matches Some(text) ==> text@ == (ReplyView::Text {
            status: 429,
            text: "too many rooms"@,
        }),
        final(other)@ == pruned(old(other)@, address@, now),
{
}

/// A sweep leaves the rooms whose time is not up, and hands out the others.
pub proof fn law_call_sweeps(app: &mut AppState, now: u64, gone: Vec<(String, Room)>)
    requires
        call_ensures(AppState::reap_expired, (app, now), gone),
    ensures
        final(app)@ == (AppView { rooms: surviving(old(app)@.rooms, now), ..old(app)@ }),
        reaped(old(app)@.rooms, now, removed(gone@)),
        removed(gone@).len() == gone@.len(),
        forall|i: int|
            0 <= i < gone@.len() ==> (#[trigger] removed(gone@)[i]) == (gone@[i].0@, gone@[i].1@),
{
}

/// A room that is put in stands under its id; a room that is taken out is the
/// one that stood there. No other room is touched.
pub proof fn law_call_keeps_rooms(
    app: &mut AppState,
    room: Room,
    other: &mut AppState,
    id: &str,
    r: Option<Room>,
)
    requires
        call_ensures(AppState::put_room, (app, room), ()),
        call_ensures(AppState::take_room, (other, id), r),
    ensures
        final(app)@ == (AppView { rooms: old(app)@.rooms.insert(room@.id, room@), ..old(app)@ }),
        final(other)@ == (AppView { rooms: old(other)@.rooms.remove(id@), ..old(other)@ }),
        r is Some <==> old(other)@.rooms.contains_key(id@),
        r matches Some(taken) ==> taken@ == old(other)@.rooms[id@],
{
}

/// A row that is applied does to a room what the row says; rows are applied in
/// order.
pub proof fn law_call_replays(
    room: &mut RoomInner,
    kind: &str,
    p: &Json,
    row: EventRowView,
    fresh: &mut RoomInner,
    rows: &Vec<EventRow>,
    max: usize,
)
    requires
        row.kind == kind@,
        json_of_text(row.payload) == Some(p@),
        call_ensures(RoomInner::apply_event, (room, kind, p), ()),
        old(fresh)@ == empty_room(),
        rows@.len() < u32::MAX,
        call_ensures(RoomInner::apply_rows, (fresh, rows, max), ()),
    ensures
        final(room)@ == apply_row(old(room)@, row),
        final(fresh)@ == apply_rows(empty_room(), views(rows@), max as nat),
{
}

// ── By the clock, and by chance ─────────────────────────────────────────────

/// Whether a character is a lowercase hexadecimal digit.
pub open spec fn hex_char(c: char) -> bool {
    '0' <= c <= '9' || 'a' <= c <= 'f'
}

/// Room ids have 6 and session tokens 32 lowercase hexadecimal digits; secrets
/// have 16 letters and digits.
pub proof fn law_call_draws(id: String, secret: String, token: String, i: int)
    requires
        call_ensures(new_room_id, (), id),
        call_ensures(new_secret, (), secret),
        call_ensures(new_session_token, (), token),
    ensures
        id@.len() == 6,
        0 <= i < 6 ==> hex_char(id@[i]),
        token@.len() == 32,
        0 <= i < 32 ==> hex_char(token@[i]),
        secret@.len() == 16,
        0 <= i < 16 ==> ('a' <= secret@[i] <= 'z' || 'A' <= secret@[i] <= 'Z' || '0' <= secret@[i]
            <= '9'),
{
    lemma_hex(id@, 3, i);
    lemma_hex(token@, 16, i);
}

proof fn lemma_hex(s: Seq<char>, n: nat, i: int)
    requires
        is_hex_of(s, n),
    ensures
        s.len() == 2 * n,
        0 <= i < s.len() ==> hex_char(s[i]),
{
    let b = choose|b: Seq<u8>| b.len() == n && s == #[trigger] hex_text(b);
    if 0 <= i < s.len() {
        let d = if i % 2 == 0 {
            b[i / 2] / 16
        } else {
            b[i / 2] % 16
        };
        assert(s[i] == hex_digit(d) && d < 16);
    }
}

/// Ids are drawn one by one, each of the form of a room id; a hash is made of a
/// password that is asked for, and of none otherwise.
pub proof fn law_call_prepares(
    ids: Vec<String>,
    i: int,
    req: &CreateRoomReq,
    cost: u32,
    hash: Result<Option<String>, HashError>,
)
    requires
        call_ensures(draw_ids, (), ids),
        call_ensures(hash_requested, (req, cost), hash),
    ensures
        ids@.len() == 9,
        0 <= i < 9 ==> ids@[i]@.len() == 6,
        ({
            let asked = req.password matches Some(pw) && pw@.len() > 0;
            &&& !asked ==> hash == Ok::<Option<String>, HashError>(None)
            &&& asked ==> !(hash matches Ok(None))
            &&& hash matches Ok(Some(h)) ==> asked && 4 <= cost <= 31 && bcrypt_verdict(
                req.password->0@,
                h@,
            ) == Some(true)
            &&& 4 <= cost <= 31 ==> !(hash matches Err(HashError::Cost))
        }),
{
    if 0 <= i < 9 {
        assert(is_room_id(views(ids@)[i]));
        lemma_hex(ids@[i]@, 3, 0);
    }
}

/// By the clock and by chance, a request for a room is answered as at some time,
/// with 9 ids and a secret of their forms, and a hash of the password that was
/// asked for, made with the cost of the server, if it could be made.
pub proof fn law_call_creates(
    app: &mut AppState,
    address: &str,
    req: CreateRoomReq,
    r: (HttpReply, Option<String>),
)
    requires
        old(app)@.config.usable(),
        call_ensures(create_room, (app, address, req), r),
    ensures
        exists|
            now: u64,
            hash: Result<Option<Seq<char>>, HashError>,
            ids: Seq<Seq<char>>,
            secret: Seq<char>,
        |
            {
                let asked = req.password matches Some(pw) && pw@.len() > 0;
                let cost = old(app)@.config.bcrypt_cost;
                &&& ids.len() == 9
                &&& secret.len() == 16
                &&& !asked ==> hash == Ok::<Option<Seq<char>>, HashError>(None)
                &&& asked ==> !(hash matches Ok(None))
                &&& hash matches Ok(Some(h)) ==> bcrypt_verdict(req.password->0@, h) == Some(true)
                    && 4 <= cost <= 31 && h[4] as int == '0' as int + cost / 10 && h[5] as int
                    == '0' as int + cost % 10
                &&& 4 <= cost <= 31 ==> !(hash matches Err(HashError::Cost))
                &&& (final(app)@, r.0@, opt_string(r.1)) == #[trigger] open_room(
                    old(app)@,
                    address@,
                    req,
                    now,
                    hash,
                    ids,
                    secret,
                )
            },
{
    let (now, hash, ids, secret): (
        u64,
        Result<Option<Seq<char>>, HashError>,
        Seq<Seq<char>>,
        Seq<char>,
    ) = choose|
        now: u64,
        hash: Result<Option<Seq<char>>, HashError>,
        ids: Seq<Seq<char>>,
        secret: Seq<char>,
    |
        {
            &&& drawn(ids, secret)
            &&& hash_of_request(req, old(app)@.config.bcrypt_cost, hash)
            &&& (final(app)@, r.0@, opt_string(r.1)) == #[trigger] open_room(
                old(app)@,
                address@,
                req,
                now,
                hash,
                ids,
                secret,
            )
            &&& r.1 matches Some(id) ==> links_read(old(app)@.config, id@, secret)
        };
    assert((final(app)@, r.0@, opt_string(r.1)) == open_room(
        old(app)@,
        address@,
        req,
        now,
        hash,
        ids,
        secret,
    ));
}

/// By the clock and with a new session token, a request to join is answered as
/// at some time and with some token of that form.
pub proof fn law_call_joins_now(app: &mut AppState, room_id: &str, req: JoinReq, reply: HttpReply)
    requires
        call_ensures(join_room, (app, room_id, req), reply),
    ensures
        exists|now: u64, fresh: Seq<char>|
            fresh.len() == 32 && (final(app)@, reply@) == #[trigger] joining(
                old(app)@,
                room_id@,
                req,
                now,
                fresh,
            ),
{
    let (now, fresh): (u64, Seq<char>) = choose|now: u64, fresh: Seq<char>|
        {
            &&& is_session_token(fresh)
            &&& (final(app)@, reply@) == #[trigger] joining(old(app)@, room_id@, req, now, fresh)
            &&& reply@ is Json ==> joined_read(old(app)@.rooms[room_id@], req, now, fresh)
        };
    lemma_hex(fresh, 16, 0);
}

/// By the clock, a text of a client is handled as at some time.
pub proof fn law_call_handles_now(
    room: &mut Room,
    caller: &Caller,
    text: &str,
    out: Vec<Outgoing>,
)
    requires
        old(room)@.inner.has_headroom(),
        call_ensures(Room::handle_client, (room, caller, text), out),
    ensures
        exists|now: u64|
            (final(room)@, views(out@)) == #[trigger] handle_client(
                old(room)@,
                caller@,
                now,
                text@,
            ),
{
}

/// By the clock, a sweep is one at some time.
pub proof fn law_call_sweeps_now(app: &mut AppState, gone: Vec<(String, Room)>)
    requires
        call_ensures(sweep_expired, (app,), gone),
    ensures
        exists|now: u64|
            final(app)@ == (AppView {
                rooms: #[trigger] surviving(old(app)@.rooms, now),
                ..old(app)@
            }) && reaped(old(app)@.rooms, now, removed(gone@)),
{
}

/// By the clock, stored rooms come back as at some time.
pub proof fn law_call_restarts_now(stored: Vec<StoredRoom>, rooms: Vec<Room>)
    requires
        forall|i: int|
            0 <= i < stored@.len() ==> ((#[trigger] stored@[i]).events matches Some(events)
                ==> events@.len() < u32::MAX),
        call_ensures(replay_all, (stored,), rooms),
    ensures
        exists|now: u64| views(rooms@) == #[trigger] all_replayed(views(stored@), now),
{
}

/// A clock that cannot be read stands at 0.
pub proof fn law_call_clock(ms: u64, before: u64, after: u64)
    requires
        call_ensures(clock_ms, (None,), before),
        call_ensures(clock_ms, (Some(ms as u128),), after),
    ensures
        before == 0,
        after == ms,
{
}

// ── Requests ────────────────────────────────────────────────────────────────

/// Addresses and tokens are taken out of headers as said of them.
pub proof fn law_call_reads_headers(
    raw: &str,
    peer: &str,
    address: String,
    token: Option<String>,
    offered: Option<(String, String)>,
)
    requires
        call_ensures(client_address, (Some(raw), peer), address),
        call_ensures(bearer, (raw,), token),
        call_ensures(token_protocol, (raw,), offered),
    ensures
        address@ == address_of(Some(raw@), peer@),
        match token {
            Some(t) => bearer_token(raw@) == Some(t@),
            None => bearer_token(raw@) is None,
        },
        match offered {
            Some(p) => offered_protocol(raw@) == Some(p.0@) && p.0@ == "void.token."@ + p.1@,
            None => offered_protocol(raw@) is None,
        },
{
    if let Some(p) = offered {
        lemma_offered(listed_protocols(raw@), 0);
        reveal_strlit("void.token.");
        assert(p.0@ == "void.token."@ + p.0@.skip(11));
    }
}

proof fn lemma_offered(offered: Seq<Seq<char>>, i: int)
    requires
        0 <= i,
    ensures
        token_among(offered, i) matches Some(p) ==> has_prefix(p, token_prefix()),
    decreases offered.len() - i,
{
    if i < offered.len() {
        lemma_offered(offered, i + 1);
    }
}

/// Texts are trimmed, split, searched and put together as said of them.
pub proof fn law_call_reads_texts(
    s: &str,
    t: &str,
    c: char,
    cut: String,
    parts: Vec<String>,
    at: Option<usize>,
    same: bool,
    alike: bool,
    begins: bool,
    ended: String,
    whole: String,
)
    requires
        call_ensures(trim, (s,), cut),
        call_ensures(split, (s, c), parts),
        call_ensures(index_of, (s, c), at),
        call_ensures(str_eq, (s, t), same),
        call_ensures(eq_ignore_case, (s, t), alike),
        call_ensures(starts_with, (s, t), begins),
        call_ensures(strip_end, (s, c), ended),
        call_ensures(join, (s, t), whole),
    ensures
        cut@ == trimmed(s@),
        views(parts@) == pieces(s@, c),
        match at {
            Some(i) => first_index(s@, c) == Some(i as int),
            None => first_index(s@, c) is None,
        },
        same <==> s@ == t@,
        alike <==> lowered(s@) == lowered(t@),
        begins <==> t@.len() <= s@.len() && s@.take(t@.len() as int) == t@,
        ended@ == stripped(s@, c),
        whole@ == s@ + t@,
{
    assert(views(parts@) =~= pieces(s@, c));
}

/// The hash that is to be checked before joining is that of the room, unless the
/// client shows a session of it, or there is no such room.
pub proof fn law_call_checks(
    app: &mut AppState,
    room_id: &str,
    req: &JoinReq,
    hash: Option<String>,
    given: String,
    check: Option<PasswordCheck>,
)
    requires
        call_ensures(password_hash_for, (app, room_id, req), hash),
        call_ensures(check_password, (req, given), check),
    ensures
        final(app)@ == old(app)@,
        ({
            let room = old(app)@.rooms[room_id@];
            let known = req.session matches Some(t) && room.inner.sessions.contains(t@);
            match hash {
                Some(h) => old(app)@.rooms.contains_key(room_id@) && !known && room.password_hash
                    == Some(h@),
                None => !old(app)@.rooms.contains_key(room_id@) || known || room.password_hash
                    is None,
            }
        }),
        match check {
            Some(c) => c.hash@ == given@ && (req.password matches Some(pw) && c.fits == (
            bcrypt_verdict(pw@, given@) == Some(true))),
            None => req.password is None,
        },
{
}

/// A room tells its admin by the token, whether it is locked by its lock, and
/// whether it can count further by its counters.
pub proof fn law_call_asks(
    room: &Room,
    token: &str,
    now: u64,
    admin: bool,
    expired: bool,
    locked: bool,
    picture: Json,
    is_admin: bool,
)
    requires
        call_ensures(Room::is_admin_token, (room, token), admin),
        call_ensures(Room::is_expired_at, (room, now), expired),
        call_ensures(RoomInner::effective_locked_at, (&room.inner, now), locked),
        call_ensures(Room::picture, (room, is_admin, now), picture),
    ensures
        admin <==> token@ == admin_token_of(room@.secret, room@.id),
        expired <==> room@.expires_at <= now,
        locked <==> shut(room@.inner, now),
        picture@ == room@.inner.snapshot(room@.id, is_admin, room@.title, now),
{
}

/// A room can take a frame as long as none of its counters is at its end, and a
/// server can open rooms as long as its limits admit one of each.
pub proof fn law_room_to_count(s: RoomView, c: Config)
    ensures
        c.usable() <==> c.max_ttl_seconds >= 1 && c.max_messages_per_room >= 1
            && c.max_participants_per_room >= 1,
        s.has_headroom() <==> {
            &&& s.next_msg_id < u64::MAX && s.next_question_id < u64::MAX
            &&& s.next_poll_id < u64::MAX && s.lock_epoch < u64::MAX
            &&& forall|i: int|
                0 <= i < s.questions.len() ==> (#[trigger] s.questions[i]).votes < u32::MAX
            &&& forall|i: int, k: int|
                0 <= i < s.polls.len() && 0 <= k < s.polls[i].options.len() ==> (
                #[trigger] s.polls[i].options[k]).votes < u32::MAX
        },
{
}

/// By the clock, and with a new token, a connection is let in or not as at some
/// time; the state of a room is that at some time.
pub proof fn law_call_looks_now(
    app: &mut AppState,
    other: &mut AppState,
    room_id: &str,
    header: Option<&str>,
    got: Admission,
    reply: HttpReply,
)
    requires
        call_ensures(ws_handler, (app, room_id, header), got),
        call_ensures(room_state, (other, room_id, header), reply),
    ensures
        final(app)@ == old(app)@,
        final(other)@ == old(other)@,
        exists|now: u64, fresh: Seq<char>|
            is_session_token(fresh) && got@ == #[trigger] admission(
                old(app)@,
                room_id@,
                opt_text(header),
                now,
                fresh,
            ),
        exists|now: u64|
            reply@ == #[trigger] viewing(old(other)@, room_id@, opt_text(header), now),
{
}

} // verus!
