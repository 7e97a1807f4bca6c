//! Who gets into a room, who sees what of it, and how rooms are opened, entered,
//! left and swept, said of requests and answers alone.

use vstd::prelude::*;
use vstd::utf8::encode_utf8;

use crate::assets::{asset_path, serve_embedded, AssetReply};
use crate::auth::{admin_token_of, hash_password, password_fits, verify_password, HashError};
use crate::config::{clamped, clamped_rate, text_var, uint_var, Config};
use crate::db::{all_replayed, persist_room, replay_all_at, RoomRow, StoredRoom};
use crate::handlers::{
    address_of, bearer_token, check_passes, creations_of, first_free, joining, joining_if,
    may_create, open_room, pruned, reaped, recent, recent_creations, requested_password,
    surviving, viewing, CreateRoomReq, JoinReq, PasswordCheck, ReplyView,
};
use crate::json::JsonView;
use crate::list::views;
use crate::outside::{bcrypt_verdict, hex_text, hmac_sha256, json_text};
use crate::socket::{
    admission, carried_token, closed_frame, entered, inbound_step, left, listed_protocols,
    offered_protocol, pump, token_among, AdmissionView, CallerView, Inbound, InboundStep, Pump,
    PumpInput, PumpStep,
};
use crate::state::{empty_room, seconds_after, AppView, Room, RoomModel, RoomView};
use crate::table::StrMap;
use crate::text::{lowered, pieces, stripped, trimmed};

verus! {

// ── Joining ─────────────────────────────────────────────────────────────────

/// A plain answer with its status.
pub open spec fn answer(status: u16, text: Seq<char>) -> ReplyView {
    ReplyView::Text { status, text }
}

/// A password fits a hash if and only if `bcrypt` says so; the admin token of a
/// room is the code of its id under its secret.
pub proof fn law_credentials(pw: Seq<char>, hash: Seq<char>, room: RoomModel, token: Seq<char>)
    ensures
        password_fits(pw, hash) <==> bcrypt_verdict(pw, hash) == Some(true),
        room.is_admin_token(token) <==> token == hex_text(
            hmac_sha256(encode_utf8(room.secret), encode_utf8(room.id)),
        ),
        admin_token_of(room.secret, room.id) == hex_text(
            hmac_sha256(encode_utf8(room.secret), encode_utf8(room.id)),
        ),
{
}

/// Joining a room. It must be there, and its time must not be up. Who shows a
/// session of the room keeps it, and needs no password; all others need the
/// password, if the room has one, and get a new session, marked if it is for a
/// display. The answer names the session and shows the room as users see it; the
/// room remembers the session, and nothing else changes.
pub proof fn law_joining(
    app: AppView,
    room_id: Seq<char>,
    req: JoinReq,
    now: u64,
    fresh: Seq<char>,
)
    ensures
        ({
            let (after, reply) = joining(app, room_id, req, now, fresh);
            let room = app.rooms[room_id];
            let known = req.session matches Some(t) && room.inner.sessions.contains(t@);
            let passes = room.password_hash matches Some(hash) ==> (req.password matches Some(pw)
                && bcrypt_verdict(pw@, hash) == Some(true));
            if !app.rooms.contains_key(room_id) {
                after == app && reply == answer(404, "room not found"@)
            } else if room.expires_at <= now {
                after == app && reply == answer(404, "room expired"@)
            } else if !known && !passes {
                after == app && reply == answer(403, "bad or missing password"@)
            } else {
                let token = if known {
                    req.session->0@
                } else if req.display == Some(true) {
                    "disp."@ + fresh
                } else {
                    fresh
                };
                let inner = RoomView { sessions: room.inner.sessions.insert(token), ..room.inner };
                &&& after == (AppView {
                    rooms: app.rooms.insert(room_id, RoomModel { inner, ..room }),
                    ..app
                })
                &&& reply == ReplyView::Json(
                    json_text(
                        JsonView::Object(
                            map![
                                "session_token"@ => JsonView::Str(token),
                                "state"@ => inner.snapshot(room.id, false, room.title, now),
                            ],
                        ),
                    ),
                )
            }
        }),
{
}

/// A password that was checked ahead of joining counts as one that is checked
/// now, if it was checked against the hash that the room has; against another it
/// counts for nothing.
pub proof fn law_checked_passwords(
    app: AppView,
    room_id: Seq<char>,
    req: JoinReq,
    now: u64,
    fresh: Seq<char>,
    check: Option<PasswordCheck>,
    hash: Seq<char>,
)
    requires
        app.rooms.contains_key(room_id),
        app.rooms[room_id].password_hash == Some(hash),
    ensures
        ({
            let passes = check_passes(app.rooms[room_id], check);
            let (after, reply) = joining_if(app, room_id, req, now, fresh, passes);
            &&& passes <==> (check matches Some(c) && c.hash@ == hash && c.fits)
            &&& (check matches Some(c) && c.hash@ == hash && (req.password matches Some(pw)
                && c.fits == (bcrypt_verdict(pw@, hash) == Some(true)))) ==> (after, reply)
                == joining(app, room_id, req, now, fresh)
        }),
{
}

// ── Connecting ──────────────────────────────────────────────────────────────

proof fn lemma_token_among(offered: Seq<Seq<char>>, i: int, k: int)
    requires
        0 <= i <= k <= offered.len(),
        forall|j: int|
            0 <= j < k ==> !((#[trigger] offered[j]).len() >= 11 && offered[j].take(11)
                == "void.token."@),
        k < offered.len() ==> offered[k].len() >= 11 && offered[k].take(11) == "void.token."@,
    ensures
        token_among(offered, i) == if k < offered.len() {
            Some(offered[k])
        } else {
            None
        },
    decreases k - i,
{
    reveal_strlit("void.token.");
    if i < k {
        assert(!(offered[i].len() >= 11 && offered[i].take(11) == "void.token."@));
        lemma_token_among(offered, i + 1, k);
    }
}

/// Of the subprotocols that a client offers, with commas between and white space
/// around them, the first that begins with `void.token.` carries its token: all
/// that follows.
pub proof fn law_tokens_are_offered(raw: Seq<char>, k: int)
    requires
        0 <= k <= pieces(raw, ',').len(),
        forall|j: int|
            0 <= j < k ==> {
                let p = trimmed(#[trigger] pieces(raw, ',')[j]);
                !(p.len() >= 11 && p.take(11) == "void.token."@)
            },
        k < pieces(raw, ',').len() ==> {
            let p = trimmed(pieces(raw, ',')[k]);
            p.len() >= 11 && p.take(11) == "void.token."@
        },
    ensures
        offered_protocol(raw) == if k < pieces(raw, ',').len() {
            Some(trimmed(pieces(raw, ',')[k]))
        } else {
            None
        },
        offered_protocol(raw) matches Some(p) ==> p == "void.token."@ + carried_token(p),
{
    let offered = listed_protocols(raw);
    reveal_strlit("void.token.");
    assert forall|j: int| 0 <= j < k implies !((#[trigger] offered[j]).len() >= 11
        && offered[j].take(11) == "void.token."@) by {
        assert(offered[j] == trimmed(pieces(raw, ',')[j]));
    }
    lemma_token_among(offered, 0, k);
    if k < offered.len() {
        let p = offered[k];
        assert(p == "void.token."@ + p.skip(11));
    }
}

/// Opening a connection. The room must be there, and its time must not be up.
/// Who shows the admin token is admin, under an identity of their own; who shows
/// a session of the room acts under it, as a display if it is marked as one; all
/// others are turned away. The subprotocol that was offered is echoed.
pub proof fn law_connecting(
    app: AppView,
    room_id: Seq<char>,
    protocols: Option<Seq<char>>,
    now: u64,
    fresh: Seq<char>,
    token: Seq<char>,
)
    requires
        match protocols {
            Some(raw) => match offered_protocol(raw) {
                Some(p) => p == "void.token."@ + token,
                None => token.len() == 0,
            },
            None => token.len() == 0,
        },
    ensures
        ({
            let got = admission(app, room_id, protocols, now, fresh);
            let room = app.rooms[room_id];
            let protocol = match protocols {
                Some(raw) => offered_protocol(raw),
                None => None,
            };
            if !app.rooms.contains_key(room_id) {
                got == AdmissionView::Refused(answer(404, "room not found"@))
            } else if room.expires_at <= now {
                got == AdmissionView::Refused(answer(404, "room expired"@))
            } else if room.is_admin_token(token) {
                got == (AdmissionView::Admitted {
                    caller: CallerView {
                        identity: "admin:"@ + fresh,
                        is_admin: true,
                        is_display: false,
                    },
                    protocol,
                })
            } else if room.inner.sessions.contains(token) {
                got == (AdmissionView::Admitted {
                    caller: CallerView {
                        identity: token,
                        is_admin: false,
                        is_display: token.len() >= 5 && token.take(5) == "disp."@,
                    },
                    protocol,
                })
            } else {
                got == AdmissionView::Refused(answer(403, "join required"@))
            }
        }),
{
    reveal_strlit("void.token.");
    reveal_strlit("disp.");
    assert(carried_token("void.token."@ + token) == token);
    if token.len() == 0 {
        assert(token == Seq::<char>::empty());
    }
}

/// Entering and leaving. A room counts those who are in it up to its limit, and
/// turns further ones away; displays are neither counted nor turned away.
pub proof fn law_entering_and_leaving(r: RoomModel, n: usize)
    ensures
        entered(r, true) == Some(r),
        r.inner.participants >= r.cfg.max_participants ==> entered(r, false) is None,
        r.inner.participants < r.cfg.max_participants ==> entered(r, false) == Some(
            RoomModel {
                inner: RoomView { participants: (r.inner.participants + 1) as usize, ..r.inner },
                ..r
            },
        ),
        left(r) == (RoomModel {
            inner: RoomView {
                participants: if r.inner.participants == 0 {
                    0
                } else {
                    (r.inner.participants - 1) as usize
                },
                ..r.inner
            },
            ..r
        }),
{
}

/// While a connection keeps up, all that is meant for it is passed on, in order
/// and as it is; what is meant for it alone is passed on in any case. It stops
/// when the room sends nothing any more.
pub proof fn law_passing_on(text: String)
    ensures
        pump(Pump::Live, PumpInput::Event(text)) == (Pump::Live, PumpStep::Send(text)),
        pump(Pump::Live, PumpInput::Private(text)) == (Pump::Live, PumpStep::Send(text)),
        pump(Pump::Draining, PumpInput::Private(text)) == (Pump::Draining, PumpStep::Send(text)),
        pump(Pump::Live, PumpInput::Closed).1 == PumpStep::Stop,
        pump(Pump::Live, PumpInput::Empty) == (Pump::Live, PumpStep::Wait),
        pump(Pump::Live, PumpInput::Lagged) == (Pump::Draining, PumpStep::TakeWaiting),
        pump(Pump::Draining, PumpInput::Event(text)) == (Pump::Draining, PumpStep::TakeWaiting),
        pump(Pump::Draining, PumpInput::Closed) == (Pump::Live, PumpStep::SendSnapshot),
{
}

// ── The admin's view ────────────────────────────────────────────────────────

/// The token in an `Authorization` header stands behind the word `bearer`, in
/// any case, and a space, with or without white space around it; any other
/// header has none.
pub proof fn law_bearer_tokens(raw: Seq<char>, scheme: Seq<char>, rest: Seq<char>)
    requires
        forall|i: int| 0 <= i < scheme.len() ==> #[trigger] scheme[i] != ' ',
    ensures
        trimmed(raw) == scheme.push(' ') + rest ==> bearer_token(raw) == (if lowered(scheme)
            == lowered("bearer"@) {
            Some(trimmed(rest))
        } else {
            None
        }),
        trimmed(raw) == scheme ==> bearer_token(raw) is None,
{
    let line = scheme.push(' ') + rest;
    crate::formats::law_finding(scheme, ' ', rest);
    assert(line.take(scheme.len() as int) == scheme);
    assert(line.skip(scheme.len() as int + 1) == rest);
}

/// The state of a room is shown, with what is pending, to whoever shows its
/// admin token in the header, and to nobody else.
pub proof fn law_viewing(
    app: AppView,
    room_id: Seq<char>,
    authorization: Option<Seq<char>>,
    now: u64,
)
    ensures
        ({
            let reply = viewing(app, room_id, authorization, now);
            let room = app.rooms[room_id];
            let shown = authorization matches Some(raw) && (bearer_token(raw) matches Some(t)
                && t == admin_token_of(room.secret, room.id));
            if !app.rooms.contains_key(room_id) {
                reply == answer(404, "room not found"@)
            } else if room.expires_at <= now {
                reply == answer(404, "room expired"@)
            } else if shown {
                reply == ReplyView::Json(
                    json_text(room.inner.snapshot(room.id, true, room.title, now)),
                )
            } else {
                reply == answer(403, "admin token required"@)
            }
        }),
{
}

// ── Opening ─────────────────────────────────────────────────────────────────

/// How many of some times lie within the last seconds.
pub open spec fn count_within(times: Seq<u64>, now: u64, seconds: u64) -> nat
    decreases times.len(),
{
    if times.len() == 0 {
        0
    } else {
        count_within(times.drop_last(), now, seconds) + if seconds > 0 && now < times.last()
            + seconds * 1000 {
            1nat
        } else {
            0
        }
    }
}

proof fn lemma_count_within(times: Seq<u64>, now: u64, seconds: u64)
    ensures
        recent(times, now, seconds).len() == count_within(times, now, seconds),
    decreases times.len(),
{
    reveal(Seq::filter);
    if times.len() > 0 {
        lemma_count_within(times.drop_last(), now, seconds);
    }
}

/// What is forgotten never matters again: later the times that were kept count
/// as much as all did.
proof fn lemma_kept_count(times: Seq<u64>, now: u64, later: u64, seconds: u64)
    requires
        now <= later,
    ensures
        count_within(recent(times, now, seconds), later, seconds) == count_within(
            times,
            later,
            seconds,
        ),
    decreases times.len(),
{
    reveal(Seq::filter);
    if times.len() > 0 {
        let front = times.drop_last();
        let t = times.last();
        lemma_kept_count(front, now, later, seconds);
        let kept = recent(front, now, seconds);
        assert(kept.push(t).drop_last() == kept);
    }
}

/// An address may open a room as long as it has opened fewer than the limit
/// within the window. To forget what lies outside the window changes nothing,
/// then or later.
pub proof fn law_creations_counted(app: AppView, address: Seq<char>, now: u64, later: u64)
    requires
        now <= later,
    ensures
        ({
            let seconds = app.config.room_creation_window_seconds;
            let times = if app.creations.contains_key(address) {
                app.creations[address]
            } else {
                Seq::empty()
            };
            let after = pruned(app, address, now);
            &&& may_create(app, address, now) <==> count_within(times, now, seconds)
                < app.config.room_creation_limit
            &&& may_create(after, address, later) == may_create(app, address, later)
            &&& after.rooms == app.rooms
            &&& after.config == app.config
            &&& after.creations.remove(address) == app.creations.remove(address)
        }),
{
    let seconds = app.config.room_creation_window_seconds;
    let times = creations_of(app, address);
    let after = pruned(app, address, now);
    lemma_count_within(times, now, seconds);
    lemma_count_within(times, later, seconds);
    lemma_count_within(recent(times, now, seconds), later, seconds);
    lemma_kept_count(times, now, later, seconds);
    assert(after.creations.remove(address) =~= app.creations.remove(address));
}

/// A request that is too many is refused, and so is one whose password could not
/// be hashed, or for which no id is free; none of them opens a room. Any other
/// opens one under the first free id, with the title, the password and the
/// limits that were asked for, and it lives as long as was asked for, within
/// what the server allows. Whoever asked is told the links, once.
pub proof fn law_opening(
    app: AppView,
    address: Seq<char>,
    req: CreateRoomReq,
    now: u64,
    hash: Result<Option<Seq<char>>, HashError>,
    ids: Seq<Seq<char>>,
    secret: Seq<char>,
    k: int,
)
    requires
        app.config.usable(),
        0 <= k <= ids.len(),
        forall|j: int| 0 <= j < k ==> app.rooms.contains_key(#[trigger] ids[j]),
        k < ids.len() ==> !app.rooms.contains_key(ids[k]),
    ensures
        ({
            let (after, reply, opened) = open_room(app, address, req, now, hash, ids, secret);
            let kept = pruned(app, address, now);
            let c = app.config;
            if !may_create(app, address, now) {
                after == kept && opened is None && reply == answer(429, "too many rooms"@)
            } else if hash is Err {
                after == kept && opened is None && reply == answer(500, "hash failed"@)
            } else if k == ids.len() {
                after == kept && opened is None && reply == answer(
                    500,
                    "could not allocate room id"@,
                )
            } else {
                let id = ids[k];
                let room = after.rooms[id];
                let ttl = within(
                    match req.ttl_seconds {
                        Some(n) => n as int,
                        None => c.default_ttl_seconds as int,
                    },
                    c.max_ttl_seconds as int,
                );
                let rate = match req.rate_limit_seconds {
                    Some(n) => n,
                    None => c.default_rate_limit_seconds,
                };
                let url = stripped(c.base_url@, '/') + "/r/"@ + id;
                &&& opened == Some(id)
                &&& after.config == c
                &&& after.rooms == app.rooms.insert(id, room)
                &&& after.creations == app.creations.insert(
                    address,
                    recent_creations(app, address, now).push(now),
                )
                &&& room.id == id
                &&& room.title == match req.title {
                    Some(t) => Some(t@),
                    None => None,
                }
                &&& room.secret == secret
                &&& hash == Ok::<Option<Seq<char>>, HashError>(room.password_hash)
                &&& room.expires_at == (if now + ttl * 1000 < u64::MAX {
                    now + ttl * 1000
                } else {
                    u64::MAX as int
                })
                &&& room.inner == empty_room()
                &&& room.cfg.max_messages == within(
                    match req.max_messages {
                        Some(n) => n as int,
                        None => c.default_max_messages as int,
                    },
                    c.max_messages_per_room as int,
                )
                &&& room.cfg.max_participants == within(
                    match req.max_participants {
                        Some(n) => n as int,
                        None => c.default_max_participants as int,
                    },
                    c.max_participants_per_room as int,
                )
                &&& room.cfg.rate_limit_ms == (if rate < 3600 {
                    rate * 1000
                } else {
                    3_600_000int
                })
                &&& room.cfg.max_message_length == c.max_message_length
                &&& room.cfg.moderated == (req.moderated == Some(true))
                &&& reply == ReplyView::Json(
                    json_text(
                        JsonView::Object(
                            map![
                                "room_id"@ => JsonView::Str(id),
                                "public_url"@ => JsonView::Str(url),
                                "admin_url"@ => JsonView::Str(url + "/"@ + secret),
                            ],
                        ),
                    ),
                )
            }
        }),
{
    lemma_first_free_at(ids, app.rooms, k);
    let (after, reply, opened) = open_room(app, address, req, now, hash, ids, secret);
    if opened is Some {
        assert(after.rooms =~= app.rooms.insert(ids[k], after.rooms[ids[k]]));
    }
}

/// A number, brought into the range from 1 to a limit.
pub open spec fn within(n: int, max: int) -> int {
    if n <= 1 {
        1
    } else if n <= max {
        n
    } else {
        max
    }
}

proof fn lemma_first_free_at(ids: Seq<Seq<char>>, taken: Map<Seq<char>, RoomModel>, k: int)
    requires
        0 <= k <= ids.len(),
        forall|j: int| 0 <= j < k ==> taken.contains_key(#[trigger] ids[j]),
        k < ids.len() ==> !taken.contains_key(ids[k]),
    ensures
        first_free(ids, taken) == if k < ids.len() {
            Some(ids[k])
        } else {
            None
        },
    decreases k,
{
    if k > 0 {
        assert(taken.contains_key(ids[0]));
        let rest = ids.drop_first();
        assert forall|j: int| 0 <= j < k - 1 implies taken.contains_key(#[trigger] rest[j]) by {
            assert(taken.contains_key(ids[j + 1]));
        }
        lemma_first_free_at(rest, taken, k - 1);
    }
}

/// An empty password is none.
pub proof fn law_empty_passwords(req: CreateRoomReq)
    ensures
        match requested_password(req) {
            Some(pw) => pw.len() > 0 && (req.password matches Some(given) && given@ == pw),
            None => req.password matches Some(given) ==> given@.len() == 0,
        },
{
}

/// Rooms are counted by the first address that a proxy names, if it names one,
/// and by that of the peer otherwise.
pub proof fn law_addresses(raw: Seq<char>, peer: Seq<char>)
    ensures
        address_of(None, peer) == peer,
        trimmed(pieces(raw, ',')[0]).len() > 0 ==> address_of(Some(raw), peer) == trimmed(
            pieces(raw, ',')[0],
        ),
        trimmed(pieces(raw, ',')[0]).len() == 0 ==> address_of(Some(raw), peer) == peer,
{
}

// ── Sweeping ────────────────────────────────────────────────────────────────

/// A sweep takes out the rooms whose time is up, each once, as it was, and
/// leaves all others as they were.
pub proof fn law_sweeping(
    rooms: Map<Seq<char>, RoomModel>,
    now: u64,
    gone: Seq<(Seq<char>, RoomModel)>,
    id: Seq<char>,
    i: int,
    k: int,
)
    requires
        reaped(rooms, now, gone),
    ensures
        ({
            let kept = surviving(rooms, now);
            &&& kept.contains_key(id) <==> rooms.contains_key(id) && now < rooms[id].expires_at
            &&& kept.contains_key(id) ==> kept[id] == rooms[id]
            &&& rooms.contains_key(id) && rooms[id].expires_at <= now ==> gone.contains(
                (id, rooms[id]),
            )
            &&& 0 <= i < gone.len() ==> rooms.contains_key(gone[i].0) && rooms[gone[i].0]
                == gone[i].1 && gone[i].1.expires_at <= now
            &&& 0 <= i < k < gone.len() ==> gone[i].0 != gone[k].0
        }),
{
    if rooms.contains_key(id) && rooms[id].expires_at <= now {
        assert(rooms[id].expired_at(now));
        let n = choose|n: int| 0 <= n < gone.len() && (#[trigger] gone[n]).0 == id;
        assert(gone[n] == (id, rooms[id]));
    }
}

// ── Configuration ───────────────────────────────────────────────────────────

/// Without any variables the server has the documented defaults.
pub proof fn law_defaults(vars: &StrMap<String>, c: Config)
    requires
        call_ensures(Config::from_env, (vars,), c),
        forall|k: Seq<char>| !(#[trigger] vars@.contains_key(k)),
    ensures
        c.host@ == "0.0.0.0"@,
        c.port == 8080,
        c.base_url@ == "http://localhost:8080"@,
        c.database_url is None,
        c.bcrypt_cost == 10,
        c.default_ttl_seconds == 7200,
        c.max_ttl_seconds == 86400,
        c.default_max_messages == 200,
        c.max_messages_per_room == 1000,
        c.default_max_participants == 100,
        c.max_participants_per_room == 500,
        c.default_rate_limit_seconds == 3,
        c.max_message_length == 500,
        c.ttl_sweep_interval_seconds == 60,
        c.room_creation_limit == 10,
        c.room_creation_window_seconds == 3600,
{
}

/// Whether a variable holds a number up to a limit.
pub open spec fn holds_up_to(vars: &StrMap<String>, key: Seq<char>, n: int, max: int) -> bool {
    vars@.contains_key(key) && crate::text::decimal(vars@[key]@, max) == Some(n)
}

/// Each setting is read from the variable that is documented for it.
pub proof fn law_settings(vars: &StrMap<String>, c: Config, n: int)
    requires
        call_ensures(Config::from_env, (vars,), c),
    ensures
        vars@.contains_key("HOST"@) ==> c.host@ == vars@["HOST"@]@,
        vars@.contains_key("BASE_URL"@) ==> c.base_url@ == vars@["BASE_URL"@]@,
        vars@.contains_key("DATABASE_URL"@) ==> (c.database_url matches Some(url) && url@
            == vars@["DATABASE_URL"@]@),
        holds_up_to(vars, "PORT"@, n, 0xffff) ==> c.port == n,
        holds_up_to(vars, "BCRYPT_COST"@, n, 0xffff_ffff) ==> c.bcrypt_cost == n,
        holds_up_to(vars, "DEFAULT_TTL_SECONDS"@, n, u64::MAX as int) ==> c.default_ttl_seconds
            == n,
        holds_up_to(vars, "MAX_TTL_SECONDS"@, n, u64::MAX as int) ==> c.max_ttl_seconds == n,
        holds_up_to(vars, "DEFAULT_MAX_MESSAGES"@, n, usize::MAX as int)
            ==> c.default_max_messages == n,
        holds_up_to(vars, "MAX_MESSAGES_PER_ROOM"@, n, usize::MAX as int)
            ==> c.max_messages_per_room == n,
        holds_up_to(vars, "DEFAULT_MAX_PARTICIPANTS"@, n, usize::MAX as int)
            ==> c.default_max_participants == n,
        holds_up_to(vars, "MAX_PARTICIPANTS_PER_ROOM"@, n, usize::MAX as int)
            ==> c.max_participants_per_room == n,
        holds_up_to(vars, "DEFAULT_RATE_LIMIT_SECONDS"@, n, u64::MAX as int)
            ==> c.default_rate_limit_seconds == n,
        holds_up_to(vars, "MAX_MESSAGE_LENGTH"@, n, usize::MAX as int) ==> c.max_message_length
            == n,
        holds_up_to(vars, "TTL_SWEEP_INTERVAL_SECONDS"@, n, u64::MAX as int)
            ==> c.ttl_sweep_interval_seconds == n,
        holds_up_to(vars, "ROOM_CREATION_LIMIT"@, n, usize::MAX as int) ==> c.room_creation_limit
            == n,
        holds_up_to(vars, "ROOM_CREATION_WINDOW_SECONDS"@, n, u64::MAX as int)
            ==> c.room_creation_window_seconds == n,
{
}

/// The test room: its id and its secret are `test`, everyone may enter, it never
/// expires, and it has the defaults of the server.
pub proof fn law_test_room(c: &Config, r: Room)
    requires
        c.default_rate_limit_seconds * 1000 <= u64::MAX,
        call_ensures(Room::test_room, (c,), r),
    ensures
        r@.id == "test"@,
        r@.secret == "test"@,
        r@.title is None,
        r@.password_hash is None,
        r@.expires_at == u64::MAX,
        r@.cfg.max_messages == c.default_max_messages,
        r@.cfg.max_participants == c.default_max_participants,
        r@.cfg.rate_limit_ms == c.default_rate_limit_seconds * 1000,
        r@.cfg.max_message_length == c.max_message_length,
        !r@.cfg.moderated,
        r@.inner == empty_room(),
{
}

/// A file is served as it is, or not found; the files of the frontend lie under
/// one directory.
pub proof fn law_files(path: &str, data: Vec<u8>, found: AssetReply, none: AssetReply, full: String)
    requires
        call_ensures(serve_embedded, (path, Some(data)), found),
        call_ensures(serve_embedded, (path, None), none),
        call_ensures(asset_path, (path,), full),
    ensures
        found matches AssetReply::Found { data: d, .. } && d == data,
        none matches AssetReply::Missing(reply) && reply@ == answer(404, "not found"@),
        full@ == "assets/"@ + path@,
{
}

/// Texts that come in are handled as they are, a close or the end of the stream
/// ends a connection, and all else is skipped.
pub proof fn law_inbound(frame: Inbound, r: InboundStep)
    requires
        call_ensures(inbound_step, (frame,), r),
    ensures
        match frame {
            Inbound::Text(text) => r == InboundStep::Handle(text),
            Inbound::Other => r is Skip,
            _ => r is Leave,
        },
{
}

/// What everyone is told when a room is gone.
pub proof fn law_closing(r: String)
    requires
        call_ensures(closed_frame, (), r),
    ensures
        r@ == json_text(crate::frames::notice("room_closed"@, Map::empty())),
{
}

/// A restart hands back what the stored rooms stand for; a stored room is read
/// back from the row that was written of it.
pub proof fn law_storing(stored: Vec<StoredRoom>, now: u64, rooms: Vec<Room>, room: Room, row: RoomRow)
    requires
        forall|i: int|
            0 <= i < stored@.len() ==> ((#[trigger] stored@[i]).events matches Some(events)
                ==> events@.len() < u32::MAX),
        call_ensures(replay_all_at, (stored, now), rooms),
        call_ensures(persist_room, (&room,), row),
    ensures
        views(rooms@) == all_replayed(views(stored@), now),
        row@.id == room@.id,
        row@.title == room@.title,
        row@.secret == room@.secret,
        row@.password_hash == room@.password_hash,
        row@.moderated == room@.cfg.moderated,
        room@.expires_at == u64::MAX ==> row@.expires_at is None,
        room@.expires_at <= i64::MAX ==> row@.expires_at == Some(room@.expires_at as i64),
        room@.cfg.max_messages <= i32::MAX ==> row@.max_messages == room@.cfg.max_messages,
        room@.cfg.max_participants <= i32::MAX ==> row@.max_participants
            == room@.cfg.max_participants,
        room@.cfg.rate_limit_ms <= i64::MAX ==> row@.rate_limit_ms == room@.cfg.rate_limit_ms,
        room@.cfg.max_message_length <= i32::MAX ==> row@.max_message_length
            == room@.cfg.max_message_length,
{
}

/// A password is hashed with the cost that is asked for, and fits its hash; it
/// is checked by asking whether it fits.
pub proof fn law_hashing(
    pw: &str,
    cost: u32,
    hashed: Result<String, HashError>,
    hash: &str,
    fits: bool,
)
    requires
        call_ensures(hash_password, (pw, cost), hashed),
        call_ensures(verify_password, (pw, hash), fits),
    ensures
        hashed matches Ok(h) ==> {
            &&& 4 <= cost <= 31
            &&& bcrypt_verdict(pw@, h@) == Some(true)
            &&& h@.len() == 60
            &&& h@[4] as int == '0' as int + cost / 10
            &&& h@[5] as int == '0' as int + cost % 10
        },
        4 <= cost <= 31 ==> !(hashed matches Err(HashError::Cost)),
        fits <==> bcrypt_verdict(pw@, hash@) == Some(true),
{
}

/// A limit that is asked for is brought into its range; one that is not asked
/// for is the default, brought into the range too.
pub proof fn law_clamping(
    requested: Option<int>,
    default: int,
    max: int,
    seconds: Option<u64>,
    usual: u64,
)
    requires
        max >= 1,
    ensures
        clamped(requested, default, max) == within(
            match requested {
                Some(n) => n,
                None => default,
            },
            max,
        ),
        ({
            let n = match seconds {
                Some(n) => n,
                None => usual,
            };
            clamped_rate(seconds, usual) == if n <= 3600 {
                n
            } else {
                3600
            }
        }),
{
}

/// A variable counts as what it holds; one that is not set, or that holds no
/// number in range, counts as its default.
pub proof fn law_variables(
    vars: Map<Seq<char>, String>,
    key: Seq<char>,
    text: Seq<char>,
    default: int,
    max: int,
)
    ensures
        text_var(vars, key, text) == if vars.contains_key(key) {
            vars[key]@
        } else {
            text
        },
        !vars.contains_key(key) ==> uint_var(vars, key, default, max) == default,
        vars.contains_key(key) ==> uint_var(vars, key, default, max) == match crate::text::decimal(
            vars[key]@,
            max,
        ) {
            Some(n) => n,
            None => default,
        },
{
}

/// So many seconds after a time, as far as the clock goes.
pub proof fn law_deadlines(now: u64, seconds: u64)
    ensures
        seconds_after(now, seconds) == (if now + seconds * 1000 < u64::MAX {
            now + seconds * 1000
        } else {
            u64::MAX as int
        }),
{
}

} // verus!
