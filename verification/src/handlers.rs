//! What the server answers to HTTP requests: opening a room, joining it, its
//! state for the admin, the admission of sockets, and the sweep of expired
//! rooms.
//!
//! There are no cookies. A session token is issued on joining, kept by the
//! client, and shown again to reconnect.

use vstd::prelude::*;

use crate::auth::{
    hash_password, is_room_id, is_secret, is_session_token, made_with, new_room_id, new_secret,
    new_session_token, password_fits, verify_password, HashError,
};
use crate::config::{clamped, clamped_rate, opt_int, opt_seconds, Config};
use crate::json::{empty_object, legible, plain, writable, Json, JsonView};
use crate::list::views;
use crate::outside::{
    creations_insert, creations_remove, json_of_text, json_text, rooms_contain, rooms_ids,
    rooms_insert, rooms_remove,
};
use crate::state::{
    deadline, empty_room, now_ms, opt_string, opt_text, seconds_after, AppState, AppView, Room,
    RoomConfig, RoomModel, RoomView,
};
use crate::text::{
    eq_ignore_case, first_index, index_of, join, lowered, pieces, split, str_eq, strip_end,
    stripped, trim, trimmed,
};
use crate::wire::{lemma_snapshot_writable, lemma_writable_more};

verus! {

// ── Requests and replies ────────────────────────────────────────────────────

/// What a client asks of a new room. Everything is optional.
#[derive(Debug, Default)]
pub struct CreateRoomReq {
    pub ttl_seconds: Option<u64>,
    pub title: Option<String>,
    pub password: Option<String>,
    pub max_participants: Option<usize>,
    pub max_messages: Option<usize>,
    pub rate_limit_seconds: Option<u64>,
    pub moderated: Option<bool>,
}

/// What a client shows to join a room.
#[derive(Debug, Default)]
pub struct JoinReq {
    pub password: Option<String>,
    /// A session token from an earlier join, to reconnect.
    pub session: Option<String>,
    /// Whether the client is a display window.
    pub display: Option<bool>,
}

/// An answer: a JSON text with status 200, or a plain text with its status.
#[derive(Debug)]
pub enum HttpReply {
    Json(String),
    Text { status: u16, text: String },
}

pub enum ReplyView {
    Json(Seq<char>),
    Text { status: u16, text: Seq<char> },
}

impl View for HttpReply {
    type V = ReplyView;

    open spec fn view(&self) -> ReplyView {
        match *self {
            HttpReply::Json(text) => ReplyView::Json(text@),
            HttpReply::Text { status, text } => ReplyView::Text { status, text: text@ },
        }
    }
}

/// A plain text with its status.
fn refuse(status: u16, text: &str) -> (r: HttpReply)
    ensures
        r@ == (ReplyView::Text { status, text: text@ }),
{
    HttpReply::Text { status, text: text.to_owned() }
}

/// The address of a client: the first one in the `X-Forwarded-For` header if a
/// proxy has set it, else that of the peer.
pub open spec fn address_of(forwarded: Option<Seq<char>>, peer: Seq<char>) -> Seq<char> {
    match forwarded {
        Some(raw) => {
            let first = trimmed(pieces(raw, ',')[0]);
            if first.len() > 0 {
                first
            } else {
                peer
            }
        },
        None => peer,
    }
}

/// The address of a client, by which room creations are counted.
pub fn client_address(forwarded: Option<&str>, peer: &str) -> (r: String)
    ensures
        r@ == address_of(opt_text(forwarded), peer@),
{
    match forwarded {
        Some(raw) => {
            let list: Vec<String> = split(raw, ',');
            let first: String = trim(list[0].as_str());
            if first.as_str().is_empty() {
                peer.to_owned()
            } else {
                first
            }
        },
        None => peer.to_owned(),
    }
}

// ── Opening a room ──────────────────────────────────────────────────────────

/// How long ago something was; 0 for what lies in the future.
pub open spec fn elapsed(now: u64, then_ms: u64) -> int {
    if now > then_ms {
        now - then_ms
    } else {
        0
    }
}

/// The times that lie within the last `seconds` seconds.
pub open spec fn recent(times: Seq<u64>, now: u64, seconds: u64) -> Seq<u64> {
    times.filter(|t: u64| elapsed(now, t) < seconds * 1000)
}

/// When an address opened rooms, as far as the server remembers.
pub open spec fn creations_of(app: AppView, address: Seq<char>) -> Seq<u64> {
    if app.creations.contains_key(address) {
        app.creations[address]
    } else {
        Seq::empty()
    }
}

/// When an address opened rooms within the window.
pub open spec fn recent_creations(app: AppView, address: Seq<char>, now: u64) -> Seq<u64> {
    recent(creations_of(app, address), now, app.config.room_creation_window_seconds)
}

/// Whether an address may open another room: it has opened fewer than the limit
/// within the window.
pub open spec fn may_create(app: AppView, address: Seq<char>, now: u64) -> bool {
    recent_creations(app, address, now).len() < app.config.room_creation_limit
}

/// The server after it has forgotten the creations outside the window.
pub open spec fn pruned(app: AppView, address: Seq<char>, now: u64) -> AppView {
    AppView {
        creations: app.creations.insert(address, recent_creations(app, address, now)),
        ..app
    }
}

/// The configuration of a new room: what was asked for, within the limits.
pub open spec fn requested_config(config: Config, req: CreateRoomReq) -> RoomConfig {
    RoomConfig {
        max_messages: clamped(
            opt_int(req.max_messages),
            config.default_max_messages as int,
            config.max_messages_per_room as int,
        ) as usize,
        max_participants: clamped(
            opt_int(req.max_participants),
            config.default_max_participants as int,
            config.max_participants_per_room as int,
        ) as usize,
        rate_limit_ms: (clamped_rate(req.rate_limit_seconds, config.default_rate_limit_seconds)
            * 1000) as u64,
        max_message_length: config.max_message_length,
        moderated: req.moderated == Some(true),
    }
}

/// When a new room expires.
pub open spec fn requested_expiry(config: Config, req: CreateRoomReq, now: u64) -> u64 {
    seconds_after(
        now,
        clamped(
            opt_seconds(req.ttl_seconds),
            config.default_ttl_seconds as int,
            config.max_ttl_seconds as int,
        ) as u64,
    )
}

/// The password of a new room; an empty one is none.
pub open spec fn requested_password(req: CreateRoomReq) -> Option<Seq<char>> {
    match req.password {
        Some(pw) => if pw@.len() > 0 {
            Some(pw@)
        } else {
            None
        },
        None => None,
    }
}

/// The first of some ids that is not taken.
pub open spec fn first_free(ids: Seq<Seq<char>>, taken: Map<Seq<char>, RoomModel>) -> Option<
    Seq<char>,
>
    decreases ids.len(),
{
    if ids.len() == 0 {
        None
    } else if !taken.contains_key(ids[0]) {
        Some(ids[0])
    } else {
        first_free(ids.drop_first(), taken)
    }
}

/// The public link of a room.
pub open spec fn public_url(config: Config, id: Seq<char>) -> Seq<char> {
    stripped(config.base_url@, '/') + "/r/"@ + id
}

/// The admin link of a room.
pub open spec fn admin_url(config: Config, id: Seq<char>, secret: Seq<char>) -> Seq<char> {
    public_url(config, id) + "/"@ + secret
}

/// What whoever opens a room is told, once.
pub open spec fn links_json(config: Config, id: Seq<char>, secret: Seq<char>) -> JsonView {
    empty_object().with("room_id"@, JsonView::Str(id)).with(
        "public_url"@,
        JsonView::Str(public_url(config, id)),
    ).with("admin_url"@, JsonView::Str(admin_url(config, id, secret)))
}

/// Whether the text of a room's links reads back as the links.
pub open spec fn links_read(config: Config, id: Seq<char>, secret: Seq<char>) -> bool {
    json_of_text(json_text(links_json(config, id, secret))) == Some(
        links_json(config, id, secret),
    )
}

/// What becomes of a request for a room: the server afterwards, the answer, and
/// the id of the room if one was opened.
pub type Opened = (AppView, ReplyView, Option<Seq<char>>);

/// An address asks for a room. `hash` is that of its password, if it has one and
/// it could be hashed; `ids` are the candidates for its id.
pub open spec fn open_room(
    app: AppView,
    address: Seq<char>,
    req: CreateRoomReq,
    now: u64,
    hash: Result<Option<Seq<char>>, HashError>,
    ids: Seq<Seq<char>>,
    secret: Seq<char>,
) -> Opened {
    let kept = pruned(app, address, now);
    if !may_create(app, address, now) {
        (kept, ReplyView::Text { status: 429, text: "too many rooms"@ }, None)
    } else {
        match (hash, first_free(ids, app.rooms)) {
            (Err(_), _) => (kept, ReplyView::Text { status: 500, text: "hash failed"@ }, None),
            (_, None) => (
                kept,
                ReplyView::Text { status: 500, text: "could not allocate room id"@ },
                None,
            ),
            (Ok(password_hash), Some(id)) => {
                let room = RoomModel {
                    id,
                    title: opt_string(req.title),
                    secret,
                    password_hash,
                    expires_at: requested_expiry(app.config, req, now),
                    cfg: requested_config(app.config, req),
                    inner: empty_room(),
                };
                let opened = AppView {
                    creations: app.creations.insert(
                        address,
                        recent_creations(app, address, now).push(now),
                    ),
                    ..app
                };
                (
                    opened.with_room(room),
                    ReplyView::Json(json_text(links_json(app.config, id, secret))),
                    Some(id),
                )
            },
        }
    }
}

/// Whether a password hash is one that a request can have led to: none without
/// a password, else one that the password fits and that was made with the given
/// cost, or a failure.
pub open spec fn hash_of_request(
    req: CreateRoomReq,
    cost: u32,
    hash: Result<Option<Seq<char>>, HashError>,
) -> bool {
    match requested_password(req) {
        None => hash == Ok::<Option<Seq<char>>, HashError>(None),
        Some(pw) => match hash {
            Ok(None) => false,
            Ok(Some(h)) => 4 <= cost <= 31 && password_fits(pw, h) && made_with(h, cost),
            Err(HashError::Cost) => !(4 <= cost <= 31),
            Err(HashError::Random) => true,
        },
    }
}

/// How many ids are drawn for a new room before giving up.
pub const ID_DRAWS: usize = 9;

/// Whether ids and a secret have the form of drawn ones.
pub open spec fn drawn(ids: Seq<Seq<char>>, secret: Seq<char>) -> bool {
    &&& ids.len() == ID_DRAWS
    &&& forall|i: int| 0 <= i < ids.len() ==> is_room_id(#[trigger] ids[i])
    &&& is_secret(secret)
}

/// The characters of an optional hash, if hashing worked.
pub open spec fn hash_view(hash: Result<Option<String>, HashError>) -> Result<
    Option<Seq<char>>,
    HashError,
> {
    match hash {
        Ok(h) => Ok(opt_string(h)),
        Err(e) => Err(e),
    }
}

/// The times that lie within the last `seconds` seconds.
fn keep_recent(times: &Vec<u64>, now: u64, seconds: u64) -> (r: Vec<u64>)
    ensures
        r@ == recent(times@, now, seconds),
{
    let mut r: Vec<u64> = Vec::new();
    let mut i: usize = 0;
    let window: u128 = seconds as u128 * 1000;
    proof {
        reveal(Seq::filter);
        assert(times@.take(0) == Seq::<u64>::empty());
    }
    while i < times.len()
        invariant
            i <= times@.len(),
            window == seconds * 1000,
            r@ == recent(times@.take(i as int), now, seconds),
        decreases times@.len() - i,
    {
        let t: u64 = times[i];
        proof {
            reveal(Seq::filter);
            assert(times@.take(i + 1).drop_last() == times@.take(i as int));
        }
        if (now.saturating_sub(t) as u128) < window {
            r.push(t);
        }
        i += 1;
    }
    assert(times@.take(i as int) == times@);
    r
}

/// Random ids for a new room.
pub fn draw_ids() -> (r: Vec<String>)
    ensures
        r@.len() == ID_DRAWS,
        forall|i: int| 0 <= i < r@.len() ==> is_room_id(#[trigger] views(r@)[i]),
{
    let mut r: Vec<String> = Vec::new();
    while r.len() < ID_DRAWS
        invariant
            r@.len() <= ID_DRAWS,
            forall|i: int| 0 <= i < r@.len() ==> is_room_id(#[trigger] views(r@)[i]),
        decreases ID_DRAWS - r@.len(),
    {
        let ghost before = r@;
        r.push(new_room_id());
        assert(views(r@) =~= views(before).push(r@.last()@));
    }
    r
}

/// The hash of the password that a request asks for, if it asks for one.
pub fn hash_requested(req: &CreateRoomReq, cost: u32) -> (r: Result<Option<String>, HashError>)
    ensures
        hash_of_request(*req, cost, hash_view(r)),
{
    match &req.password {
        Some(pw) => if pw.as_str().is_empty() {
            Ok(None)
        } else {
            match hash_password(pw.as_str(), cost) {
                Ok(h) => Ok(Some(h)),
                Err(e) => Err(e),
            }
        },
        None => Ok(None),
    }
}

/// The links of a room read back from their text.
proof fn lemma_links_legible(config: Config, id: Seq<char>, secret: Seq<char>)
    ensures
        writable(links_json(config, id, secret), 64),
        plain(links_json(config, id, secret), 64),
{
    reveal_strlit("room_id");
    reveal_strlit("public_url");
    reveal_strlit("admin_url");
    reveal_with_fuel(writable, 2);
    reveal_with_fuel(plain, 2);
}

/// What whoever opens a room is told, once.
pub fn room_links(config: &Config, id: &str, secret: &str) -> (r: Json)
    ensures
        r@ == links_json(*config, id@, secret@),
{
    let base: String = strip_end(config.base_url.as_str(), '/');
    let public: String = join(join(base.as_str(), "/r/").as_str(), id);
    let admin: String = join(join(public.as_str(), "/").as_str(), secret);
    Json::object().with("room_id", Json::text(id)).with(
        "public_url",
        Json::text(public.as_str()),
    ).with("admin_url", Json::text(admin.as_str()))
}

impl AppState {
    /// Whether an address may open another room. Forgets its creations outside
    /// the window.
    pub fn may_create(&mut self, address: &str, now: u64) -> (r: bool)
        ensures
            r == may_create(old(self)@, address@, now),
            final(self)@ == pruned(old(self)@, address@, now),
    {
        let times: Vec<u64> = match creations_remove(&mut self.creation_limiter, address) {
            Some(times) => times,
            None => Vec::new(),
        };
        let kept: Vec<u64> = keep_recent(&times, now, self.config.room_creation_window_seconds);
        let n: usize = kept.len();
        creations_insert(&mut self.creation_limiter, address.to_owned(), kept);
        proof {
            assert(times@ =~= creations_of(old(self)@, address@));
            assert(self@.creations =~= pruned(old(self)@, address@, now).creations);
        }
        n < self.config.room_creation_limit
    }

    /// What an address is told that may not open another room.
    pub fn refuse_creation(&mut self, address: &str, now: u64) -> (r: Option<HttpReply>)
        ensures
            final(self)@ == pruned(old(self)@, address@, now),
            match r {
                Some(reply) => !may_create(old(self)@, address@, now) && reply@
                    == (ReplyView::Text { status: 429, text: "too many rooms"@ }),
                None => may_create(old(self)@, address@, now),
            },
    {
        if self.may_create(address, now) {
            None
        } else {
            Some(refuse(429, "too many rooms"))
        }
    }

    /// The first of some ids that is not taken.
    fn pick_free(&mut self, ids: &Vec<String>) -> (r: Option<String>)
        ensures
            final(self)@ == old(self)@,
            opt_string(r) == first_free(views(ids@), old(self)@.rooms),
    {
        let mut i: usize = 0;
        assert(views(ids@).skip(0) == views(ids@));
        while i < ids.len()
            invariant
                i <= ids@.len(),
                self@ == old(self)@,
                first_free(views(ids@), self@.rooms) == first_free(
                    views(ids@).skip(i as int),
                    self@.rooms,
                ),
            decreases ids@.len() - i,
        {
            assert(views(ids@).skip(i as int)[0] == ids@[i as int]@);
            if !rooms_contain(&mut self.rooms, ids[i].as_str()) {
                return Some(ids[i].clone());
            }
            assert(views(ids@).skip(i as int).drop_first() == views(ids@).skip(i + 1));
            i += 1;
        }
        None
    }

    /// Opens a room for an address, given the time, the hash of its password,
    /// candidates for its id, and its secret.
    pub fn open_room(
        &mut self,
        address: &str,
        req: CreateRoomReq,
        now: u64,
        hash: Result<Option<String>, HashError>,
        ids: Vec<String>,
        secret: String,
    ) -> (r: (HttpReply, Option<String>))
        requires
            old(self)@.config.usable(),
        ensures
            (final(self)@, r.0@, opt_string(r.1)) == open_room(
                old(self)@,
                address@,
                req,
                now,
                hash_view(hash),
                views(ids@),
                secret@,
            ),
            r.1 matches Some(id) ==> links_read(old(self)@.config, id@, secret@),
    {
        let ghost app = self@;
        match self.refuse_creation(address, now) {
            Some(reply) => {
                return (reply, None);
            },
            None => {},
        }
        let password_hash: Option<String> = match hash {
            Ok(h) => h,
            Err(_) => {
                return (refuse(500, "hash failed"), None);
            },
        };
        let id: String = match self.pick_free(&ids) {
            Some(id) => id,
            None => {
                return (refuse(500, "could not allocate room id"), None);
            },
        };
        let cfg = RoomConfig {
            max_messages: self.config.clamp_max_messages(req.max_messages),
            max_participants: self.config.clamp_max_participants(req.max_participants),
            rate_limit_ms: self.config.clamp_rate_limit(req.rate_limit_seconds) * 1000,
            max_message_length: self.config.max_message_length,
            moderated: match req.moderated {
                Some(moderated) => moderated,
                None => false,
            },
        };
        let expires_at: u64 = deadline(now, self.config.clamp_ttl(req.ttl_seconds));
        let links: Json = room_links(&self.config, id.as_str(), secret.as_str());
        proof {
            lemma_links_legible(self.config, id@, secret@);
        }
        let reply: String = links.to_text();
        let mut times: Vec<u64> = match creations_remove(&mut self.creation_limiter, address) {
            Some(times) => times,
            None => Vec::new(),
        };
        times.push(now);
        creations_insert(&mut self.creation_limiter, address.to_owned(), times);
        self.put_room(
            Room::new(id.clone(), req.title, secret, password_hash, expires_at, cfg),
        );
        proof {
            let after = open_room(
                app,
                address@,
                req,
                now,
                hash_view(hash),
                views(ids@),
                secret@,
            ).0;
            assert(self@.creations =~= after.creations);
            assert(self@.rooms =~= after.rooms);
        }
        (HttpReply::Json(reply), Some(id))
    }
}

/// Opens a room for an address. Its id and its secret are random. So is the salt
/// of the hash of its password, and drawing it can fail.
pub fn create_room(app: &mut AppState, address: &str, req: CreateRoomReq) -> (r: (
    HttpReply,
    Option<String>,
))
    requires
        old(app)@.config.usable(),
    ensures
        exists|
            now: u64,
            hash: Result<Option<Seq<char>>, HashError>,
            ids: Seq<Seq<char>>,
            secret: Seq<char>,
        |
            {
                &&& drawn(ids, secret)
                &&& hash_of_request(req, old(app)@.config.bcrypt_cost, hash)
                &&& (final(app)@, r.0@, opt_string(r.1)) == #[trigger] open_room(
                    old(app)@,
                    address@,
                    req,
                    now,
                    hash,
                    ids,
                    secret,
                )
                &&& r.1 matches Some(id) ==> links_read(old(app)@.config, id@, secret)
            },
{
    let now: u64 = now_ms();
    let ids: Vec<String> = draw_ids();
    let secret: String = new_secret();
    let ghost start = app@;
    match app.refuse_creation(address, now) {
        Some(reply) => {
            proof {
                let hash: Result<Option<Seq<char>>, HashError> = match requested_password(req) {
                    None => Ok(None),
                    Some(_) => Err(HashError::Random),
                };
                assert((app@, reply@, None::<Seq<char>>) == open_room(
                    start,
                    address@,
                    req,
                    now,
                    hash,
                    views(ids@),
                    secret@,
                ));
            }
            return (reply, None);
        },
        None => {},
    }
    let hash: Result<Option<String>, HashError> = hash_requested(&req, app.config.bcrypt_cost);
    proof {
        lemma_open_room_pruned(
            start,
            address@,
            req,
            now,
            hash_view(hash),
            views(ids@),
            secret@,
        );
    }
    app.open_room(address, req, now, hash, ids, secret)
}

/// Forgetting old creations once more at the same time changes nothing.
proof fn lemma_pruned_twice(app: AppView, address: Seq<char>, now: u64)
    ensures
        recent_creations(pruned(app, address, now), address, now) == recent_creations(
            app,
            address,
            now,
        ),
{
    let times = creations_of(app, address);
    let seconds = app.config.room_creation_window_seconds;
    lemma_recent_twice(times, now, seconds);
}

pub proof fn lemma_recent_twice(times: Seq<u64>, now: u64, seconds: u64)
    ensures
        recent(recent(times, now, seconds), now, seconds) == recent(times, now, seconds),
    decreases times.len(),
{
    reveal(Seq::filter);
    if times.len() > 0 {
        lemma_recent_twice(times.drop_last(), now, seconds);
        let kept = recent(times.drop_last(), now, seconds);
        let t = times.last();
        if elapsed(now, t) < seconds * 1000 {
            assert(kept.push(t).drop_last() == kept);
        }
    }
}

/// A request is answered the same after old creations were forgotten.
proof fn lemma_open_room_pruned(
    app: AppView,
    address: Seq<char>,
    req: CreateRoomReq,
    now: u64,
    hash: Result<Option<Seq<char>>, HashError>,
    ids: Seq<Seq<char>>,
    secret: Seq<char>,
)
    ensures
        open_room(pruned(app, address, now), address, req, now, hash, ids, secret) == open_room(
            app,
            address,
            req,
            now,
            hash,
            ids,
            secret,
        ),
{
    lemma_pruned_twice(app, address, now);
    let kept = pruned(app, address, now);
    let times = recent_creations(app, address, now);
    assert(kept.creations.insert(address, times) =~= app.creations.insert(address, times));
    assert(kept.creations.insert(address, times.push(now)) =~= app.creations.insert(
        address,
        times.push(now),
    ));
}

// ── Joining ─────────────────────────────────────────────────────────────────

/// What a display window's token begins with.
pub open spec fn display_prefix() -> Seq<char> {
    "disp."@
}

/// Whether the request shows a session that the room has admitted.
pub open spec fn reconnects(room: RoomModel, req: JoinReq) -> bool {
    req.session matches Some(token) && room.inner.sessions.contains(token@)
}

/// Whether the request passes the room's password.
pub open spec fn knows_password(room: RoomModel, req: JoinReq) -> bool {
    match room.password_hash {
        None => true,
        Some(hash) => req.password matches Some(pw) && password_fits(pw@, hash),
    }
}

/// The token that a client gets: its own on reconnecting, else the fresh one,
/// marked if it is for a display window.
pub open spec fn issued_token(room: RoomModel, req: JoinReq, fresh: Seq<char>) -> Seq<char> {
    if reconnects(room, req) {
        req.session->0@
    } else if req.display == Some(true) {
        display_prefix() + fresh
    } else {
        fresh
    }
}

/// The room after it has admitted a token.
pub open spec fn admitted(room: RoomModel, token: Seq<char>) -> RoomModel {
    RoomModel {
        inner: RoomView { sessions: room.inner.sessions.insert(token), ..room.inner },
        ..room
    }
}

/// What a client is told on joining.
pub open spec fn joined_json(token: Seq<char>, state: JsonView) -> JsonView {
    empty_object().with("session_token"@, JsonView::Str(token)).with("state"@, state)
}

/// Why a room cannot be had, if it cannot.
pub open spec fn missing(app: AppView, room_id: Seq<char>, now: u64) -> Option<ReplyView> {
    if !app.rooms.contains_key(room_id) {
        Some(ReplyView::Text { status: 404, text: "room not found"@ })
    } else if app.rooms[room_id].expired_at(now) {
        Some(ReplyView::Text { status: 404, text: "room expired"@ })
    } else {
        None
    }
}

/// A client asks to join a room. `fresh` is a new session token.
pub open spec fn joining(
    app: AppView,
    room_id: Seq<char>,
    req: JoinReq,
    now: u64,
    fresh: Seq<char>,
) -> (AppView, ReplyView) {
    joining_if(app, room_id, req, now, fresh, knows_password(app.rooms[room_id], req))
}

/// A client asks to join a room, and is known to pass its password or not to.
/// `fresh` is a new session token.
pub open spec fn joining_if(
    app: AppView,
    room_id: Seq<char>,
    req: JoinReq,
    now: u64,
    fresh: Seq<char>,
    passes: bool,
) -> (AppView, ReplyView) {
    let room = app.rooms[room_id];
    match missing(app, room_id, now) {
        Some(reply) => (app, reply),
        None => if !reconnects(room, req) && !passes {
            (app, ReplyView::Text { status: 403, text: "bad or missing password"@ })
        } else {
            let token = issued_token(room, req, fresh);
            let after = admitted(room, token);
            (
                AppView { rooms: app.rooms.insert(room_id, after), ..app },
                ReplyView::Json(json_text(joined_json(token, after.snapshot(false, now)))),
            )
        },
    }
}

/// Whether the answer to whoever joins a room reads back as what it stands for.
pub open spec fn joined_read(room: RoomModel, req: JoinReq, now: u64, fresh: Seq<char>) -> bool {
    let token = issued_token(room, req, fresh);
    legible(joined_json(token, admitted(room, token).snapshot(false, now)))
}

/// What came of checking a password against a hash. Checking takes long, so it
/// can be done ahead of joining.
#[derive(Debug)]
pub struct PasswordCheck {
    pub hash: String,
    pub fits: bool,
}

/// Whether a check, if there was one, passes the room's password: it does not if
/// it was made against another hash.
pub open spec fn check_passes(room: RoomModel, check: Option<PasswordCheck>) -> bool {
    match room.password_hash {
        None => true,
        Some(hash) => check matches Some(c) && c.hash@ == hash && c.fits,
    }
}

/// Whether a check, if there was one, is what checking the password of a request
/// comes to.
pub open spec fn honest_check(req: JoinReq, check: Option<PasswordCheck>) -> bool {
    check matches Some(c) ==> (req.password matches Some(pw) && c.fits == password_fits(
        pw@,
        c.hash@,
    ))
}

/// Checks the password of a request against a hash.
pub fn check_password(req: &JoinReq, hash: String) -> (r: Option<PasswordCheck>)
    ensures
        honest_check(*req, r),
        match r {
            Some(c) => req.password is Some && c.hash@ == hash@,
            None => req.password is None,
        },
{
    match &req.password {
        Some(pw) => {
            let fits: bool = verify_password(pw.as_str(), hash.as_str());
            Some(PasswordCheck { hash, fits })
        },
        None => None,
    }
}

impl Room {
    /// Whether the request shows a session that the room has admitted.
    pub fn reconnects(&self, req: &JoinReq) -> (r: bool)
        ensures
            r == reconnects(self@, *req),
    {
        match &req.session {
            Some(token) => self.inner.sessions.contains(token.as_str()),
            None => false,
        }
    }

    /// Admits a client, and tells it its token and what it sees of the room.
    /// `fresh` is a new session token.
    pub fn take_in(&mut self, req: &JoinReq, now: u64, fresh: String) -> (r: Json)
        ensures
            ({
                let token = issued_token(old(self)@, *req, fresh@);
                let after = admitted(old(self)@, token);
                &&& final(self)@ == after
                &&& r@ == joined_json(token, after.snapshot(false, now))
            }),
    {
        let reconnecting: bool = self.reconnects(req);
        let display: bool = match req.display {
            Some(display) => display,
            None => false,
        };
        let token: String = match (reconnecting, &req.session) {
            (true, Some(token)) => token.clone(),
            _ => if display {
                join("disp.", fresh.as_str())
            } else {
                fresh
            },
        };
        self.inner.sessions.insert(token.clone());
        assert(self@ =~= admitted(old(self)@, token@));
        let state: Json = self.picture(false, now);
        Json::object().with("session_token", Json::text(token.as_str())).with("state", state)
    }

    /// Whether a check, if there was one, passes the room's password.
    pub fn check_passes(&self, check: &Option<PasswordCheck>) -> (r: bool)
        ensures
            r == check_passes(self@, *check),
    {
        match (&self.password_hash, check) {
            (None, _) => true,
            (Some(hash), Some(c)) => str_eq(c.hash.as_str(), hash.as_str()) && c.fits,
            (Some(_), None) => false,
        }
    }

    /// Admits a client, if it may enter. `fresh` is a new session token.
    pub fn join(&mut self, req: &JoinReq, passes: bool, now: u64, fresh: String) -> (r: HttpReply)
        ensures
            if !reconnects(old(self)@, *req) && !passes {
                &&& final(self)@ == old(self)@
                &&& r@ == (ReplyView::Text { status: 403, text: "bad or missing password"@ })
            } else {
                let token = issued_token(old(self)@, *req, fresh@);
                let after = admitted(old(self)@, token);
                &&& final(self)@ == after
                &&& r@ == ReplyView::Json(
                    json_text(joined_json(token, after.snapshot(false, now))),
                )
                &&& joined_read(old(self)@, *req, now, fresh@)
            },
    {
        if !self.reconnects(req) && !passes {
            return refuse(403, "bad or missing password");
        }
        let j: Json = self.take_in(req, now, fresh);
        proof {
            lemma_snapshot_writable(self@.inner, self@.id, false, self@.title, now);
            reveal_with_fuel(writable, 2);
            lemma_writable_more(j@, 6, 64);
        }
        HttpReply::Json(j.to_text())
    }
}

/// The hash that a client's password is to be checked against before it joins a
/// room, if it is to be checked.
pub open spec fn hash_to_check(app: AppView, room_id: Seq<char>, req: JoinReq) -> Option<
    Seq<char>,
> {
    if app.rooms.contains_key(room_id) && !reconnects(app.rooms[room_id], req) {
        app.rooms[room_id].password_hash
    } else {
        None
    }
}

/// The hash that a client's password is to be checked against before it joins a
/// room, if it is to be checked: a returning session needs no password, and
/// neither does a room without one.
pub fn password_hash_for(app: &mut AppState, room_id: &str, req: &JoinReq) -> (r: Option<String>)
    ensures
        final(app)@ == old(app)@,
        opt_string(r) == hash_to_check(old(app)@, room_id@, *req),
{
    let ghost start = app@;
    let room: Room = match rooms_remove(&mut app.rooms, room_id) {
        Some(room) => room,
        None => {
            assert(app@.rooms =~= start.rooms);
            return None;
        },
    };
    let r: Option<String> = if room.reconnects(req) {
        None
    } else {
        room.password_hash.clone()
    };
    rooms_insert(&mut app.rooms, room_id.to_owned(), room);
    assert(app@.rooms =~= start.rooms);
    r
}

/// Admits a client to a room at the time `now`, given what came of checking its
/// password, if it was checked. `fresh` is a new session token.
pub fn join_room_checked(
    app: &mut AppState,
    room_id: &str,
    req: JoinReq,
    check: Option<PasswordCheck>,
    now: u64,
    fresh: String,
) -> (r: HttpReply)
    ensures
        (final(app)@, r@) == joining_if(
            old(app)@,
            room_id@,
            req,
            now,
            fresh@,
            check_passes(old(app)@.rooms[room_id@], check),
        ),
        r@ is Json ==> joined_read(old(app)@.rooms[room_id@], req, now, fresh@),
{
    let ghost start = app@;
    let room: Room = match rooms_remove(&mut app.rooms, room_id) {
        Some(room) => room,
        None => {
            assert(app@.rooms =~= start.rooms);
            return refuse(404, "room not found");
        },
    };
    let mut room = room;
    let ghost passes = check_passes(room@, check);
    let reply: HttpReply = if room.is_expired_at(now) {
        refuse(404, "room expired")
    } else {
        let passes: bool = room.check_passes(&check);
        room.join(&req, passes, now, fresh)
    };
    rooms_insert(&mut app.rooms, room_id.to_owned(), room);
    proof {
        let after = joining_if(start, room_id@, req, now, fresh@, passes);
        assert(app@.rooms =~= after.0.rooms);
    }
    reply
}

/// Where the password was checked against the hash that was to be checked,
/// joining goes as if it were checked now.
proof fn lemma_checked_ahead(
    app: AppView,
    room_id: Seq<char>,
    req: JoinReq,
    now: u64,
    fresh: Seq<char>,
    check: Option<PasswordCheck>,
)
    requires
        honest_check(req, check),
        match (hash_to_check(app, room_id, req), check) {
            (Some(hash), Some(c)) => c.hash@ == hash,
            (Some(_), None) => req.password is None,
            (None, _) => true,
        },
    ensures
        joining_if(app, room_id, req, now, fresh, check_passes(app.rooms[room_id], check))
            == joining(app, room_id, req, now, fresh),
{
}

/// Admits a client to a room at the time `now`. `fresh` is a new session
/// token.
pub fn join_room_at(
    app: &mut AppState,
    room_id: &str,
    req: JoinReq,
    now: u64,
    fresh: String,
) -> (r: HttpReply)
    ensures
        (final(app)@, r@) == joining(old(app)@, room_id@, req, now, fresh@),
        r@ is Json ==> joined_read(old(app)@.rooms[room_id@], req, now, fresh@),
{
    let check: Option<PasswordCheck> = match password_hash_for(app, room_id, &req) {
        Some(hash) => check_password(&req, hash),
        None => None,
    };
    proof {
        lemma_checked_ahead(app@, room_id@, req, now, fresh@, check);
    }
    join_room_checked(app, room_id, req, check, now, fresh)
}

/// Admits a client to a room. The session token is random, and the time is
/// the clock's.
pub fn join_room(app: &mut AppState, room_id: &str, req: JoinReq) -> (r: HttpReply)
    ensures
        exists|now: u64, fresh: Seq<char>|
            {
                &&& is_session_token(fresh)
                &&& (final(app)@, r@) == #[trigger] joining(old(app)@, room_id@, req, now, fresh)
                &&& r@ is Json ==> joined_read(old(app)@.rooms[room_id@], req, now, fresh)
            },
{
    let now: u64 = now_ms();
    let fresh: String = new_session_token();
    join_room_at(app, room_id, req, now, fresh)
}

// ── The admin's view ────────────────────────────────────────────────────────

/// The token in an `Authorization` header: what stands behind the first space,
/// if the scheme in front of it is `bearer` in any case.
pub open spec fn bearer_token(raw: Seq<char>) -> Option<Seq<char>> {
    match credentials(trimmed(raw)) {
        Some(token) => Some(trimmed(token)),
        None => None,
    }
}

/// What stands behind the first space, if `bearer` in any case stands in front
/// of it.
pub open spec fn credentials(line: Seq<char>) -> Option<Seq<char>> {
    match first_index(line, ' ') {
        Some(i) => if lowered(line.take(i)) == lowered("bearer"@) {
            Some(line.skip(i + 1))
        } else {
            None
        },
        None => None,
    }
}

/// What stands behind the first space, if `bearer` in any case stands in front
/// of it.
pub fn read_credentials(line: &str) -> (r: Option<String>)
    ensures
        opt_string(r) == credentials(line@),
{
    let n: usize = line.unicode_len();
    match index_of(line, ' ') {
        Some(i) => {
            proof {
                assert(line@.subrange(0, i as int) == line@.take(i as int));
                assert(line@.subrange(i + 1, n as int) == line@.skip(i + 1));
            }
            if eq_ignore_case(line.substring_char(0, i), "bearer") {
                Some(line.substring_char(i + 1, n).to_owned())
            } else {
                None
            }
        },
        None => None,
    }
}

/// The token in an `Authorization` header. The scheme may be in any case, and
/// white space around the parts is tolerated.
pub fn bearer(raw: &str) -> (r: Option<String>)
    ensures
        opt_string(r) == bearer_token(raw@),
{
    let line: String = trim(raw);
    match read_credentials(line.as_str()) {
        Some(token) => Some(trim(token.as_str())),
        None => None,
    }
}

/// The state of a room for whoever shows its admin token.
pub open spec fn viewing(
    app: AppView,
    room_id: Seq<char>,
    authorization: Option<Seq<char>>,
    now: u64,
) -> ReplyView {
    let room = app.rooms[room_id];
    let token = match authorization {
        Some(raw) => bearer_token(raw),
        None => None,
    };
    match missing(app, room_id, now) {
        Some(reply) => reply,
        None => if token matches Some(t) && room.is_admin_token(t) {
            ReplyView::Json(json_text(room.snapshot(true, now)))
        } else {
            ReplyView::Text { status: 403, text: "admin token required"@ }
        },
    }
}

/// The state of a room at the time `now`, for whoever shows its admin token
/// in the `Authorization` header.
pub fn room_state_at(
    app: &mut AppState,
    room_id: &str,
    authorization: Option<&str>,
    now: u64,
) -> (r: HttpReply)
    ensures
        final(app)@ == old(app)@,
        r@ == viewing(old(app)@, room_id@, opt_text(authorization), now),
        r@ is Json ==> legible(old(app)@.rooms[room_id@].snapshot(true, now)),
{
    let ghost start = app@;
    let room: Room = match rooms_remove(&mut app.rooms, room_id) {
        Some(room) => room,
        None => {
            assert(app@.rooms =~= start.rooms);
            return refuse(404, "room not found");
        },
    };
    let reply: HttpReply = if room.is_expired_at(now) {
        refuse(404, "room expired")
    } else {
        let token: Option<String> = match authorization {
            Some(raw) => bearer(raw),
            None => None,
        };
        let authorized: bool = match &token {
            Some(t) => room.is_admin_token(t.as_str()),
            None => false,
        };
        if authorized {
            proof {
                lemma_snapshot_writable(room@.inner, room@.id, true, room@.title, now);
                lemma_writable_more(room@.snapshot(true, now), 5, 64);
            }
            HttpReply::Json(room.picture(true, now).to_text())
        } else {
            refuse(403, "admin token required")
        }
    };
    rooms_insert(&mut app.rooms, room_id.to_owned(), room);
    assert(app@.rooms =~= start.rooms);
    reply
}

/// The state of a room now, for whoever shows its admin token.
pub fn room_state(app: &mut AppState, room_id: &str, authorization: Option<&str>) -> (r: HttpReply)
    ensures
        final(app)@ == old(app)@,
        exists|now: u64|
            r@ == #[trigger] viewing(old(app)@, room_id@, opt_text(authorization), now) && (
            r@ is Json ==> legible(old(app)@.rooms[room_id@].snapshot(true, now))),
{
    let now: u64 = now_ms();
    room_state_at(app, room_id, authorization, now)
}

// ── The sweep ───────────────────────────────────────────────────────────────

/// The rooms whose time is not up.
pub open spec fn surviving(rooms: Map<Seq<char>, RoomModel>, now: u64) -> Map<
    Seq<char>,
    RoomModel,
> {
    Map::new(
        |id: Seq<char>| rooms.contains_key(id) && !rooms[id].expired_at(now),
        |id: Seq<char>| rooms[id],
    )
}

/// Removed rooms with the ids they stood under.
pub open spec fn removed(s: Seq<(String, Room)>) -> Seq<(Seq<char>, RoomModel)> {
    Seq::new(s.len(), |i: int| (s[i].0@, s[i].1@))
}

impl AppState {
    /// Takes out the rooms whose time is up at the time `now`, and hands each
    /// of them out once, with the id it stood under.
    pub fn reap_expired(&mut self, now: u64) -> (r: Vec<(String, Room)>)
        ensures
            final(self)@ == (AppView { rooms: surviving(old(self)@.rooms, now), ..old(self)@ }),
            reaped(old(self)@.rooms, now, removed(r@)),
    {
        let ghost start = self@.rooms;
        let ids: Vec<String> = rooms_ids(&mut self.rooms);
        let ghost keys = views(ids@);
        let mut gone: Vec<(String, Room)> = Vec::new();
        let mut i: usize = 0;
        while i < ids.len()
            invariant
                i <= ids@.len(),
                keys == views(ids@),
                keys.no_duplicates(),
                keys.to_set() == start.dom(),
                start == old(self)@.rooms,
                self@.config == old(self)@.config,
                self@.creations == old(self)@.creations,
                forall|id: Seq<char>| #[trigger]
                    self@.rooms.contains_key(id) <==> start.contains_key(id) && !(
                    start[id].expired_at(now) && keys.take(i as int).contains(id)),
                forall|id: Seq<char>| #[trigger]
                    self@.rooms.contains_key(id) ==> self@.rooms[id] == start[id],
                forall|k: int|
                    0 <= k < gone@.len() ==> {
                        let id = (#[trigger] gone@[k]).0@;
                        &&& keys.take(i as int).contains(id)
                        &&& start.contains_key(id)
                        &&& start[id].expired_at(now)
                        &&& gone@[k].1@ == start[id]
                    },
                forall|id: Seq<char>| #[trigger]
                    keys.take(i as int).contains(id) && start[id].expired_at(now) ==> exists|k: int|
                        0 <= k < gone@.len() && (#[trigger] gone@[k]).0@ == id,
                forall|a: int, b: int|
                    0 <= a < b < gone@.len() ==> (#[trigger] gone@[a]).0@ != (
                    #[trigger] gone@[b]).0@,
            decreases ids@.len() - i,
        {
            let ghost id = ids@[i as int]@;
            let ghost had = self@.rooms;
            let ghost out = gone@;
            proof {
                assert(keys[i as int] == id);
                assert(keys.to_set().contains(id));
                assert(keys.take(i + 1) == keys.take(i as int).push(id));
                assert(!keys.take(i as int).contains(id));
                assert forall|k: Seq<char>| #[trigger] keys.take(i + 1).contains(k) <==> keys.take(
                    i as int,
                ).contains(k) || k == id by {
                    if keys.take(i as int).contains(k) {
                        let j = choose|j: int| 0 <= j < i && keys.take(i as int)[j] == k;
                        assert(keys.take(i + 1)[j] == k);
                    }
                    if k == id {
                        assert(keys.take(i + 1)[i as int] == k);
                    }
                }
            }
            match rooms_remove(&mut self.rooms, ids[i].as_str()) {
                Some(room) => {
                    if room.is_expired_at(now) {
                        gone.push((ids[i].clone(), room));
                        assert forall|k: Seq<char>| #[trigger]
                            keys.take(i + 1).contains(k)
                                && start[k].expired_at(now) implies exists|n: int|
                            0 <= n < gone@.len() && (#[trigger] gone@[n]).0@ == k by {
                            if k == id {
                                assert(gone@[out.len() as int].0@ == k);
                            } else {
                                assert(keys.take(i as int).contains(k));
                                let n = choose|n: int|
                                    0 <= n < out.len() && (#[trigger] out[n]).0@ == k;
                                assert(gone@[n].0@ == k);
                            }
                        }
                    } else {
                        rooms_insert(&mut self.rooms, ids[i].clone(), room);
                    }
                },
                None => {
                    assert(had.contains_key(id));
                },
            }
            i += 1;
        }
        proof {
            assert(keys.take(i as int) == keys);
            assert forall|id: Seq<char>| start.contains_key(id) implies keys.contains(id) by {
                assert(keys.to_set().contains(id));
            }
            assert(self@.rooms =~= surviving(start, now));
            assert forall|id: Seq<char>| #[trigger]
                start.contains_key(id) && start[id].expired_at(now) implies exists|k: int|
                0 <= k < removed(gone@).len() && (#[trigger] removed(gone@)[k]).0 == id by {
                assert(keys.take(i as int).contains(id));
                let k = choose|k: int| 0 <= k < gone@.len() && (#[trigger] gone@[k]).0@ == id;
                assert(removed(gone@)[k].0 == id);
            }
            assert forall|k: int| 0 <= k < removed(gone@).len() implies ({
                let (id, room) = #[trigger] removed(gone@)[k];
                start.contains_key(id) && start[id].expired_at(now) && room == start[id]
            }) by {
                assert(gone@[k].1@ == start[gone@[k].0@]);
            }
            assert forall|a: int, b: int| 0 <= a < b < removed(gone@).len() implies (
            #[trigger] removed(gone@)[a]).0 != (#[trigger] removed(gone@)[b]).0 by {
                assert(gone@[a].0@ != gone@[b].0@);
            }
        }
        gone
    }
}

/// What a sweep at the time `now` takes out: each room whose time is up, once,
/// with the id it stood under.
pub open spec fn reaped(
    rooms: Map<Seq<char>, RoomModel>,
    now: u64,
    gone: Seq<(Seq<char>, RoomModel)>,
) -> bool {
    &&& forall|i: int|
        0 <= i < gone.len() ==> {
            let (id, room) = #[trigger] gone[i];
            rooms.contains_key(id) && rooms[id].expired_at(now) && room == rooms[id]
        }
    &&& forall|id: Seq<char>| #[trigger]
        rooms.contains_key(id) && rooms[id].expired_at(now) ==> exists|i: int|
            0 <= i < gone.len() && (#[trigger] gone[i]).0 == id
    &&& forall|i: int, k: int|
        0 <= i < k < gone.len() ==> (#[trigger] gone[i]).0 != (#[trigger] gone[k]).0
}

/// Takes out the rooms whose time is up now. Each of them is to be told that it
/// is closed.
pub fn sweep_expired(app: &mut AppState) -> (r: Vec<(String, Room)>)
    ensures
        exists|now: u64|
            final(app)@ == (AppView {
                rooms: #[trigger] surviving(old(app)@.rooms, now),
                ..old(app)@
            }) && reaped(old(app)@.rooms, now, removed(r@)),
{
    let now: u64 = now_ms();
    app.reap_expired(now)
}

} // verus!
