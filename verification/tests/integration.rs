//! Sessions from end to end: rooms are opened and joined, connections are let
//! in, and frames go back and forth, as they would over a network.

use void::assets::{asset_path, serve_embedded, AssetReply};
use void::auth;
use void::config::Config;
use void::handlers::{
    create_room, join_room, room_state, CreateRoomReq, HttpReply, JoinReq,
};
use void::json::Json;
use void::socket::{closed_frame, ws_handler, Admission, Caller, Outgoing};
use void::state::{now_ms, AppState};

// ── A server with its connections ───────────────────────────────────────────

struct Client {
    room: String,
    caller: Caller,
    inbox: Vec<String>,
    read: usize,
}

struct Server {
    app: AppState,
    clients: Vec<Client>,
    timers: Vec<(String, u64)>,
}

fn test_config() -> Config {
    Config {
        host: "127.0.0.1".to_string(),
        port: 8080,
        base_url: "http://127.0.0.1:8080".to_string(),
        database_url: None,
        bcrypt_cost: 4,
        default_ttl_seconds: 7200,
        max_ttl_seconds: 86400,
        default_max_messages: 200,
        max_messages_per_room: 1000,
        default_max_participants: 100,
        max_participants_per_room: 500,
        default_rate_limit_seconds: 0,
        max_message_length: 500,
        ttl_sweep_interval_seconds: 60,
        room_creation_limit: 10,
        room_creation_window_seconds: 3600,
    }
}

fn spawn() -> Server {
    Server { app: AppState::new(test_config()), clients: Vec::new(), timers: Vec::new() }
}

impl Server {
    fn create(&mut self, req: CreateRoomReq) -> Json {
        match create_room(&mut self.app, "10.0.0.1", req).0 {
            HttpReply::Json(text) => Json::parse(&text).unwrap(),
            other => panic!("{:?}", other),
        }
    }

    fn join(&mut self, id: &str, password: Option<&str>) -> (u16, Option<String>) {
        let req = JoinReq { password: password.map(str::to_string), session: None, display: None };
        status_and_token(join_room(&mut self.app, id, req))
    }

    fn ws(&mut self, id: &str, token: &str) -> usize {
        let header = format!("void.token.{token}");
        match ws_handler(&mut self.app, id, Some(&header)) {
            Admission::Admitted { caller, protocol } => {
                assert_eq!(protocol, Some(header));
                self.connect(id, caller)
            }
            Admission::Refused(reply) => panic!("{:?}", reply),
        }
    }

    fn connect(&mut self, id: &str, caller: Caller) -> usize {
        let mut room = self.app.take_room(id).unwrap();
        let entrance = room.enter(caller.is_admin, caller.is_display, now_ms()).unwrap();
        self.app.put_room(room);
        self.clients.push(Client {
            room: id.to_string(),
            caller,
            inbox: vec![entrance.first],
            read: 0,
        });
        if let Some(text) = entrance.announcement {
            self.broadcast(id, &text);
        }
        self.clients.len() - 1
    }

    fn broadcast(&mut self, id: &str, text: &str) {
        for c in self.clients.iter_mut().filter(|c| c.room == id) {
            c.inbox.push(text.to_string());
        }
    }

    fn carry_out(&mut self, from: Option<usize>, id: &str, out: Vec<Outgoing>) {
        for o in out {
            match o {
                Outgoing::Reply(text) => self.clients[from.unwrap()].inbox.push(text),
                Outgoing::Broadcast(text) => self.broadcast(id, &text),
                Outgoing::BroadcastAdmin(text) => {
                    for c in self.clients.iter_mut() {
                        if c.room == id && c.caller.is_admin {
                            c.inbox.push(text.clone());
                        }
                    }
                }
                Outgoing::Append(_) => {}
                Outgoing::ScheduleUnlock { seconds: _, epoch } => {
                    self.timers.push((id.to_string(), epoch))
                }
                Outgoing::CloseRoom => {
                    self.app.take_room(id);
                }
            }
        }
    }

    fn send(&mut self, client: usize, kind: &str, payload: Json) {
        let frame = Json::object().with("type", Json::text(kind)).with("payload", payload);
        self.send_text(client, &frame.to_text());
    }

    fn send_text(&mut self, client: usize, text: &str) {
        let id = self.clients[client].room.clone();
        let mut room = self.app.take_room(&id).unwrap();
        assert!(room.inner.has_headroom());
        let out = room.handle_client(&self.clients[client].caller, text);
        self.app.put_room(room);
        self.carry_out(Some(client), &id, out);
    }

    fn fire_timers(&mut self) {
        for (id, epoch) in std::mem::take(&mut self.timers) {
            let mut room = self.app.take_room(&id).unwrap();
            let out = room.timer_fired(epoch);
            self.app.put_room(room);
            self.carry_out(None, &id, out);
        }
    }

    fn next_event(&mut self, client: usize) -> Option<Json> {
        let c = &mut self.clients[client];
        let text = c.inbox.get(c.read)?;
        c.read += 1;
        Json::parse(text)
    }

    fn wait_for(&mut self, client: usize, kind: &str) -> Option<Json> {
        while let Some(ev) = self.next_event(client) {
            if ev.str_at("type") == Some(kind) {
                return Some(ev);
            }
        }
        None
    }

    fn get_state(&mut self, id: &str, authorization: Option<&str>) -> HttpReply {
        room_state(&mut self.app, id, authorization)
    }

    fn admin_ws(&mut self, created: &Json) -> usize {
        let id = room_id(created);
        let token = auth::admin_token(&secret(created), &id);
        self.ws(&id, &token)
    }

    fn user_ws(&mut self, created: &Json) -> usize {
        let id = room_id(created);
        let (status, token) = self.join(&id, None);
        assert_eq!(status, 200);
        self.ws(&id, &token.unwrap())
    }
}

fn status_and_token(reply: HttpReply) -> (u16, Option<String>) {
    match reply {
        HttpReply::Json(text) => {
            let v = Json::parse(&text).unwrap();
            (200, v.str_at("session_token").map(str::to_string))
        }
        HttpReply::Text { status, .. } => (status, None),
    }
}

fn status(reply: &HttpReply) -> u16 {
    match reply {
        HttpReply::Json(_) => 200,
        HttpReply::Text { status, .. } => *status,
    }
}

fn room_id(created: &Json) -> String {
    created.str_at("room_id").unwrap().to_string()
}

fn secret(created: &Json) -> String {
    created.str_at("admin_url").unwrap().rsplit('/').next().unwrap().to_string()
}

fn any_room() -> CreateRoomReq {
    CreateRoomReq::default()
}

fn obj() -> Json {
    Json::object()
}

fn payload(ev: &Json) -> &Json {
    ev.get("payload").unwrap()
}

fn text_payload(text: &str) -> Json {
    obj().with("text", Json::text(text))
}

fn texts(items: &[&str]) -> Json {
    Json::Array(items.iter().map(|t| Json::text(t)).collect())
}

// ── Tests ───────────────────────────────────────────────────────────────────

#[test]
fn serves_embedded_frontend() {
    match serve_embedded("index.html", Some(b"<html></html>".to_vec())) {
        AssetReply::Found { content_type, data } => {
            assert!(content_type.contains("html"));
            assert_eq!(data, b"<html></html>".to_vec());
        }
        other => panic!("{:?}", other),
    }
    let path = asset_path("app.js");
    assert_eq!(path, "assets/app.js");
    assert!(matches!(serve_embedded(&path, Some(vec![1])), AssetReply::Found { .. }));
    match serve_embedded(&asset_path("missing.js"), None) {
        AssetReply::Missing(reply) => assert_eq!(status(&reply), 404),
        other => panic!("{:?}", other),
    }
}

#[test]
fn create_returns_links() {
    let mut s = spawn();
    let room = s.create(any_room());
    let id = room_id(&room);
    assert_eq!(id.len(), 6);
    assert!(id.chars().all(|c| c.is_ascii_hexdigit()));
    assert!(room.str_at("public_url").unwrap().ends_with(&format!("/r/{id}")));
    assert!(room.str_at("admin_url").unwrap().contains(&format!("/r/{id}/")));
}

#[test]
fn password_gate() {
    let mut s = spawn();
    let room = s.create(CreateRoomReq {
        password: Some("hunter2".to_string()),
        ..CreateRoomReq::default()
    });
    let id = room_id(&room);

    assert_eq!(s.join(&id, Some("wrong")).0, 403);
    assert_eq!(s.join(&id, None).0, 403);
    let (status, token) = s.join(&id, Some("hunter2"));
    assert_eq!(status, 200);
    assert!(token.is_some());
}

#[test]
fn state_requires_auth() {
    let mut s = spawn();
    let room = s.create(any_room());
    let id = room_id(&room);

    assert_eq!(status(&s.get_state(&id, None)), 403);

    let token = auth::admin_token(&secret(&room), &id);
    assert_eq!(status(&s.get_state(&id, Some(&format!("Bearer {token}")))), 200);
    assert_eq!(status(&s.get_state(&id, Some("Bearer deadbeef"))), 403);
}

#[test]
fn message_broadcasts_to_all() {
    let mut s = spawn();
    let room = s.create(any_room());
    let admin = s.admin_ws(&room);
    let user = s.user_ws(&room);

    s.send(user, "message", text_payload("hello void"));

    let on_admin = s.wait_for(admin, "message").unwrap();
    let on_user = s.wait_for(user, "message").unwrap();
    assert_eq!(payload(&on_admin).str_at("text"), Some("hello void"));
    assert_eq!(payload(&on_admin).str_at("role"), Some("user"));
    assert_eq!(payload(&on_user).str_at("text"), Some("hello void"));
}

#[test]
fn write_lock_blocks_users_not_admin() {
    let mut s = spawn();
    let room = s.create(any_room());
    let admin = s.admin_ws(&room);
    let user = s.user_ws(&room);

    s.send(admin, "admin_lock", obj().with("locked", Json::Bool(true)));
    let lock = s.wait_for(user, "lock").unwrap();
    assert_eq!(payload(&lock).bool_at("locked"), Some(true));

    // The user's message is rejected with a personal error, not broadcast.
    s.send(user, "message", text_payload("blocked?"));
    let error = s.wait_for(user, "error").unwrap();
    assert_eq!(payload(&error).str_at("code"), Some("locked"));

    // The admin can still post while the room is locked.
    s.send(admin, "message", text_payload("presenter"));
    let message = s.wait_for(user, "message").unwrap();
    assert_eq!(payload(&message).str_at("text"), Some("presenter"));
}

#[test]
fn rate_limit_enforced_per_session() {
    let mut s = spawn();
    let room = s.create(CreateRoomReq {
        rate_limit_seconds: Some(10),
        ..CreateRoomReq::default()
    });
    let user = s.user_ws(&room);

    s.send(user, "message", text_payload("first"));
    assert!(s.wait_for(user, "message").is_some());

    s.send(user, "message", text_payload("too soon"));
    let error = s.wait_for(user, "error").unwrap();
    assert_eq!(payload(&error).str_at("code"), Some("rate_limited"));
}

#[test]
fn message_length_capped() {
    let mut s = spawn();
    let room = s.create(any_room());
    let user = s.user_ws(&room);

    let long = "x".repeat(501);
    s.send(user, "message", text_payload(&long));
    let error = s.wait_for(user, "error").unwrap();
    assert_eq!(payload(&error).str_at("code"), Some("too_long"));
}

#[test]
fn poll_vote_once_then_close() {
    let mut s = spawn();
    let room = s.create(any_room());
    let admin = s.admin_ws(&room);
    let user = s.user_ws(&room);

    s.send(
        admin,
        "admin_create_poll",
        obj().with("question", Json::text("best?")).with("options", texts(&["a", "b"])),
    );
    let poll = s.wait_for(user, "poll_created").unwrap();
    let pid = payload(&poll).u64_at("id").unwrap();

    let ballot = |i: u64| {
        obj().with("poll_id", Json::number(pid)).with("option_index", Json::number(i))
    };
    s.send(user, "poll_vote", ballot(1));
    let update = s.wait_for(user, "poll_update").unwrap();
    let options = payload(&update).get("options").unwrap().as_array().unwrap();
    assert_eq!(options[1].u64_at("votes"), Some(1));

    s.send(user, "poll_vote", ballot(0));
    let error = s.wait_for(user, "error").unwrap();
    assert_eq!(payload(&error).str_at("code"), Some("already_voted"));

    s.send(admin, "admin_close_poll", obj().with("poll_id", Json::number(pid)));
    assert!(s.wait_for(user, "poll_closed").is_some());
}

#[test]
fn invalid_poll_rejected() {
    let mut s = spawn();
    let room = s.create(any_room());
    let admin = s.admin_ws(&room);

    s.send(
        admin,
        "admin_create_poll",
        obj().with("question", Json::text("q")).with("options", texts(&["only one"])),
    );
    let error = s.wait_for(admin, "error").unwrap();
    assert_eq!(payload(&error).str_at("code"), Some("bad_poll"));
}

#[test]
fn reaction_toggles() {
    let mut s = spawn();
    let room = s.create(any_room());
    let user = s.user_ws(&room);

    s.send(user, "message", text_payload("react to me"));
    let message = s.wait_for(user, "message").unwrap();
    let mid = payload(&message).u64_at("id").unwrap();

    let reaction = || obj().with("message_id", Json::number(mid)).with("emoji", Json::text("🔥"));
    s.send(user, "reaction", reaction());
    let ev = s.wait_for(user, "reaction").unwrap();
    assert_eq!(payload(&ev).u64_at("count"), Some(1));

    s.send(user, "reaction", reaction());
    let ev = s.wait_for(user, "reaction").unwrap();
    assert_eq!(payload(&ev).u64_at("count"), Some(0));
}

#[test]
fn admin_actions_require_admin_token() {
    let mut s = spawn();
    let room = s.create(any_room());
    let user = s.user_ws(&room);

    s.send(user, "admin_lock", obj().with("locked", Json::Bool(true)));
    let error = s.wait_for(user, "error").unwrap();
    assert_eq!(payload(&error).str_at("code"), Some("forbidden"));
}

#[test]
fn admin_delete_message() {
    let mut s = spawn();
    let room = s.create(any_room());
    let admin = s.admin_ws(&room);
    let user = s.user_ws(&room);

    s.send(user, "message", text_payload("delete me"));
    let message = s.wait_for(user, "message").unwrap();
    let mid = payload(&message).u64_at("id").unwrap();

    s.send(admin, "admin_delete_message", obj().with("message_id", Json::number(mid)));
    let deleted = s.wait_for(user, "message_deleted").unwrap();
    assert_eq!(payload(&deleted).u64_at("id"), Some(mid));
}

#[test]
fn close_room_evicts_and_blocks_rejoin() {
    let mut s = spawn();
    let room = s.create(any_room());
    let id = room_id(&room);
    let admin = s.admin_ws(&room);
    let user = s.user_ws(&room);

    s.send(admin, "admin_close_room", obj());
    assert!(s.wait_for(user, "room_closed").is_some());

    // The room is gone: a fresh join fails.
    assert_eq!(s.join(&id, None).0, 404);
}

#[test]
fn message_history_capped() {
    let mut s = spawn();
    let room = s.create(CreateRoomReq { max_messages: Some(3), ..CreateRoomReq::default() });
    let id = room_id(&room);
    let user = s.user_ws(&room);

    for i in 0..5 {
        s.send(user, "message", text_payload(&format!("m{i}")));
        s.wait_for(user, "message").unwrap();
    }

    // The snapshot keeps only the last 3; the oldest were dropped.
    let token = auth::admin_token(&secret(&room), &id);
    let state = match s.get_state(&id, Some(&format!("Bearer {token}"))) {
        HttpReply::Json(text) => Json::parse(&text).unwrap(),
        other => panic!("{:?}", other),
    };
    let msgs = state.get("messages").unwrap().as_array().unwrap();
    assert_eq!(msgs.len(), 3);
    assert_eq!(msgs[0].str_at("text"), Some("m2"));
    assert_eq!(msgs[2].str_at("text"), Some("m4"));
}

#[test]
fn snapshot_is_first_ws_frame() {
    let mut s = spawn();
    let room = s.create(any_room());
    let user = s.user_ws(&room);

    let first = s.next_event(user).unwrap();
    assert_eq!(first.str_at("type"), Some("snapshot"));
    assert_eq!(payload(&first).str_at("id"), Some(room_id(&room).as_str()));
}

#[test]
fn two_admins_vote_independently() {
    let mut s = spawn();
    let room = s.create(any_room());
    // Two distinct admin connections (the admin link in a second browser).
    let a1 = s.admin_ws(&room);
    let a2 = s.admin_ws(&room);

    s.send(
        a1,
        "admin_create_poll",
        obj().with("question", Json::text("q")).with("options", texts(&["x", "y"])),
    );
    let poll = s.wait_for(a1, "poll_created").unwrap();
    let pid = payload(&poll).u64_at("id").unwrap();

    let votes = |ev: &Json| {
        payload(ev).get("options").unwrap().as_array().unwrap()[0].u64_at("votes")
    };
    let ballot =
        || obj().with("poll_id", Json::number(pid)).with("option_index", Json::number(0));
    s.send(a1, "poll_vote", ballot());
    let update = s.wait_for(a1, "poll_update").unwrap();
    assert_eq!(votes(&update), Some(1));
    // The second admin is someone else, so this vote counts too.
    s.send(a2, "poll_vote", ballot());
    let update = s.wait_for(a1, "poll_update").unwrap();
    assert_eq!(votes(&update), Some(2));
}

#[test]
fn timed_lock_auto_unlocks() {
    let mut s = spawn();
    let room = s.create(any_room());
    let admin = s.admin_ws(&room);
    let user = s.user_ws(&room);

    s.send(
        admin,
        "admin_lock",
        obj().with("locked", Json::Bool(true)).with("duration_seconds", Json::number(1)),
    );
    let lock = s.wait_for(user, "lock").unwrap();
    assert_eq!(payload(&lock).bool_at("locked"), Some(true));

    s.fire_timers();
    let unlock = s.wait_for(user, "lock").unwrap();
    assert_eq!(payload(&unlock).bool_at("locked"), Some(false));
}

#[test]
fn state_bearer_scheme_case_insensitive() {
    let mut s = spawn();
    let room = s.create(any_room());
    let id = room_id(&room);
    let token = auth::admin_token(&secret(&room), &id);

    // A lowercase scheme is accepted.
    assert_eq!(status(&s.get_state(&id, Some(&format!("bearer {token}")))), 200);

    // Without the header there is no other way in.
    assert_eq!(status(&s.get_state(&id, None)), 403);
}

#[test]
fn session_reconnect_within_ttl() {
    let mut s = spawn();
    let room = s.create(CreateRoomReq {
        password: Some("p".to_string()),
        ..CreateRoomReq::default()
    });
    let id = room_id(&room);

    // The first join with the password yields a session token.
    let (status, token) = s.join(&id, Some("p"));
    assert_eq!(status, 200);
    let token = token.unwrap();

    // Reconnecting with that session needs no password.
    let req = JoinReq { password: None, session: Some(token.clone()), display: None };
    let (status, again) = status_and_token(join_room(&mut s.app, &id, req));
    assert_eq!(status, 200);
    assert_eq!(again, Some(token));
}

// ── Beyond ──────────────────────────────────────────────────────────────────

#[test]
fn question_vote_toggles() {
    let mut s = spawn();
    let room = s.create(any_room());
    let user = s.user_ws(&room);

    s.send(user, "question", text_payload("why?"));
    let q = s.wait_for(user, "question").unwrap();
    let qid = payload(&q).u64_at("id").unwrap();

    for votes in [1, 0, 1] {
        s.send(user, "vote", obj().with("question_id", Json::number(qid)));
        let ev = s.wait_for(user, "vote").unwrap();
        assert_eq!(payload(&ev).u64_at("votes"), Some(votes));
    }
}

#[test]
fn moderated_message_reaches_users_after_approval() {
    let mut s = spawn();
    let room = s.create(CreateRoomReq { moderated: Some(true), ..CreateRoomReq::default() });
    let admin = s.admin_ws(&room);
    let author = s.user_ws(&room);
    let other = s.user_ws(&room);

    s.send(author, "message", text_payload("may I?"));
    let pending = s.wait_for(author, "pending_message").unwrap();
    let mid = payload(&pending).u64_at("id").unwrap();
    assert!(s.wait_for(admin, "pending_message").is_some());

    s.send(admin, "admin_approve_message", obj().with("message_id", Json::number(mid)));
    let ev = s.wait_for(other, "message").unwrap();
    assert_eq!(payload(&ev).str_at("text"), Some("may I?"));
    // Nothing about it came before.
    let seen: Vec<String> = s.clients[other]
        .inbox
        .iter()
        .map(|t| Json::parse(t).unwrap().str_at("type").unwrap().to_string())
        .collect();
    assert!(!seen.contains(&"pending_message".to_string()));
}

#[test]
fn moderated_question_can_be_rejected() {
    let mut s = spawn();
    let room = s.create(CreateRoomReq { moderated: Some(true), ..CreateRoomReq::default() });
    let admin = s.admin_ws(&room);
    let author = s.user_ws(&room);

    s.send(author, "question", text_payload("really?"));
    let pending = s.wait_for(author, "pending_question").unwrap();
    let qid = payload(&pending).u64_at("id").unwrap();
    s.send(admin, "admin_reject_question", obj().with("question_id", Json::number(qid)));
    let ev = s.wait_for(author, "pending_question_rejected").unwrap();
    assert_eq!(payload(&ev).u64_at("id"), Some(qid));
    assert!(s.app.take_room(&room_id(&room)).unwrap().inner.pending_questions.is_empty());
}

#[test]
fn display_windows_are_invisible_and_mute() {
    let mut s = spawn();
    let room = s.create(any_room());
    let id = room_id(&room);
    let user = s.user_ws(&room);

    let req = JoinReq { password: None, session: None, display: Some(true) };
    let (status, token) = status_and_token(join_room(&mut s.app, &id, req));
    assert_eq!(status, 200);
    let token = token.unwrap();
    assert!(token.starts_with("disp."));
    assert_eq!(token.len(), "disp.".len() + 32);
    let display = s.ws(&id, &token);
    assert!(s.clients[display].caller.is_display);
    assert!(!s.clients[display].caller.is_admin);

    let before = s.clients[user].inbox.len();
    s.send(display, "message", text_payload("hello?"));
    s.send(display, "admin_lock", obj().with("locked", Json::Bool(true)));
    assert_eq!(s.clients[user].inbox.len(), before);
    assert_eq!(s.clients[display].inbox.len(), 1);
    let held = s.app.take_room(&id).unwrap();
    assert_eq!(held.inner.participants, 1);
    assert!(held.inner.messages.is_empty());
}

#[test]
fn bad_json_is_answered_with_an_error() {
    let mut s = spawn();
    let room = s.create(any_room());
    let user = s.user_ws(&room);
    s.send_text(user, "{not json");
    let error = s.wait_for(user, "error").unwrap();
    assert_eq!(payload(&error).str_at("code"), Some("bad_json"));
    assert_eq!(payload(&error).str_at("message"), Some("invalid JSON"));
    s.send_text(user, "{}");
    let error = s.wait_for(user, "error").unwrap();
    assert_eq!(payload(&error).str_at("code"), Some("unknown"));
}

#[test]
fn closed_room_notice() {
    let v = Json::parse(&closed_frame()).unwrap();
    assert_eq!(v.str_at("type"), Some("room_closed"));
    assert_eq!(closed_frame(), "{\"payload\":{},\"type\":\"room_closed\"}");
}

#[test]
fn connecting_takes_an_admitted_token() {
    let mut s = spawn();
    let room = s.create(any_room());
    let id = room_id(&room);
    let mut refusal = |header: Option<&str>, id: &str| match ws_handler(&mut s.app, id, header) {
        Admission::Refused(HttpReply::Text { status, text }) => (status, text),
        other => panic!("{:?}", other),
    };
    assert_eq!(refusal(None, &id), (403, "join required".to_string()));
    assert_eq!(refusal(Some("void.token.nobody"), &id), (403, "join required".to_string()));
    assert_eq!(refusal(None, "nowhere"), (404, "room not found".to_string()));
}
