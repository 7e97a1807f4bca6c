//! The parts one by one: identity, configuration, text, JSON, rows and replies.

use void::assets::{serve_embedded, AssetReply};
use void::auth::{
    admin_token, ct_eq, hash_password, new_room_id, new_secret, new_session_token, verify_password,
    HashError,
};
use void::config::Config;
use void::db::{
    append_event, persist_room, replay_all, replay_all_at, room_from_row, EventRow, RoomRow,
    StoredRoom,
};
use void::event::RoomEvent;
use void::handlers::{
    bearer, check_password, client_address, create_room, draw_ids, hash_requested, join_room_at,
    join_room_checked, password_hash_for, read_credentials, room_links, room_state_at,
    sweep_expired, CreateRoomReq, HttpReply, JoinReq, PasswordCheck,
};
use void::json::Json;
use void::socket::{
    first_token, inbound_step, pump_step, token_protocol, ws_handler_at, Admission, Inbound,
    InboundStep, Pump, PumpInput, PumpStep,
};
use void::state::{clock_ms, deadline, now_ms, AppState, Room, RoomConfig};
use void::table::StrMap;
use void::text::{
    eq_ignore_case, index_of, join, parse_uint, split, starts_with, str_eq, strip_end, trim,
};

fn config() -> Config {
    Config::from_env(&StrMap::new())
}

fn room_config() -> RoomConfig {
    RoomConfig {
        max_messages: 50,
        max_participants: 5,
        rate_limit_ms: 3000,
        max_message_length: 100,
        moderated: true,
    }
}

fn plain_text(reply: HttpReply) -> (u16, String) {
    match reply {
        HttpReply::Text { status, text } => (status, text),
        HttpReply::Json(text) => (200, text),
    }
}

// ── Identity ────────────────────────────────────────────────────────────────

#[test]
fn random_ids_and_tokens_have_their_forms() {
    let id = new_room_id();
    assert_eq!(id.len(), 6);
    assert!(id.chars().all(|c| c.is_ascii_digit() || ('a'..='f').contains(&c)));
    let secret = new_secret();
    assert_eq!(secret.len(), 16);
    assert!(secret.chars().all(|c| c.is_ascii_alphanumeric()));
    let token = new_session_token();
    assert_eq!(token.len(), 32);
    assert!(token.chars().all(|c| c.is_ascii_digit() || ('a'..='f').contains(&c)));
    assert_ne!(new_session_token(), token);
}

#[test]
fn admin_token_is_an_hmac_in_hex() {
    assert_eq!(
        admin_token("key", "The quick brown fox jumps over the lazy dog"),
        "f7bc83f430538424b13298e6aa6fb143ef4d59a14946175997479dbc2d1a3cd8"
    );
    assert_eq!(
        admin_token("", ""),
        "b613679a0814d9ec772f95d778c35fc5ff1697c493715653c6c712144292c5ad"
    );
}

#[test]
fn constant_time_equality() {
    assert!(ct_eq("", ""));
    assert!(ct_eq("abc", "abc"));
    assert!(!ct_eq("abc", "abd"));
    assert!(!ct_eq("abc", "abcd"));
}

#[test]
fn passwords_fit_their_hashes() {
    let hash = hash_password("hunter2", 4).unwrap();
    assert_ne!(hash, "hunter2");
    assert!(verify_password("hunter2", &hash));
    assert!(!verify_password("hunter3", &hash));
    assert!(!verify_password("hunter2", "no hash at all"));
    assert!(matches!(hash_password("hunter2", 3), Err(HashError::Cost)));
    assert!(matches!(hash_password("hunter2", 32), Err(HashError::Cost)));
}

#[test]
fn hashes_name_their_cost() {
    let hash = hash_password("hunter2", 4).unwrap();
    assert_eq!(hash.len(), 60);
    assert!(hash.starts_with("$2b$04$"));
    assert!(hash_password("hunter2", 10).unwrap().starts_with("$2b$10$"));
    // The salt is random.
    assert_ne!(hash, hash_password("hunter2", 4).unwrap());
}

#[test]
fn rooms_are_hashed_with_the_cost_of_the_server() {
    let mut app = server();
    app.config.bcrypt_cost = 5;
    let req = CreateRoomReq { password: Some("pw".to_string()), ..CreateRoomReq::default() };
    let (_, id) = create_room(&mut app, "a", req);
    let hash = app.take_room(&id.unwrap()).unwrap().password_hash.unwrap();
    assert!(hash.starts_with("$2b$05$"));
    assert!(verify_password("pw", &hash));
}

#[test]
fn admin_token_opens_its_own_room_only() {
    let room = Room::new("a".to_string(), None, "s".to_string(), None, 10, room_config());
    assert!(room.is_admin_token(&admin_token("s", "a")));
    assert!(!room.is_admin_token(&admin_token("s", "b")));
    assert!(!room.is_admin_token("s"));
}

// ── Configuration ───────────────────────────────────────────────────────────

#[test]
fn configuration_defaults() {
    let c = config();
    assert_eq!(c.host, "0.0.0.0");
    assert_eq!(c.port, 8080);
    assert_eq!(c.base_url, "http://localhost:8080");
    assert_eq!(c.database_url, None);
    assert_eq!(c.bcrypt_cost, 10);
    assert_eq!(c.default_ttl_seconds, 7200);
    assert_eq!(c.max_ttl_seconds, 86400);
    assert_eq!(c.default_max_messages, 200);
    assert_eq!(c.max_messages_per_room, 1000);
    assert_eq!(c.default_max_participants, 100);
    assert_eq!(c.max_participants_per_room, 500);
    assert_eq!(c.default_rate_limit_seconds, 3);
    assert_eq!(c.max_message_length, 500);
    assert_eq!(c.ttl_sweep_interval_seconds, 60);
    assert_eq!(c.room_creation_limit, 10);
    assert_eq!(c.room_creation_window_seconds, 3600);
}

#[test]
fn configuration_from_variables() {
    let mut vars: StrMap<String> = StrMap::new();
    vars.insert("HOST".to_string(), "127.0.0.1".to_string());
    vars.insert("PORT".to_string(), "65535".to_string());
    vars.insert("DATABASE_URL".to_string(), "postgres://x".to_string());
    vars.insert("BCRYPT_COST".to_string(), "+4".to_string());
    vars.insert("MAX_TTL_SECONDS".to_string(), "18446744073709551615".to_string());
    vars.insert("MAX_MESSAGE_LENGTH".to_string(), "many".to_string());
    let c = Config::from_env(&vars);
    assert_eq!(c.host, "127.0.0.1");
    assert_eq!(c.port, 65535);
    assert_eq!(c.database_url, Some("postgres://x".to_string()));
    assert_eq!(c.bcrypt_cost, 4);
    assert_eq!(c.max_ttl_seconds, u64::MAX);
    assert_eq!(c.max_message_length, 500);
    vars.insert("PORT".to_string(), "65536".to_string());
    assert_eq!(Config::from_env(&vars).port, 8080);
}

#[test]
fn requests_are_clamped() {
    let c = config();
    assert_eq!(c.clamp_ttl(None), 7200);
    assert_eq!(c.clamp_ttl(Some(0)), 1);
    assert_eq!(c.clamp_ttl(Some(100_000)), 86400);
    assert_eq!(c.clamp_ttl(Some(60)), 60);
    assert_eq!(c.clamp_max_messages(None), 200);
    assert_eq!(c.clamp_max_messages(Some(0)), 1);
    assert_eq!(c.clamp_max_messages(Some(5000)), 1000);
    assert_eq!(c.clamp_max_participants(Some(501)), 500);
    assert_eq!(c.clamp_max_participants(None), 100);
    assert_eq!(c.clamp_rate_limit(None), 3);
    assert_eq!(c.clamp_rate_limit(Some(0)), 0);
    assert_eq!(c.clamp_rate_limit(Some(u64::MAX)), 3600);
}

// ── Text ────────────────────────────────────────────────────────────────────

#[test]
fn text_routines() {
    assert_eq!(trim("  a b\u{3000}\n"), "a b");
    assert_eq!(trim(" \t "), "");
    assert!(str_eq("é", "é"));
    assert!(!str_eq("é", "e"));
    assert!(starts_with("admin_lock", "admin_"));
    assert!(!starts_with("admin", "admin_"));
    assert_eq!(split("a,,b", ','), vec!["a", "", "b"]);
    assert_eq!(split("", ','), vec![""]);
    assert_eq!(index_of("héllo", 'l'), Some(2));
    assert_eq!(index_of("abc", 'x'), None);
    assert!(eq_ignore_case("BeArEr", "bearer"));
    assert!(!eq_ignore_case("bearers", "bearer"));
    assert_eq!(strip_end("http://x//", '/'), "http://x");
    assert_eq!(strip_end("//", '/'), "");
    assert_eq!(join("a", "b"), "ab");
}

#[test]
fn decimal_numbers() {
    assert_eq!(parse_uint("0", 10), Some(0));
    assert_eq!(parse_uint("+10", 10), Some(10));
    assert_eq!(parse_uint("11", 10), None);
    assert_eq!(parse_uint("007", 10), Some(7));
    assert_eq!(parse_uint("", 10), None);
    assert_eq!(parse_uint("+", 10), None);
    assert_eq!(parse_uint("-1", 10), None);
    assert_eq!(parse_uint(" 1", 10), None);
    assert_eq!(parse_uint("18446744073709551615", u64::MAX), Some(u64::MAX));
    assert_eq!(parse_uint("18446744073709551616", u64::MAX), None);
}

// ── JSON ────────────────────────────────────────────────────────────────────

#[test]
fn json_is_read_and_written() {
    let v = Json::parse("{\"b\": [1, -2, 1.5, null, true], \"a\": \"x\\u00e9\"}").unwrap();
    assert_eq!(v.str_at("a"), Some("xé"));
    let items = v.get("b").unwrap().as_array().unwrap();
    assert_eq!(items[0].as_u64(), Some(1));
    assert_eq!(items[1].as_u64(), None);
    assert_eq!(items[2].as_u64(), None);
    assert!(matches!(items[3], Json::Null));
    assert_eq!(items[4].as_bool(), Some(true));
    assert!(Json::parse("{").is_none());

    let w = Json::object()
        .with("z", Json::text("\"quoted\"\n"))
        .with("n", Json::number(u64::MAX))
        .with("z", Json::Bool(false))
        .with("none", Json::number_or_null(None));
    let text = w.to_text();
    assert_eq!(text, "{\"n\":18446744073709551615,\"none\":null,\"z\":false}");
    let back = Json::parse(&text).unwrap();
    assert_eq!(back.u64_at("n"), Some(u64::MAX));
    assert_eq!(back.bool_at("z"), Some(false));
}

#[test]
fn table_keeps_one_value_per_key() {
    let mut t: StrMap<u32> = StrMap::new();
    assert!(t.is_empty());
    t.insert("a".to_string(), 1);
    t.insert("b".to_string(), 2);
    t.insert("a".to_string(), 3);
    assert_eq!(t.get("a"), Some(&3));
    assert_eq!(t.entries.len(), 2);
    assert_eq!(t.take("a"), Some(3));
    assert_eq!(t.take("a"), None);
    assert_eq!(t.get("b"), Some(&2));
}

// ── Clock ───────────────────────────────────────────────────────────────────

#[test]
fn clock_readings() {
    assert_eq!(clock_ms(None), 0);
    assert_eq!(clock_ms(Some(1234)), 1234);
    assert_eq!(clock_ms(Some((1u128 << 64) + 5)), 5);
    assert!(now_ms() > 1_600_000_000_000);
    assert_eq!(deadline(1000, 2), 3000);
    assert_eq!(deadline(u64::MAX - 1, 1), u64::MAX);
    assert_eq!(deadline(0, u64::MAX), u64::MAX);
}

// ── Headers ─────────────────────────────────────────────────────────────────

#[test]
fn bearer_header() {
    assert_eq!(bearer("Bearer abc"), Some("abc".to_string()));
    assert_eq!(bearer("  bEARER   abc  "), Some("abc".to_string()));
    assert_eq!(bearer("Basic abc"), None);
    assert_eq!(bearer("Bearer"), None);
    assert_eq!(bearer(""), None);
}

#[test]
fn token_in_the_subprotocol() {
    assert_eq!(
        token_protocol("chat, void.token.abc , void.token.def"),
        Some(("void.token.abc".to_string(), "abc".to_string()))
    );
    assert_eq!(token_protocol("chat"), None);
    assert_eq!(token_protocol("void.token."), Some(("void.token.".to_string(), String::new())));
}

#[test]
fn header_parts() {
    assert_eq!(read_credentials("BEARER  x y "), Some(" x y ".to_string()));
    assert_eq!(read_credentials("Token x"), None);
    assert_eq!(read_credentials("bearer"), None);
    let offered = vec!["chat".to_string(), "void.token.a".to_string()];
    assert_eq!(first_token(&offered), Some(("void.token.a".to_string(), "a".to_string())));
    assert_eq!(first_token(&Vec::new()), None);
}

#[test]
fn forwarded_addresses() {
    assert_eq!(client_address(None, "10.0.0.1"), "10.0.0.1");
    assert_eq!(client_address(Some(" 1.2.3.4 , 5.6.7.8"), "10.0.0.1"), "1.2.3.4");
    assert_eq!(client_address(Some(" "), "10.0.0.1"), "10.0.0.1");
}

#[test]
fn white_space_is_what_unicode_says() {
    let spaces = "\u{9}\u{a}\u{b}\u{c}\u{d}\u{20}\u{85}\u{a0}\u{1680}\u{2000}\u{2001}\u{2002}\
                  \u{2003}\u{2004}\u{2005}\u{2006}\u{2007}\u{2008}\u{2009}\u{200a}\u{2028}\u{2029}\
                  \u{202f}\u{205f}\u{3000}";
    assert_eq!(spaces.chars().count(), 25);
    assert_eq!(trim(spaces), "");
    let others = "\u{8}\u{e}\u{1f}\u{21}\u{84}\u{86}\u{180e}\u{1fff}\u{200b}\u{2060}\u{feff}";
    for c in others.chars() {
        assert_eq!(trim(&c.to_string()), c.to_string());
    }
    let found: Vec<u32> = (0..=0x10ffffu32)
        .filter(|n| char::from_u32(*n).map_or(false, |c| trim(&c.to_string()).is_empty()))
        .collect();
    assert_eq!(found.len(), 25);
}

#[test]
fn content_types() {
    let content_type = |path: &str| match serve_embedded(path, Some(Vec::new())) {
        AssetReply::Found { content_type, .. } => content_type,
        other => panic!("{:?}", other),
    };
    assert_eq!(content_type("assets/style.css"), "text/css");
    assert_eq!(content_type("assets/blob"), "application/octet-stream");
}

// ── Rows ────────────────────────────────────────────────────────────────────

#[test]
fn rooms_and_their_rows() {
    let room = Room::new(
        "abc123".to_string(),
        Some("RustConf".to_string()),
        "secret".to_string(),
        Some("hash".to_string()),
        1_700_000_000_000,
        room_config(),
    );
    let row = persist_room(&room);
    assert_eq!(row.expires_at, Some(1_700_000_000_000));
    assert_eq!(row.max_messages, 50);
    assert_eq!(row.rate_limit_ms, 3000);
    let back = room_from_row(row);
    assert_eq!(back.id, "abc123");
    assert_eq!(back.title, Some("RustConf".to_string()));
    assert_eq!(back.password_hash, Some("hash".to_string()));
    assert_eq!(back.expires_at, 1_700_000_000_000);
    assert_eq!(back.cfg.max_participants, 5);
    assert!(back.cfg.moderated);

    let never = Room::test_room(&config());
    assert_eq!(never.expires_at, u64::MAX);
    let row = persist_room(&never);
    assert_eq!(row.expires_at, None);
    assert_eq!(room_from_row(row).expires_at, u64::MAX);
}

#[test]
fn events_and_their_rows() {
    let row = append_event(&RoomEvent::PollVote {
        poll_id: 3,
        option_index: 1,
        voter: "v".to_string(),
    });
    assert_eq!(row.kind, "poll_vote");
    assert_eq!(row.payload, "{\"option_index\":1,\"poll_id\":3,\"voter\":\"v\"}");
    let row = append_event(&RoomEvent::Lock { locked: true, until: None });
    assert_eq!(row.payload, "{\"locked\":true,\"until\":null}");
}

fn stored(id: &str, expires_at: Option<i64>, events: Option<Vec<EventRow>>) -> StoredRoom {
    StoredRoom {
        row: RoomRow {
            id: id.to_string(),
            title: None,
            secret: "s".to_string(),
            password_hash: None,
            expires_at,
            max_messages: 10,
            max_participants: 10,
            rate_limit_ms: 0,
            max_message_length: 10,
            moderated: false,
        },
        events,
    }
}

#[test]
fn replay_skips_dead_and_unreadable_rooms() {
    let rows = vec![
        stored("dead", Some(1000), Some(Vec::new())),
        stored("alive", Some(1001), Some(Vec::new())),
        stored("unread", None, None),
        stored("never", None, Some(Vec::new())),
    ];
    let rooms = replay_all_at(rows, 1000);
    let ids: Vec<&str> = rooms.iter().map(|r| r.id.as_str()).collect();
    assert_eq!(ids, vec!["alive", "never"]);
    assert_eq!(replay_all(vec![stored("past", Some(1), Some(Vec::new()))]).len(), 0);
}

#[test]
fn replay_passes_over_what_it_cannot_read() {
    let row = |kind: &str, payload: &str| EventRow {
        kind: kind.to_string(),
        payload: payload.to_string(),
    };
    let events = vec![
        row("message", "{\"id\":1,\"role\":\"user\",\"text\":\"hi\",\"ts\":5}"),
        row("message", "{\"id\":2,\"role\":\"user\"}"),
        row("message", "not json"),
        row("surprise", "{}"),
        row("poll_created", "{\"id\":1,\"question\":\"q\",\"options\":[]}"),
        row("poll_created", "{\"id\":2,\"question\":\"q\",\"options\":[{\"text\":\"a\"},1]}"),
    ];
    let rooms = replay_all_at(vec![stored("r", None, Some(events))], 0);
    let inner = &rooms[0].inner;
    assert_eq!(inner.messages.len(), 1);
    assert_eq!(inner.messages[0].text, "hi");
    assert_eq!(inner.next_msg_id, 1);
    assert_eq!(inner.polls.len(), 1);
    assert_eq!(inner.polls[0].options.len(), 1);
    assert_eq!(inner.next_poll_id, 2);
}

// ── Replies ─────────────────────────────────────────────────────────────────

fn server() -> AppState {
    let mut c = config();
    c.bcrypt_cost = 4;
    c.room_creation_limit = 2;
    c.base_url = "https://0xff.wtf/".to_string();
    AppState::new(c)
}

#[test]
fn creation_is_limited_per_address() {
    let mut app = server();
    for _ in 0..2 {
        assert_eq!(plain_text(create_room(&mut app, "a", CreateRoomReq::default()).0).0, 200);
    }
    let (reply, id) = create_room(&mut app, "a", CreateRoomReq::default());
    assert_eq!(plain_text(reply), (429, "too many rooms".to_string()));
    assert_eq!(id, None);
    assert_eq!(plain_text(create_room(&mut app, "b", CreateRoomReq::default()).0).0, 200);
}

#[test]
fn creation_window_slides() {
    let mut app = server();
    let open = |app: &mut AppState, now: u64, id: &str| {
        app.open_room(
            "a",
            CreateRoomReq::default(),
            now,
            Ok(None),
            vec![id.to_string()],
            "secret".to_string(),
        )
    };
    assert!(open(&mut app, 0, "r1").1.is_some());
    assert!(open(&mut app, 1000, "r2").1.is_some());
    assert_eq!(plain_text(open(&mut app, 3_599_999, "r3").0).0, 429);
    assert!(!app.may_create("a", 3_599_999));
    assert!(app.may_create("a", 3_600_000));
    assert_eq!(open(&mut app, 3_600_000, "r3").1, Some("r3".to_string()));
    assert_eq!(plain_text(open(&mut app, 3_600_000, "r4").0).0, 429);
}

#[test]
fn opening_a_room() {
    let mut app = server();
    let req = CreateRoomReq {
        ttl_seconds: Some(60),
        title: Some("Talk".to_string()),
        max_messages: Some(0),
        max_participants: Some(9999),
        rate_limit_seconds: Some(2),
        moderated: Some(true),
        ..CreateRoomReq::default()
    };
    let (reply, id) = app.open_room(
        "a",
        req,
        1000,
        Ok(Some("hash".to_string())),
        vec!["aaaaaa".to_string(), "bbbbbb".to_string()],
        "sEcReT".to_string(),
    );
    assert_eq!(id, Some("aaaaaa".to_string()));
    assert_eq!(
        plain_text(reply),
        (
            200,
            "{\"admin_url\":\"https://0xff.wtf/r/aaaaaa/sEcReT\",\
             \"public_url\":\"https://0xff.wtf/r/aaaaaa\",\"room_id\":\"aaaaaa\"}"
                .to_string()
        )
    );
    let room = app.take_room("aaaaaa").unwrap();
    assert_eq!(room.expires_at, 61_000);
    assert_eq!(room.title, Some("Talk".to_string()));
    assert_eq!(room.password_hash, Some("hash".to_string()));
    assert_eq!(room.cfg.max_messages, 1);
    assert_eq!(room.cfg.max_participants, 500);
    assert_eq!(room.cfg.rate_limit_ms, 2000);
    assert_eq!(room.cfg.max_message_length, 500);
    assert!(room.cfg.moderated);
}

#[test]
fn opening_a_room_can_fail() {
    let mut app = server();
    let ids = || vec!["aaaaaa".to_string(), "bbbbbb".to_string()];
    let secret = || "s".to_string();
    let (reply, _) =
        app.open_room("a", CreateRoomReq::default(), 0, Err(HashError::Random), ids(), secret());
    assert_eq!(plain_text(reply), (500, "hash failed".to_string()));
    for id in ids() {
        app.put_room(Room::new(id, None, secret(), None, 10, room_config()));
    }
    let (reply, _) =
        app.open_room("a", CreateRoomReq::default(), 0, Ok(None), ids(), secret());
    assert_eq!(plain_text(reply), (500, "could not allocate room id".to_string()));
    app.take_room("bbbbbb");
    let (_, id) = app.open_room("a", CreateRoomReq::default(), 0, Ok(None), ids(), secret());
    assert_eq!(id, Some("bbbbbb".to_string()));
}

#[test]
fn passwords_that_cannot_be_hashed() {
    let mut app = server();
    app.config.bcrypt_cost = 99;
    let with_password = |pw: &str| CreateRoomReq {
        password: Some(pw.to_string()),
        ..CreateRoomReq::default()
    };
    let (reply, id) = create_room(&mut app, "a", with_password("pw"));
    assert_eq!(plain_text(reply), (500, "hash failed".to_string()));
    assert_eq!(id, None);
    // An empty password is none, so nothing has to be hashed.
    let (_, id) = create_room(&mut app, "a", with_password(""));
    let room = app.take_room(&id.unwrap()).unwrap();
    assert_eq!(room.password_hash, None);
}

fn app_with_room(expires_at: u64, password: Option<&str>) -> AppState {
    let mut app = server();
    let hash = password.map(|pw| hash_password(pw, 4).unwrap());
    app.put_room(Room::new(
        "r".to_string(),
        None,
        "s".to_string(),
        hash,
        expires_at,
        room_config(),
    ));
    app
}

#[test]
fn joining_says_why_not() {
    let mut app = app_with_room(1000, Some("pw"));
    let fresh = || "f".to_string();
    let reply = join_room_at(&mut app, "x", JoinReq::default(), 0, fresh());
    assert_eq!(plain_text(reply), (404, "room not found".to_string()));
    let reply = join_room_at(&mut app, "r", JoinReq::default(), 1000, fresh());
    assert_eq!(plain_text(reply), (404, "room expired".to_string()));
    let reply = join_room_at(&mut app, "r", JoinReq::default(), 999, fresh());
    assert_eq!(plain_text(reply), (403, "bad or missing password".to_string()));
    let req = JoinReq { password: Some("pw".to_string()), ..JoinReq::default() };
    let (status, text) = plain_text(join_room_at(&mut app, "r", req, 999, fresh()));
    assert_eq!(status, 200);
    let v = Json::parse(&text).unwrap();
    assert_eq!(v.str_at("session_token"), Some("f"));
    assert_eq!(v.get("state").unwrap().str_at("id"), Some("r"));
    assert!(v.get("state").unwrap().get("pending_messages").is_none());
}

#[test]
fn the_gate_of_a_room() {
    let mut open = Room::new("r".to_string(), None, "s".to_string(), None, 10, room_config());
    let hash = Some("h".to_string());
    let mut gated = Room::new("r".to_string(), None, "s".to_string(), hash, 10, room_config());
    let blank = JoinReq::default();
    let password = JoinReq { password: Some("pw".to_string()), ..JoinReq::default() };
    let check = |hash: &str, fits: bool| Some(PasswordCheck { hash: hash.to_string(), fits });
    assert!(open.check_passes(&None));
    assert!(!gated.check_passes(&None));
    assert!(gated.check_passes(&check("h", true)));
    assert!(!gated.check_passes(&check("h", false)));
    // What fits another hash is of no use here.
    assert!(!gated.check_passes(&check("other", true)));
    let reply = gated.join(&blank, false, 0, "f".to_string());
    assert_eq!(plain_text(reply), (403, "bad or missing password".to_string()));

    let j = gated.take_in(&password, 0, "tok".to_string());
    assert_eq!(j.str_at("session_token"), Some("tok"));
    let back = JoinReq { session: Some("tok".to_string()), ..JoinReq::default() };
    assert!(gated.reconnects(&back));
    assert_eq!(plain_text(gated.join(&back, false, 0, "other".to_string())).0, 200);
    let j = gated.take_in(&back, 0, "other".to_string());
    assert_eq!(j.str_at("session_token"), Some("tok"));

    // A session of another room is none here.
    assert!(!open.reconnects(&back));
    let display = JoinReq { display: Some(true), ..JoinReq::default() };
    let j = open.take_in(&display, 0, "tok".to_string());
    assert_eq!(j.str_at("session_token"), Some("disp.tok"));
    match open.let_in(Some(("p".to_string(), "disp.tok".to_string())), false, String::new()) {
        Admission::Admitted { caller, .. } => assert!(caller.is_display),
        other => panic!("{:?}", other),
    }
    match open.let_in(None, true, "f".to_string()) {
        Admission::Admitted { caller, protocol } => {
            assert_eq!(caller.identity, "admin:f");
            assert_eq!(protocol, None);
        }
        other => panic!("{:?}", other),
    }
    assert!(matches!(open.let_in(None, false, String::new()), Admission::Refused(_)));
}

#[test]
fn passwords_are_checked_ahead_of_joining() {
    let mut app = app_with_room(1000, Some("pw"));
    let request = |pw: &str| JoinReq { password: Some(pw.to_string()), ..JoinReq::default() };
    let fresh = || "f".to_string();
    assert_eq!(password_hash_for(&mut app, "x", &request("pw")), None);
    let hash = password_hash_for(&mut app, "r", &request("pw")).unwrap();
    assert!(check_password(&JoinReq::default(), hash.clone()).is_none());
    let wrong = check_password(&request("no"), hash.clone());
    let reply = join_room_checked(&mut app, "r", request("no"), wrong, 0, fresh());
    assert_eq!(plain_text(reply), (403, "bad or missing password".to_string()));
    let right = check_password(&request("pw"), hash);
    let reply = join_room_checked(&mut app, "r", request("pw"), right, 0, fresh());
    assert_eq!(plain_text(reply).0, 200);
    // A returning session needs no password, so none is checked.
    let back = JoinReq { session: Some(fresh()), ..JoinReq::default() };
    assert_eq!(password_hash_for(&mut app, "r", &back), None);
    assert_eq!(plain_text(join_room_checked(&mut app, "r", back, None, 0, fresh())).0, 200);
}

#[test]
fn creation_in_steps() {
    let mut app = server();
    let req = CreateRoomReq { password: Some("pw".to_string()), ..CreateRoomReq::default() };
    assert!(app.refuse_creation("a", 0).is_none());
    assert!(matches!(hash_requested(&CreateRoomReq::default(), 99), Ok(None)));
    assert!(matches!(hash_requested(&req, 99), Err(HashError::Cost)));
    let hash = hash_requested(&req, 4);
    let ids = draw_ids();
    let first = ids[0].clone();
    assert_eq!(app.open_room("a", req, 0, hash, ids, "s".to_string()).1, Some(first));
    app.open_room("a", CreateRoomReq::default(), 0, Ok(None), draw_ids(), "s".to_string());
    let reply = app.refuse_creation("a", 0).unwrap();
    assert_eq!(plain_text(reply), (429, "too many rooms".to_string()));
}

#[test]
fn links_of_a_room() {
    let j = room_links(&config(), "abc", "xyz");
    assert_eq!(j.str_at("room_id"), Some("abc"));
    assert_eq!(j.str_at("public_url"), Some("http://localhost:8080/r/abc"));
    assert_eq!(j.str_at("admin_url"), Some("http://localhost:8080/r/abc/xyz"));
}

#[test]
fn state_says_why_not() {
    let mut app = app_with_room(1000, None);
    let right = format!("Bearer {}", admin_token("s", "r"));
    let mut state = |id: &str, header: Option<&str>, now: u64| {
        plain_text(room_state_at(&mut app, id, header, now))
    };
    assert_eq!(state("x", Some(&right), 0), (404, "room not found".to_string()));
    assert_eq!(state("r", Some(&right), 1000), (404, "room expired".to_string()));
    assert_eq!(state("r", Some("Bearer x"), 0), (403, "admin token required".to_string()));
    assert_eq!(state("r", None, 0), (403, "admin token required".to_string()));
    let (status, text) = state("r", Some(&right), 0);
    assert_eq!(status, 200);
    assert!(Json::parse(&text).unwrap().get("pending_messages").is_some());
}

#[test]
fn connections_of_admins_and_users() {
    let mut app = app_with_room(1000, None);
    join_room_at(&mut app, "r", JoinReq::default(), 0, "tok".to_string());
    let admin_header = format!("void.token.{}", admin_token("s", "r"));
    match ws_handler_at(&mut app, "r", Some(&admin_header), 0, "f1".to_string()) {
        Admission::Admitted { caller, protocol } => {
            assert_eq!(caller.identity, "admin:f1");
            assert!(caller.is_admin && !caller.is_display);
            assert_eq!(protocol, Some(admin_header));
        }
        other => panic!("{:?}", other),
    }
    match ws_handler_at(&mut app, "r", Some("void.token.tok"), 0, "f2".to_string()) {
        Admission::Admitted { caller, .. } => {
            assert_eq!(caller.identity, "tok");
            assert!(!caller.is_admin && !caller.is_display);
        }
        other => panic!("{:?}", other),
    }
    match ws_handler_at(&mut app, "r", Some("void.token.tok"), 1000, "f3".to_string()) {
        Admission::Refused(reply) => {
            assert_eq!(plain_text(reply), (404, "room expired".to_string()))
        }
        other => panic!("{:?}", other),
    }
}

#[test]
fn sweep_takes_out_exactly_the_expired() {
    let mut app = server();
    for (id, at) in [("a", 5), ("b", 6), ("c", u64::MAX)] {
        app.put_room(Room::new(id.to_string(), None, "s".to_string(), None, at, room_config()));
    }
    let gone: Vec<String> = app.reap_expired(5).into_iter().map(|(id, _)| id).collect();
    assert_eq!(gone, vec!["a".to_string()]);
    assert!(app.reap_expired(5).is_empty());
    let gone = sweep_expired(&mut app);
    assert_eq!(gone.len(), 1);
    assert_eq!(gone[0].1.id, "b");
    assert!(app.take_room("c").is_some());
    assert!(app.take_room("b").is_none());
}

#[test]
fn expiry_is_reached_at_its_moment() {
    let room = Room::new("r".to_string(), None, "s".to_string(), None, 10, room_config());
    assert!(!room.is_expired_at(9));
    assert!(room.is_expired_at(10));
    assert!(room.is_expired());
    assert!(!Room::test_room(&config()).is_expired());
}

#[test]
fn rooms_stand_under_their_own_ids() {
    let mut app = server();
    let (_, id) = create_room(&mut app, "a", CreateRoomReq::default());
    let id = id.unwrap();
    join_room_at(&mut app, &id, JoinReq::default(), 0, "f".to_string());
    app.reap_expired(0);
    assert_eq!(app.take_room(&id).unwrap().id, id);
    assert!(app.take_room(&id).is_none());
}

// ── Connections ─────────────────────────────────────────────────────────────

#[test]
fn what_comes_in() {
    let text = Inbound::Text("t".to_string());
    assert!(matches!(inbound_step(text), InboundStep::Handle(t) if t == "t"));
    assert!(matches!(inbound_step(Inbound::Close), InboundStep::Leave));
    assert!(matches!(inbound_step(Inbound::Other), InboundStep::Skip));
    assert!(matches!(inbound_step(Inbound::Ended), InboundStep::Leave));
}

#[test]
fn a_slow_connection_is_brought_up_to_date() {
    let event = || PumpInput::Event("e".to_string());
    let (state, step) = pump_step(Pump::Live, event());
    assert!(matches!((state, step), (Pump::Live, PumpStep::Send(t)) if t == "e"));
    let (state, step) = pump_step(Pump::Live, PumpInput::Lagged);
    assert!(matches!(step, PumpStep::TakeWaiting));
    let (state, step) = pump_step(state, event());
    assert!(matches!(step, PumpStep::TakeWaiting));
    let (state, step) = pump_step(state, PumpInput::Lagged);
    assert!(matches!(step, PumpStep::TakeWaiting));
    let (state, step) = pump_step(state, PumpInput::Empty);
    assert!(matches!((state, step), (Pump::Live, PumpStep::SendSnapshot)));
    let (_, step) = pump_step(Pump::Live, PumpInput::Closed);
    assert!(matches!(step, PumpStep::Stop));
    let (_, step) = pump_step(Pump::Live, PumpInput::Private("p".to_string()));
    assert!(matches!(step, PumpStep::Send(_)));
}
