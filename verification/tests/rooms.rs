//! What happens in a room: the protocol action by action, and what it keeps.

use void::db::{append_event, replay_all, EventRow, RoomRow, StoredRoom};
use void::event::RoomEvent;
use void::json::Json;
use void::list::find;
use void::socket::{write_effects, Admission, Caller, Outgoing};
use void::state::{Room, RoomConfig, RoomInner};
use void::ws::{role_str, supported_reaction, Action, Effect};

fn cfg() -> RoomConfig {
    RoomConfig {
        max_messages: 3,
        max_participants: 2,
        rate_limit_ms: 1000,
        max_message_length: 10,
        moderated: false,
    }
}

fn moderated() -> RoomConfig {
    RoomConfig { moderated: true, ..cfg() }
}

fn say(r: &mut RoomInner, cfg: &RoomConfig, who: &str, now: u64, text: &str) -> Vec<Effect> {
    r.send_message("r", cfg, who, false, now, text.to_string())
}

fn ask(r: &mut RoomInner, text: &str) -> u64 {
    r.ask_question("r", &cfg(), false, 0, text.to_string());
    r.next_question_id
}

fn error_code(fx: &[Effect]) -> String {
    match fx {
        [Effect::Reply(j)] => {
            assert_eq!(j.str_at("type"), Some("error"));
            j.get("payload").unwrap().str_at("code").unwrap().to_string()
        }
        other => panic!("{:?}", other),
    }
}

fn persisted(fx: &[Effect]) -> Vec<&RoomEvent> {
    fx.iter()
        .filter_map(|e| match e {
            Effect::Persist(e) => Some(e),
            _ => None,
        })
        .collect()
}

fn broadcast(fx: &[Effect]) -> &Json {
    fx.iter()
        .find_map(|e| match e {
            Effect::Broadcast(j) => Some(j),
            _ => None,
        })
        .unwrap()
}

fn texts(items: &[&str]) -> Vec<String> {
    items.iter().map(|t| t.to_string()).collect()
}

// ── Messages ────────────────────────────────────────────────────────────────

#[test]
fn messages_get_growing_ids_and_roles() {
    let mut r = RoomInner::default();
    let fx = say(&mut r, &cfg(), "u", 0, "one");
    assert_eq!(
        broadcast(&fx).to_text(),
        "{\"payload\":{\"id\":1,\"reactions\":{},\"role\":\"user\",\"text\":\"one\",\"ts\":0},\
         \"type\":\"message\"}"
    );
    assert!(matches!(
        persisted(&fx)[..],
        [RoomEvent::Message { id: 1, ts: 0, .. }]
    ));
    r.send_message("r", &cfg(), "a", true, 7, "two".to_string());
    assert_eq!(r.messages[1].id, 2);
    assert_eq!(r.messages[1].role, "admin");
    assert_eq!(r.messages[1].ts, 7);
    assert_eq!(role_str(true), "admin");
    assert_eq!(role_str(false), "user");
}

#[test]
fn messages_are_turned_away() {
    let mut r = RoomInner::default();
    assert!(say(&mut r, &cfg(), "u", 0, "").is_empty());
    assert_eq!(error_code(&say(&mut r, &cfg(), "u", 0, "12345678901")), "too_long");
    // Characters count, not bytes.
    assert_eq!(say(&mut r, &cfg(), "u", 0, "éééééééééé").len(), 2);
    assert_eq!(error_code(&say(&mut r, &cfg(), "u", 999, "again")), "rate_limited");
    assert_eq!(say(&mut r, &cfg(), "u", 1000, "again").len(), 2);
    r.set_lock("r", 2000, true, None);
    assert_eq!(error_code(&say(&mut r, &cfg(), "u", 9000, "hi")), "locked");
    assert_eq!(r.messages.len(), 2);
}

#[test]
fn rate_limit_is_per_user_and_not_for_admins() {
    let mut r = RoomInner::default();
    say(&mut r, &cfg(), "u", 0, "a");
    assert_eq!(say(&mut r, &cfg(), "v", 0, "b").len(), 2);
    for _ in 0..2 {
        let fx = r.send_message("r", &cfg(), "admin", true, 0, "c".to_string());
        assert_eq!(fx.len(), 2);
    }
}

#[test]
fn test_room_is_never_logged() {
    let mut r = RoomInner::default();
    let fx = r.send_message("test", &cfg(), "u", false, 0, "hi".to_string());
    assert!(persisted(&fx).is_empty());
    assert_eq!(fx.len(), 1);
}

#[test]
fn moderation_queue() {
    let mut r = RoomInner::default();
    let fx = say(&mut r, &moderated(), "u", 0, "first");
    assert!(matches!(persisted(&fx)[..], [RoomEvent::PendingMessage { id: 1, .. }]));
    assert!(matches!(fx[0], Effect::Reply(_)));
    assert!(matches!(fx[1], Effect::BroadcastAdmin(_)));
    assert!(matches!(fx[2], Effect::Persist(_)));
    say(&mut r, &moderated(), "v", 0, "second");
    assert!(r.messages.is_empty());
    assert_eq!(r.pending_messages.len(), 2);

    let fx = r.approve_message("r", &moderated(), 2);
    assert!(matches!(persisted(&fx)[..], [RoomEvent::Message { id: 2, .. }]));
    assert_eq!(r.messages[0].text, "second");
    assert!(r.approve_message("r", &moderated(), 2).is_empty());

    let fx = r.reject_message("r", 1);
    assert!(matches!(persisted(&fx)[..], [RoomEvent::PendingMessageRejected { id: 1 }]));
    assert_eq!(
        broadcast(&fx).to_text(),
        "{\"payload\":{\"id\":1},\"type\":\"pending_message_rejected\"}"
    );
    assert!(r.pending_messages.is_empty());

    // Admins are not moderated.
    r.send_message("r", &moderated(), "a", true, 0, "third".to_string());
    assert_eq!(r.messages.len(), 2);
}

#[test]
fn pending_items_are_for_admins_only() {
    let mut r = RoomInner::default();
    say(&mut r, &moderated(), "u", 0, "first");
    let before = RoomInner::default().snapshot_at("r", false, None, 0).to_text();
    let mut same = r.snapshot_at("r", false, None, 0).to_text();
    assert_eq!(before, same);
    same = r.snapshot_at("r", true, Some("T"), 0).to_text();
    assert!(same.contains("\"pending_messages\":[{\"id\":1"));
    assert!(same.contains("\"title\":\"T\""));
}

#[test]
fn deleting_a_message_forgets_its_reactions() {
    let mut r = RoomInner::default();
    say(&mut r, &cfg(), "u", 0, "hi");
    r.react("r", "u", 1, "👍");
    let fx = r.delete_message("r", 1);
    assert!(matches!(persisted(&fx)[..], [RoomEvent::MessageDeleted { id: 1 }]));
    assert!(r.messages.is_empty());
    assert!(r.reaction_users.by_message.is_empty());
    assert!(r.react("r", "u", 1, "👍").is_empty());
}

// ── Reactions ───────────────────────────────────────────────────────────────

#[test]
fn reactions_count_people() {
    let mut r = RoomInner::default();
    say(&mut r, &cfg(), "u", 0, "hi");
    r.react("r", "u", 1, "👍");
    let fx = r.react("r", "v", 1, "👍");
    assert_eq!(
        broadcast(&fx).to_text(),
        "{\"payload\":{\"count\":2,\"emoji\":\"👍\",\"message_id\":1},\"type\":\"reaction\"}"
    );
    assert_eq!(r.messages[0].reactions.get("👍"), Some(&2));
    // Twice is not at all.
    r.react("r", "v", 1, "👍");
    let fx = r.react("r", "u", 1, "👍");
    assert!(matches!(persisted(&fx)[..], [RoomEvent::ReactionRemove { message_id: 1, .. }]));
    assert!(r.messages[0].reactions.is_empty());
    assert_eq!(error_code(&r.react("r", "u", 1, "💩")), "bad_emoji");
}

#[test]
fn reactions_on_offer() {
    for emoji in ["👍", "❤️", "😂", "🔥", "🤔"] {
        assert!(supported_reaction(emoji));
    }
    assert!(!supported_reaction(""));
    assert!(!supported_reaction("❤"));
}

// ── Questions ───────────────────────────────────────────────────────────────

#[test]
fn questions_are_turned_away() {
    let mut r = RoomInner::default();
    assert!(r.ask_question("r", &cfg(), false, 0, String::new()).is_empty());
    r.set_lock("r", 0, true, None);
    let long = "12345678901".to_string();
    assert_eq!(error_code(&r.ask_question("r", &cfg(), false, 0, long)), "too_long");
    let fx = r.ask_question("r", &cfg(), false, 0, "why?".to_string());
    assert_eq!(error_code(&fx), "locked");
    let fx = r.ask_question("r", &cfg(), true, 0, "why?".to_string());
    assert_eq!(fx.len(), 2);
}

#[test]
fn question_votes_toggle_and_count() {
    let mut r = RoomInner::default();
    let q = ask(&mut r, "why?");
    let fx = r.vote("r", "u", false, 0, q);
    assert!(matches!(persisted(&fx)[..], [RoomEvent::VoteAdd { question_id: 1, .. }]));
    r.vote("r", "v", false, 0, q);
    assert_eq!(r.questions[0].votes, 2);
    let fx = r.vote("r", "u", false, 0, q);
    assert!(matches!(persisted(&fx)[..], [RoomEvent::VoteRemove { question_id: 1, .. }]));
    assert_eq!(
        broadcast(&fx).to_text(),
        "{\"payload\":{\"question_id\":1,\"votes\":1},\"type\":\"vote\"}"
    );
    assert!(r.vote("r", "u", false, 0, 99).is_empty());
    r.answer_question("r", q);
    assert_eq!(error_code(&r.vote("r", "u", false, 0, q)), "answered");
    r.set_lock("r", 0, true, None);
    assert_eq!(error_code(&r.vote("r", "u", false, 0, q)), "locked");
    assert_eq!(r.questions[0].votes, 1);
}

#[test]
fn one_question_is_pinned_at_a_time() {
    let mut r = RoomInner::default();
    let a = ask(&mut r, "a?");
    let b = ask(&mut r, "b?");
    r.pin_question("r", a);
    let fx = r.pin_question("r", b);
    assert!(!r.questions[0].pinned && r.questions[1].pinned);
    assert!(matches!(
        persisted(&fx)[..],
        [RoomEvent::QuestionPinned { question_id: 2, pinned: true }]
    ));
    r.pin_question("r", b);
    assert!(!r.questions[1].pinned);
    r.pin_question("r", a);
    r.answer_question("r", a);
    assert!(r.questions[0].answered && !r.questions[0].pinned);
}

#[test]
fn dismissed_questions_are_gone() {
    let mut r = RoomInner::default();
    let a = ask(&mut r, "a?");
    let b = ask(&mut r, "b?");
    r.vote("r", "u", false, 0, a);
    let fx = r.dismiss_question("r", a);
    assert!(matches!(persisted(&fx)[..], [RoomEvent::QuestionDismissed { question_id: 1 }]));
    assert_eq!(find(&r.questions, a), None);
    assert_eq!(find(&r.questions, b), Some(0));
    assert!(r.question_voters.is_empty());
}

#[test]
fn question_queue() {
    let mut r = RoomInner::default();
    r.ask_question("r", &moderated(), false, 0, "a?".to_string());
    r.ask_question("r", &moderated(), false, 0, "b?".to_string());
    assert!(r.questions.is_empty());
    let fx = r.approve_question("r", 1);
    assert!(matches!(persisted(&fx)[..], [RoomEvent::Question { id: 1, .. }]));
    assert!(r.approve_question("r", 1).is_empty());
    let fx = r.reject_question("r", 2);
    assert!(matches!(persisted(&fx)[..], [RoomEvent::PendingQuestionRejected { id: 2 }]));
    assert!(r.pending_questions.is_empty());
    assert_eq!(r.questions.len(), 1);
}

// ── Polls ───────────────────────────────────────────────────────────────────

#[test]
fn polls_need_a_question_and_answers() {
    let mut r = RoomInner::default();
    let mut create = |q: &str, options: &[&str]| r.create_poll("r", q.to_string(), texts(options));
    assert_eq!(error_code(&create("", &["a", "b"])), "bad_poll");
    assert_eq!(error_code(&create("q", &["a"])), "bad_poll");
    assert_eq!(error_code(&create("q", &["a", "b", "c", "d", "e", "f", "g"])), "bad_poll");
    assert_eq!(create("q", &["a", "b", "c", "d", "e", "f"]).len(), 2);
    let fx = create("q", &["a", "b"]);
    assert_eq!(
        broadcast(&fx).to_text(),
        "{\"payload\":{\"closed\":false,\"id\":2,\"options\":[{\"text\":\"a\",\"votes\":0},\
         {\"text\":\"b\",\"votes\":0}],\"question\":\"q\"},\"type\":\"poll_created\"}"
    );
}

#[test]
fn poll_votes() {
    let mut r = RoomInner::default();
    r.create_poll("r", "q".to_string(), texts(&["a", "b"]));
    let fx = r.vote_in_poll("r", "u", false, 0, 1, 1);
    assert!(matches!(
        persisted(&fx)[..],
        [RoomEvent::PollVote { poll_id: 1, option_index: 1, .. }]
    ));
    assert_eq!(error_code(&r.vote_in_poll("r", "u", false, 0, 1, 0)), "already_voted");
    assert_eq!(error_code(&r.vote_in_poll("r", "v", false, 0, 1, 2)), "bad_option");
    assert!(r.vote_in_poll("r", "v", false, 0, 9, 0).is_empty());
    r.vote_in_poll("r", "v", false, 0, 1, 1);
    assert_eq!(r.polls[0].options[1].votes, 2);
    r.set_lock("r", 0, true, None);
    assert_eq!(error_code(&r.vote_in_poll("r", "w", false, 0, 1, 0)), "locked");
    r.end_poll("r", 1);
    assert_eq!(error_code(&r.vote_in_poll("r", "w", true, 0, 1, 0)), "poll_closed");
    let fx = r.delete_poll("r", 1);
    assert!(matches!(persisted(&fx)[..], [RoomEvent::PollDeleted { poll_id: 1 }]));
    assert!(r.polls.is_empty() && r.poll_voters.is_empty());
}

// ── Locks ───────────────────────────────────────────────────────────────────

#[test]
fn timed_locks_end_by_themselves() {
    let mut r = RoomInner::default();
    let fx = r.set_lock("r", 1000, true, Some(2));
    assert!(matches!(fx[2], Effect::ScheduleUnlock { seconds: 2, epoch: 1 }));
    assert!(matches!(
        persisted(&fx)[..],
        [RoomEvent::Lock { locked: true, until: Some(3000) }]
    ));
    assert!(r.effective_locked_at(2999));
    assert!(!r.effective_locked_at(3000));
    assert!(!r.effective_locked());
    // The picture says so too.
    let text = r.snapshot_at("r", false, None, 2999).to_text();
    assert!(text.contains("\"locked\":true,\"locked_until\":3000"));
    let text = r.snapshot_at("r", false, None, 3000).to_text();
    assert!(text.contains("\"locked\":false,\"locked_until\":null"));
    // A lock lasts a day at most.
    let fx = r.set_lock("r", 0, true, Some(u64::MAX));
    assert!(matches!(fx[2], Effect::ScheduleUnlock { seconds: 86_400, epoch: 2 }));
    assert_eq!(r.locked_until, Some(86_400_000));
}

#[test]
fn timers_lift_only_their_own_lock() {
    let mut r = RoomInner::default();
    r.set_lock("r", 0, true, Some(1));
    r.set_lock("r", 0, true, None);
    assert!(r.auto_unlock(1).is_empty());
    assert!(r.locked);
    r.set_lock("r", 0, true, Some(1));
    let fx = r.auto_unlock(3);
    assert_eq!(broadcast(&fx).to_text(), "{\"payload\":{\"locked\":false},\"type\":\"lock\"}");
    assert!(!r.locked && r.locked_until.is_none());
    assert_eq!(r.lock_epoch, 4);
    assert!(r.auto_unlock(4).is_empty());
    let fx = r.set_lock("r", 0, false, Some(5));
    assert_eq!(fx.len(), 2);
    assert_eq!(r.locked_until, None);
}

// ── Frames ──────────────────────────────────────────────────────────────────

fn frame(kind: &str, payload: Json) -> Option<Json> {
    Some(Json::object().with("type", Json::text(kind)).with("payload", payload))
}

#[test]
fn frames_are_decoded() {
    let p = |text: &str| Json::parse(text).unwrap();
    assert!(matches!(
        Action::decode("message", &p("{\"text\":\"  hi \"}")),
        Action::Message { text } if text == "hi"
    ));
    assert!(matches!(
        Action::decode("message", &p("{}")),
        Action::Message { text } if text.is_empty()
    ));
    assert!(matches!(
        Action::decode("reaction", &p("{\"message_id\":1}")),
        Action::Incomplete
    ));
    assert!(matches!(
        Action::decode("vote", &p("{\"question_id\":-1}")),
        Action::Incomplete
    ));
    assert!(matches!(
        Action::decode("admin_lock", &p("{\"duration_seconds\":5}")),
        Action::Lock { locked: false, duration_seconds: Some(5) }
    ));
    assert!(matches!(
        Action::decode(
            "admin_create_poll",
            &p("{\"question\":\" q \",\"options\":[\" a \",1,\" \",\"b\"]}")
        ),
        Action::CreatePoll { question, options } if question == "q" && options == texts(&["a", "b"])
    ));
    assert!(matches!(Action::decode("nonsense", &p("{}")), Action::Unknown));
    assert!(matches!(Action::decode("", &p("[]")), Action::Unknown));
}

#[test]
fn frames_are_gated() {
    let mut r = RoomInner::default();
    let mut send = |kind: &str, is_admin: bool, is_display: bool| {
        r.handle_frame("r", &cfg(), "u", is_admin, is_display, 0, frame(kind, Json::object()))
    };
    assert_eq!(error_code(&send("admin_close_room", false, false)), "forbidden");
    assert_eq!(error_code(&send("admin_whatever", false, false)), "forbidden");
    assert_eq!(error_code(&send("admin_whatever", true, false)), "unknown");
    assert!(send("admin_close_room", false, true).is_empty());
    assert!(send("nonsense", false, true).is_empty());
    let fx = send("admin_close_room", true, false);
    assert_eq!(broadcast(&fx).str_at("type"), Some("room_closed"));
    assert!(matches!(fx[1], Effect::CloseRoom));
    let fx = r.handle_frame("r", &cfg(), "u", false, true, 0, None);
    assert_eq!(error_code(&fx), "bad_json");
}

#[test]
fn display_panels() {
    let mut r = RoomInner::default();
    let mut switch = |payload: Json| {
        r.handle_frame("r", &cfg(), "a", true, false, 0, frame("admin_display_mode", payload))
    };
    let fx = switch(Json::object());
    assert_eq!(
        broadcast(&fx).to_text(),
        "{\"payload\":{\"mode\":\"questions\"},\"type\":\"display_mode\"}"
    );
    for mode in ["questions", "messages", "polls", "qr"] {
        assert_eq!(switch(Json::object().with("mode", Json::text(mode))).len(), 1);
    }
    assert!(switch(Json::object().with("mode", Json::text("tv"))).is_empty());
}

// ── Presence ────────────────────────────────────────────────────────────────

#[test]
fn presence_is_counted_and_capped() {
    let mut room = Room::new("r".to_string(), None, "s".to_string(), None, 10, cfg());
    let first = room.enter(false, false, 0).unwrap();
    assert_eq!(
        first.announcement.unwrap(),
        "{\"payload\":{\"count\":1},\"type\":\"participant_count\"}"
    );
    assert!(first.first.contains("\"participants\":1"));
    assert!(room.enter(true, false, 0).is_some());
    assert!(room.enter(false, false, 0).is_none());
    let display = room.enter(false, true, 0).unwrap();
    assert!(display.announcement.is_none());
    assert_eq!(room.inner.participants, 2);
    assert_eq!(room.leave(), "{\"payload\":{\"count\":1},\"type\":\"participant_count\"}");
    room.leave();
    room.leave();
    assert_eq!(room.inner.participants, 0);
}

// ── Consistency ─────────────────────────────────────────────────────────────

#[test]
fn counts_agree_with_the_people_behind_them() {
    let mut r = RoomInner::default();
    for (i, who) in ["u", "v", "w", "x"].iter().enumerate() {
        say(&mut r, &cfg(), who, i as u64, "hi");
        ask(&mut r, "why?");
    }
    r.create_poll("r", "q".to_string(), texts(&["a", "b", "c"]));
    for (i, who) in ["u", "v", "w"].iter().enumerate() {
        r.react("r", who, 3, "🔥");
        r.vote("r", who, false, 0, 2);
        r.vote_in_poll("r", who, false, 0, 1, i);
    }
    r.react("r", "u", 3, "🔥");
    r.vote("r", "v", false, 0, 2);
    r.pin_question("r", 1);
    r.pin_question("r", 3);

    assert_eq!(r.messages.len(), 3);
    let mut ids: Vec<u64> = r.messages.iter().map(|m| m.id).collect();
    ids.dedup();
    assert_eq!(ids, vec![2, 3, 4]);
    let message = r.messages.iter().find(|m| m.id == 3).unwrap();
    assert_eq!(message.reactions.get("🔥"), Some(&2));
    assert_eq!(r.questions[1].votes, 2);
    assert_eq!(r.question_voters[&2].len(), 2);
    let total: u32 = r.polls[0].options.iter().map(|o| o.votes).sum();
    assert_eq!(total as usize, r.poll_voters[&1].len());
    assert_eq!(r.questions.iter().filter(|q| q.pinned).count(), 1);
}

// ── Restart ─────────────────────────────────────────────────────────────────

#[test]
fn a_room_comes_back_from_its_log() {
    let mut room = Room::new("r".to_string(), None, "s".to_string(), None, u64::MAX, moderated());
    let user = Caller { identity: "u".to_string(), is_admin: false, is_display: false };
    let admin = Caller { identity: "admin:1".to_string(), is_admin: true, is_display: false };
    let mut log: Vec<EventRow> = Vec::new();
    let script: Vec<(&Caller, u64, &str)> = vec![
        (&user, 0, "{\"type\":\"message\",\"payload\":{\"text\":\"hello\"}}"),
        (&user, 5000, "{\"type\":\"message\",\"payload\":{\"text\":\"again\"}}"),
        (&user, 9000, "{\"type\":\"message\",\"payload\":{\"text\":\"waiting\"}}"),
        (&admin, 9000, "{\"type\":\"admin_approve_message\",\"payload\":{\"message_id\":2}}"),
        (&admin, 9000, "{\"type\":\"admin_reject_message\",\"payload\":{\"message_id\":1}}"),
        (&user, 9000, "{\"type\":\"reaction\",\"payload\":{\"message_id\":2,\"emoji\":\"🔥\"}}"),
        (&user, 9000, "{\"type\":\"question\",\"payload\":{\"text\":\"why?\"}}"),
        (&admin, 9000, "{\"type\":\"admin_approve_question\",\"payload\":{\"question_id\":1}}"),
        (&user, 9000, "{\"type\":\"vote\",\"payload\":{\"question_id\":1}}"),
        (&admin, 9000, "{\"type\":\"admin_pin_question\",\"payload\":{\"question_id\":1}}"),
        (
            &admin,
            9000,
            "{\"type\":\"admin_create_poll\",\"payload\":{\"question\":\"q\",\"options\":[\"a\",\"b\"]}}",
        ),
        (&user, 9000, "{\"type\":\"poll_vote\",\"payload\":{\"poll_id\":1,\"option_index\":1}}"),
        (&admin, 9000, "{\"type\":\"admin_close_poll\",\"payload\":{\"poll_id\":1}}"),
        (
            &admin,
            9000,
            "{\"type\":\"admin_lock\",\"payload\":{\"locked\":true,\"duration_seconds\":1}}",
        ),
    ];
    for (caller, now, text) in script {
        for out in room.handle_client_at(caller, now, text) {
            if let Outgoing::Append(row) = out {
                log.push(row);
            }
        }
    }
    // The timer runs out; that is not logged.
    assert_eq!(room.timer_fired(1).len(), 1);

    let mut back = RoomInner::default();
    back.apply_rows(&log, 3);
    let now = 10_000;
    assert_eq!(
        back.snapshot_at("r", true, None, now).to_text(),
        room.inner.snapshot_at("r", true, None, now).to_text()
    );
    assert_eq!(back.next_msg_id, 3);
    assert_eq!(back.pending_messages.len(), 1);
    assert_eq!(back.questions[0].votes, 1);
    assert!(back.locked && !back.effective_locked_at(now));
    // The same people still count as having voted.
    assert_eq!(error_code(&back.vote_in_poll("r", "u", true, now, 1, 0)), "poll_closed");
    back.vote("r", "u", false, now, 1);
    assert_eq!(back.questions[0].votes, 0);
}

#[test]
fn every_kind_of_event_is_read_back() {
    let s = |t: &str| t.to_string();
    let all = vec![
        RoomEvent::Message { id: 1, role: s("user"), text: s("t"), ts: 2 },
        RoomEvent::MessageDeleted { id: 1 },
        RoomEvent::ReactionAdd { message_id: 1, emoji: s("🔥"), voter: s("v") },
        RoomEvent::ReactionRemove { message_id: 1, emoji: s("🔥"), voter: s("v") },
        RoomEvent::PendingMessage { id: 1, role: s("user"), text: s("t"), ts: 2 },
        RoomEvent::PendingMessageRejected { id: 1 },
        RoomEvent::Question { id: 1, text: s("t") },
        RoomEvent::VoteAdd { question_id: 1, voter: s("v") },
        RoomEvent::VoteRemove { question_id: 1, voter: s("v") },
        RoomEvent::QuestionPinned { question_id: 1, pinned: false },
        RoomEvent::QuestionAnswered { question_id: 1 },
        RoomEvent::QuestionDismissed { question_id: 1 },
        RoomEvent::PendingQuestion { id: 1, text: s("t") },
        RoomEvent::PendingQuestionRejected { id: 1 },
        RoomEvent::PollCreated { id: 1, question: s("q"), options: texts(&["a", "b"]) },
        RoomEvent::PollVote { poll_id: 1, option_index: 1, voter: s("v") },
        RoomEvent::PollClosed { poll_id: 1 },
        RoomEvent::PollDeleted { poll_id: 1 },
        RoomEvent::Lock { locked: true, until: Some(9) },
        RoomEvent::Lock { locked: false, until: None },
    ];
    for e in all {
        let row = append_event(&e);
        let back = RoomEvent::decode(&row.kind, &Json::parse(&row.payload).unwrap());
        assert_eq!(format!("{:?}", back), format!("{:?}", Some(e)));
    }
}

/// What is logged of some effects, as rows.
fn rows_of(fx: &Vec<Effect>) -> Vec<EventRow> {
    write_effects(fx)
        .into_iter()
        .filter_map(|out| match out {
            Outgoing::Append(row) => Some(row),
            _ => None,
        })
        .collect()
}

fn texts_of(r: &RoomInner) -> Vec<String> {
    r.messages.iter().map(|m| m.text.clone()).collect()
}

#[test]
fn replay_keeps_no_more_history_than_the_room_did() {
    let mut r = RoomInner::default();
    let mut log: Vec<EventRow> = Vec::new();
    for i in 0..5u64 {
        log.extend(rows_of(&say(&mut r, &cfg(), "u", i * 1000, &format!("m{}", i))));
    }
    assert_eq!(texts_of(&r), texts(&["m2", "m3", "m4"]));
    let mut back = RoomInner::default();
    back.apply_rows(&log, 3);
    assert_eq!(texts_of(&back), texts(&["m2", "m3", "m4"]));
    assert_eq!(back.next_msg_id, 5);
    // A room that keeps more than was posted drops nothing.
    let mut all = RoomInner::default();
    all.apply_rows(&log, 5);
    assert_eq!(texts_of(&all), texts(&["m0", "m1", "m2", "m3", "m4"]));
}

#[test]
fn replay_drops_history_where_the_room_did() {
    // A message that was dropped does not come back because a later one was
    // deleted.
    let mut r = RoomInner::default();
    let mut log: Vec<EventRow> = Vec::new();
    for i in 0..4u64 {
        log.extend(rows_of(&say(&mut r, &cfg(), "u", i * 1000, &format!("m{}", i))));
    }
    log.extend(rows_of(&r.delete_message("r", 3)));
    log.extend(rows_of(&say(&mut r, &cfg(), "u", 9000, "m4")));
    assert_eq!(texts_of(&r), texts(&["m1", "m3", "m4"]));
    let mut back = RoomInner::default();
    back.apply_rows(&log, 3);
    assert_eq!(texts_of(&back), texts(&["m1", "m3", "m4"]));
}

#[test]
fn a_stored_room_keeps_its_message_cap() {
    let row = |max_messages: i32| RoomRow {
        id: "abc".to_string(),
        title: None,
        secret: "s".to_string(),
        password_hash: None,
        expires_at: None,
        max_messages,
        max_participants: 10,
        rate_limit_ms: 0,
        max_message_length: 100,
        moderated: false,
    };
    let events = || {
        (0..5)
            .map(|i| EventRow {
                kind: "message".to_string(),
                payload: format!(
                    "{{\"id\":{},\"role\":\"user\",\"text\":\"m{}\",\"ts\":1}}",
                    i + 1,
                    i
                ),
            })
            .collect::<Vec<EventRow>>()
    };
    let stored = vec![
        StoredRoom { row: row(3), events: Some(events()) },
        StoredRoom { row: row(7), events: Some(events()) },
    ];
    let rooms = replay_all(stored);
    assert_eq!(texts_of(&rooms[0].inner), texts(&["m2", "m3", "m4"]));
    assert_eq!(rooms[1].inner.messages.len(), 5);
}

#[test]
fn replayed_votes_for_missing_answers_count_for_nothing() {
    let mut r = RoomInner::default();
    let created = Json::parse(
        "{\"id\":1,\"question\":\"q\",\"options\":[{\"text\":\"a\"},{\"text\":\"b\"}]}",
    )
    .unwrap();
    r.apply_event("poll_created", &created);
    let vote = |poll: u64, option: u64| {
        Json::parse(&format!(
            "{{\"poll_id\":{},\"option_index\":{},\"voter\":\"v\"}}",
            poll, option
        ))
        .unwrap()
    };
    r.apply_event("poll_vote", &vote(1, 2));
    assert!(r.poll_voters.is_empty());
    r.apply_event("poll_vote", &vote(9, 0));
    assert!(r.poll_voters.is_empty());
    // Whoever named a missing answer can still vote.
    r.apply_event("poll_vote", &vote(1, 1));
    r.apply_event("poll_vote", &vote(1, 0));
    assert_eq!(r.polls[0].options[0].votes, 0);
    assert_eq!(r.polls[0].options[1].votes, 1);
    assert_eq!(r.poll_voters[&1].len(), 1);
}

#[test]
fn replayed_votes_and_reactions_on_what_is_gone_count_for_nothing() {
    let mut r = RoomInner::default();
    let vote = Json::parse("{\"question_id\":4,\"voter\":\"v\"}").unwrap();
    r.apply_event("vote_add", &vote);
    r.apply_event("vote_remove", &vote);
    assert!(r.question_voters.is_empty());
    let reaction =
        Json::parse("{\"message_id\":4,\"emoji\":\"🔥\",\"voter\":\"v\"}").unwrap();
    r.apply_event("reaction_add", &reaction);
    assert!(r.reaction_users.take(4, "🔥").is_none());
    r.apply_event("reaction_remove", &reaction);
    // What was voted for too early starts at 0.
    r.apply_event("question", &Json::parse("{\"id\":4,\"text\":\"q\"}").unwrap());
    r.apply_event("vote_add", &vote);
    assert_eq!(r.questions[0].votes, 1);
}

#[test]
fn replayed_reactions_count_those_who_still_react() {
    let mut r = RoomInner::default();
    let message =
        Json::parse("{\"id\":1,\"role\":\"user\",\"text\":\"m\",\"ts\":1}").unwrap();
    r.apply_event("message", &message);
    let mut apply = |kind: &str, voter: &str| {
        let p = Json::object()
            .with("message_id", Json::number(1))
            .with("emoji", Json::text("🔥"))
            .with("voter", Json::text(voter));
        r.apply_event(kind, &p);
        r.messages[0].reactions.get("🔥").copied()
    };
    assert_eq!(apply("reaction_remove", "a"), None);
    assert_eq!(apply("reaction_add", "a"), Some(1));
    assert_eq!(apply("reaction_add", "a"), Some(1));
    assert_eq!(apply("reaction_add", "b"), Some(2));
    assert_eq!(apply("reaction_remove", "a"), Some(1));
    assert_eq!(apply("reaction_remove", "a"), Some(1));
    assert_eq!(apply("reaction_add", "c"), Some(2));
    assert_eq!(apply("reaction_remove", "b"), Some(1));
    assert_eq!(apply("reaction_remove", "c"), None);
    assert!(r.reaction_users.take(1, "🔥").is_none());
}

#[test]
fn a_count_with_nobody_recorded_goes_with_the_first_reaction() {
    let mut r = RoomInner::default();
    say(&mut r, &cfg(), "u", 0, "m");
    r.messages[0].reactions.insert("🔥".to_string(), 5);
    r.messages[0].reactions.insert("👍".to_string(), 7);
    let p = Json::parse("{\"message_id\":1,\"emoji\":\"🔥\",\"voter\":\"v\"}").unwrap();
    r.apply_event("reaction_remove", &p);
    assert_eq!(r.messages[0].reactions.get("🔥"), Some(&5));
    r.apply_event("reaction_add", &p);
    assert_eq!(r.messages[0].reactions.get("🔥"), Some(&1));
    r.apply_event("reaction_remove", &p);
    assert_eq!(r.messages[0].reactions.get("🔥"), None);
    assert_eq!(r.messages[0].reactions.get("👍"), Some(&7));
    assert!(r.reaction_users.take(1, "🔥").is_none());
}

#[test]
fn events_go_out_before_they_are_logged() {
    let mut r = RoomInner::default();
    let announced = |fx: Vec<Effect>| {
        assert!(matches!(fx[0], Effect::Broadcast(_)));
        assert!(matches!(fx[1], Effect::Persist(_)));
        fx.len()
    };
    assert_eq!(announced(say(&mut r, &cfg(), "u", 0, "m")), 2);
    assert_eq!(announced(r.react("r", "u", 1, "🔥")), 2);
    assert_eq!(announced(r.ask_question("r", &cfg(), false, 0, "q".to_string())), 2);
    assert_eq!(announced(r.vote("r", "u", false, 0, 1)), 2);
    assert_eq!(announced(r.pin_question("r", 1)), 2);
    assert_eq!(announced(r.create_poll("r", "q".to_string(), texts(&["a", "b"]))), 2);
    assert_eq!(announced(r.vote_in_poll("r", "u", false, 0, 1, 0)), 2);
    assert_eq!(announced(r.set_lock("r", 0, true, None)), 2);
    assert_eq!(announced(r.set_lock("r", 0, true, Some(5))), 3);
    assert_eq!(announced(r.delete_message("r", 1)), 2);
    // Nothing is ever logged of the test room.
    let fx = r.pin_question("test", 1);
    assert!(matches!(fx[..], [Effect::Broadcast(_)]));
}

#[test]
fn two_admins_have_a_vote_each() {
    let room_id = "r".to_string();
    let mut room = Room::new(room_id, None, "s".to_string(), None, u64::MAX, cfg());
    let connect = |room: &Room, fresh: &str| {
        match room.let_in(None, true, fresh.to_string()) {
            Admission::Admitted { caller, .. } => caller,
            other => panic!("{:?}", other),
        }
    };
    let one = connect(&room, "f1");
    let two = connect(&room, "f2");
    assert_ne!(one.identity, two.identity);
    room.inner.create_poll("r", "q".to_string(), texts(&["a", "b"]));
    let vote = "{\"type\":\"poll_vote\",\"payload\":{\"poll_id\":1,\"option_index\":0}}";
    room.handle_client_at(&one, 0, vote);
    room.handle_client_at(&two, 0, vote);
    room.handle_client_at(&one, 0, vote);
    assert_eq!(room.inner.polls[0].options[0].votes, 2);
}

#[test]
fn ids_run_on_and_counters_have_room() {
    let mut r = RoomInner::default();
    assert_eq!(r.next_msg_id(), 1);
    assert_eq!(r.next_msg_id(), 2);
    assert_eq!(r.next_question_id(), 1);
    assert_eq!(r.next_poll_id(), 1);
    assert!(r.has_headroom());
    r.next_msg_id = u64::MAX;
    assert!(!r.has_headroom());
    r.next_msg_id = 0;
    ask(&mut r, "why?");
    r.questions[0].votes = u32::MAX;
    assert!(!r.has_headroom());
}

#[test]
fn voters_keep_votes_that_were_logged_twice_from_counting_twice() {
    let mut r = RoomInner::default();
    r.apply_event("question", &Json::parse("{\"id\":4,\"text\":\"q\"}").unwrap());
    let vote = Json::parse("{\"question_id\":4,\"voter\":\"v\"}").unwrap();
    r.apply_event("vote_add", &vote);
    r.apply_event("vote_add", &vote);
    assert_eq!(r.questions[0].votes, 1);
    r.apply_event("vote_remove", &vote);
    r.apply_event("vote_remove", &vote);
    assert_eq!(r.questions[0].votes, 0);
    assert_eq!(r.next_question_id, 4);
}
