use stats::session::{codex_once_reply, codex_reply};
use stats::session::{
    codex_once_start, codex_once_step, codex_start, codex_step, CodexAction, CodexEvent,
};

fn reply(id: Option<u64>, has_error: bool, has_result: bool, now: u64) -> CodexEvent {
    CodexEvent::Reply { id, has_error, has_result, now_millis: now }
}

#[test]
fn reads_rate_limits_and_usage_once_ready_and_again_each_interval() {
    let (session, first) = codex_start(true, true, 60_000, 0);
    assert_eq!(first, CodexAction::SendInitialize(1));

    let (session, actions) = codex_step(&session, CodexEvent::Tick { now_millis: 10 });
    assert!(actions.is_empty());

    let (session, actions) = codex_step(&session, reply(Some(1), false, true, 20));
    assert_eq!(actions, vec![CodexAction::MarkReady { rate: true, activity: true }]);

    let (session, actions) = codex_step(&session, CodexEvent::Tick { now_millis: 30 });
    assert_eq!(actions, vec![CodexAction::SendRateLimitsRead(2), CodexAction::SendUsageRead(3)]);

    let (session, actions) = codex_step(&session, CodexEvent::Tick { now_millis: 40 });
    assert!(actions.is_empty());

    let (session, actions) = codex_step(&session, reply(Some(2), false, true, 50));
    assert_eq!(actions, vec![CodexAction::StoreRate]);
    assert_eq!(session.next_rate_at, 60_050);

    let (session, actions) = codex_step(&session, reply(Some(3), true, false, 60));
    assert_eq!(actions, vec![CodexAction::CachedActivity]);

    let (session, actions) = codex_step(&session, reply(Some(99), false, true, 70));
    assert!(actions.is_empty());

    let (session, actions) = codex_step(&session, CodexEvent::Tick { now_millis: 60_049 });
    assert!(actions.is_empty());
    let (_, actions) = codex_step(&session, CodexEvent::Tick { now_millis: 60_060 });
    assert_eq!(actions, vec![CodexAction::SendRateLimitsRead(4), CodexAction::SendUsageRead(5)]);
}

#[test]
fn disabled_reads_are_never_sent_and_a_failed_initialize_ends_the_session() {
    let (session, _) = codex_start(false, true, 1_000, 0);
    let (ready, actions) = codex_step(&session, reply(Some(1), false, true, 5));
    assert_eq!(actions, vec![CodexAction::MarkReady { rate: false, activity: true }]);
    let (_, actions) = codex_step(&ready, CodexEvent::Tick { now_millis: 6 });
    assert_eq!(actions, vec![CodexAction::SendUsageRead(2)]);

    let (_, actions) = codex_step(&session, reply(Some(1), true, false, 5));
    assert_eq!(actions, vec![CodexAction::Fail]);
}

#[test]
fn the_status_read_asks_after_initialize_and_ends_with_the_matching_reply() {
    let (once, first) = codex_once_start();
    assert_eq!(first, CodexAction::SendInitialize(1));
    let (once, action) = codex_once_step(&once, reply(Some(7), false, true, 0));
    assert_eq!(action, CodexAction::Nothing);
    let (once, action) = codex_once_step(&once, reply(Some(1), false, true, 0));
    assert_eq!(action, CodexAction::SendRateLimitsRead(2));
    let (_, action) = codex_once_step(&once, reply(None, false, true, 0));
    assert_eq!(action, CodexAction::Nothing);
    assert_eq!(codex_once_step(&once, reply(Some(2), false, true, 0)).1, CodexAction::StoreRate);
    assert_eq!(codex_once_step(&once, reply(Some(2), true, false, 0)).1, CodexAction::Fail);
    assert_eq!(codex_once_step(&once, reply(Some(2), false, false, 0)).1, CodexAction::MissingResult);

    let (fresh, _) = codex_once_start();
    assert_eq!(codex_once_step(&fresh, reply(Some(1), true, false, 0)).1, CodexAction::Fail);
}

#[test]
fn replies_are_read_from_their_json_text() {
    let (session, _) = codex_start(true, false, 1_000, 0);
    assert!(codex_reply(&session, "not json", 5).is_none());
    let (ready, actions) = codex_reply(&session, r#"{"id":1,"result":{}}"#, 5).unwrap();
    assert_eq!(actions, vec![CodexAction::MarkReady { rate: true, activity: false }]);
    let (asked, _) = codex_step(&ready, CodexEvent::Tick { now_millis: 6 });
    let (_, actions) = codex_reply(&asked, r#"{"id":2,"error":{"message":"busy"}}"#, 7).unwrap();
    assert_eq!(actions, vec![CodexAction::CachedRate]);
    let (_, actions) = codex_reply(&asked, r#"{"method":"note"}"#, 7).unwrap();
    assert!(actions.is_empty());

    let (once, _) = codex_once_start();
    assert!(codex_once_reply(&once, "{").is_none());
    let (once, action) = codex_once_reply(&once, r#"{"id":1,"result":{}}"#).unwrap();
    assert_eq!(action, CodexAction::SendRateLimitsRead(2));
    let (_, action) = codex_once_reply(&once, r#"{"id":2,"result":{"rateLimits":{}}}"#).unwrap();
    assert_eq!(action, CodexAction::StoreRate);
}
