use goon_launcher::{
    cleanup_discord_rpc, create_activity_payload, get_current_timestamp, init_discord_rpc,
    set_in_game_activity, PresenceAction, PresenceChannel,
};

fn ok() -> Result<(), String> {
    Ok(())
}

fn fail(m: &str) -> Result<(), String> {
    Err(m.to_string())
}

#[test]
fn first_publish_creates_and_connects() {
    let mut c = PresenceChannel::new();
    assert!(matches!(init_discord_rpc(&mut c, 1700000000), PresenceAction::CreateClient));
    assert_eq!(c.payload().state, "In Launcher");
    assert_eq!(c.payload().details, "Browsing servers");
    assert_eq!(c.payload().start, 1700000000);
    assert!(matches!(c.on_outcome(ok()), PresenceAction::Connect));
    assert!(matches!(c.on_outcome(ok()), PresenceAction::SendNew));
    assert!(matches!(c.on_outcome(ok()), PresenceAction::Finished(Ok(()))));
    assert!(c.is_connected());
    assert!(!c.is_publishing());
}

#[test]
fn publish_over_held_connection() {
    let mut c = PresenceChannel::new();
    init_discord_rpc(&mut c, 1);
    c.on_outcome(ok());
    c.on_outcome(ok());
    c.on_outcome(ok());
    assert!(matches!(set_in_game_activity(&mut c, "Goonstation #1", 2), PresenceAction::SendExisting));
    assert_eq!(c.payload().state, "In Game");
    assert_eq!(c.payload().details, "Goonstation #1");
    assert!(matches!(c.on_outcome(ok()), PresenceAction::Finished(Ok(()))));
}

#[test]
fn failed_send_reconnects_once_then_recreates() {
    let mut c = PresenceChannel::new();
    init_discord_rpc(&mut c, 1);
    c.on_outcome(ok());
    c.on_outcome(ok());
    c.on_outcome(ok());
    assert!(matches!(init_discord_rpc(&mut c, 2), PresenceAction::SendExisting));
    assert!(matches!(c.on_outcome(fail("pipe closed")), PresenceAction::Reconnect));
    assert!(matches!(c.on_outcome(fail("no pipe")), PresenceAction::CreateClient));
    assert!(!c.is_connected());
    assert!(matches!(c.on_outcome(ok()), PresenceAction::Connect));
    match c.on_outcome(fail("refused")) {
        PresenceAction::Finished(Err(m)) => assert_eq!(m, "Failed to connect to Discord: refused"),
        _ => panic!("expected the publish to end"),
    }
    assert!(!c.is_connected());
}

#[test]
fn successful_reconnect_ends_the_publish_unsent() {
    let mut c = PresenceChannel::new();
    init_discord_rpc(&mut c, 1);
    c.on_outcome(ok());
    c.on_outcome(ok());
    c.on_outcome(ok());
    init_discord_rpc(&mut c, 2);
    c.on_outcome(fail("stale"));
    match c.on_outcome(ok()) {
        PresenceAction::Finished(Err(m)) => assert_eq!(m, "Failed to set Discord activity"),
        _ => panic!("expected the publish to end"),
    }
    assert!(c.is_connected());
    assert!(matches!(init_discord_rpc(&mut c, 3), PresenceAction::SendExisting));
}

#[test]
fn creation_and_send_failures() {
    let mut c = PresenceChannel::new();
    init_discord_rpc(&mut c, 1);
    match c.on_outcome(fail("no id")) {
        PresenceAction::Finished(Err(m)) => assert_eq!(m, "Failed to create Discord client: no id"),
        _ => panic!("expected the publish to end"),
    }
    init_discord_rpc(&mut c, 1);
    c.on_outcome(ok());
    c.on_outcome(ok());
    match c.on_outcome(fail("bad payload")) {
        PresenceAction::Finished(Err(m)) => assert_eq!(m, "Failed to set activity: bad payload"),
        _ => panic!("expected the publish to end"),
    }
    assert!(!c.is_connected());
}

#[test]
fn shutdown_then_publish_is_like_new() {
    let mut c = PresenceChannel::new();
    init_discord_rpc(&mut c, 1);
    c.on_outcome(ok());
    c.on_outcome(ok());
    c.on_outcome(ok());
    assert!(c.is_connected());
    assert_eq!(cleanup_discord_rpc(&mut c), Ok(()));
    assert!(!c.is_connected());
    assert_eq!(cleanup_discord_rpc(&mut c), Ok(()));
    assert!(matches!(init_discord_rpc(&mut c, 5), PresenceAction::CreateClient));
    assert!(!c.shutdown());
}

#[test]
fn timestamps() {
    assert_eq!(get_current_timestamp(0), 0);
    assert_eq!(get_current_timestamp(1700000000), 1700000000);
    assert_eq!(get_current_timestamp(u64::MAX), i64::MAX);
    let p = create_activity_payload("In Game", "x", 42);
    assert_eq!(p.start, 42);
    assert_eq!(p.state, "In Game");
}
