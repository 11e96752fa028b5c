use hang::controller::{Controller, Effect, PersistedSession, PlayerAction};
use hang::protocol::{Message, SyncCommand};

fn session() -> PersistedSession {
    PersistedSession {
        room_id: "123-456".to_string(),
        resume_token: "tok".to_string(),
        file_hash: "H".to_string(),
        is_host: true,
    }
}

fn broadcast(command: SyncCommand) -> Message {
    Message::SyncBroadcast { from_client: 7, command }
}

#[test]
fn echo_window_drops_close_commands() {
    let mut c = Controller::new(None, "Bea".to_string());
    let first = c.handle_server_message(broadcast(SyncCommand::Play { position_ms: 42_000 }), 1_000);
    assert_eq!(first.len(), 2);
    assert!(matches!(first[0], Effect::Player(PlayerAction::Seek { position_ms: 42_000 })));
    assert!(matches!(first[1], Effect::Player(PlayerAction::Play)));
    let second = c.handle_server_message(broadcast(SyncCommand::Seek { position_ms: 42_050 }), 1_050);
    assert!(second.is_empty());
    let third = c.handle_server_message(broadcast(SyncCommand::Pause { position_ms: 1 }), 1_100);
    assert_eq!(third.len(), 2);
    assert_eq!(c.handle_sync_command(SyncCommand::Stop, 1_199), vec![]);
    assert_eq!(c.handle_sync_command(SyncCommand::Speed { rate_milli: 1500 }, 1_200), vec![PlayerAction::SetRate { rate_milli: 1500 }]);
}

#[test]
fn auto_resume_is_sent_once() {
    let mut c = Controller::new(Some(session()), "Bea".to_string());
    assert!(c.maybe_auto_resume().is_none());
    c.update_sync_status("Connected".to_string(), Some(true));
    let first = c.maybe_auto_resume();
    assert!(matches!(first, Some(Message::ResumeSession { ref token, .. }) if token == "tok"));
    assert!(c.maybe_auto_resume().is_none());
    c.handle_connection_loss();
    c.update_sync_status("Connected".to_string(), Some(true));
    assert!(c.maybe_auto_resume().is_none());
    assert!(c.saved_session.is_some());
}

#[test]
fn invalid_token_error_forgets_the_session() {
    let mut c = Controller::new(Some(session()), "Bea".to_string());
    let out = c.handle_server_message(Message::Error { message: "Session token invalid or expired".to_string() }, 0);
    assert!(matches!(out.as_slice(), [Effect::ForgetSession]));
    assert!(c.saved_session.is_none());
    let mut d = Controller::new(Some(session()), "Bea".to_string());
    let out = d.handle_server_message(Message::Error { message: "Passcode required".to_string() }, 0);
    assert!(out.is_empty());
    assert!(d.saved_session.is_some());
    assert_eq!(d.error_message.as_deref(), Some("Passcode required"));
}

#[test]
fn joining_persists_the_session_and_loss_keeps_it() {
    let mut c = Controller::new(None, "Bea".to_string());
    let out = c.handle_server_message(
        Message::RoomJoined {
            room_id: "123-456".to_string(),
            client_id: 9,
            is_host: false,
            passcode_enabled: false,
            file_hash: "H".to_string(),
            resume_token: "T".to_string(),
            capacity: 4,
            display_name: "Bea".to_string(),
        },
        0,
    );
    assert!(c.in_room && !c.is_host);
    assert!(out.iter().any(|e| matches!(e, Effect::Persist(s) if s.resume_token == "T" && !s.is_host)));
    c.handle_connection_loss();
    assert!(!c.in_room && c.current_room_id.is_none() && c.member_roster.is_empty());
    assert_eq!(c.saved_session.as_ref().map(|s| s.resume_token.clone()), Some("T".to_string()));
    let left = c.handle_server_message(Message::RoomLeft, 0);
    assert!(matches!(left.as_slice(), [Effect::RoomCleared, Effect::ForgetSession]));
    assert!(c.saved_session.is_none());
}

#[test]
fn requests_wait_for_the_connection() {
    let mut c = Controller::new(None, "Bea".to_string());
    c.video_hash = Some("H".to_string());
    c.room_id_input = " 123-456 ".to_string();
    assert!(c.create_room().is_none());
    assert!(c.error_message.is_some());
    assert!(c.join_room().is_none());
    c.update_sync_status("ok".to_string(), Some(true));
    assert!(matches!(c.join_room(), Some(Message::JoinRoom { ref room_id, .. }) if room_id == "123-456"));
    c.room_id_input = "12-3456".to_string();
    assert!(c.join_room().is_none());
    c.create_passcode_input = "  pw ".to_string();
    assert!(matches!(c.create_room(), Some(Message::CreateRoom { passcode: Some(ref p), capacity: Some(12), .. }) if p == "pw"));
}

#[test]
fn local_intents_are_broadcast_only_in_a_room() {
    let mut c = Controller::new(None, "Bea".to_string());
    assert!(c.seek(5_000, Ok(())).is_none());
    c.in_room = true;
    c.position_ms = 3_000;
    assert!(matches!(c.toggle_play(Ok(())), Some(Message::SyncCommand(SyncCommand::Play { position_ms: 3_000 }))));
    assert!(matches!(c.seek(5_000, Ok(())), Some(Message::SyncCommand(SyncCommand::Seek { position_ms: 5_000 }))));
    assert!(c.set_speed(1250, Err("no player".to_string())).is_none());
    assert!(c.error_message.is_some());
    c.set_volume(Ok(()));
    c.sync_enabled = false;
    assert!(c.toggle_play(Ok(())).is_none());
}

#[test]
fn hash_mismatch_message_shows_a_short_prefix() {
    let mut c = Controller::new(None, "Bea".to_string());
    c.handle_server_message(Message::FileHashMismatch { expected: "0123456789abcdef0123".to_string() }, 0);
    assert_eq!(c.error_message.as_deref(), Some("File mismatch! Expected hash: 0123456789abcdef"));
    c.handle_server_message(Message::FileHashMismatch { expected: "ab".to_string() }, 0);
    assert_eq!(c.error_message.as_deref(), Some("File mismatch! Expected hash: ab"));
}

#[test]
fn invites_fill_the_join_fields() {
    let mut c = Controller::new(None, "Bea".to_string());
    c.process_invite_signal(hang::invite::InviteSignal { url: "hang://join?room=123456&code=pw".to_string() });
    assert_eq!(c.room_id_input, "123-456");
    assert_eq!(c.join_passcode_input, "pw");
    assert!(c.pending_invite.is_some());
    c.process_invite_signal(hang::invite::InviteSignal { url: "hang://join?code=x".to_string() });
    assert_eq!(c.error_message.as_deref(), Some("Invalid invite link"));
    assert_eq!(c.room_id_input, "123-456");
}

#[test]
fn manual_reconnect_marks_the_connection_down() {
    let mut c = Controller::new(None, "Bea".to_string());
    c.update_sync_status("up".to_string(), Some(true));
    c.request_manual_reconnect();
    assert!(!c.sync_connected);
    assert_eq!(c.status_message, "Retrying sync connection...");
}
