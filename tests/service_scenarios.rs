use hang::service::handle_message_with_token;
use hang::protocol::{Message, SyncCommand};
use hang::registry::ServerState;
use hang::service::handle_message;

const A: u128 = 0xaaaa_0000_0000_0000_0000_0000_0000_0001;
const B: u128 = 0xbbbb_0000_0000_0000_0000_0000_0000_0002;
const C: u128 = 0xcccc_0000_0000_0000_0000_0000_0000_0003;

fn create(state: &mut ServerState, who: u128, hash: &str, passcode: Option<&str>, capacity: Option<usize>) -> (String, String) {
    let out = handle_message(
        state,
        who,
        Message::CreateRoom {
            file_hash: hash.to_string(),
            passcode: passcode.map(|p| p.to_string()),
            display_name: None,
            capacity,
        },
    );
    match &out[0] {
        (to, Message::RoomCreated { room_id, resume_token, .. }) => {
            assert_eq!(*to, who);
            (room_id.clone(), resume_token.clone())
        }
        other => panic!("unexpected reply {:?}", other),
    }
}

fn join(state: &mut ServerState, who: u128, room: &str, hash: &str, passcode: Option<&str>) -> Vec<(u128, Message)> {
    handle_message(
        state,
        who,
        Message::JoinRoom {
            room_id: room.to_string(),
            file_hash: hash.to_string(),
            passcode: passcode.map(|p| p.to_string()),
            display_name: None,
        },
    )
}

fn connected(ids: &[u128]) -> ServerState {
    let mut state = ServerState::new();
    for id in ids {
        state.add_client(*id);
    }
    state
}

#[test]
fn create_invite_join() {
    let mut state = connected(&[A, B]);
    let out = handle_message(
        &mut state,
        A,
        Message::CreateRoom {
            file_hash: "H".to_string(),
            passcode: Some("let-me-in".to_string()),
            display_name: Some("Ann".to_string()),
            capacity: Some(4),
        },
    );
    let (room, token) = match &out[0] {
        (to, Message::RoomCreated { room_id, passcode_enabled, capacity, resume_token, display_name, .. }) => {
            assert_eq!(*to, A);
            assert!(*passcode_enabled);
            assert_eq!(*capacity, 4);
            assert_eq!(display_name, "Ann");
            (room_id.clone(), resume_token.clone())
        }
        other => panic!("unexpected reply {:?}", other),
    };
    assert!(hang::room::is_valid_room_code(&room));
    assert!(!token.is_empty());
    let out = join(&mut state, B, &room, "H", Some("let-me-in"));
    match &out[0] {
        (to, Message::RoomJoined { is_host, capacity, .. }) => {
            assert_eq!(*to, B);
            assert!(!*is_host);
            assert_eq!(*capacity, 4);
        }
        other => panic!("unexpected reply {:?}", other),
    }
    let updates: Vec<&(u128, Message)> = out[1..].iter().collect();
    assert_eq!(updates.len(), 2);
    let recipients: Vec<u128> = updates.iter().map(|(to, _)| *to).collect();
    assert_eq!(recipients, vec![A, B]);
    for (_, msg) in updates {
        match msg {
            Message::RoomMemberUpdate { members, capacity, .. } => {
                assert_eq!(*capacity, 4);
                let ids: Vec<u128> = members.iter().map(|m| m.client_id).collect();
                assert_eq!(ids, vec![A, B]);
                assert!(members[0].is_host && !members[1].is_host);
            }
            other => panic!("unexpected update {:?}", other),
        }
    }
}

#[test]
fn hash_mismatch_is_reported_before_passcode() {
    let mut state = connected(&[A, B]);
    let (room, _) = create(&mut state, A, "H1", Some("secret"), None);
    let out = join(&mut state, B, &room, "H2", None);
    assert_eq!(out.len(), 1);
    match &out[0] {
        (to, Message::FileHashMismatch { expected }) => {
            assert_eq!(*to, B);
            assert_eq!(expected, "H1");
        }
        other => panic!("unexpected reply {:?}", other),
    }
    assert_eq!(state.get_room_members(&room), vec![A]);
    let wrong = join(&mut state, B, &room, "H2", Some("wrong"));
    assert!(matches!(wrong[0].1, Message::FileHashMismatch { .. }));
}

#[test]
fn passcode_is_required_and_checked() {
    let mut state = connected(&[A, B]);
    let (room, _) = create(&mut state, A, "H", Some("secret"), None);
    let missing = join(&mut state, B, &room, "H", None);
    assert!(matches!(&missing[0].1, Message::Error { message } if message == "Passcode required"));
    let wrong = join(&mut state, B, &room, "H", Some("guess"));
    assert!(matches!(&wrong[0].1, Message::Error { message } if message == "Invalid passcode"));
    let right = join(&mut state, B, &room, "H", Some("secret"));
    assert!(matches!(right[0].1, Message::RoomJoined { .. }));
}

#[test]
fn third_join_on_capacity_two_is_room_full() {
    let mut state = connected(&[A, B, C]);
    let (room, _) = create(&mut state, A, "H", None, Some(2));
    assert!(matches!(join(&mut state, B, &room, "H", None)[0].1, Message::RoomJoined { .. }));
    let out = join(&mut state, C, &room, "H", None);
    assert_eq!(out.len(), 1);
    assert!(matches!(out[0], (C, Message::RoomFull { capacity: 2 })));
    assert_eq!(state.get_room_members(&room), vec![A, B]);
}

#[test]
fn rejoin_is_idempotent() {
    let mut state = connected(&[A, B]);
    let (room, _) = create(&mut state, A, "H", None, Some(2));
    join(&mut state, B, &room, "H", None);
    let again = join(&mut state, B, &room, "H", None);
    assert!(matches!(again[0].1, Message::RoomJoined { .. }));
    assert_eq!(again.len(), 3);
    assert_eq!(state.get_room_members(&room), vec![A, B]);
    let host_again = join(&mut state, A, &room, "H", None);
    assert!(matches!(host_again[0].1, Message::RoomJoined { is_host: true, .. }));
}

#[test]
fn resume_keeps_host_continuity() {
    let mut state = connected(&[A, B]);
    let (room, token) = create(&mut state, A, "H", None, None);
    join(&mut state, B, &room, "H", None);
    state.remove_client(A);
    let a2: u128 = 0xaaaa_2222_0000_0000_0000_0000_0000_0000;
    state.add_client(a2);
    let out = handle_message(&mut state, a2, Message::ResumeSession { token: token.clone(), display_name: None });
    match &out[0] {
        (to, Message::RoomJoined { room_id, is_host, resume_token, .. }) => {
            assert_eq!(*to, a2);
            assert_eq!(room_id, &room);
            assert!(*is_host);
            assert_ne!(resume_token, &token);
        }
        other => panic!("unexpected reply {:?}", other),
    }
    let (roster, _) = state.room_snapshot(&room).unwrap();
    let host: Vec<u128> = roster.iter().filter(|m| m.is_host).map(|m| m.client_id).collect();
    assert_eq!(host, vec![a2]);
    let again = handle_message(&mut state, C, Message::ResumeSession { token, display_name: None });
    assert!(matches!(&again[0].1, Message::Error { message } if message.contains("Session token invalid")));
}

#[test]
fn empty_room_is_collected() {
    let mut state = connected(&[A, B]);
    let (room, token) = create(&mut state, A, "H", None, None);
    let out = handle_message(&mut state, A, Message::LeaveRoom);
    assert!(matches!(out.last(), Some((A, Message::RoomLeft))));
    assert!(matches!(join(&mut state, B, &room, "H", None)[0].1, Message::RoomNotFound));
    let resumed = handle_message(&mut state, B, Message::ResumeSession { token, display_name: None });
    assert!(matches!(&resumed[0].1, Message::Error { message } if message.contains("Session token invalid")));
}

#[test]
fn sync_commands_fan_out_to_every_member_in_order() {
    let mut state = connected(&[A, B, C]);
    let (room, _) = create(&mut state, A, "H", None, None);
    join(&mut state, B, &room, "H", None);
    let cmd = SyncCommand::Play { position_ms: 42_000 };
    let out = handle_message(&mut state, B, Message::SyncCommand(cmd));
    let recipients: Vec<u128> = out.iter().map(|(to, _)| *to).collect();
    assert_eq!(recipients, vec![A, B]);
    for (_, msg) in &out {
        assert!(matches!(msg, Message::SyncBroadcast { from_client: B, command } if *command == cmd));
    }
    assert!(handle_message(&mut state, C, Message::SyncCommand(SyncCommand::Stop)).is_empty());
}

#[test]
fn new_token_replaces_the_old_one() {
    let mut state = connected(&[A]);
    let (room, first) = create(&mut state, A, "H", None, None);
    let second = state.remember_session(A, &room, "H", true).unwrap();
    assert_ne!(first, second);
    let dead = handle_message(&mut state, A, Message::ResumeSession { token: first, display_name: None });
    assert!(matches!(dead[0].1, Message::Error { .. }));
}

#[test]
fn joining_elsewhere_leaves_the_old_room() {
    let mut state = connected(&[A, B, C]);
    let (first, _) = create(&mut state, A, "H", None, None);
    join(&mut state, B, &first, "H", None);
    let (second, _) = create(&mut state, C, "H", None, None);
    let out = join(&mut state, B, &second, "H", None);
    assert!(matches!(out[0].1, Message::RoomJoined { .. }));
    assert_eq!(state.get_room_members(&first), vec![A]);
    assert_eq!(state.get_room_members(&second), vec![C, B]);
    assert_eq!(state.room_of_client(B), Some(second));
    assert!(out.iter().any(|(to, m)| *to == A && matches!(m, Message::RoomMemberUpdate { .. })));
}

#[test]
fn join_with_unknown_room_is_not_found() {
    let mut state = connected(&[A]);
    let out = join(&mut state, A, "000-000", "H", None);
    assert_eq!(out.len(), 1);
    assert!(matches!(out[0], (A, Message::RoomNotFound)));
    assert_eq!(state.room_capacity("000-000"), 12);
}

#[test]
fn install_token_issues_exactly_the_drawn_token() {
    let mut state = connected(&[A, B]);
    let (room, first) = create(&mut state, A, "H", None, None);
    assert_eq!(state.install_token(B, &room, "H", false, first.clone(), ""), None);
    assert_eq!(state.install_token(A, &room, "H", true, "spent".to_string(), "spent"), None);
    let second = state.install_token(A, &room, "H", true, "fresh-token".to_string(), "");
    assert_eq!(second.as_deref(), Some("fresh-token"));
    let dead = handle_message(&mut state, B, Message::ResumeSession { token: first, display_name: None });
    assert!(matches!(&dead[0].1, Message::Error { message } if message.contains("Session token invalid")));
}

#[test]
fn redeem_token_uses_the_drawn_token() {
    let mut state = connected(&[A, B]);
    let (room, token) = create(&mut state, A, "H", None, None);
    join(&mut state, B, &room, "H", None);
    let refused = state.redeem_token(C, &token, None, token.clone());
    assert_eq!(refused.err(), Some(hang::registry::ResumeError::TokenUnavailable));
    assert_eq!(
        state.redeem_token(C, &token, None, "other".to_string()).err(),
        Some(hang::registry::ResumeError::TokenInvalid)
    );
    let (_, token) = create(&mut state, A, "H", None, None);
    let out = state.redeem_token(C, &token, Some("Cy".to_string()), "next-token".to_string()).ok().unwrap();
    assert_eq!(out.resume_token, "next-token");
    assert!(out.was_host);
    assert_eq!(out.display_name, "Cy");
}

#[test]
fn replies_carry_the_drawn_token() {
    let mut state = connected(&[A, B]);
    let out = handle_message_with_token(
        &mut state,
        A,
        Message::CreateRoom { file_hash: "H".to_string(), passcode: None, display_name: None, capacity: Some(3) },
        "tok-a".to_string(),
    );
    let room = match &out[0].1 {
        Message::RoomCreated { room_id, resume_token, capacity, passcode_enabled, .. } => {
            assert_eq!(resume_token, "tok-a");
            assert_eq!(*capacity, 3);
            assert!(!*passcode_enabled);
            room_id.clone()
        }
        other => panic!("unexpected reply {:?}", other),
    };
    let clash = handle_message_with_token(
        &mut state,
        B,
        Message::JoinRoom { room_id: room.clone(), file_hash: "H".to_string(), passcode: None, display_name: None },
        "tok-a".to_string(),
    );
    assert_eq!(clash.len(), 1);
    assert!(matches!(clash[0].1, Message::Error { .. }));
    assert_eq!(state.get_room_members(&room), vec![A]);
    let ok = handle_message_with_token(
        &mut state,
        B,
        Message::JoinRoom { room_id: room.clone(), file_hash: "H".to_string(), passcode: None, display_name: None },
        "tok-b".to_string(),
    );
    assert!(matches!(&ok[0].1, Message::RoomJoined { resume_token, is_host: false, .. } if resume_token == "tok-b"));
    match &ok[1].1 {
        Message::RoomMemberUpdate { members, capacity, room_id } => {
            assert_eq!(room_id, &room);
            assert_eq!(*capacity, 3);
            assert_eq!(members.len(), 2);
        }
        other => panic!("unexpected update {:?}", other),
    }
}
