//! The service's reaction to one inbound message: the change to its state
//! and the frames to send, each addressed to one client.
//!
//! Frames for one recipient are to be sent in the order they are listed;
//! with one queue per connection, every recipient then sees broadcasts in
//! the order the service handled the frames that caused them.
use vstd::prelude::*;
use crate::protocol::{Message, SyncCommand};
use crate::digest::passcode_digest;
use crate::registry::{JoinCheck, JoinError, MemberSummary, ResumeError, Room, ServerState};
use crate::room::{code_text, is_room_code, normalized_capacity, CODE_SPACE};

verus! {

/// A frame and the client it goes to.
pub type Outbound = (u128, Message);

/// `out` sends `cmd` from `from` once to each of `members`, in order.
pub open spec fn fans_out(out: Seq<Outbound>, members: Seq<u128>, from: u128, cmd: SyncCommand) -> bool {
    &&& out.len() == members.len()
    &&& forall|i: int|
        0 <= i < out.len() ==> (#[trigger] out[i]).0 == members[i] && out[i].1 == (Message::SyncBroadcast {
            from_client: from,
            command: cmd,
        })
}

/// `roster` lists the members of `room` in order, each marked host or not.
pub open spec fn lists_room(roster: Seq<MemberSummary>, room: Room) -> bool {
    &&& roster.len() == room.members@.len()
    &&& forall|i: int|
        0 <= i < roster.len() ==> (#[trigger] roster[i]).client_id == room.members@[i] && roster[i].is_host
            == (room.members@[i] == room.host_id)
}

/// `out` sends each member of `room`, in order, the update with the room's
/// code `code`, its full roster and its capacity.
pub open spec fn roster_to_all(out: Seq<Outbound>, code: Seq<char>, room: Room) -> bool {
    &&& out.len() == room.members@.len()
    &&& forall|i: int|
        0 <= i < out.len() ==> (#[trigger] out[i]).0 == room.members@[i] && (out[i].1 matches Message::RoomMemberUpdate {
            room_id,
            members,
            capacity,
        } && room_id@ == code && capacity == room.capacity && lists_room(members@, room))
}

/// A copy of a roster.
fn copy_roster(v: &Vec<MemberSummary>) -> (r: Vec<MemberSummary>)
    ensures
        r@ == v@,
{
    let mut out: Vec<MemberSummary> = Vec::new();
    let mut i: usize = 0;
    while i < v.len()
        invariant
            i <= v@.len(),
            out@ == v@.subrange(0, i as int),
        decreases v@.len() - i,
    {
        let m = &v[i];
        out.push(MemberSummary { client_id: m.client_id, display_name: m.display_name.clone(), is_host: m.is_host });
        i = i + 1;
        assert(out@ =~= v@.subrange(0, i as int));
    }
    assert(v@.subrange(0, v@.len() as int) =~= v@);
    out
}

/// A `SyncBroadcast` of `command` from `from` to every member of the
/// sender's room, the sender included; nothing when the sender is in no
/// room.
pub fn broadcast_to_room(state: &ServerState, room_id: &str, from_client: u128, command: SyncCommand) -> (r: Vec<Outbound>)
    ensures
        state.rooms_view().contains_key(room_id@) ==> fans_out(
            r@,
            state.rooms_view()[room_id@].members@,
            from_client,
            command,
        ),
        !state.rooms_view().contains_key(room_id@) ==> r@.len() == 0,
{
    let members = state.get_room_members(room_id);
    let mut out: Vec<Outbound> = Vec::new();
    let mut i: usize = 0;
    while i < members.len()
        invariant
            i <= members@.len(),
            out@.len() == i,
            forall|j: int|
                0 <= j < i ==> (#[trigger] out@[j]).0 == members@[j] && out@[j].1 == (Message::SyncBroadcast {
                    from_client,
                    command,
                }),
        decreases members@.len() - i,
    {
        out.push((members[i], Message::SyncBroadcast { from_client, command }));
        i = i + 1;
    }
    out
}

/// A `RoomMemberUpdate` with the full roster and capacity of `room_id` to
/// each of its members; nothing for an unknown room.
pub fn broadcast_room_state(state: &ServerState, room_id: &str) -> (r: Vec<Outbound>)
    ensures
        state.rooms_view().contains_key(room_id@) ==> roster_to_all(
            r@,
            room_id@,
            state.rooms_view()[room_id@],
        ),
        !state.rooms_view().contains_key(room_id@) ==> r@.len() == 0,
{
    let (roster, capacity) = match state.room_snapshot(room_id) {
        Some(snap) => snap,
        None => return Vec::new(),
    };
    let mut out: Vec<Outbound> = Vec::new();
    let mut i: usize = 0;
    while i < roster.len()
        invariant
            i <= roster@.len(),
            state.rooms_view().contains_key(room_id@),
            lists_room(roster@, state.rooms_view()[room_id@]),
            capacity == state.rooms_view()[room_id@].capacity,
            out@.len() == i,
            forall|j: int| 0 <= j < i ==> (#[trigger] out@[j]).0 == roster@[j].client_id && (out@[j].1 matches Message::RoomMemberUpdate {
                room_id: rid,
                members,
                capacity: cap,
            } && rid@ == room_id@ && cap == capacity && members@ == roster@),
        decreases roster@.len() - i,
    {
        let update = Message::RoomMemberUpdate {
            room_id: room_id.to_owned(),
            members: copy_roster(&roster),
            capacity,
        };
        out.push((roster[i].client_id, update));
        i = i + 1;
    }
    out
}

/// Appends the frames of `more` to `out`.
fn append_all(out: &mut Vec<Outbound>, more: Vec<Outbound>)
    ensures
        final(out)@ == old(out)@ + more@,
{
    let mut more = more;
    out.append(&mut more);
}

/// Roster updates for the room a client left on its way elsewhere.
fn left_elsewhere(state: &ServerState, previous: Option<String>, now_in: &str) -> (r: Vec<Outbound>)
    ensures
        previous is None ==> r@.len() == 0,
        previous is Some && previous->0@ == now_in@ ==> r@.len() == 0,
{
    match previous {
        Some(code) => if code.eq(&now_in.to_owned()) {
            Vec::new()
        } else {
            broadcast_room_state(state, code.as_str())
        },
        None => Vec::new(),
    }
}

/// The reply the joining client gets for a refusal.
pub open spec fn refusal_reply(e: JoinError, reply: Message) -> bool {
    match e {
        JoinError::RoomNotFound => reply is RoomNotFound,
        JoinError::FileHashMismatch { expected } => reply is FileHashMismatch && reply->expected@ == expected@,
        JoinError::RoomFull { capacity } => reply == (Message::RoomFull { capacity }),
        JoinError::PasscodeRequired => reply matches Message::Error { message } && message@
            == "Passcode required"@,
        JoinError::InvalidPasscode => reply matches Message::Error { message } && message@
            == "Invalid passcode"@,
    }
}

fn refusal_message(e: JoinError) -> (r: Message)
    ensures
        refusal_reply(e, r),
{
    match e {
        JoinError::RoomNotFound => Message::RoomNotFound,
        JoinError::FileHashMismatch { expected } => Message::FileHashMismatch { expected },
        JoinError::RoomFull { capacity } => Message::RoomFull { capacity },
        JoinError::PasscodeRequired => Message::Error { message: e.message() },
        JoinError::InvalidPasscode => Message::Error { message: e.message() },
    }
}

/// What handling `msg` from `c` did, going from `before` to `after` and
/// sending `out`, when `drawn` was the token drawn for a new session.
///
/// Creating, joining and resuming reply to the sender first and then send
/// the room's roster to all its members (and to the members of a room the
/// sender left on the way); the new session's token is `drawn`, and when it
/// cannot be issued the sender gets an error instead. A refused join is
/// answered to the sender alone. Leaving sends the roster to those who stay
/// and then `RoomLeft` to the sender, whose token is dropped. A sync command
/// goes to every member of the sender's room, the sender included. Other
/// frames are ignored.
pub open spec fn handled(
    before: ServerState,
    after: ServerState,
    c: u128,
    msg: Message,
    drawn: Seq<char>,
    out: Seq<Outbound>,
) -> bool {
    match msg {
        Message::SyncCommand(cmd) => {
            &&& after == before
            &&& match before.client_room(c) {
                Some(code) => fans_out(out, before.rooms_view()[code].members@, c, cmd),
                None => out.len() == 0,
            }
        },
        Message::JoinRoom { room_id, file_hash, passcode, display_name } => {
            let check = before.join_check(c, room_id@, file_hash@, match passcode {
                Some(p) => Some(p@),
                None => None,
            });
            let room = before.rooms_view()[room_id@];
            &&& out.len() >= 1
            &&& out[0].0 == c
            &&& !before.usable(drawn, Seq::empty()) ==> out.len() == 1 && out[0].1 is Error && after
                == before
            &&& before.usable(drawn, Seq::empty()) ==> {
                &&& (check == JoinCheck::Admit <==> out[0].1 is RoomJoined)
                &&& check == JoinCheck::NotFound ==> out[0].1 is RoomNotFound
                &&& check == JoinCheck::HashMismatch ==> (out[0].1 matches Message::FileHashMismatch {
                    expected,
                } && expected@ == room.file_hash@)
                &&& check == JoinCheck::Full ==> out[0].1 == (Message::RoomFull { capacity: room.capacity })
                &&& check == JoinCheck::PasscodeMissing ==> (out[0].1 matches Message::Error { message }
                    && message@ == "Passcode required"@)
                &&& check == JoinCheck::PasscodeWrong ==> (out[0].1 matches Message::Error { message }
                    && message@ == "Invalid passcode"@)
                &&& check != JoinCheck::Admit ==> out.len() == 1 && after.rooms_view() == before.rooms_view()
                    && after.clients_view() == before.clients_view() && after.tokens_view()
                    == before.tokens_view()
                &&& check == JoinCheck::Admit ==> {
                    &&& after.client_room(c) == Some(room_id@)
                    &&& after.rooms_view()[room_id@].members@ == (if room.members@.contains(c) {
                        room.members@
                    } else {
                        room.members@.push(c)
                    })
                    &&& after.rooms_view()[room_id@].host_id == room.host_id
                    &&& after.rooms_view()[room_id@].capacity == room.capacity
                    &&& (out[0].1 matches Message::RoomJoined {
                        room_id: rid,
                        client_id: cid,
                        is_host,
                        passcode_enabled,
                        file_hash: fh,
                        resume_token,
                        capacity,
                        ..
                    } && rid@ == room_id@ && cid == c && is_host == (room.host_id == c)
                        && passcode_enabled == room.passcode_hash is Some && fh@ == room.file_hash@
                        && resume_token@ == drawn && capacity == room.capacity)
                    &&& (before.client_room(c) is None || before.client_room(c) == Some(room_id@))
                        ==> roster_to_all(out.subrange(1, out.len() as int), room_id@, after.rooms_view()[room_id@])
                }
            }
        },
        Message::CreateRoom { file_hash, passcode, capacity, .. } => {
            &&& out.len() >= 1
            &&& out[0].0 == c
            &&& !before.usable(drawn, Seq::empty()) ==> out.len() == 1 && out[0].1 is Error && after
                == before
            &&& before.usable(drawn, Seq::empty()) ==> {
                &&& out[0].1 is RoomCreated || out[0].1 is Error
                &&& out[0].1 is Error ==> out.len() == 1 && forall|n: int|
                    0 <= n < CODE_SPACE ==> #[trigger] after.rooms_view().contains_key(code_text(n))
                &&& out[0].1 is Error && before.client_room(c) is None ==> after == before
                &&& (out[0].1 matches Message::RoomCreated {
                    room_id,
                    client_id: cid,
                    passcode_enabled,
                    file_hash: fh,
                    resume_token,
                    capacity: cap,
                    ..
                } ==> {
                    let room = after.rooms_view()[room_id@];
                    &&& cid == c
                    &&& is_room_code(room_id@)
                    &&& !before.rooms_view().contains_key(room_id@) || before.client_room(c) == Some(room_id@)
                    &&& after.client_room(c) == Some(room_id@)
                    &&& room.members@ == seq![c]
                    &&& room.host_id == c
                    &&& room.file_hash@ == file_hash@
                    &&& fh@ == file_hash@
                    &&& cap == normalized_capacity(capacity)
                    &&& room.capacity == cap
                    &&& passcode_enabled == (passcode is Some && passcode->0@.len() > 0)
                    &&& passcode_enabled ==> room.passcode_hash is Some && room.passcode_hash->0@
                        == passcode_digest(room_id@, passcode->0@)
                    &&& resume_token@ == drawn
                    &&& after.tokens_view().contains_key(drawn) && after.tokens_view()[drawn].client_id == c
                    &&& before.client_room(c) is None ==> roster_to_all(out.subrange(1, out.len() as int), room_id@, room)
                })
            }
        },
        Message::ResumeSession { token, .. } => {
            let rec = before.tokens_view()[token@];
            let room = before.rooms_view()[rec.room_id@];
            let full = !room.members@.contains(c) && room.members@.len() >= room.capacity;
            let unusable = drawn == token@ || before.tokens_view().contains_key(drawn);
            &&& out.len() >= 1
            &&& out[0].0 == c
            &&& !after.tokens_view().contains_key(token@)
            &&& !before.tokens_view().contains_key(token@) ==> out.len() == 1 && after == before && (
            out[0].1 matches Message::Error { message } && message@ == "Session token invalid or expired"@)
            &&& before.tokens_view().contains_key(token@) && full ==> out.len() == 1 && out[0].1 == (Message::RoomFull {
                capacity: room.capacity,
            })
            &&& before.tokens_view().contains_key(token@) && !full && unusable ==> out.len() == 1
                && out[0].1 is Error
            &&& before.tokens_view().contains_key(token@) && !full && !unusable ==> {
                let new_room = after.rooms_view()[rec.room_id@];
                &&& (out[0].1 matches Message::RoomJoined {
                    room_id: rid,
                    client_id: cid,
                    is_host,
                    passcode_enabled,
                    file_hash: fh,
                    resume_token,
                    capacity,
                    ..
                } && rid@ == rec.room_id@ && cid == c && is_host == rec.was_host && passcode_enabled
                    == room.passcode_hash is Some && fh@ == rec.file_hash@ && resume_token@ == drawn
                    && capacity == room.capacity)
                &&& after.client_room(c) == Some(rec.room_id@)
                &&& new_room.members@ == (if room.members@.contains(c) {
                    room.members@
                } else {
                    room.members@.push(c)
                })
                &&& new_room.host_id == (if rec.was_host { c } else { room.host_id })
                &&& after.tokens_view().contains_key(drawn) && after.tokens_view()[drawn].client_id == c
            }
        },
        Message::LeaveRoom => {
            &&& out.len() >= 1
            &&& out[out.len() - 1] == (c, Message::RoomLeft)
            &&& after.client_room(c) is None
            &&& forall|t: Seq<char>| #[trigger] after.tokens_view().contains_key(t)
                ==> after.tokens_view()[t].client_id != c
        },
        _ => out.len() == 0 && after == before,
    }
}

/// Handles one message from `client_id` and lists the frames to send; a new
/// session gets the token `drawn` (see `handled`).
pub fn handle_message_with_token(state: &mut ServerState, client_id: u128, msg: Message, drawn: String) -> (r: Vec<Outbound>)
    requires
        old(state).wf(),
    ensures
        final(state).wf(),
        handled(*old(state), *final(state), client_id, msg, drawn@, r@),
{
    proof {
        reveal_strlit("");
        assert(""@ =~= Seq::<char>::empty());
    }
    match msg {
        Message::CreateRoom { file_hash, passcode, display_name, capacity } => {
            if !state.token_usable(drawn.as_str(), "") {
                return unissued(client_id);
            }
            let previous = state.room_of_client(client_id);
            let canonical = file_hash.clone();
            match state.create_room(client_id, file_hash, passcode, display_name, capacity) {
                Some((room_id, passcode_enabled, room_capacity, resolved_name)) => {
                    let resume_token = state.install_token(
                        client_id,
                        room_id.as_str(),
                        canonical.as_str(),
                        true,
                        drawn,
                        "",
                    ).unwrap();
                    let mut out: Vec<Outbound> = Vec::new();
                    out.push(
                        (
                            client_id,
                            Message::RoomCreated {
                                room_id: room_id.clone(),
                                client_id,
                                passcode_enabled,
                                file_hash: canonical,
                                resume_token,
                                capacity: room_capacity,
                                display_name: resolved_name,
                            },
                        ),
                    );
                    append_all(&mut out, left_elsewhere(state, previous, room_id.as_str()));
                    append_all(&mut out, broadcast_room_state(state, room_id.as_str()));
                    out
                },
                None => {
                    let mut out: Vec<Outbound> = Vec::new();
                    out.push(
                        (client_id, Message::Error { message: String::from_str("No room code is free") }),
                    );
                    out
                },
            }
        },
        Message::JoinRoom { room_id, file_hash, passcode, display_name } => {
            if !state.token_usable(drawn.as_str(), "") {
                return unissued(client_id);
            }
            let previous = state.room_of_client(client_id);
            match state.join_room(client_id, room_id.as_str(), file_hash.as_str(), passcode, display_name) {
                Ok((is_host, canonical_hash, room_capacity, resolved_name)) => {
                    let resume_token = state.install_token(
                        client_id,
                        room_id.as_str(),
                        canonical_hash.as_str(),
                        is_host,
                        drawn,
                        "",
                    ).unwrap();
                    let passcode_enabled = state.room_has_passcode(room_id.as_str());
                    let mut out: Vec<Outbound> = Vec::new();
                    out.push(
                        (
                            client_id,
                            Message::RoomJoined {
                                room_id: room_id.clone(),
                                client_id,
                                is_host,
                                passcode_enabled,
                                file_hash: canonical_hash,
                                resume_token,
                                capacity: room_capacity,
                                display_name: resolved_name,
                            },
                        ),
                    );
                    append_all(&mut out, left_elsewhere(state, previous, room_id.as_str()));
                    append_all(&mut out, broadcast_room_state(state, room_id.as_str()));
                    out
                },
                Err(e) => {
                    let mut out: Vec<Outbound> = Vec::new();
                    out.push((client_id, refusal_message(e)));
                    out
                },
            }
        },
        Message::ResumeSession { token, display_name } => {
            let previous = state.room_of_client(client_id);
            match state.redeem_token(client_id, token.as_str(), display_name, drawn) {
                Ok(outcome) => {
                    let mut out: Vec<Outbound> = Vec::new();
                    let room_id = outcome.room_id.clone();
                    out.push(
                        (
                            client_id,
                            Message::RoomJoined {
                                room_id: outcome.room_id,
                                client_id,
                                is_host: outcome.was_host,
                                passcode_enabled: outcome.passcode_enabled,
                                file_hash: outcome.file_hash,
                                resume_token: outcome.resume_token,
                                capacity: outcome.capacity,
                                display_name: outcome.display_name,
                            },
                        ),
                    );
                    append_all(&mut out, left_elsewhere(state, previous, room_id.as_str()));
                    append_all(&mut out, broadcast_room_state(state, room_id.as_str()));
                    out
                },
                Err(e) => {
                    let reply = match e {
                        ResumeError::RoomFull { capacity } => Message::RoomFull { capacity },
                        _ => Message::Error { message: e.message() },
                    };
                    let mut out: Vec<Outbound> = Vec::new();
                    out.push((client_id, reply));
                    out
                },
            }
        },
        Message::LeaveRoom => {
            let mut out: Vec<Outbound> = Vec::new();
            match state.leave_room(client_id) {
                Some(room_id) => {
                    append_all(&mut out, broadcast_room_state(state, room_id.as_str()));
                },
                None => {},
            }
            state.clear_session(client_id);
            out.push((client_id, Message::RoomLeft));
            out
        },
        Message::SyncCommand(command) => match state.room_of_client(client_id) {
            Some(room_id) => broadcast_to_room(state, room_id.as_str(), client_id, command),
            None => Vec::new(),
        },
        _ => Vec::new(),
    }
}

/// The reply when no token could be issued for a new session.
fn unissued(client_id: u128) -> (r: Vec<Outbound>)
    ensures
        r@.len() == 1,
        r@[0].0 == client_id,
        r@[0].1 is Error,
{
    let mut out: Vec<Outbound> = Vec::new();
    out.push((client_id, Message::Error { message: String::from_str("Could not issue a session token") }));
    out
}

/// Handles one message from `client_id` and lists the frames to send,
/// drawing a random token for a new session (see `handled`, which holds for
/// the token drawn).
pub fn handle_message(state: &mut ServerState, client_id: u128, msg: Message) -> (r: Vec<Outbound>)
    requires
        old(state).wf(),
    ensures
        final(state).wf(),
        exists|drawn: Seq<char>| handled(*old(state), *final(state), client_id, msg, drawn, r@),
{
    let drawn = match &msg {
        Message::ResumeSession { token, .. } => state.draw_token(token.as_str()),
        _ => state.draw_token(""),
    };
    let out = handle_message_with_token(state, client_id, msg, drawn);
    assert(handled(*old(state), *state, client_id, msg, drawn@, out@));
    out
}

} // verus!
