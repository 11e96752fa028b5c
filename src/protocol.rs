//! The messages exchanged between clients and the service.
//!
//! Times are whole milliseconds and playback rates thousandths, so that
//! commands compare exactly; the JSON frames carry seconds and rates as
//! numbers, and the transport converts.
use vstd::prelude::*;
use crate::registry::MemberSummary;

verus! {

/// A playback intent, broadcast between the members of a room.
#[derive(PartialEq, Eq, Structural, Clone, Copy, Debug)]
pub enum SyncCommand {
    /// Seek to the position, then play.
    Play { position_ms: u64 },
    /// Seek to the position, then pause.
    Pause { position_ms: u64 },
    /// Seek to the position only.
    Seek { position_ms: u64 },
    /// Play at this rate, in thousandths (1000 is normal speed).
    Speed { rate_milli: u32 },
    Stop,
}

/// One frame of the protocol, in either direction.
#[derive(Clone, Debug)]
pub enum Message {
    // Client to service.
    CreateRoom {
        file_hash: String,
        passcode: Option<String>,
        display_name: Option<String>,
        capacity: Option<usize>,
    },
    JoinRoom {
        room_id: String,
        file_hash: String,
        passcode: Option<String>,
        display_name: Option<String>,
    },
    ResumeSession { token: String, display_name: Option<String> },
    LeaveRoom,
    SyncCommand(SyncCommand),
    // Service to client.
    RoomCreated {
        room_id: String,
        client_id: u128,
        passcode_enabled: bool,
        file_hash: String,
        resume_token: String,
        capacity: usize,
        display_name: String,
    },
    RoomJoined {
        room_id: String,
        client_id: u128,
        is_host: bool,
        passcode_enabled: bool,
        file_hash: String,
        resume_token: String,
        capacity: usize,
        display_name: String,
    },
    RoomLeft,
    RoomNotFound,
    RoomFull { capacity: usize },
    FileHashMismatch { expected: String },
    SyncBroadcast { from_client: u128, command: SyncCommand },
    RoomMemberUpdate { room_id: String, members: Vec<MemberSummary>, capacity: usize },
    Error { message: String },
}

} // verus!
