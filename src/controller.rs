//! The client's playback controller: it mirrors the room it is in, turns
//! local intents into sync commands, applies remote commands under an
//! echo-suppression window, and keeps the persisted session for resuming.
//!
//! It performs no I/O. Each event returns what is to be done: frames to
//! send, player operations, and changes to the persisted session.
use vstd::prelude::*;
use crate::invite::{opt_view, parse_invite_url, parsed_invite, InviteLink, InviteSignal};
use crate::names::{normalize_passcode, normalized_passcode, sanitize_display_name, sanitized_name};
use crate::protocol::{Message, SyncCommand};
use crate::registry::MemberSummary;
use crate::room::{is_valid_room_code, room_code_input, sanitize_room_code_input, DEFAULT_CAPACITY};
use crate::text::{chars_of, contains_text, occurs_in, push_str, string_of, trim};

verus! {

/// Remote commands closer together than this many milliseconds are dropped.
pub const ECHO_WINDOW_MS: u64 = 100;

/// The session kept across restarts.
#[derive(Clone, Debug)]
pub struct PersistedSession {
    pub room_id: String,
    pub resume_token: String,
    pub file_hash: String,
    pub is_host: bool,
}

/// An operation on the media player.
#[derive(PartialEq, Eq, Structural, Clone, Copy, Debug)]
pub enum PlayerAction {
    Seek { position_ms: u64 },
    Play,
    Pause,
    SetRate { rate_milli: u32 },
    Stop,
}

/// What the surrounding program is to do after an event.
#[derive(Clone, Debug)]
pub enum Effect {
    /// Store this session on disk.
    Persist(PersistedSession),
    /// Remove the stored session.
    ForgetSession,
    /// Operate the player.
    Player(PlayerAction),
    /// Tell the sync client which room it is in now.
    RoomJoined { room_id: String, client_id: u128, is_host: bool },
    /// Tell the sync client it is in no room.
    RoomCleared,
}

/// The player operations that apply `cmd`.
pub open spec fn actions_for(cmd: SyncCommand) -> Seq<PlayerAction> {
    match cmd {
        SyncCommand::Play { position_ms } => seq![PlayerAction::Seek { position_ms }, PlayerAction::Play],
        SyncCommand::Pause { position_ms } => seq![
            PlayerAction::Seek { position_ms },
            PlayerAction::Pause,
        ],
        SyncCommand::Seek { position_ms } => seq![PlayerAction::Seek { position_ms }],
        SyncCommand::Speed { rate_milli } => seq![PlayerAction::SetRate { rate_milli }],
        SyncCommand::Stop => seq![PlayerAction::Stop],
    }
}

/// A remote command arriving at `now_ms` is dropped when the last one was
/// applied less than the echo window before.
pub open spec fn suppressed(last_applied_ms: Option<u64>, now_ms: u64) -> bool {
    match last_applied_ms {
        Some(t) => now_ms < t + ECHO_WINDOW_MS,
        None => false,
    }
}

/// Text of an error frame that says the resume token is no longer valid.
pub open spec fn names_session_token(message: Seq<char>) -> bool {
    occurs_in(message, seq!['S', 'e', 's', 's', 'i', 'o', 'n', ' ', 't', 'o', 'k', 'e', 'n'])
}

/// What entering a room (created or joined) sets in the controller: the
/// service's name for the user, the room's capacity and passcode flag, a
/// fresh automatic-resume allowance; the sync switches and the echo window
/// stay.
pub open spec fn entered(
    before: Controller,
    after: Controller,
    capacity: usize,
    display_name: String,
    passcode_enabled: bool,
) -> bool {
    &&& after.display_name_input == display_name
    &&& after.room_capacity_limit == Some(capacity)
    &&& after.room_has_passcode == passcode_enabled
    &&& !after.auto_resume_attempted
    &&& !after.resume_in_progress
    &&& after.pending_room_passcode is None
    &&& after.sync_enabled == before.sync_enabled
    &&& after.sync_connected == before.sync_connected
    &&& after.last_applied_ms == before.last_applied_ms
}

/// The controller's state.
pub struct Controller {
    pub sync_enabled: bool,
    pub sync_connected: bool,
    pub in_room: bool,
    pub current_room_id: Option<String>,
    pub is_host: bool,
    pub participant_count: usize,
    pub member_roster: Vec<MemberSummary>,
    pub room_capacity_limit: Option<usize>,
    pub room_capacity_input: usize,
    pub room_has_passcode: bool,
    pub active_room_passcode: Option<String>,
    pub pending_room_passcode: Option<String>,
    pub room_id_input: String,
    pub create_passcode_input: String,
    pub join_passcode_input: String,
    pub display_name_input: String,
    pub status_message: String,
    pub error_message: Option<String>,
    pub video_hash: Option<String>,
    pub is_playing: bool,
    pub position_ms: u64,
    pub saved_session: Option<PersistedSession>,
    /// The last invite received, shown until a room is entered.
    pub pending_invite: Option<InviteLink>,
    pub auto_resume_attempted: bool,
    pub resume_in_progress: bool,
    /// When the last remote command was applied, on a monotonic clock.
    pub last_applied_ms: Option<u64>,
}

impl PersistedSession {
    /// A copy of this session.
    pub fn duplicate(&self) -> (r: PersistedSession)
        ensures
            r == *self,
    {
        PersistedSession {
            room_id: self.room_id.clone(),
            resume_token: self.resume_token.clone(),
            file_hash: self.file_hash.clone(),
            is_host: self.is_host,
        }
    }
}

fn joined(a: &str, b: &str) -> (r: String)
    ensures
        r@ == a@ + b@,
{
    let mut s = String::new();
    push_str(&mut s, a);
    push_str(&mut s, b);
    s
}

fn text(a: &str) -> (r: String)
    ensures
        r@ == a@,
{
    String::from_str(a)
}

impl Controller {
    /// A controller not yet connected, in no room, with `saved_session`
    /// loaded from disk and `display_name` as the name offered.
    pub fn new(saved_session: Option<PersistedSession>, display_name: String) -> (r: Self)
        ensures
            !r.sync_connected,
            !r.in_room,
            r.sync_enabled,
            r.saved_session == saved_session,
            !r.auto_resume_attempted,
            !r.resume_in_progress,
            r.last_applied_ms is None,
            r.room_capacity_input == DEFAULT_CAPACITY,
    {
        Controller {
            sync_enabled: true,
            sync_connected: false,
            in_room: false,
            current_room_id: None,
            is_host: false,
            participant_count: 0,
            member_roster: Vec::new(),
            room_capacity_limit: None,
            room_capacity_input: DEFAULT_CAPACITY,
            room_has_passcode: false,
            active_room_passcode: None,
            pending_room_passcode: None,
            room_id_input: String::new(),
            create_passcode_input: String::new(),
            join_passcode_input: String::new(),
            display_name_input: display_name,
            status_message: text("Connecting to sync server (may take up to a minute)..."),
            error_message: None,
            video_hash: None,
            is_playing: false,
            position_ms: 0,
            saved_session,
            pending_invite: None,
            auto_resume_attempted: false,
            resume_in_progress: false,
            last_applied_ms: None,
        }
    }

    /// Records the connection status line and, when given, the connection
    /// flag.
    pub fn update_sync_status(&mut self, message: String, connected: Option<bool>)
        ensures
            final(self).status_message == message,
            final(self).sync_connected == match connected {
                Some(flag) => flag,
                None => old(self).sync_connected,
            },
            final(self).in_room == old(self).in_room,
            final(self).saved_session == old(self).saved_session,
            final(self).auto_resume_attempted == old(self).auto_resume_attempted,
            final(self).resume_in_progress == old(self).resume_in_progress,
    {
        self.status_message = message;
        match connected {
            Some(flag) => {
                self.sync_connected = flag;
            },
            None => {},
        }
    }

    /// The user asked to reconnect now: the connection counts as down until
    /// the supervisor reports again.
    pub fn request_manual_reconnect(&mut self)
        ensures
            !final(self).sync_connected,
            final(self).in_room == old(self).in_room,
            final(self).saved_session == old(self).saved_session,
    {
        self.sync_connected = false;
        self.status_message = text("Retrying sync connection...");
    }

    /// An invite link arrived: its room code fills the room field (as typed
    /// input is reformatted) and its passcode the join passcode field; an
    /// invite that does not parse only shows an error.
    pub fn process_invite_signal(&mut self, signal: InviteSignal)
        ensures
            parsed_invite(signal.url@) is Some ==> ({
                let (room, code, _) = parsed_invite(signal.url@)->0;
                &&& final(self).room_id_input@ == room_code_input(room)
                &&& final(self).join_passcode_input@ == match code {
                    Some(c) => c,
                    None => Seq::<char>::empty(),
                }
                &&& final(self).pending_invite is Some
            }),
            parsed_invite(signal.url@) is None ==> final(self).error_message is Some
                && final(self).room_id_input == old(self).room_id_input,
            final(self).in_room == old(self).in_room,
            final(self).saved_session == old(self).saved_session,
    {
        match parse_invite_url(signal.url.as_str()) {
            Some(link) => {
                self.room_id_input = sanitize_room_code_input(link.room_id.as_str());
                self.join_passcode_input = match &link.passcode {
                    Some(p) => p.clone(),
                    None => String::new(),
                };
                self.pending_invite = Some(link);
                self.status_message = text("Invite received");
            },
            None => {
                self.error_message = Some(text("Invalid invite link"));
            },
        }
    }

    /// Applies a remote command received at `now_ms`, unless it falls within
    /// the echo window of the last applied one. Returns the player
    /// operations to perform.
    pub fn handle_sync_command(&mut self, command: SyncCommand, now_ms: u64) -> (r: Vec<PlayerAction>)
        ensures
            suppressed(old(self).last_applied_ms, now_ms) ==> r@.len() == 0
                && final(self).last_applied_ms == old(self).last_applied_ms,
            !suppressed(old(self).last_applied_ms, now_ms) ==> r@ == actions_for(command)
                && final(self).last_applied_ms == Some(now_ms),
            *final(self) == (Controller { last_applied_ms: final(self).last_applied_ms, ..*old(self) }),
            final(self).in_room == old(self).in_room,
            final(self).sync_connected == old(self).sync_connected,
            final(self).saved_session == old(self).saved_session,
            final(self).auto_resume_attempted == old(self).auto_resume_attempted,
            final(self).resume_in_progress == old(self).resume_in_progress,
    {
        match self.last_applied_ms {
            Some(t) => if t > u64::MAX - ECHO_WINDOW_MS || now_ms < t + ECHO_WINDOW_MS {
                return Vec::new();
            },
            None => {},
        }
        self.last_applied_ms = Some(now_ms);
        let mut out: Vec<PlayerAction> = Vec::new();
        match command {
            SyncCommand::Play { position_ms } => {
                out.push(PlayerAction::Seek { position_ms });
                out.push(PlayerAction::Play);
            },
            SyncCommand::Pause { position_ms } => {
                out.push(PlayerAction::Seek { position_ms });
                out.push(PlayerAction::Pause);
            },
            SyncCommand::Seek { position_ms } => {
                out.push(PlayerAction::Seek { position_ms });
            },
            SyncCommand::Speed { rate_milli } => {
                out.push(PlayerAction::SetRate { rate_milli });
            },
            SyncCommand::Stop => {
                out.push(PlayerAction::Stop);
            },
        }
        assert(out@ =~= actions_for(command));
        out
    }

    /// Keeps `session` as the one to resume with; the next connection may
    /// resume automatically again.
    pub fn remember_session(&mut self, session: PersistedSession) -> (r: Effect)
        ensures
            *final(self) == (Controller {
                saved_session: Some(session),
                auto_resume_attempted: false,
                resume_in_progress: false,
                ..*old(self)
            }),
            r == Effect::Persist(session),
    {
        self.saved_session = Some(session.duplicate());
        self.auto_resume_attempted = false;
        self.resume_in_progress = false;
        Effect::Persist(session)
    }

    /// Forgets the session to resume with.
    pub fn clear_saved_session(&mut self) -> (r: Effect)
        ensures
            *final(self) == (Controller {
                saved_session: None,
                auto_resume_attempted: false,
                resume_in_progress: false,
                ..*old(self)
            }),
            r == Effect::ForgetSession,
    {
        self.saved_session = None;
        self.auto_resume_attempted = false;
        self.resume_in_progress = false;
        Effect::ForgetSession
    }

    /// Asks to resume the saved session. An automatic attempt is made at
    /// most once per saved session; nothing is sent while disconnected.
    pub fn attempt_resume(&mut self, automatic: bool) -> (r: Option<Message>)
        ensures
            r is Some <==> old(self).saved_session is Some && !(automatic
                && old(self).auto_resume_attempted) && old(self).sync_connected,
            r is Some ==> (r->0 matches Message::ResumeSession { token, display_name } && token@ == old(self).saved_session->0.resume_token@
                && opt_view(display_name) == sanitized_name(old(self).display_name_input@)) && final(self).resume_in_progress,
            final(self).auto_resume_attempted == (old(self).auto_resume_attempted || (r is Some
                && automatic)),
            r is None ==> final(self).resume_in_progress == old(self).resume_in_progress,
            final(self).saved_session == old(self).saved_session,
            final(self).in_room == old(self).in_room,
            final(self).sync_connected == old(self).sync_connected,
    {
        let (room_id, token) = match &self.saved_session {
            Some(s) => (s.room_id.clone(), s.resume_token.clone()),
            None => return None,
        };
        if automatic && self.auto_resume_attempted {
            return None;
        }
        if !self.sync_connected {
            if !automatic {
                self.error_message = Some(text("Cannot resume until the sync server connection is ready"));
            }
            return None;
        }
        let display_name = sanitize_display_name(self.display_name_input.as_str());
        self.status_message = joined("Attempting to resume room ", room_id.as_str());
        self.resume_in_progress = true;
        if automatic {
            self.auto_resume_attempted = true;
        }
        Some(Message::ResumeSession { token, display_name })
    }

    /// On a live connection, outside any room and with a saved session,
    /// sends the one automatic resume request.
    pub fn maybe_auto_resume(&mut self) -> (r: Option<Message>)
        ensures
            r is Some <==> !old(self).in_room && !old(self).resume_in_progress
                && old(self).saved_session is Some && old(self).sync_connected
                && !old(self).auto_resume_attempted,
            r is Some ==> final(self).auto_resume_attempted && final(self).resume_in_progress,
            final(self).auto_resume_attempted == (old(self).auto_resume_attempted || r is Some),
            final(self).saved_session == old(self).saved_session,
            final(self).in_room == old(self).in_room,
    {
        if self.in_room || self.resume_in_progress {
            return None;
        }
        if self.saved_session.is_none() || !self.sync_connected {
            return None;
        }
        self.attempt_resume(true)
    }

    fn clear_room_state(&mut self)
        ensures
            !final(self).in_room,
            final(self).current_room_id is None,
            !final(self).is_host,
            final(self).participant_count == 0,
            final(self).member_roster@.len() == 0,
            final(self).room_capacity_limit is None,
            final(self).saved_session == old(self).saved_session,
            final(self).sync_connected == old(self).sync_connected,
            final(self).auto_resume_attempted == old(self).auto_resume_attempted,
            final(self).resume_in_progress == old(self).resume_in_progress,
            final(self).last_applied_ms == old(self).last_applied_ms,
            final(self).sync_enabled == old(self).sync_enabled,
    {
        self.in_room = false;
        self.current_room_id = None;
        self.is_host = false;
        self.participant_count = 0;
        self.member_roster = Vec::new();
        self.room_capacity_limit = None;
    }

    /// The connection dropped: the room mirror is cleared; the saved session
    /// stays, so the next connection re-enters by resuming.
    pub fn handle_connection_loss(&mut self)
        ensures
            !final(self).sync_connected,
            !final(self).in_room,
            final(self).current_room_id is None,
            final(self).member_roster@.len() == 0,
            !final(self).resume_in_progress,
            !final(self).is_host,
            final(self).room_capacity_limit is None,
            final(self).saved_session == old(self).saved_session,
            final(self).auto_resume_attempted == old(self).auto_resume_attempted,
            final(self).sync_enabled == old(self).sync_enabled,
            final(self).last_applied_ms == old(self).last_applied_ms,
    {
        self.sync_connected = false;
        self.clear_room_state();
        self.status_message = text("Sync connection lost. Reconnecting...");
        self.resume_in_progress = false;
    }

    /// The request to create a room, unless disconnected (an error is shown)
    /// or no video is loaded.
    pub fn create_room(&mut self) -> (r: Option<Message>)
        ensures
            r is Some <==> old(self).sync_connected && old(self).video_hash is Some,
            r is Some ==> (r->0 matches Message::CreateRoom { file_hash, capacity, passcode, display_name } && file_hash@
                == old(self).video_hash->0@ && capacity == Some(old(self).room_capacity_input)
                && opt_view(passcode) == normalized_passcode(old(self).create_passcode_input@)
                && opt_view(display_name) == sanitized_name(old(self).display_name_input@)),
            !old(self).sync_connected ==> final(self).error_message is Some,
            final(self).in_room == old(self).in_room,
            final(self).saved_session == old(self).saved_session,
            final(self).sync_connected == old(self).sync_connected,
    {
        if !self.sync_connected {
            self.error_message = Some(
                text("Still connecting to the sync server. Please wait for the warm-up and try again."),
            );
            return None;
        }
        let hash = match &self.video_hash {
            Some(h) => h.clone(),
            None => return None,
        };
        let passcode = normalize_passcode(self.create_passcode_input.as_str());
        self.pending_room_passcode = passcode.clone();
        let display_name = sanitize_display_name(self.display_name_input.as_str());
        self.status_message = text("Creating room...");
        Some(
            Message::CreateRoom {
                file_hash: hash,
                passcode,
                display_name,
                capacity: Some(self.room_capacity_input),
            },
        )
    }

    /// The request to join the room typed in, unless disconnected, no video
    /// is loaded or the code is not `NNN-NNN`; each refusal shows an error.
    pub fn join_room(&mut self) -> (r: Option<Message>)
        ensures
            r is Some <==> old(self).sync_connected && old(self).video_hash is Some
                && crate::room::is_room_code(crate::text::trimmed(old(self).room_id_input@)),
            r is Some ==> (r->0 matches Message::JoinRoom { room_id, file_hash, passcode, display_name } && file_hash@
                == old(self).video_hash->0@ && room_id@ == crate::text::trimmed(old(self).room_id_input@)
                && opt_view(passcode) == normalized_passcode(old(self).join_passcode_input@)
                && opt_view(display_name) == sanitized_name(old(self).display_name_input@)),
            r is None ==> final(self).error_message is Some,
            final(self).in_room == old(self).in_room,
            final(self).saved_session == old(self).saved_session,
            final(self).sync_connected == old(self).sync_connected,
    {
        if !self.sync_connected {
            self.error_message = Some(
                text("Cannot join until the sync server connection is ready. Cold starts may take about a minute."),
            );
            return None;
        }
        let hash = match &self.video_hash {
            Some(h) => h.clone(),
            None => {
                self.error_message = Some(text("Load the same video before joining a room"));
                return None;
            },
        };
        if !is_valid_room_code(self.room_id_input.as_str()) {
            self.error_message = Some(text("Room code must look like 123-456"));
            return None;
        }
        let code = trim(self.room_id_input.as_str());
        let passcode = normalize_passcode(self.join_passcode_input.as_str());
        self.pending_room_passcode = passcode.clone();
        let display_name = sanitize_display_name(self.display_name_input.as_str());
        self.status_message = joined("Joining room ", code.as_str());
        Some(Message::JoinRoom { room_id: code, file_hash: hash, passcode, display_name })
    }

    /// Leaves the room: the request to send; the room mirror is cleared at
    /// once.
    pub fn leave_room(&mut self) -> (r: Message)
        ensures
            r is LeaveRoom,
            !final(self).in_room,
            final(self).current_room_id is None,
            final(self).saved_session == old(self).saved_session,
    {
        self.clear_room_state();
        self.status_message = text("Left room");
        Message::LeaveRoom
    }

    /// The local player toggled between playing and paused with `outcome`.
    /// When it worked and sync is on in a room, the command to broadcast.
    pub fn toggle_play(&mut self, outcome: Result<(), String>) -> (r: Option<Message>)
        ensures
            r is Some <==> outcome is Ok && old(self).sync_enabled && old(self).in_room,
            r is Some ==> r->0 == Message::SyncCommand(
                if old(self).is_playing {
                    SyncCommand::Pause { position_ms: old(self).position_ms }
                } else {
                    SyncCommand::Play { position_ms: old(self).position_ms }
                },
            ),
            outcome is Err ==> final(self).error_message is Some,
            final(self).in_room == old(self).in_room,
    {
        match outcome {
            Err(e) => {
                self.error_message = Some(joined("Playback error: ", e.as_str()));
                None
            },
            Ok(()) => if self.sync_enabled && self.in_room {
                let position_ms = self.position_ms;
                if self.is_playing {
                    Some(Message::SyncCommand(SyncCommand::Pause { position_ms }))
                } else {
                    Some(Message::SyncCommand(SyncCommand::Play { position_ms }))
                }
            } else {
                None
            },
        }
    }

    /// The local player sought to `position_ms` with `outcome`. When it
    /// worked and sync is on in a room, the command to broadcast.
    pub fn seek(&mut self, position_ms: u64, outcome: Result<(), String>) -> (r: Option<Message>)
        ensures
            r is Some <==> outcome is Ok && old(self).sync_enabled && old(self).in_room,
            r is Some ==> r->0 == Message::SyncCommand(SyncCommand::Seek { position_ms }),
            outcome is Err ==> final(self).error_message is Some,
            final(self).in_room == old(self).in_room,
    {
        match outcome {
            Err(e) => {
                self.error_message = Some(joined("Seek error: ", e.as_str()));
                None
            },
            Ok(()) => if self.sync_enabled && self.in_room {
                Some(Message::SyncCommand(SyncCommand::Seek { position_ms }))
            } else {
                None
            },
        }
    }

    /// The local player changed its rate with `outcome`. When it worked and
    /// sync is on in a room, the command to broadcast.
    pub fn set_speed(&mut self, rate_milli: u32, outcome: Result<(), String>) -> (r: Option<Message>)
        ensures
            r is Some <==> outcome is Ok && old(self).sync_enabled && old(self).in_room,
            r is Some ==> r->0 == Message::SyncCommand(SyncCommand::Speed { rate_milli }),
            outcome is Err ==> final(self).error_message is Some,
            final(self).in_room == old(self).in_room,
    {
        match outcome {
            Err(e) => {
                self.error_message = Some(joined("Speed error: ", e.as_str()));
                None
            },
            Ok(()) => if self.sync_enabled && self.in_room {
                Some(Message::SyncCommand(SyncCommand::Speed { rate_milli }))
            } else {
                None
            },
        }
    }

    /// The local player changed its volume with `outcome`. Volume is never
    /// broadcast; only a failure is recorded.
    pub fn set_volume(&mut self, outcome: Result<(), String>)
        ensures
            outcome is Err ==> final(self).error_message is Some,
            outcome is Ok ==> final(self).error_message == old(self).error_message,
            final(self).in_room == old(self).in_room,
    {
        match outcome {
            Err(e) => {
                self.error_message = Some(joined("Volume error: ", e.as_str()));
            },
            Ok(()) => {},
        }
    }

    /// Takes over a roster update for the room.
    pub fn apply_member_roster(&mut self, roster: Vec<MemberSummary>, capacity: usize)
        ensures
            final(self).member_roster == roster,
            final(self).participant_count == if roster@.len() > 1 { roster@.len() } else { 1 },
            final(self).room_capacity_limit == Some(capacity),
            *final(self) == (Controller {
                member_roster: roster,
                participant_count: final(self).participant_count,
                room_capacity_limit: Some(capacity),
                room_capacity_input: capacity,
                ..*old(self)
            }),
    {
        self.participant_count = if roster.len() > 1 { roster.len() } else { 1 };
        self.member_roster = roster;
        self.room_capacity_limit = Some(capacity);
        self.room_capacity_input = capacity;
    }

    fn entered_room(
        &mut self,
        room_id: String,
        client_id: u128,
        is_host: bool,
        passcode_enabled: bool,
        file_hash: String,
        resume_token: String,
        capacity: usize,
        display_name: String,
    ) -> (r: Vec<Effect>)
        ensures
            final(self).in_room,
            final(self).current_room_id == Some(room_id),
            final(self).is_host == is_host,
            final(self).member_roster@.len() == 1,
            final(self).member_roster@[0].client_id == client_id,
            final(self).member_roster@[0].is_host == is_host,
            final(self).saved_session == Some(
                PersistedSession { room_id, resume_token, file_hash, is_host },
            ),
            final(self).display_name_input == display_name,
            final(self).room_capacity_limit == Some(capacity),
            final(self).room_has_passcode == passcode_enabled,
            final(self).pending_room_passcode is None,
            !final(self).auto_resume_attempted,
            !final(self).resume_in_progress,
            final(self).sync_connected == old(self).sync_connected,
            final(self).sync_enabled == old(self).sync_enabled,
            final(self).last_applied_ms == old(self).last_applied_ms,
            r@.len() == 2,
            r@[0] == (Effect::RoomJoined { room_id, client_id, is_host }),
            r@[1] == Effect::Persist(PersistedSession { room_id, resume_token, file_hash, is_host }),
    {
        self.in_room = true;
        self.current_room_id = Some(room_id.clone());
        self.is_host = is_host;
        self.participant_count = 1;
        self.room_has_passcode = passcode_enabled;
        self.room_capacity_limit = Some(capacity);
        self.room_capacity_input = capacity;
        self.active_room_passcode = if passcode_enabled {
            self.pending_room_passcode.clone()
        } else {
            None
        };
        self.pending_room_passcode = None;
        self.pending_invite = None;
        self.display_name_input = display_name.clone();
        let mut roster: Vec<MemberSummary> = Vec::new();
        roster.push(MemberSummary { client_id, display_name, is_host });
        self.member_roster = roster;
        let mut out: Vec<Effect> = Vec::new();
        out.push(Effect::RoomJoined { room_id: room_id.clone(), client_id, is_host });
        let session = PersistedSession { room_id, resume_token, file_hash, is_host };
        let persist = self.remember_session(session);
        out.push(persist);
        out
    }

    /// Reacts to one frame from the service, received at `now_ms` on a
    /// monotonic clock, and lists what is to be done.
    pub fn handle_server_message(&mut self, msg: Message, now_ms: u64) -> (r: Vec<Effect>)
        ensures
            match msg {
                Message::RoomCreated { room_id, client_id, file_hash, resume_token, capacity, display_name, passcode_enabled } => {
                    &&& entered(*old(self), *final(self), capacity, display_name, passcode_enabled)
                    &&& final(self).in_room
                    &&& final(self).is_host
                    &&& final(self).current_room_id == Some(room_id)
                    &&& final(self).saved_session == Some(
                        PersistedSession { room_id, resume_token, file_hash, is_host: true },
                    )
                    &&& r@.contains(Effect::Persist(
                        PersistedSession { room_id, resume_token, file_hash, is_host: true },
                    ))
                },
                Message::RoomJoined { room_id, client_id, is_host, file_hash, resume_token, capacity, display_name, passcode_enabled } => {
                    &&& entered(*old(self), *final(self), capacity, display_name, passcode_enabled)
                    &&& final(self).in_room
                    &&& final(self).is_host == is_host
                    &&& final(self).current_room_id == Some(room_id)
                    &&& final(self).saved_session == Some(
                        PersistedSession { room_id, resume_token, file_hash, is_host },
                    )
                    &&& r@.contains(Effect::Persist(
                        PersistedSession { room_id, resume_token, file_hash, is_host },
                    ))
                },
                Message::RoomLeft => {
                    &&& !final(self).in_room
                    &&& final(self).saved_session is None
                    &&& r@ == seq![Effect::RoomCleared, Effect::ForgetSession]
                },
                Message::RoomNotFound | Message::RoomFull { .. } | Message::FileHashMismatch { .. } => {
                    &&& final(self).error_message is Some
                    &&& !final(self).resume_in_progress
                    &&& final(self).in_room == old(self).in_room
                    &&& final(self).saved_session == old(self).saved_session
                    &&& r@.len() == 0
                },
                Message::Error { message } => {
                    &&& final(self).error_message == Some(message)
                    &&& !final(self).resume_in_progress
                    &&& names_session_token(message@) ==> final(self).saved_session is None
                        && r@ == seq![Effect::ForgetSession]
                    &&& !names_session_token(message@) ==> final(self).saved_session == old(
                        self,
                    ).saved_session && r@.len() == 0
                },
                Message::SyncBroadcast { command, .. } => {
                    &&& (old(self).sync_enabled && !suppressed(old(self).last_applied_ms, now_ms))
                        ==> r@ == actions_for(command).map_values(|a: PlayerAction| Effect::Player(a))
                    &&& !(old(self).sync_enabled && !suppressed(old(self).last_applied_ms, now_ms))
                        ==> r@.len() == 0
                    &&& *final(self) == (Controller {
                        last_applied_ms: if old(self).sync_enabled && !suppressed(old(self).last_applied_ms, now_ms) {
                            Some(now_ms)
                        } else {
                            old(self).last_applied_ms
                        },
                        ..*old(self)
                    })
                },
                Message::RoomMemberUpdate { room_id, members, capacity } => {
                    &&& final(self).in_room == old(self).in_room
                    &&& final(self).saved_session == old(self).saved_session
                    &&& (old(self).current_room_id is Some && old(self).current_room_id->0@ == room_id@)
                        ==> final(self).member_roster == members && final(self).room_capacity_limit
                        == Some(capacity) && final(self).is_host == old(self).is_host
                        && final(self).current_room_id == old(self).current_room_id
                    &&& !(old(self).current_room_id is Some && old(self).current_room_id->0@ == room_id@)
                        ==> *final(self) == *old(self)
                    &&& r@.len() == 0
                },
                _ => r@.len() == 0 && final(self).in_room == old(self).in_room
                    && final(self).saved_session == old(self).saved_session,
            },
    {
        match msg {
            Message::RoomCreated {
                room_id,
                client_id,
                passcode_enabled,
                file_hash,
                resume_token,
                capacity,
                display_name,
            } => {
                self.status_message = joined("Room created: ", room_id.as_str());
                self.room_id_input = room_id.clone();
                if passcode_enabled {
                    self.create_passcode_input = String::new();
                }
                let out = self.entered_room(
                    room_id,
                    client_id,
                    true,
                    passcode_enabled,
                    file_hash,
                    resume_token,
                    capacity,
                    display_name,
                );
                assert(out@.contains(out@[1]));
                out
            },
            Message::RoomJoined {
                room_id,
                client_id,
                is_host,
                passcode_enabled,
                file_hash,
                resume_token,
                capacity,
                display_name,
            } => {
                self.status_message = joined(
                    "Joined room: ",
                    room_id.as_str(),
                );
                if !is_host {
                    self.join_passcode_input = String::new();
                }
                let out = self.entered_room(
                    room_id,
                    client_id,
                    is_host,
                    passcode_enabled,
                    file_hash,
                    resume_token,
                    capacity,
                    display_name,
                );
                assert(out@.contains(out@[1]));
                out
            },
            Message::RoomLeft => {
                self.clear_room_state();
                self.status_message = text("Left room");
                self.room_has_passcode = false;
                self.active_room_passcode = None;
                self.pending_room_passcode = None;
                self.pending_invite = None;
                let forget = self.clear_saved_session();
                let mut out: Vec<Effect> = Vec::new();
                out.push(Effect::RoomCleared);
                out.push(forget);
                assert(out@ =~= seq![Effect::RoomCleared, Effect::ForgetSession]);
                out
            },
            Message::RoomNotFound => {
                self.resume_in_progress = false;
                self.error_message = Some(text("Room not found"));
                Vec::new()
            },
            Message::RoomFull { capacity } => {
                self.resume_in_progress = false;
                self.error_message = Some(text("Room is full"));
                Vec::new()
            },
            Message::FileHashMismatch { expected } => {
                self.resume_in_progress = false;
                let cs = chars_of(expected.as_str());
                let shown = if cs.len() > 16 {
                    string_of(&cs, 0, 16)
                } else {
                    expected
                };
                self.error_message = Some(joined("File mismatch! Expected hash: ", shown.as_str()));
                Vec::new()
            },
            Message::SyncBroadcast { command, .. } => {
                if self.sync_enabled {
                    let actions = self.handle_sync_command(command, now_ms);
                    let mut out: Vec<Effect> = Vec::new();
                    let mut i: usize = 0;
                    while i < actions.len()
                        invariant
                            i <= actions@.len(),
                            out@ == actions@.subrange(0, i as int).map_values(
                                |a: PlayerAction| Effect::Player(a),
                            ),
                        decreases actions@.len() - i,
                    {
                        out.push(Effect::Player(actions[i]));
                        i = i + 1;
                        assert(out@ =~= actions@.subrange(0, i as int).map_values(
                            |a: PlayerAction| Effect::Player(a),
                        ));
                    }
                    assert(actions@.subrange(0, actions@.len() as int) =~= actions@);
                    out
                } else {
                    Vec::new()
                }
            },
            Message::Error { message } => {
                let cs = chars_of(message.as_str());
                let stale = contains_text(&cs, "Session token");
                proof {
                    reveal_strlit("Session token");
                    assert("Session token"@ =~= seq!['S', 'e', 's', 's', 'i', 'o', 'n', ' ', 't', 'o', 'k', 'e', 'n']);
                }
                let mut out: Vec<Effect> = Vec::new();
                if stale {
                    out.push(self.clear_saved_session());
                }
                self.resume_in_progress = false;
                self.error_message = Some(message);
                proof {
                    if stale {
                        assert(out@ =~= seq![Effect::ForgetSession]);
                    }
                }
                out
            },
            Message::RoomMemberUpdate { room_id, members, capacity } => {
                let here = match &self.current_room_id {
                    Some(code) => code.eq(&room_id),
                    None => false,
                };
                if here {
                    self.apply_member_roster(members, capacity);
                }
                Vec::new()
            },
            _ => Vec::new(),
        }
    }
}

} // verus!
