//! The service's authoritative state: live rooms with their member
//! sequences, connected clients, and resume tokens.
use vstd::prelude::*;
use dashmap::DashMap;
use crate::digest::{hash_passcode, passcode_digest};
use crate::names::{default_display_name, guest_name, sanitize_display_name, sanitized_name};
use crate::room::{
    capacity_in_range, code_text, format_room_code, is_room_code, normalize_capacity,
    normalized_capacity, CODE_SPACE, DEFAULT_CAPACITY,
};

verus! {

#[verifier::external_type_specification]
#[verifier::external_body]
#[verifier::reject_recursive_types(K)]
#[verifier::reject_recursive_types(V)]
#[verifier::reject_recursive_types(S)]
pub struct ExDashMap<K, V, S>(DashMap<K, V, S>);

/// A live room.
#[derive(Clone, Debug)]
pub struct Room {
    pub host_id: u128,
    pub file_hash: String,
    pub passcode_hash: Option<String>,
    pub capacity: usize,
    /// Members in the order they entered.
    pub members: Vec<u128>,
}

/// What the service knows of a connected client.
#[derive(Clone, Debug)]
pub struct ClientInfo {
    pub room_id: Option<String>,
    pub display_name: String,
}

/// What a resume token rebinds a new connection to.
#[derive(Clone, Debug)]
pub struct ResumeRecord {
    pub client_id: u128,
    pub room_id: String,
    pub file_hash: String,
    pub was_host: bool,
    pub display_name: Option<String>,
}

/// What the rooms table holds, keyed by room code.
pub uninterp spec fn room_table(m: DashMap<String, Room>) -> Map<Seq<char>, Room>;

/// What the clients table holds, keyed by client id.
pub uninterp spec fn client_table(m: DashMap<u128, ClientInfo>) -> Map<u128, ClientInfo>;

/// What the resume-token table holds, keyed by token.
pub uninterp spec fn token_table(m: DashMap<String, ResumeRecord>) -> Map<Seq<char>, ResumeRecord>;

/// Relies on `DashMap::new`: a new map is empty.
#[verifier::external_body]
fn new_room_table() -> (r: DashMap<String, Room>)
    ensures
        room_table(r).is_empty(),
{
    DashMap::new()
}

/// Relies on `DashMap::get`: the value stored under the key, if any.
#[verifier::external_body]
fn room_get(m: &DashMap<String, Room>, k: &str) -> (r: Option<Room>)
    ensures
        r == room_table(*m).get(k@),
{
    match m.get(k) {
        Some(e) => Some(e.value().clone()),
        None => None,
    }
}

/// Relies on `DashMap::contains_key`.
#[verifier::external_body]
fn room_contains(m: &DashMap<String, Room>, k: &str) -> (r: bool)
    ensures
        r == room_table(*m).contains_key(k@),
{
    m.contains_key(k)
}

/// Relies on `DashMap::insert`: the key maps to the value afterwards, the
/// other entries stay.
#[verifier::external_body]
fn room_insert(m: &mut DashMap<String, Room>, k: String, v: Room)
    ensures
        room_table(*final(m)) == room_table(*old(m)).insert(k@, v),
{
    m.insert(k, v);
}

/// Relies on `DashMap::remove`: the key has no entry afterwards, the other
/// entries stay.
#[verifier::external_body]
fn room_remove(m: &mut DashMap<String, Room>, k: &str)
    ensures
        room_table(*final(m)) == room_table(*old(m)).remove(k@),
{
    m.remove(k);
}

/// Relies on `DashMap::new`: a new map is empty.
#[verifier::external_body]
fn new_client_table() -> (r: DashMap<u128, ClientInfo>)
    ensures
        client_table(r).is_empty(),
{
    DashMap::new()
}

/// Relies on `DashMap::get`: the value stored under the key, if any.
#[verifier::external_body]
fn client_get(m: &DashMap<u128, ClientInfo>, k: u128) -> (r: Option<ClientInfo>)
    ensures
        r == client_table(*m).get(k),
{
    match m.get(&k) {
        Some(e) => Some(e.value().clone()),
        None => None,
    }
}

/// Relies on `DashMap::insert`: the key maps to the value afterwards, the
/// other entries stay.
#[verifier::external_body]
fn client_insert(m: &mut DashMap<u128, ClientInfo>, k: u128, v: ClientInfo)
    ensures
        client_table(*final(m)) == client_table(*old(m)).insert(k, v),
{
    m.insert(k, v);
}

/// Relies on `DashMap::remove`: the key has no entry afterwards, the other
/// entries stay.
#[verifier::external_body]
fn client_remove(m: &mut DashMap<u128, ClientInfo>, k: u128)
    ensures
        client_table(*final(m)) == client_table(*old(m)).remove(k),
{
    m.remove(&k);
}

/// Relies on `DashMap::new`: a new map is empty.
#[verifier::external_body]
fn new_token_table() -> (r: DashMap<String, ResumeRecord>)
    ensures
        token_table(r).is_empty(),
{
    DashMap::new()
}

/// Relies on `DashMap::contains_key`.
#[verifier::external_body]
fn token_contains(m: &DashMap<String, ResumeRecord>, k: &str) -> (r: bool)
    ensures
        r == token_table(*m).contains_key(k@),
{
    m.contains_key(k)
}

/// Relies on `DashMap::insert`: the key maps to the value afterwards, the
/// other entries stay.
#[verifier::external_body]
fn token_insert(m: &mut DashMap<String, ResumeRecord>, k: String, v: ResumeRecord)
    ensures
        token_table(*final(m)) == token_table(*old(m)).insert(k@, v),
{
    m.insert(k, v);
}

/// Relies on `DashMap::remove`: it hands back the value that was stored
/// under the key and leaves the key without an entry.
#[verifier::external_body]
fn token_take(m: &mut DashMap<String, ResumeRecord>, k: &str) -> (r: Option<ResumeRecord>)
    ensures
        r == token_table(*old(m)).get(k@),
        token_table(*final(m)) == token_table(*old(m)).remove(k@),
{
    match m.remove(k) {
        Some((_, v)) => Some(v),
        None => None,
    }
}

/// Relies on `uuid::Uuid::new_v4`: a random token, in the hyphenated form
/// of its `Display`; nothing is known of its value.
#[verifier::external_body]
fn random_token() -> (r: String)
{
    uuid::Uuid::new_v4().to_string()
}

/// The predicate "is not `c`".
pub open spec fn other_than(c: u128) -> spec_fn(u128) -> bool {
    |x: u128| x != c
}

/// Whether `c` is among `v`.
fn has_member(v: &Vec<u128>, c: u128) -> (r: bool)
    ensures
        r == v@.contains(c),
{
    let mut i: usize = 0;
    while i < v.len()
        invariant
            i <= v@.len(),
            forall|j: int| 0 <= j < i ==> v@[j] != c,
        decreases v@.len() - i,
    {
        if v[i] == c {
            return true;
        }
        i = i + 1;
    }
    false
}

/// `v` without `c`, the rest in order.
fn without_member(v: &Vec<u128>, c: u128) -> (r: Vec<u128>)
    requires
        v@.no_duplicates(),
    ensures
        r@ == v@.filter(other_than(c)),
        r@.no_duplicates(),
        r@.len() <= v@.len(),
        forall|x: u128| r@.contains(x) <==> (v@.contains(x) && x != c),
{
    let mut out: Vec<u128> = Vec::new();
    let mut i: usize = 0;
    while i < v.len()
        invariant
            i <= v@.len(),
            v@.no_duplicates(),
            out@ == v@.subrange(0, i as int).filter(other_than(c)),
            out@.no_duplicates(),
            out@.len() <= i,
            forall|x: u128| out@.contains(x) <==> (v@.subrange(0, i as int).contains(x) && x != c),
        decreases v@.len() - i,
    {
        let x = v[i];
        let ghost prev = out@;
        let ghost p = v@.subrange(0, i as int);
        proof {
            assert(v@.subrange(0, i + 1) =~= p.push(x));
            p.lemma_filter_push(x, other_than(c));
            assert(!p.contains(x)) by {
                if p.contains(x) {
                    let j = choose|j: int| 0 <= j < p.len() && p[j] == x;
                    assert(v@[j] == v@[i as int]);
                }
            }
        }
        if x != c {
            out.push(x);
        }
        i = i + 1;
        proof {
            let q = v@.subrange(0, i as int);
            assert(q =~= p.push(x));
            assert forall|y: u128| out@.contains(y) <==> (q.contains(y) && y != c) by {
                if q.contains(y) && y != c {
                    let j = choose|j: int| 0 <= j < q.len() && q[j] == y;
                    if j < q.len() - 1 {
                        assert(p[j] == y);
                        assert(p.contains(y));
                        assert(prev.contains(y));
                        let k = choose|k: int| 0 <= k < prev.len() && prev[k] == y;
                        assert(out@[k] == y);
                    } else {
                        assert(out@[out@.len() - 1] == y);
                    }
                }
                if out@.contains(y) {
                    let j = choose|j: int| 0 <= j < out@.len() && out@[j] == y;
                    if x != c && j == out@.len() - 1 {
                        assert(q[q.len() - 1] == y);
                    } else {
                        assert(prev[j] == y);
                        assert(prev.contains(y));
                        let k = choose|k: int| 0 <= k < p.len() && p[k] == y;
                        assert(q[k] == y);
                    }
                }
            }
            if x != c {
                assert(!prev.contains(x));
                assert(out@.no_duplicates()) by {
                    assert forall|a: int, b: int| 0 <= a < out@.len() && 0 <= b < out@.len() && a != b
                        implies out@[a] != out@[b] by {
                        if a == out@.len() - 1 {
                            assert(prev.contains(out@[b]));
                        } else if b == out@.len() - 1 {
                            assert(prev.contains(out@[a]));
                        }
                    }
                }
            }
        }
    }
    assert(v@.subrange(0, v@.len() as int) =~= v@);
    out
}

/// A sequence without repeats whose elements all equal `c` is `[c]` or
/// empty.
proof fn lemma_single_member(s: Seq<u128>, c: u128)
    requires
        s.no_duplicates(),
        s.len() > 0,
        forall|x: u128| s.contains(x) ==> x == c,
    ensures
        s == seq![c],
{
    if s.len() > 1 {
        assert(s.contains(s[0]));
        assert(s.contains(s[1]));
        assert(s[0] == s[1]);
    }
    assert(s.contains(s[0]));
    assert(s =~= seq![c]);
}

/// Relies on `uuid::Uuid::new_v4` and `Uuid::as_u128`: a random number;
/// nothing is known of its value.
#[verifier::external_body]
fn random_u128() -> (r: u128)
{
    uuid::Uuid::new_v4().as_u128()
}

/// One member of a room's roster.
#[derive(Clone, Debug)]
pub struct MemberSummary {
    pub client_id: u128,
    pub display_name: String,
    pub is_host: bool,
}

/// How a join request is decided.
#[derive(PartialEq, Eq, Structural, Clone, Copy, Debug)]
pub enum JoinCheck {
    Admit,
    NotFound,
    HashMismatch,
    PasscodeMissing,
    PasscodeWrong,
    Full,
}

/// Why a join request was refused.
#[derive(Clone, Debug)]
pub enum JoinError {
    RoomNotFound,
    /// The room plays another file; `expected` is its file hash.
    FileHashMismatch { expected: String },
    PasscodeRequired,
    InvalidPasscode,
    RoomFull { capacity: usize },
}

impl JoinError {
    pub open spec fn check(self) -> JoinCheck {
        match self {
            JoinError::RoomNotFound => JoinCheck::NotFound,
            JoinError::FileHashMismatch { .. } => JoinCheck::HashMismatch,
            JoinError::PasscodeRequired => JoinCheck::PasscodeMissing,
            JoinError::InvalidPasscode => JoinCheck::PasscodeWrong,
            JoinError::RoomFull { .. } => JoinCheck::Full,
        }
    }

    /// The text shown for this refusal.
    pub fn message(&self) -> (r: String)
        ensures
            r@ == match self {
                JoinError::RoomNotFound => "Room not found"@,
                JoinError::FileHashMismatch { .. } => "File hash mismatch"@,
                JoinError::PasscodeRequired => "Passcode required"@,
                JoinError::InvalidPasscode => "Invalid passcode"@,
                JoinError::RoomFull { .. } => "Room is full"@,
            },
    {
        match self {
            JoinError::RoomNotFound => String::from_str("Room not found"),
            JoinError::FileHashMismatch { .. } => String::from_str("File hash mismatch"),
            JoinError::PasscodeRequired => String::from_str("Passcode required"),
            JoinError::InvalidPasscode => String::from_str("Invalid passcode"),
            JoinError::RoomFull { .. } => String::from_str("Room is full"),
        }
    }
}

/// A passcode counts as offered when it is present and not empty.
pub open spec fn passcode_offered(p: Option<Seq<char>>) -> Option<Seq<char>> {
    match p {
        Some(s) => if s.len() > 0 {
            Some(s)
        } else {
            None
        },
        None => None,
    }
}

/// Why a resume token could not be redeemed.
#[derive(PartialEq, Eq, Structural, Clone, Copy, Debug)]
pub enum ResumeError {
    /// The token is unknown, already used, or its room is gone.
    TokenInvalid,
    /// The room filled up while the client was away.
    RoomFull { capacity: usize },
    /// No fresh token could be drawn for the new connection.
    TokenUnavailable,
}

impl ResumeError {
    /// The text shown for this failure.
    pub fn message(&self) -> (r: String)
        ensures
            r@ == match self {
                ResumeError::TokenInvalid => "Session token invalid or expired"@,
                ResumeError::RoomFull { .. } => "Room is full"@,
                ResumeError::TokenUnavailable => "Could not issue a session token"@,
            },
    {
        match self {
            ResumeError::TokenInvalid => String::from_str("Session token invalid or expired"),
            ResumeError::RoomFull { .. } => String::from_str("Room is full"),
            ResumeError::TokenUnavailable => String::from_str("Could not issue a session token"),
        }
    }
}

/// What a redeemed resume token gives the new connection.
#[derive(Clone, Debug)]
pub struct ResumeOutcome {
    pub room_id: String,
    pub was_host: bool,
    pub passcode_enabled: bool,
    pub resume_token: String,
    pub file_hash: String,
    pub capacity: usize,
    pub display_name: String,
}

/// What a successful redemption of `token` by `c` leaves, going from
/// `before` to `after`: the client is in the token's room (once), the host
/// passes to it if the token was a host's, and it holds exactly one token,
/// the new one, which differs from the one spent.
pub open spec fn resumed(before: ServerState, after: ServerState, c: u128, token: Seq<char>, out: ResumeOutcome) -> bool {
    let rec = before.tokens_view()[token];
    let old_room = before.rooms_view()[rec.room_id@];
    let new_room = after.rooms_view()[rec.room_id@];
    &&& out.room_id@ == rec.room_id@
    &&& out.was_host == rec.was_host
    &&& out.file_hash@ == rec.file_hash@
    &&& out.capacity == old_room.capacity
    &&& out.passcode_enabled == old_room.passcode_hash is Some
    &&& out.resume_token@ != token
    &&& after.tokens_view().contains_key(out.resume_token@)
    &&& after.tokens_view()[out.resume_token@].client_id == c
    &&& after.tokens_view()[out.resume_token@].was_host == rec.was_host
    &&& (forall|t: Seq<char>| #[trigger] after.tokens_view().contains_key(t)
        && after.tokens_view()[t].client_id == c ==> t == out.resume_token@)
    &&& after.client_room(c) == Some(rec.room_id@)
    &&& after.rooms_view().contains_key(rec.room_id@)
    &&& new_room.members@ == (if old_room.members@.contains(c) {
        old_room.members@
    } else {
        old_room.members@.push(c)
    })
    &&& new_room.host_id == (if rec.was_host { c } else { old_room.host_id })
    &&& new_room.capacity == old_room.capacity
    &&& new_room.file_hash == old_room.file_hash
    &&& new_room.passcode_hash == old_room.passcode_hash
    &&& out.display_name@ == after.clients_view()[c].display_name@
}

/// Which resume records a sweep drops.
pub enum TokenSweep {
    /// Those issued to a client.
    OfClient(u128),
    /// Those bound to a room.
    OfRoom(String),
}

pub open spec fn swept(s: TokenSweep, rec: ResumeRecord) -> bool {
    match s {
        TokenSweep::OfClient(c) => rec.client_id == c,
        TokenSweep::OfRoom(r) => rec.room_id@ == r@,
    }
}

fn is_swept(s: &TokenSweep, rec: &ResumeRecord) -> (r: bool)
    ensures
        r == swept(*s, *rec),
{
    match s {
        TokenSweep::OfClient(c) => rec.client_id == *c,
        TokenSweep::OfRoom(r) => rec.room_id.eq(r),
    }
}

/// Relies on `DashMap::retain`: exactly the entries for which the closure
/// returns `true` stay, unchanged.
#[verifier::external_body]
fn token_retain(m: &mut DashMap<String, ResumeRecord>, s: &TokenSweep)
    ensures
        token_table(*final(m)) == token_table(*old(m)).restrict(
            token_table(*old(m)).dom().filter(|k| !swept(*s, token_table(*old(m))[k])),
        ),
{
    m.retain(|_, rec| !is_swept(s, rec));
}

/// The room code a client is in, as text.
pub open spec fn room_of(info: ClientInfo) -> Option<Seq<char>> {
    match info.room_id {
        Some(r) => Some(r@),
        None => None,
    }
}

/// The member sequence of a room is well formed: non-empty, within the
/// room's capacity, without repeats.
pub open spec fn members_ok(r: Room) -> bool {
    &&& capacity_in_range(r.capacity)
    &&& 0 < r.members@.len() <= r.capacity
    &&& r.members@.no_duplicates()
}

/// The service's state.
pub struct ServerState {
    pub rooms: DashMap<String, Room>,
    pub clients: DashMap<u128, ClientInfo>,
    resume_tokens: DashMap<String, ResumeRecord>,
}

impl ServerState {
    pub closed spec fn rooms_view(&self) -> Map<Seq<char>, Room> {
        room_table(self.rooms)
    }

    pub closed spec fn clients_view(&self) -> Map<u128, ClientInfo> {
        client_table(self.clients)
    }

    pub closed spec fn tokens_view(&self) -> Map<Seq<char>, ResumeRecord> {
        token_table(self.resume_tokens)
    }

    /// Every live room has a room code, a capacity in `[2, 32]` and a
    /// non-empty member sequence without repeats that fits it.
    pub open spec fn rooms_ok(&self) -> bool {
        forall|code: Seq<char>|
            #[trigger] self.rooms_view().contains_key(code) ==> is_room_code(code) && members_ok(
                self.rooms_view()[code],
            )
    }

    /// Each member of a live room is a known client whose room is that room.
    pub open spec fn members_known(&self) -> bool {
        forall|code: Seq<char>, c: u128|
            self.rooms_view().contains_key(code) && #[trigger] self.rooms_view()[code].members@.contains(
                c,
            ) ==> self.clients_view().contains_key(c) && room_of(self.clients_view()[c]) == Some(code)
    }

    /// A client that names a room is a member of that live room.
    pub open spec fn clients_placed(&self) -> bool {
        forall|c: u128|
            #[trigger] self.clients_view().contains_key(c) && room_of(self.clients_view()[c]) is Some
                ==> self.rooms_view().contains_key(room_of(self.clients_view()[c])->0)
                && self.rooms_view()[room_of(self.clients_view()[c])->0].members@.contains(c)
    }

    /// Every resume token is bound to a live room.
    pub open spec fn tokens_live(&self) -> bool {
        forall|t: Seq<char>|
            #[trigger] self.tokens_view().contains_key(t) ==> self.rooms_view().contains_key(
                self.tokens_view()[t].room_id@,
            )
    }

    /// No client holds two resume tokens.
    pub open spec fn one_token_per_client(&self) -> bool {
        forall|t1: Seq<char>, t2: Seq<char>|
            self.tokens_view().contains_key(t1) && self.tokens_view().contains_key(t2)
                && #[trigger] self.tokens_view()[t1].client_id
                == #[trigger] self.tokens_view()[t2].client_id ==> t1 == t2
    }

    pub open spec fn wf(&self) -> bool {
        &&& self.rooms_ok()
        &&& self.members_known()
        &&& self.clients_placed()
        &&& self.tokens_live()
        &&& self.one_token_per_client()
    }

    pub fn new() -> (r: Self)
        ensures
            r.wf(),
            r.rooms_view() == Map::<Seq<char>, Room>::empty(),
            r.clients_view() == Map::<u128, ClientInfo>::empty(),
            r.tokens_view() == Map::<Seq<char>, ResumeRecord>::empty(),
    {
        let r = ServerState {
            rooms: new_room_table(),
            clients: new_client_table(),
            resume_tokens: new_token_table(),
        };
        assert(r.rooms_view() =~= Map::empty());
        assert(r.clients_view() =~= Map::empty());
        assert(r.tokens_view() =~= Map::empty());
        r
    }

    /// The room code `c` is in, if `c` is a known client in a room.
    pub open spec fn client_room(&self, c: u128) -> Option<Seq<char>> {
        if self.clients_view().contains_key(c) {
            room_of(self.clients_view()[c])
        } else {
            None
        }
    }

    /// The name `c` ends up with when it offers `provided`: the sanitized
    /// offer, else the name it has, else its guest name.
    pub open spec fn resolved_name(&self, c: u128, provided: Option<Seq<char>>) -> Seq<char> {
        let offered = match provided {
            Some(p) => sanitized_name(p),
            None => None,
        };
        match offered {
            Some(n) => n,
            None => if self.clients_view().contains_key(c) {
                self.clients_view()[c].display_name@
            } else {
                guest_name(c)
            },
        }
    }

    /// The rooms other than `code` are as they were.
    pub open spec fn other_rooms_kept(&self, before: &Self, code: Seq<char>) -> bool {
        forall|k: Seq<char>|
            k != code ==> (#[trigger] self.rooms_view().contains_key(k) == before.rooms_view().contains_key(k)
                && (self.rooms_view().contains_key(k) ==> self.rooms_view()[k] == before.rooms_view()[k]))
    }

    /// The clients other than `c` are as they were.
    pub open spec fn other_clients_kept(&self, before: &Self, c: u128) -> bool {
        forall|k: u128|
            k != c ==> (#[trigger] self.clients_view().contains_key(k) == before.clients_view().contains_key(k)
                && (self.clients_view().contains_key(k) ==> self.clients_view()[k] == before.clients_view()[k]))
    }

    /// The name `c` gets when it offers `provided` (see `resolved_name`).
    fn resolve_name(&self, c: u128, provided: Option<String>) -> (r: String)
        ensures
            r@ == self.resolved_name(c, match provided {
                Some(p) => Some(p@),
                None => None,
            }),
    {
        let offered = match provided {
            Some(p) => sanitize_display_name(p.as_str()),
            None => None,
        };
        match offered {
            Some(n) => n,
            None => match client_get(&self.clients, c) {
                Some(info) => info.display_name,
                None => default_display_name(c),
            },
        }
    }

    /// The ids of the members of `room_id`, in order; empty for an unknown
    /// room.
    pub fn get_room_members(&self, room_id: &str) -> (r: Vec<u128>)
        ensures
            self.rooms_view().contains_key(room_id@) ==> r@ == self.rooms_view()[room_id@].members@,
            !self.rooms_view().contains_key(room_id@) ==> r@.len() == 0,
    {
        match room_get(&self.rooms, room_id) {
            Some(room) => room.members,
            None => Vec::new(),
        }
    }

    /// The room `client_id` is in, if any.
    pub fn room_of_client(&self, client_id: u128) -> (r: Option<String>)
        ensures
            match r {
                Some(code) => self.client_room(client_id) == Some(code@),
                None => self.client_room(client_id) is None,
            },
    {
        match client_get(&self.clients, client_id) {
            Some(info) => info.room_id,
            None => None,
        }
    }

    /// Registers a newly connected client under its guest name; a known
    /// client is left as it is.
    pub fn add_client(&mut self, client_id: u128)
        requires
            old(self).wf(),
        ensures
            final(self).wf(),
            final(self).rooms_view() == old(self).rooms_view(),
            final(self).tokens_view() == old(self).tokens_view(),
            final(self).clients_view().contains_key(client_id),
            !old(self).clients_view().contains_key(client_id) ==> final(self).clients_view()
                == old(self).clients_view().insert(
                client_id,
                final(self).clients_view()[client_id],
            ) && final(self).clients_view()[client_id].room_id is None
                && final(self).clients_view()[client_id].display_name@ == guest_name(client_id),
            old(self).clients_view().contains_key(client_id) ==> final(self).clients_view()
                == old(self).clients_view(),
    {
        if client_get(&self.clients, client_id).is_none() {
            let info = ClientInfo { room_id: None, display_name: default_display_name(client_id) };
            client_insert(&mut self.clients, client_id, info);
            assert(self.members_known());
        }
    }

    /// Takes `client_id` out of its room. A room left empty is destroyed
    /// together with every resume token bound to it. Returns the room left.
    pub fn leave_room(&mut self, client_id: u128) -> (r: Option<String>)
        requires
            old(self).wf(),
        ensures
            final(self).wf(),
            match r {
                Some(code) => old(self).client_room(client_id) == Some(code@),
                None => old(self).client_room(client_id) is None,
            },
            final(self).client_room(client_id) is None,
            final(self).clients_view().dom() == old(self).clients_view().dom(),
            final(self).other_clients_kept(old(self), client_id),
            final(self).clients_view().contains_key(client_id) ==> final(self).clients_view()[client_id].display_name == old(self).clients_view()[client_id].display_name,
            r is None ==> final(self).rooms_view() == old(self).rooms_view() && final(self).tokens_view() == old(self).tokens_view(),
            r is Some ==> ({
                let code = r->0@;
                let before = old(self).rooms_view()[code];
                let rest = before.members@.filter(other_than(client_id));
                &&& final(self).other_rooms_kept(old(self), code)
                &&& rest.len() == 0 ==> !final(self).rooms_view().contains_key(code)
                    && final(self).tokens_view() == old(self).tokens_view().restrict(
                    old(self).tokens_view().dom().filter(
                        |t: Seq<char>| old(self).tokens_view()[t].room_id@ != code,
                    ),
                )
                &&& rest.len() > 0 ==> final(self).rooms_view().contains_key(code)
                    && final(self).rooms_view()[code].members@ == rest
                    && final(self).rooms_view()[code].host_id == before.host_id
                    && final(self).rooms_view()[code].capacity == before.capacity
                    && final(self).rooms_view()[code].file_hash == before.file_hash
                    && final(self).rooms_view()[code].passcode_hash == before.passcode_hash
                    && final(self).tokens_view() == old(self).tokens_view()
            }),
    {
        let info = match client_get(&self.clients, client_id) {
            Some(info) => info,
            None => return None,
        };
        let code = match info.room_id {
            Some(code) => code,
            None => return None,
        };
        let ghost before = *self;
        let room = room_get(&self.rooms, code.as_str()).unwrap();
        let rest = without_member(&room.members, client_id);
        if rest.len() == 0 {
            room_remove(&mut self.rooms, code.as_str());
            let sweep = TokenSweep::OfRoom(code.clone());
            token_retain(&mut self.resume_tokens, &sweep);
            proof {
                assert(room.members@ =~= seq![client_id]) by {
                    assert forall|x: u128| room.members@.contains(x) implies x == client_id by {
                        if x != client_id {
                            assert(rest@.contains(x));
                        }
                    }
                    lemma_single_member(room.members@, client_id);
                }
            }
        } else {
            let kept = Room {
                host_id: room.host_id,
                file_hash: room.file_hash.clone(),
                passcode_hash: room.passcode_hash.clone(),
                capacity: room.capacity,
                members: rest,
            };
            room_insert(&mut self.rooms, code.clone(), kept);
        }
        let cleared = ClientInfo { room_id: None, display_name: info.display_name };
        client_insert(&mut self.clients, client_id, cleared);
        proof {
            let code_v = code@;
            assert(self.rooms_ok()) by {
                assert forall|k: Seq<char>| #[trigger] self.rooms_view().contains_key(k) implies is_room_code(k)
                    && members_ok(self.rooms_view()[k]) by {
                    assert(before.rooms_view().contains_key(k));
                }
            }
            assert(self.members_known()) by {
                assert forall|k: Seq<char>, x: u128|
                    self.rooms_view().contains_key(k) && #[trigger] self.rooms_view()[k].members@.contains(x)
                    implies self.clients_view().contains_key(x) && room_of(self.clients_view()[x]) == Some(k) by {
                    assert(before.rooms_view().contains_key(k));
                    if k == code_v {
                        assert(before.rooms_view()[k].members@.contains(x));
                    } else {
                        assert(before.rooms_view()[k].members@.contains(x));
                        if x == client_id {
                            assert(room_of(before.clients_view()[x]) == Some(k));
                        }
                    }
                }
            }
            assert(self.clients_placed()) by {
                assert forall|x: u128| #[trigger] self.clients_view().contains_key(x) && room_of(self.clients_view()[x]) is Some
                    implies self.rooms_view().contains_key(room_of(self.clients_view()[x])->0)
                    && self.rooms_view()[room_of(self.clients_view()[x])->0].members@.contains(x) by {
                    let k = room_of(self.clients_view()[x])->0;
                    assert(x != client_id);
                    assert(before.clients_view()[x] == self.clients_view()[x]);
                    assert(before.rooms_view()[k].members@.contains(x));
                    if k == code_v {
                        assert(rest@.contains(x));
                    }
                }
            }
            assert(self.tokens_live()) by {
                assert forall|t: Seq<char>| #[trigger] self.tokens_view().contains_key(t)
                    implies self.rooms_view().contains_key(self.tokens_view()[t].room_id@) by {
                    assert(before.tokens_view().contains_key(t));
                }
            }
            assert(self.one_token_per_client()) by {
                assert forall|t1: Seq<char>, t2: Seq<char>|
                    self.tokens_view().contains_key(t1) && self.tokens_view().contains_key(t2)
                    && #[trigger] self.tokens_view()[t1].client_id == #[trigger] self.tokens_view()[t2].client_id
                    implies t1 == t2 by {
                    assert(before.tokens_view().contains_key(t1));
                    assert(before.tokens_view().contains_key(t2));
                }
            }
            if rest@.len() == 0 {
                assert(self.tokens_view() =~= before.tokens_view().restrict(
                    before.tokens_view().dom().filter(
                        |t: Seq<char>| before.tokens_view()[t].room_id@ != code_v,
                    ),
                ));
            }
            assert(self.clients_view().dom() =~= before.clients_view().dom());
        }
        Some(code)
    }

    /// A drawn token can be issued: no live token has its text, and it is
    /// not the token just spent.
    pub open spec fn usable(&self, drawn: Seq<char>, spent: Seq<char>) -> bool {
        !self.tokens_view().contains_key(drawn) && drawn != spent
    }

    /// Whether `drawn` can be issued (see `usable`).
    pub fn token_usable(&self, drawn: &str, spent: &str) -> (r: bool)
        ensures
            r == self.usable(drawn@, spent@),
    {
        !token_contains(&self.resume_tokens, drawn) && !drawn.to_owned().eq(&spent.to_owned())
    }

    /// Draws random tokens, up to four, until one can be issued; the last
    /// draw when none could.
    pub fn draw_token(&self, spent: &str) -> (r: String) {
        let mut t = random_token();
        let mut tries: u32 = 1;
        while tries < 4 && !self.token_usable(t.as_str(), spent)
            decreases 4 - tries,
        {
            t = random_token();
            tries = tries + 1;
        }
        t
    }

    /// Drops the resume token `client_id` holds, if any.
    pub fn clear_session(&mut self, client_id: u128)
        requires
            old(self).wf(),
        ensures
            final(self).wf(),
            final(self).rooms_view() == old(self).rooms_view(),
            final(self).clients_view() == old(self).clients_view(),
            final(self).tokens_view() == old(self).tokens_view().restrict(
                old(self).tokens_view().dom().filter(
                    |t: Seq<char>| old(self).tokens_view()[t].client_id != client_id,
                ),
            ),
    {
        let ghost before = *self;
        let sweep = TokenSweep::OfClient(client_id);
        token_retain(&mut self.resume_tokens, &sweep);
        proof {
            assert(self.tokens_view() =~= before.tokens_view().restrict(
                before.tokens_view().dom().filter(
                    |t: Seq<char>| before.tokens_view()[t].client_id != client_id,
                ),
            ));
            assert(self.tokens_live()) by {
                assert forall|t: Seq<char>| #[trigger] self.tokens_view().contains_key(t)
                    implies self.rooms_view().contains_key(self.tokens_view()[t].room_id@) by {
                    assert(before.tokens_view().contains_key(t));
                }
            }
            assert(self.one_token_per_client()) by {
                assert forall|t1: Seq<char>, t2: Seq<char>|
                    self.tokens_view().contains_key(t1) && self.tokens_view().contains_key(t2)
                    && #[trigger] self.tokens_view()[t1].client_id == #[trigger] self.tokens_view()[t2].client_id
                    implies t1 == t2 by {
                    assert(before.tokens_view().contains_key(t1));
                    assert(before.tokens_view().contains_key(t2));
                }
            }
        }
    }

    /// Issues the drawn token `drawn` to `client_id` for `room_id`, when it
    /// can be issued (see `usable`): any token the client held before is
    /// invalidated in the same step. Otherwise nothing changes and the result
    /// is `None`.
    pub fn install_token(
        &mut self,
        client_id: u128,
        room_id: &str,
        file_hash: &str,
        was_host: bool,
        drawn: String,
        spent: &str,
    ) -> (r: Option<String>)
        requires
            old(self).wf(),
            old(self).rooms_view().contains_key(room_id@),
        ensures
            final(self).wf(),
            r is Some <==> old(self).usable(drawn@, spent@),
            r is None ==> *final(self) == *old(self),
            r is Some ==> ({
                let rec = final(self).tokens_view()[drawn@];
                &&& r->0@ == drawn@
                &&& final(self).rooms_view() == old(self).rooms_view()
                &&& final(self).clients_view() == old(self).clients_view()
                &&& final(self).tokens_view() == old(self).tokens_view().restrict(
                    old(self).tokens_view().dom().filter(
                        |t: Seq<char>| old(self).tokens_view()[t].client_id != client_id,
                    ),
                ).insert(drawn@, rec)
                &&& rec.client_id == client_id
                &&& rec.room_id@ == room_id@
                &&& rec.file_hash@ == file_hash@
                &&& rec.was_host == was_host
                &&& rec.display_name is Some == old(self).clients_view().contains_key(client_id)
                &&& rec.display_name is Some ==> rec.display_name->0 == old(self).clients_view()[client_id].display_name
            }),
    {
        if !self.token_usable(drawn.as_str(), spent) {
            return None;
        }
        let ghost start = *self;
        self.clear_session(client_id);
        let ghost mid = *self;
        let display_name = match client_get(&self.clients, client_id) {
            Some(info) => Some(info.display_name),
            None => None,
        };
        let rec = ResumeRecord {
            client_id,
            room_id: room_id.to_owned(),
            file_hash: file_hash.to_owned(),
            was_host,
            display_name,
        };
        let token = drawn.clone();
        token_insert(&mut self.resume_tokens, drawn, rec);
        proof {
            assert(self.tokens_live()) by {
                assert forall|t: Seq<char>| #[trigger] self.tokens_view().contains_key(t)
                    implies self.rooms_view().contains_key(self.tokens_view()[t].room_id@) by {
                    if t != token@ {
                        assert(mid.tokens_view().contains_key(t));
                    }
                }
            }
            assert(self.one_token_per_client()) by {
                assert forall|t1: Seq<char>, t2: Seq<char>|
                    self.tokens_view().contains_key(t1) && self.tokens_view().contains_key(t2)
                    && #[trigger] self.tokens_view()[t1].client_id == #[trigger] self.tokens_view()[t2].client_id
                    implies t1 == t2 by {
                    if t1 != token@ {
                        assert(mid.tokens_view().contains_key(t1));
                    }
                    if t2 != token@ {
                        assert(mid.tokens_view().contains_key(t2));
                    }
                }
            }
        }
        Some(token)
    }

    /// Issues a fresh random resume token binding `client_id` to `room_id`
    /// (see `install_token`, which decides for the token drawn); any token the
    /// client held before is invalidated in the same step.
    pub fn remember_session(&mut self, client_id: u128, room_id: &str, file_hash: &str, was_host: bool) -> (r: Option<String>)
        requires
            old(self).wf(),
            old(self).rooms_view().contains_key(room_id@),
        ensures
            final(self).wf(),
            final(self).rooms_view() == old(self).rooms_view(),
            final(self).clients_view() == old(self).clients_view(),
            r is None ==> *final(self) == *old(self),
            r is Some ==> ({
                let rec = final(self).tokens_view()[r->0@];
                &&& !old(self).tokens_view().contains_key(r->0@)
                &&& final(self).tokens_view() == old(self).tokens_view().restrict(
                    old(self).tokens_view().dom().filter(
                        |t: Seq<char>| old(self).tokens_view()[t].client_id != client_id,
                    ),
                ).insert(r->0@, rec)
                &&& rec.client_id == client_id
                &&& rec.room_id@ == room_id@
                &&& rec.file_hash@ == file_hash@
                &&& rec.was_host == was_host
            }),
    {
        let drawn = self.draw_token("");
        self.install_token(client_id, room_id, file_hash, was_host, drawn, "")
    }

    /// A room code that no live room has, searching upward from `start` and
    /// then from zero; `None` only when all one million codes are live.
    fn free_code(&self, start: u32) -> (r: Option<String>)
        requires
            start < CODE_SPACE,
        ensures
            match r {
                Some(code) => is_room_code(code@) && !self.rooms_view().contains_key(code@),
                None => forall|n: int|
                    0 <= n < CODE_SPACE ==> #[trigger] self.rooms_view().contains_key(code_text(n)),
            },
    {
        let mut n: u32 = start;
        while n < CODE_SPACE
            invariant
                start <= n <= CODE_SPACE,
                forall|k: int| start <= k < n ==> #[trigger] self.rooms_view().contains_key(code_text(k)),
            decreases CODE_SPACE - n,
        {
            let code = format_room_code(n);
            if !room_contains(&self.rooms, code.as_str()) {
                return Some(code);
            }
            n = n + 1;
        }
        let mut m: u32 = 0;
        while m < start
            invariant
                m <= start < CODE_SPACE,
                forall|k: int| start <= k < CODE_SPACE ==> #[trigger] self.rooms_view().contains_key(code_text(k)),
                forall|k: int| 0 <= k < m ==> #[trigger] self.rooms_view().contains_key(code_text(k)),
            decreases start - m,
        {
            let code = format_room_code(m);
            if !room_contains(&self.rooms, code.as_str()) {
                return Some(code);
            }
            m = m + 1;
        }
        None
    }

    /// Opens a room with `host_id` as its only member and host. The host
    /// first leaves any room it is in. The code is drawn at random among
    /// the codes no live room has; `None` only when every code is live.
    /// Returns the code, whether a passcode guards the room, its capacity
    /// and the host's resolved name.
    pub fn create_room(
        &mut self,
        host_id: u128,
        file_hash: String,
        passcode: Option<String>,
        display_name: Option<String>,
        capacity: Option<usize>,
    ) -> (r: Option<(String, bool, usize, String)>)
        requires
            old(self).wf(),
        ensures
            final(self).wf(),
            final(self).client_room(host_id) is None ==> r is None,
            forall|k: Seq<char>|
                Some(k) != old(self).client_room(host_id) && (r is None || k != (r->0).0@) ==> (
                #[trigger] final(self).rooms_view().contains_key(k) == old(self).rooms_view().contains_key(k)
                    && (final(self).rooms_view().contains_key(k) ==> final(self).rooms_view()[k] == old(self).rooms_view()[k])),
            old(self).client_room(host_id) is None && r is None ==> *final(self) == *old(self),
            forall|t: Seq<char>| #[trigger] final(self).tokens_view().contains_key(t)
                ==> old(self).tokens_view().contains_key(t),
            match r {
                None => forall|n: int|
                    0 <= n < CODE_SPACE ==> #[trigger] final(self).rooms_view().contains_key(code_text(n)),
                Some((code, enabled, cap, name)) => {
                    let room = final(self).rooms_view()[code@];
                    &&& is_room_code(code@)
                    &&& !old(self).rooms_view().contains_key(code@) || old(self).client_room(host_id)
                        == Some(code@)
                    &&& final(self).rooms_view().contains_key(code@)
                    &&& room.members@ == seq![host_id]
                    &&& room.host_id == host_id
                    &&& room.file_hash@ == file_hash@
                    &&& room.capacity == normalized_capacity(capacity)
                    &&& cap == room.capacity
                    &&& enabled == room.passcode_hash is Some
                    &&& enabled == (passcode is Some && passcode->0@.len() > 0)
                    &&& enabled ==> room.passcode_hash->0@ == passcode_digest(code@, passcode->0@)
                    &&& final(self).client_room(host_id) == Some(code@)
                    &&& final(self).clients_view()[host_id].display_name@ == name@
                    &&& name@ == old(self).resolved_name(host_id, match display_name {
                        Some(d) => Some(d@),
                        None => None,
                    })
                }
            },
    {
        if self.room_of_client(host_id).is_some() {
            self.leave_room(host_id);
        }
        let ghost mid = *self;
        let start = (random_u128() % 1000000) as u32;
        let code = match self.free_code(start) {
            Some(code) => code,
            None => return None,
        };
        let passcode_hash = match passcode {
            Some(p) => if p.as_str().unicode_len() > 0 {
                Some(hash_passcode(p.as_str(), code.as_str()))
            } else {
                None
            },
            None => None,
        };
        let enabled = passcode_hash.is_some();
        let cap = normalize_capacity(capacity);
        let mut members: Vec<u128> = Vec::new();
        members.push(host_id);
        let room = Room { host_id, file_hash, passcode_hash, capacity: cap, members };
        room_insert(&mut self.rooms, code.clone(), room);
        let name = self.resolve_name(host_id, display_name);
        let info = ClientInfo { room_id: Some(code.clone()), display_name: name.clone() };
        client_insert(&mut self.clients, host_id, info);
        proof {
            let cv = code@;
            assert(members@ =~= seq![host_id]);
            assert(mid.client_room(host_id) is None);
            assert(self.rooms_ok()) by {
                assert forall|k: Seq<char>| #[trigger] self.rooms_view().contains_key(k) implies is_room_code(k)
                    && members_ok(self.rooms_view()[k]) by {
                    if k != cv {
                        assert(mid.rooms_view().contains_key(k));
                    } else {
                        assert(self.rooms_view()[k].members@.no_duplicates());
                    }
                }
            }
            assert(self.members_known()) by {
                assert forall|k: Seq<char>, x: u128|
                    self.rooms_view().contains_key(k) && #[trigger] self.rooms_view()[k].members@.contains(x)
                    implies self.clients_view().contains_key(x) && room_of(self.clients_view()[x]) == Some(k) by {
                    if k != cv {
                        assert(mid.rooms_view().contains_key(k));
                        assert(mid.rooms_view()[k].members@.contains(x));
                        if x == host_id {
                            assert(room_of(mid.clients_view()[x]) == Some(k));
                        }
                    } else {
                        assert(self.rooms_view()[k].members@ == seq![host_id]);
                        assert(x == host_id);
                    }
                }
            }
            assert(self.clients_placed()) by {
                assert forall|x: u128| #[trigger] self.clients_view().contains_key(x) && room_of(self.clients_view()[x]) is Some
                    implies self.rooms_view().contains_key(room_of(self.clients_view()[x])->0)
                    && self.rooms_view()[room_of(self.clients_view()[x])->0].members@.contains(x) by {
                    if x == host_id {
                        assert(self.rooms_view()[cv].members@[0] == host_id);
                    } else {
                        assert(mid.clients_view().contains_key(x));
                        let k = room_of(mid.clients_view()[x])->0;
                        assert(mid.rooms_view().contains_key(k));
                    }
                }
            }
            assert(self.tokens_live()) by {
                assert forall|t: Seq<char>| #[trigger] self.tokens_view().contains_key(t)
                    implies self.rooms_view().contains_key(self.tokens_view()[t].room_id@) by {
                    assert(mid.tokens_view().contains_key(t));
                }
            }
        }
        Some((code, enabled, cap, name))
    }

    /// How a join request for `room_id` is decided, in order of precedence:
    /// unknown room, file mismatch, passcode missing, passcode wrong, room
    /// full; otherwise the client is admitted.
    pub open spec fn join_check(
        &self,
        c: u128,
        room_id: Seq<char>,
        file_hash: Seq<char>,
        passcode: Option<Seq<char>>,
    ) -> JoinCheck {
        if !self.rooms_view().contains_key(room_id) {
            JoinCheck::NotFound
        } else {
            let room = self.rooms_view()[room_id];
            if room.file_hash@ != file_hash {
                JoinCheck::HashMismatch
            } else if room.passcode_hash is Some && passcode_offered(passcode) is None {
                JoinCheck::PasscodeMissing
            } else if room.passcode_hash is Some && passcode_digest(
                room_id,
                passcode_offered(passcode)->0,
            ) != room.passcode_hash->0@ {
                JoinCheck::PasscodeWrong
            } else if !room.members@.contains(c) && room.members@.len() >= room.capacity {
                JoinCheck::Full
            } else {
                JoinCheck::Admit
            }
        }
    }

    /// Admits `client_id` to `room_id` (see `join_check` for the refusals).
    /// A member joining again keeps its one seat. An admitted client first
    /// leaves any other room it is in. Returns whether the client is the
    /// room's host, the room's file hash, its capacity and the client's
    /// resolved name.
    pub fn join_room(
        &mut self,
        client_id: u128,
        room_id: &str,
        file_hash: &str,
        passcode: Option<String>,
        display_name: Option<String>,
    ) -> (r: Result<(bool, String, usize, String), JoinError>)
        requires
            old(self).wf(),
        ensures
            final(self).wf(),
            ({
                let check = old(self).join_check(client_id, room_id@, file_hash@, match passcode {
                    Some(p) => Some(p@),
                    None => None,
                });
                let before = old(self).rooms_view()[room_id@];
                let after = final(self).rooms_view()[room_id@];
                match r {
                    Err(e) => {
                        &&& check == e.check()
                        &&& final(self).rooms_view() == old(self).rooms_view()
                        &&& final(self).clients_view() == old(self).clients_view()
                        &&& final(self).tokens_view() == old(self).tokens_view()
                        &&& e is FileHashMismatch ==> e->expected@ == before.file_hash@
                        &&& e is RoomFull ==> e->capacity == before.capacity
                    },
                    Ok((is_host, hash, cap, name)) => {
                        &&& check == JoinCheck::Admit
                        &&& forall|t: Seq<char>| #[trigger] final(self).tokens_view().contains_key(t)
                            ==> old(self).tokens_view().contains_key(t)
                        &&& final(self).rooms_view().contains_key(room_id@)
                        &&& after.members@ == (if before.members@.contains(client_id) {
                            before.members@
                        } else {
                            before.members@.push(client_id)
                        })
                        &&& after.host_id == before.host_id
                        &&& after.capacity == before.capacity
                        &&& after.file_hash == before.file_hash
                        &&& after.passcode_hash == before.passcode_hash
                        &&& is_host == (before.host_id == client_id)
                        &&& hash@ == before.file_hash@
                        &&& cap == before.capacity
                        &&& final(self).client_room(client_id) == Some(room_id@)
                        &&& final(self).clients_view()[client_id].display_name@ == name@
                        &&& name@ == old(self).resolved_name(client_id, match display_name {
                            Some(d) => Some(d@),
                            None => None,
                        })
                    },
                }
            }),
    {
        let room = match room_get(&self.rooms, room_id) {
            Some(room) => room,
            None => return Err(JoinError::RoomNotFound),
        };
        if !room.file_hash.eq(&file_hash.to_owned()) {
            return Err(JoinError::FileHashMismatch { expected: room.file_hash });
        }
        match &room.passcode_hash {
            Some(expected) => {
                let provided = match &passcode {
                    Some(p) => if p.as_str().unicode_len() > 0 {
                        p
                    } else {
                        return Err(JoinError::PasscodeRequired);
                    },
                    None => return Err(JoinError::PasscodeRequired),
                };
                let computed = hash_passcode(provided.as_str(), room_id);
                if !computed.eq(expected) {
                    return Err(JoinError::InvalidPasscode);
                }
            },
            None => {},
        }
        let already = has_member(&room.members, client_id);
        if !already && room.members.len() >= room.capacity {
            return Err(JoinError::RoomFull { capacity: room.capacity });
        }
        let ghost before = *self;
        let current = self.room_of_client(client_id);
        let here = room_id.to_owned();
        let elsewhere = match &current {
            Some(code) => !code.eq(&here),
            None => false,
        };
        if elsewhere {
            self.leave_room(client_id);
        }
        let ghost mid = *self;
        let is_host = room.host_id == client_id;
        let canonical = room.file_hash.clone();
        let capacity = room.capacity;
        let mut members = room.members;
        if !already {
            members.push(client_id);
        }
        let updated = Room {
            host_id: room.host_id,
            file_hash: room.file_hash,
            passcode_hash: room.passcode_hash,
            capacity,
            members,
        };
        room_insert(&mut self.rooms, here.clone(), updated);
        let name = self.resolve_name(client_id, display_name);
        let info = ClientInfo { room_id: Some(here), display_name: name.clone() };
        client_insert(&mut self.clients, client_id, info);
        proof {
            let rv = room_id@;
            assert(mid.rooms_view().contains_key(rv));
            assert(mid.rooms_view()[rv] == before.rooms_view()[rv]);
            assert(mid.client_room(client_id) is None || mid.client_room(client_id) == Some(rv));
            self.lemma_admitted(mid, client_id, rv);
        }
        Ok((is_host, canonical, capacity, name))
    }

    /// After `c` was entered into room `rv` from state `mid`, in which `c`
    /// was in no room or already in `rv`, the state is well formed.
    proof fn lemma_admitted(&self, mid: Self, c: u128, rv: Seq<char>)
        requires
            mid.wf(),
            mid.rooms_view().contains_key(rv),
            mid.client_room(c) is None || mid.client_room(c) == Some(rv),
            self.rooms_view() == mid.rooms_view().insert(rv, self.rooms_view()[rv]),
            self.tokens_view() == mid.tokens_view(),
            self.clients_view() == mid.clients_view().insert(c, self.clients_view()[c]),
            room_of(self.clients_view()[c]) == Some(rv),
            ({
                let b = mid.rooms_view()[rv];
                let a = self.rooms_view()[rv];
                &&& a.capacity == b.capacity
                &&& a.members@ == (if b.members@.contains(c) {
                    b.members@
                } else {
                    b.members@.push(c)
                })
                &&& (!b.members@.contains(c) ==> b.members@.len() < b.capacity)
            }),
        ensures
            self.wf(),
    {
        let b = mid.rooms_view()[rv];
        let a = self.rooms_view()[rv];
        assert(a.members@.contains(c)) by {
            if !b.members@.contains(c) {
                assert(a.members@[a.members@.len() - 1] == c);
            }
        }
        assert(self.rooms_ok()) by {
            assert forall|k: Seq<char>| #[trigger] self.rooms_view().contains_key(k) implies is_room_code(k)
                && members_ok(self.rooms_view()[k]) by {
                assert(mid.rooms_view().contains_key(k));
                if k == rv && !b.members@.contains(c) {
                    assert(a.members@.no_duplicates()) by {
                        assert forall|i: int, j: int| 0 <= i < a.members@.len() && 0 <= j < a.members@.len() && i != j
                            implies a.members@[i] != a.members@[j] by {
                            if i == a.members@.len() - 1 {
                                assert(b.members@.contains(a.members@[j]));
                            } else if j == a.members@.len() - 1 {
                                assert(b.members@.contains(a.members@[i]));
                            }
                        }
                    }
                }
            }
        }
        assert(self.members_known()) by {
            assert forall|k: Seq<char>, x: u128|
                self.rooms_view().contains_key(k) && #[trigger] self.rooms_view()[k].members@.contains(x)
                implies self.clients_view().contains_key(x) && room_of(self.clients_view()[x]) == Some(k) by {
                if k != rv {
                    assert(mid.rooms_view()[k].members@.contains(x));
                    if x == c {
                        assert(room_of(mid.clients_view()[x]) == Some(k));
                    }
                } else if x != c {
                    assert(b.members@.contains(x)) by {
                        if !b.members@.contains(c) {
                            let i = choose|i: int| 0 <= i < a.members@.len() && a.members@[i] == x;
                            assert(b.members@[i] == x);
                        }
                    }
                }
            }
        }
        assert(self.clients_placed()) by {
            assert forall|x: u128| #[trigger] self.clients_view().contains_key(x) && room_of(self.clients_view()[x]) is Some
                implies self.rooms_view().contains_key(room_of(self.clients_view()[x])->0)
                && self.rooms_view()[room_of(self.clients_view()[x])->0].members@.contains(x) by {
                if x != c {
                    assert(mid.clients_view().contains_key(x));
                    let k = room_of(mid.clients_view()[x])->0;
                    assert(mid.rooms_view()[k].members@.contains(x));
                    if k == rv && !b.members@.contains(c) {
                        let i = choose|i: int| 0 <= i < b.members@.len() && b.members@[i] == x;
                        assert(a.members@[i] == x);
                    }
                }
            }
        }
        assert(self.tokens_live()) by {
            assert forall|t: Seq<char>| #[trigger] self.tokens_view().contains_key(t)
                implies self.rooms_view().contains_key(self.tokens_view()[t].room_id@) by {
                assert(mid.tokens_view().contains_key(t));
            }
        }
    }

    /// Redeems `token` for the new connection `client_id`, drawing a fresh
    /// random token for it (see `redeem_token`, which decides for the token
    /// drawn).
    pub fn resume_session(&mut self, client_id: u128, token: &str, display_name: Option<String>) -> (r: Result<ResumeOutcome, ResumeError>)
        requires
            old(self).wf(),
        ensures
            final(self).wf(),
            !final(self).tokens_view().contains_key(token@),
            !old(self).tokens_view().contains_key(token@) ==> r == Err::<ResumeOutcome, ResumeError>(
                ResumeError::TokenInvalid,
            ) && *final(self) == *old(self),
            old(self).tokens_view().contains_key(token@) ==> ({
                let rec = old(self).tokens_view()[token@];
                let before = old(self).rooms_view()[rec.room_id@];
                let full = !before.members@.contains(client_id) && before.members@.len() >= before.capacity;
                &&& r != Err::<ResumeOutcome, ResumeError>(ResumeError::TokenInvalid)
                &&& full <==> r == Err::<ResumeOutcome, ResumeError>(ResumeError::RoomFull { capacity: before.capacity })
                &&& r is Ok ==> resumed(*old(self), *final(self), client_id, token@, r->Ok_0)
            }),
    {
        let drawn = self.draw_token(token);
        self.redeem_token(client_id, token, display_name, drawn)
    }

    /// Redeems `token` for the new connection `client_id`, issuing `drawn`
    /// as its new token. An unknown token changes nothing. Otherwise the
    /// token is consumed whatever follows; the room must have a seat for the
    /// client, and `drawn` must be issuable (see `usable`). Then the client
    /// re-enters the room the token is bound to (keeping one seat if it is
    /// there already, leaving any other room first); if the token was a
    /// host's, the client becomes the room's host; its name is
    /// `display_name`, else the name recorded with the token.
    pub fn redeem_token(
        &mut self,
        client_id: u128,
        token: &str,
        display_name: Option<String>,
        drawn: String,
    ) -> (r: Result<ResumeOutcome, ResumeError>)
        requires
            old(self).wf(),
        ensures
            final(self).wf(),
            !final(self).tokens_view().contains_key(token@),
            !old(self).tokens_view().contains_key(token@) ==> r == Err::<ResumeOutcome, ResumeError>(
                ResumeError::TokenInvalid,
            ) && *final(self) == *old(self),
            old(self).tokens_view().contains_key(token@) ==> ({
                let rec = old(self).tokens_view()[token@];
                let before = old(self).rooms_view()[rec.room_id@];
                let full = !before.members@.contains(client_id) && before.members@.len() >= before.capacity;
                let unusable = drawn@ == token@ || old(self).tokens_view().contains_key(drawn@);
                &&& full ==> r == Err::<ResumeOutcome, ResumeError>(ResumeError::RoomFull { capacity: before.capacity })
                &&& !full && unusable ==> r == Err::<ResumeOutcome, ResumeError>(ResumeError::TokenUnavailable)
                &&& !full && !unusable ==> r is Ok
                &&& r is Err ==> final(self).rooms_view() == old(self).rooms_view()
                    && final(self).clients_view() == old(self).clients_view()
                    && final(self).tokens_view() == old(self).tokens_view().remove(token@)
                &&& r is Ok ==> r->Ok_0.resume_token@ == drawn@ && resumed(
                    *old(self),
                    *final(self),
                    client_id,
                    token@,
                    r->Ok_0,
                )
            }),
    {
        if !token_contains(&self.resume_tokens, token) {
            return Err(ResumeError::TokenInvalid);
        }
        let ghost start = *self;
        let rec = match token_take(&mut self.resume_tokens, token) {
            Some(rec) => rec,
            None => return Err(ResumeError::TokenInvalid),
        };
        let ghost taken = *self;
        proof {
            assert(self.tokens_live()) by {
                assert forall|t: Seq<char>| #[trigger] self.tokens_view().contains_key(t)
                    implies self.rooms_view().contains_key(self.tokens_view()[t].room_id@) by {
                    assert(start.tokens_view().contains_key(t));
                }
            }
            assert(self.one_token_per_client()) by {
                assert forall|t1: Seq<char>, t2: Seq<char>|
                    self.tokens_view().contains_key(t1) && self.tokens_view().contains_key(t2)
                    && #[trigger] self.tokens_view()[t1].client_id == #[trigger] self.tokens_view()[t2].client_id
                    implies t1 == t2 by {
                    assert(start.tokens_view().contains_key(t1));
                    assert(start.tokens_view().contains_key(t2));
                }
            }
            assert(start.tokens_view().contains_key(token@));
        }
        let room = room_get(&self.rooms, rec.room_id.as_str()).unwrap();
        let already = has_member(&room.members, client_id);
        if !already && room.members.len() >= room.capacity {
            return Err(ResumeError::RoomFull { capacity: room.capacity });
        }
        if !self.token_usable(drawn.as_str(), token) {
            return Err(ResumeError::TokenUnavailable);
        }
        let current = self.room_of_client(client_id);
        let elsewhere = match &current {
            Some(code) => !code.eq(&rec.room_id),
            None => false,
        };
        if elsewhere {
            self.leave_room(client_id);
        }
        let ghost mid = *self;
        let passcode_enabled = room.passcode_hash.is_some();
        let capacity = room.capacity;
        let host_id = if rec.was_host { client_id } else { room.host_id };
        let mut members = room.members;
        if !already {
            members.push(client_id);
        }
        let updated = Room {
            host_id,
            file_hash: room.file_hash,
            passcode_hash: room.passcode_hash,
            capacity,
            members,
        };
        room_insert(&mut self.rooms, rec.room_id.clone(), updated);
        let offered = match display_name {
            Some(n) => Some(n),
            None => rec.display_name.clone(),
        };
        let name = self.resolve_name(client_id, offered);
        let info = ClientInfo { room_id: Some(rec.room_id.clone()), display_name: name.clone() };
        client_insert(&mut self.clients, client_id, info);
        proof {
            let rv = rec.room_id@;
            assert(mid.rooms_view().contains_key(rv));
            self.lemma_admitted(mid, client_id, rv);
        }
        let ghost admitted = *self;
        proof {
            assert(!admitted.tokens_view().contains_key(drawn@)) by {
                if admitted.tokens_view().contains_key(drawn@) {
                    assert(mid.tokens_view().contains_key(drawn@));
                    assert(taken.tokens_view().contains_key(drawn@));
                }
            }
        }
        let new_token = match self.install_token(
            client_id,
            rec.room_id.as_str(),
            rec.file_hash.as_str(),
            rec.was_host,
            drawn,
            token,
        ) {
            Some(t) => t,
            None => return Err(ResumeError::TokenUnavailable),
        };
        Ok(
            ResumeOutcome {
                room_id: rec.room_id,
                was_host: rec.was_host,
                passcode_enabled,
                resume_token: new_token,
                file_hash: rec.file_hash,
                capacity,
                display_name: name,
            },
        )
    }

    /// The roster of `room_id` in member order, with each member's name and
    /// whether it is the host, and the room's capacity; `None` for an
    /// unknown room.
    pub fn room_snapshot(&self, room_id: &str) -> (r: Option<(Vec<MemberSummary>, usize)>)
        ensures
            r is Some <==> self.rooms_view().contains_key(room_id@),
            r is Some ==> ({
                let room = self.rooms_view()[room_id@];
                let roster = (r->0).0@;
                &&& (r->0).1 == room.capacity
                &&& roster.len() == room.members@.len()
                &&& forall|i: int| 0 <= i < roster.len() ==> {
                    &&& (#[trigger] roster[i]).client_id == room.members@[i]
                    &&& roster[i].is_host == (room.members@[i] == room.host_id)
                    &&& self.clients_view().contains_key(room.members@[i]) ==> roster[i].display_name@
                        == self.clients_view()[room.members@[i]].display_name@
                }
            }),
    {
        let room = match room_get(&self.rooms, room_id) {
            Some(room) => room,
            None => return None,
        };
        let mut roster: Vec<MemberSummary> = Vec::new();
        let mut i: usize = 0;
        while i < room.members.len()
            invariant
                i <= room.members@.len(),
                room == self.rooms_view()[room_id@],
                roster@.len() == i,
                forall|j: int| 0 <= j < i ==> {
                    &&& (#[trigger] roster@[j]).client_id == room.members@[j]
                    &&& roster@[j].is_host == (room.members@[j] == room.host_id)
                    &&& self.clients_view().contains_key(room.members@[j]) ==> roster@[j].display_name@
                        == self.clients_view()[room.members@[j]].display_name@
                },
            decreases room.members@.len() - i,
        {
            let id = room.members[i];
            let display_name = match client_get(&self.clients, id) {
                Some(info) => info.display_name,
                None => default_display_name(id),
            };
            roster.push(MemberSummary { client_id: id, display_name, is_host: id == room.host_id });
            i = i + 1;
        }
        Some((roster, room.capacity))
    }

    /// Whether a passcode guards `room_id`.
    pub fn room_has_passcode(&self, room_id: &str) -> (r: bool)
        ensures
            r == (self.rooms_view().contains_key(room_id@) && self.rooms_view()[room_id@].passcode_hash is Some),
    {
        match room_get(&self.rooms, room_id) {
            Some(room) => room.passcode_hash.is_some(),
            None => false,
        }
    }

    /// The capacity of `room_id`, or the default capacity for an unknown
    /// room.
    pub fn room_capacity(&self, room_id: &str) -> (r: usize)
        ensures
            self.rooms_view().contains_key(room_id@) ==> r == self.rooms_view()[room_id@].capacity,
            !self.rooms_view().contains_key(room_id@) ==> r == DEFAULT_CAPACITY,
    {
        match room_get(&self.rooms, room_id) {
            Some(room) => room.capacity,
            None => DEFAULT_CAPACITY,
        }
    }

    /// Forgets a disconnected client, after taking it out of its room.
    /// Returns the room it left.
    pub fn remove_client(&mut self, client_id: u128) -> (r: Option<String>)
        requires
            old(self).wf(),
        ensures
            final(self).wf(),
            !final(self).clients_view().contains_key(client_id),
            match r {
                Some(code) => old(self).client_room(client_id) == Some(code@),
                None => old(self).client_room(client_id) is None,
            },
    {
        let left = self.leave_room(client_id);
        let ghost mid = *self;
        client_remove(&mut self.clients, client_id);
        proof {
            assert(self.members_known()) by {
                assert forall|k: Seq<char>, x: u128|
                    self.rooms_view().contains_key(k) && #[trigger] self.rooms_view()[k].members@.contains(x)
                    implies self.clients_view().contains_key(x) && room_of(self.clients_view()[x]) == Some(k) by {
                    assert(mid.rooms_view()[k].members@.contains(x));
                    if x == client_id {
                        assert(room_of(mid.clients_view()[x]) == Some(k));
                    }
                }
            }
            assert(self.clients_placed()) by {
                assert forall|x: u128| #[trigger] self.clients_view().contains_key(x) && room_of(self.clients_view()[x]) is Some
                    implies self.rooms_view().contains_key(room_of(self.clients_view()[x])->0)
                    && self.rooms_view()[room_of(self.clients_view()[x])->0].members@.contains(x) by {
                    assert(mid.clients_view().contains_key(x));
                }
            }
        }
        left
    }
}

/// Every member of a live room is a known client whose room is that room,
/// and no room holds more members than its capacity.
pub proof fn members_belong_to_their_room(s: ServerState, code: Seq<char>, c: u128)
    requires
        s.wf(),
        s.rooms_view().contains_key(code),
        s.rooms_view()[code].members@.contains(c),
    ensures
        s.client_room(c) == Some(code),
        s.rooms_view()[code].members@.len() <= s.rooms_view()[code].capacity,
{
}

/// No live room is empty, and every resume token is bound to a live room:
/// a room that loses its last member is gone with its tokens.
pub proof fn no_empty_room_or_orphan_token(s: ServerState, code: Seq<char>, t: Seq<char>)
    requires
        s.wf(),
    ensures
        s.rooms_view().contains_key(code) ==> s.rooms_view()[code].members@.len() > 0,
        s.tokens_view().contains_key(t) ==> s.rooms_view().contains_key(s.tokens_view()[t].room_id@),
{
}

/// A client holds at most one valid resume token.
pub proof fn one_resume_token_per_client(s: ServerState, t1: Seq<char>, t2: Seq<char>)
    requires
        s.wf(),
        s.tokens_view().contains_key(t1),
        s.tokens_view().contains_key(t2),
        s.tokens_view()[t1].client_id == s.tokens_view()[t2].client_id,
    ensures
        t1 == t2,
{
}

} // verus!
