//! Media fingerprints and passcode hashes, both lowercase hex SHA-256.
use vstd::prelude::*;
use crate::room::is_room_code;
use crate::text::push_str;

verus! {

/// Lowercase hex of the SHA-256 digest of the UTF-8 bytes of `text`.
pub uninterp spec fn sha256_hex(text: Seq<char>) -> Seq<char>;

/// A lowercase hex digit.
pub open spec fn lower_hex(c: char) -> bool {
    ('0' <= c <= '9') || ('a' <= c <= 'f')
}

/// Relies on `sha2::Sha256::digest` and its `LowerHex` formatting: the
/// digest of the string's UTF-8 bytes, two lowercase hex digits per byte of
/// the 32-byte digest.
#[verifier::external_body]
fn sha256_hex_of(text: &str) -> (r: String)
    ensures
        r@ == sha256_hex(text@),
        r@.len() == 64,
        forall|i: int| 0 <= i < r@.len() ==> lower_hex(#[trigger] r@[i]),
{
    format!("{:x}", <sha2::Sha256 as sha2::Digest>::digest(text.as_bytes()))
}

/// The last component of a path, as `Path::file_name` gives it.
pub uninterp spec fn file_name_of(path: Seq<char>) -> Option<Seq<char>>;

/// Relies on `std::path::Path::file_name`, kept only where the name is
/// valid UTF-8.
#[verifier::external_body]
fn path_file_name(path: &str) -> (r: Option<String>)
    ensures
        match r {
            Some(n) => file_name_of(path@) == Some(n@),
            None => file_name_of(path@) is None,
        },
{
    match std::path::Path::new(path).file_name() {
        Some(n) => n.to_str().map(|s| s.to_string()),
        None => None,
    }
}

/// Where a loaded video comes from; each kind is identified by one string.
#[derive(Clone, Debug, PartialEq, Eq)]
pub enum MediaSource {
    /// A local file, identified by its file name (not its path, not its
    /// contents).
    LocalFile(String),
    /// A stream opened by URL, identified by the URL.
    DirectUrl(String),
    /// A video found by a resolver, identified by the id it returned.
    ResolvedRemote(String),
}

impl MediaSource {
    /// The text whose bytes the fingerprint is taken over.
    pub open spec fn identity(self) -> Seq<char> {
        match self {
            MediaSource::LocalFile(n) => n@,
            MediaSource::DirectUrl(u) => u@,
            MediaSource::ResolvedRemote(id) => id@,
        }
    }
}

pub open spec fn fingerprint_of(src: MediaSource) -> Seq<char> {
    sha256_hex(src.identity())
}

/// The fingerprint of a media source: lowercase hex SHA-256 of its
/// identifying text.
pub fn fingerprint(src: &MediaSource) -> (r: String)
    ensures
        r@ == fingerprint_of(*src),
        r@.len() == 64,
        forall|i: int| 0 <= i < r@.len() ==> lower_hex(#[trigger] r@[i]),
{
    match src {
        MediaSource::LocalFile(n) => sha256_hex_of(n.as_str()),
        MediaSource::DirectUrl(u) => sha256_hex_of(u.as_str()),
        MediaSource::ResolvedRemote(id) => sha256_hex_of(id.as_str()),
    }
}

/// Two sources whose identifying text is equal have equal fingerprints,
/// whatever their kinds.
pub proof fn fingerprint_follows_identity(x: MediaSource, y: MediaSource)
    requires
        x.identity() == y.identity(),
    ensures
        fingerprint_of(x) == fingerprint_of(y),
{
}

/// Fingerprint of a string (a URL or a resolved id).
pub fn compute_string_hash(input: &str) -> (r: String)
    ensures
        r@ == sha256_hex(input@),
        r@.len() == 64,
        forall|i: int| 0 <= i < r@.len() ==> lower_hex(#[trigger] r@[i]),
{
    sha256_hex_of(input)
}

/// Fingerprint of a local file: the hash of its file name only; `None`
/// when the path has no file name.
pub fn compute_file_hash(path: &str) -> (r: Option<String>)
    ensures
        match r {
            Some(h) => exists|n: Seq<char>|
                file_name_of(path@) == Some(n) && h@ == sha256_hex(n),
            None => file_name_of(path@) is None,
        },
{
    match path_file_name(path) {
        Some(name) => Some(sha256_hex_of(name.as_str())),
        None => None,
    }
}

/// The text hashed for a room's passcode: the room code, then the passcode.
pub open spec fn passcode_input(room: Seq<char>, passcode: Seq<char>) -> Seq<char> {
    room + passcode
}

pub open spec fn passcode_digest(room: Seq<char>, passcode: Seq<char>) -> Seq<char> {
    sha256_hex(passcode_input(room, passcode))
}

/// The stored hash of `passcode` for the room `room_id`.
pub fn hash_passcode(passcode: &str, room_id: &str) -> (r: String)
    ensures
        r@ == passcode_digest(room_id@, passcode@),
{
    let mut input = String::new();
    push_str(&mut input, room_id);
    push_str(&mut input, passcode);
    assert(input@ =~= room_id@ + passcode@);
    sha256_hex_of(input.as_str())
}

/// The passcode hash is a function of the room and the passcode, and for
/// two room codes it hashes different texts whenever the rooms or the
/// passcodes differ: a passcode hash never carries over to another room.
pub proof fn passcode_hash_binds_room(room_a: Seq<char>, room_b: Seq<char>, code_a: Seq<char>, code_b: Seq<char>)
    requires
        is_room_code(room_a),
        is_room_code(room_b),
    ensures
        (room_a == room_b && code_a == code_b) ==> passcode_digest(room_a, code_a) == passcode_digest(room_b, code_b),
        (room_a != room_b || code_a != code_b) ==> passcode_input(room_a, code_a) != passcode_input(room_b, code_b),
{
    if passcode_input(room_a, code_a) == passcode_input(room_b, code_b) {
        assert(room_a =~= passcode_input(room_a, code_a).subrange(0, 7));
        assert(room_b =~= passcode_input(room_b, code_b).subrange(0, 7));
        assert(code_a =~= passcode_input(room_a, code_a).subrange(7, passcode_input(room_a, code_a).len() as int));
        assert(code_b =~= passcode_input(room_b, code_b).subrange(7, passcode_input(room_b, code_b).len() as int));
    }
}

} // verus!
