use vstd::prelude::*;
use vstd::string::*;
use rand::distr::{Alphanumeric, SampleString};
use rand::RngCore;
use vstd::utf8::*;
use crate::byte_stream::{lemma_overwrite_empty, text_fits, ByteStream};
use crate::logic::avatar::{client_avatar_at, client_avatar_bytes, default_client_avatar, lemma_client_avatar_read_back, ClientAvatarView, LogicClientAvatar};
use crate::math::LogicLong;
use crate::time_util::get_current_timestamp;

verus! {

/// The text that `rbase64::encode` gives for `bytes`.
pub uninterp spec fn base64_text(bytes: Seq<u8>) -> Seq<char>;

/// The bytes that `rbase64::decode` gives for `text`, and nothing where it
/// reports a byte that is not of the alphabet.
pub uninterp spec fn base64_bytes(text: Seq<char>) -> Option<Seq<u8>>;

/// `rbase64::encode`: the base64 text of the bytes, which `rbase64::decode`
/// turns back into the same bytes.
#[verifier::external_body]
fn base64_encode(bytes: &[u8]) -> (r: String)
    ensures
        r@ == base64_text(bytes@),
        base64_bytes(r@) == Some(bytes@),
{
    rbase64::encode(bytes)
}

/// `rbase64::decode`: the bytes that the text stands for, or nothing where
/// the crate reports an invalid byte.
#[verifier::external_body]
fn base64_decode(text: &str) -> (r: Option<Vec<u8>>)
    ensures
        match r {
            Some(bytes) => base64_bytes(text@) == Some(bytes@),
            None => base64_bytes(text@) is None,
        },
{
    match rbase64::decode(text) {
        Ok(bytes) => Some(bytes),
        Err(_) => None,
    }
}

/// A letter of the Latin alphabet or a digit.
pub open spec fn is_alphanumeric(c: char) -> bool {
    ('A' <= c && c <= 'Z') || ('a' <= c && c <= 'z') || ('0' <= c && c <= '9')
}

/// `rand::distr::Alphanumeric::sample_string` on the thread's generator: a
/// text of `len` letters and digits. Which ones is left to chance.
#[verifier::external_body]
fn random_alphanumeric(len: usize) -> (r: String)
    ensures
        r@.len() == len,
        forall|k: int| 0 <= k < r@.len() ==> is_alphanumeric(#[trigger] r@[k]),
{
    Alphanumeric.sample_string(&mut rand::rng(), len)
}

/// `rand::RngCore::fill_bytes` on the thread's generator, over a buffer of
/// `len` bytes: `len` bytes, left to chance.
#[verifier::external_body]
pub(crate) fn random_bytes(len: usize) -> (r: Vec<u8>)
    ensures
        r@.len() == len,
{
    let mut bytes = vec![0u8; len];
    rand::rng().fill_bytes(&mut bytes);
    bytes
}

/// The number of characters of a new player's token.
pub const PASS_TOKEN_LENGTH: usize = 40;

/// One player as storage keeps it.
pub struct PlayerSaveData {
    pub id: LogicLong,
    pub pass_token: String,
    pub home_json: String,
    pub client_avatar_blob: String,
    pub score: i32,
    pub last_save_timestamp: i64,
}

/// What a player's record holds, as plain values.
pub struct PlayerSaveDataView {
    pub id: LogicLong,
    pub pass_token: Seq<char>,
    pub home_json: Seq<char>,
    pub client_avatar_blob: Seq<char>,
    pub score: i32,
    pub last_save_timestamp: i64,
}

impl View for PlayerSaveData {
    type V = PlayerSaveDataView;

    open spec fn view(&self) -> PlayerSaveDataView {
        PlayerSaveDataView {
            id: self.id,
            pass_token: self.pass_token@,
            home_json: self.home_json@,
            client_avatar_blob: self.client_avatar_blob@,
            score: self.score,
            last_save_timestamp: self.last_save_timestamp,
        }
    }
}

/// What a record that may be missing holds.
pub open spec fn optional_record(data: Option<PlayerSaveData>) -> Option<PlayerSaveDataView> {
    match data {
        Some(d) => Some(d@),
        None => None,
    }
}

/// What storage is asked to do before a message is handled.
#[derive(PartialEq, Eq, Structural, Clone, Copy, Debug)]
pub enum PlayerQuery {
    /// Nothing: there is no record to hand over.
    Nothing,
    /// Insert a new record and hand it over with the identifier it got.
    Create,
    /// Hand over the record whose identifier has the higher half zero and
    /// this lower half, if there is one.
    Load(i32),
}

/// Whether storage can hold a record under `id`. Storage gives every record
/// an identifier that is not zero and whose higher half is zero, so any other
/// identifier names no record.
pub open spec fn storable(id: LogicLong) -> bool {
    id.higher_int == 0 && id.lower_int != 0
}

/// What a login asks of storage: a new record for the identifier zero, the
/// stored record for an identifier that storage can hold, and nothing for any
/// other.
pub open spec fn fetch_or_create(id: LogicLong) -> PlayerQuery {
    if id.is_zero() {
        PlayerQuery::Create
    } else if storable(id) {
        PlayerQuery::Load(id.lower_int)
    } else {
        PlayerQuery::Nothing
    }
}

/// What a lookup asks of storage: the stored record for an identifier that
/// storage can hold, and nothing for any other, the identifier zero among
/// them.
pub open spec fn fetch(id: LogicLong) -> PlayerQuery {
    if storable(id) {
        PlayerQuery::Load(id.lower_int)
    } else {
        PlayerQuery::Nothing
    }
}

/// Whether `data` is the record that a lookup of `id` may be answered with:
/// the identifier is not zero and the record carries it in both halves.
pub open spec fn record_of(data: PlayerSaveDataView, id: LogicLong) -> bool {
    !id.is_zero() && data.id == id
}

/// Whether `data` is a record that a login under `id` may be answered with:
/// for the identifier zero a record under an identifier that is not zero, for
/// any other the record that carries it in both halves.
pub open spec fn record_for_login(data: PlayerSaveDataView, id: LogicLong) -> bool {
    if id.is_zero() {
        !data.id.is_zero()
    } else {
        data.id == id
    }
}

/// A query that loads a record names exactly one identifier: the record that
/// answers it carries the identifier asked for in both halves, and a record
/// under another identifier answers neither a lookup nor a login.
pub proof fn lemma_load_names_the_identifier(id: LogicLong, other: LogicLong)
    ensures
        fetch(id) is Load ==> id == (LogicLong { higher_int: 0, lower_int: fetch(id)->Load_0 }),
        fetch_or_create(id) is Load ==> fetch_or_create(id) == fetch(id),
        fetch(id) is Load && fetch(other) == fetch(id) ==> other == id,
        fetch(LogicLong { higher_int: 0, lower_int: 0 }) == PlayerQuery::Nothing,
{
}

/// What a login with the identifier `id` asks of storage.
pub fn fetch_or_create_player(id: &LogicLong) -> (r: PlayerQuery)
    ensures
        r == fetch_or_create(*id),
{
    if id.is_zero() {
        PlayerQuery::Create
    } else if id.higher_int == 0 {
        PlayerQuery::Load(id.lower_int)
    } else {
        PlayerQuery::Nothing
    }
}

/// What a lookup of the identifier `id` asks of storage.
pub fn fetch_player(id: &LogicLong) -> (r: PlayerQuery)
    ensures
        r == fetch(*id),
{
    if id.higher_int == 0 && id.lower_int != 0 {
        PlayerQuery::Load(id.lower_int)
    } else {
        PlayerQuery::Nothing
    }
}

/// The form in which storage keeps an actor: the base64 text of its bytes.
pub open spec fn avatar_blob(a: ClientAvatarView) -> Seq<char> {
    base64_text(client_avatar_bytes(a))
}

/// The actor that bytes hold from their start, if they hold one.
pub open spec fn avatar_in(bytes: Seq<u8>) -> Option<ClientAvatarView> {
    match client_avatar_at(bytes, 0) {
        Some((a, _)) => Some(a),
        None => None,
    }
}

/// The actor that a stored form holds, if it holds one.
pub open spec fn stored_avatar(blob: Seq<char>) -> Option<ClientAvatarView> {
    match base64_bytes(blob) {
        Some(bytes) => avatar_in(bytes),
        None => None,
    }
}

/// What an actor that may be missing holds.
pub open spec fn optional_avatar(a: Option<LogicClientAvatar>) -> Option<ClientAvatarView> {
    match a {
        Some(v) => Some(v@),
        None => None,
    }
}

/// An actor whose name fits is read back from its bytes.
pub proof fn lemma_avatar_in_bytes(a: ClientAvatarView)
    requires
        text_fits(a.name),
    ensures
        avatar_in(client_avatar_bytes(a)) == Some(a),
{
    lemma_client_avatar_read_back(Seq::empty(), 0, a, Seq::empty());
    lemma_overwrite_empty(client_avatar_bytes(a));
}

/// The name of the default actor fits.
pub proof fn lemma_default_avatar_fits()
    ensures
        text_fits(default_client_avatar().name),
{
    assert(encode_utf8(Seq::<char>::empty()) =~= Seq::<u8>::empty());
}

/// The form in which storage keeps `avatar`. An actor whose name fits can be
/// read back from it.
pub fn encode_avatar_blob(avatar: &LogicClientAvatar) -> (r: String)
    ensures
        r@ == avatar_blob(avatar@),
        text_fits(avatar@.name) ==> stored_avatar(r@) == Some(avatar@),
{
    let mut stream = ByteStream::new(10);
    avatar.encode(&mut stream);
    proof {
        lemma_overwrite_empty(client_avatar_bytes(avatar@));
        if text_fits(avatar@.name) {
            lemma_avatar_in_bytes(avatar@);
        }
    }
    let bytes = stream.get_byte_array();
    assert(bytes@ =~= client_avatar_bytes(avatar@));
    base64_encode(bytes)
}

/// Reads an actor from the start of `bytes`.
pub fn avatar_from_bytes(bytes: &[u8]) -> (r: Option<LogicClientAvatar>)
    ensures
        optional_avatar(r) == avatar_in(bytes@),
{
    let mut stream = ByteStream::from(bytes);
    let mut avatar = LogicClientAvatar::new();
    if avatar.decode(&mut stream) {
        Some(avatar)
    } else {
        None
    }
}

/// Reads an actor from the form in which storage keeps it.
pub fn decode_avatar_blob(blob: &str) -> (r: Option<LogicClientAvatar>)
    ensures
        optional_avatar(r) == stored_avatar(blob@),
{
    match base64_decode(blob) {
        Some(bytes) => avatar_from_bytes(bytes.as_slice()),
        None => None,
    }
}

/// The record of a new player, before storage has given it an identifier:
/// the given token, the starting base, the default actor, no score.
pub open spec fn new_player(pass_token: Seq<char>, home_json: Seq<char>, timestamp: i64)
    -> PlayerSaveDataView {
    PlayerSaveDataView {
        id: LogicLong { higher_int: 0, lower_int: 0 },
        pass_token,
        home_json,
        client_avatar_blob: avatar_blob(default_client_avatar()),
        score: 0,
        last_save_timestamp: timestamp,
    }
}

/// Makes the record of a new player with the given token. The default actor
/// can be read back from it.
pub fn new_player_data(pass_token: String, home_json: &str, timestamp: i64) -> (r: PlayerSaveData)
    ensures
        r@ == new_player(pass_token@, home_json@, timestamp),
        stored_avatar(r@.client_avatar_blob) == Some(default_client_avatar()),
{
    let avatar = LogicClientAvatar::get_default_avatar();
    proof {
        lemma_default_avatar_fits();
    }
    PlayerSaveData {
        id: LogicLong::new(0, 0),
        pass_token,
        home_json: String::from_str(home_json),
        client_avatar_blob: encode_avatar_blob(&avatar),
        score: 0,
        last_save_timestamp: timestamp,
    }
}

/// Makes the record of a new player with a token left to chance and the time
/// of the machine.
pub fn create_new_player_data(home_json: &str) -> (r: PlayerSaveData)
    ensures
        r@.pass_token.len() == PASS_TOKEN_LENGTH,
        forall|k: int| 0 <= k < r@.pass_token.len() ==> is_alphanumeric(#[trigger] r@.pass_token[k]),
        r@ == new_player(r@.pass_token, home_json@, r@.last_save_timestamp),
        stored_avatar(r@.client_avatar_blob) == Some(default_client_avatar()),
{
    let pass_token = random_alphanumeric(PASS_TOKEN_LENGTH);
    let timestamp = get_current_timestamp();
    new_player_data(pass_token, home_json, timestamp)
}

/// The record of a new player under the identifier that storage gave it.
pub fn with_assigned_id(data: PlayerSaveData, id: i32) -> (r: PlayerSaveData)
    ensures
        r@ == (PlayerSaveDataView { id: LogicLong { higher_int: 0, lower_int: id }, ..data@ }),
{
    let mut stored = data;
    stored.id = LogicLong::new(0, id);
    stored
}

/// What storage is asked to write for a player after a turn.
pub struct PlayerUpdate {
    pub id: i32,
    pub home_json: String,
    pub client_avatar_blob: String,
    pub last_save_timestamp: i64,
}

/// What an update holds, as plain values.
pub struct PlayerUpdateView {
    pub id: i32,
    pub home_json: Seq<char>,
    pub client_avatar_blob: Seq<char>,
    pub last_save_timestamp: i64,
}

impl View for PlayerUpdate {
    type V = PlayerUpdateView;

    open spec fn view(&self) -> PlayerUpdateView {
        PlayerUpdateView {
            id: self.id,
            home_json: self.home_json@,
            client_avatar_blob: self.client_avatar_blob@,
            last_save_timestamp: self.last_save_timestamp,
        }
    }
}

/// What an update that may be missing holds.
pub open spec fn optional_update(update: Option<PlayerUpdate>) -> Option<PlayerUpdateView> {
    match update {
        Some(u) => Some(u@),
        None => None,
    }
}

/// The update that saves a base and an actor at a time. Storage finds the
/// record by the lower half of the identifier.
pub open spec fn saved(id: LogicLong, home_json: Seq<char>, avatar: ClientAvatarView, timestamp: i64)
    -> PlayerUpdateView {
    PlayerUpdateView {
        id: id.lower_int,
        home_json,
        client_avatar_blob: avatar_blob(avatar),
        last_save_timestamp: timestamp,
    }
}

/// Makes the update that saves a base and an actor at the given time.
pub fn save_player_data_at(id: &LogicLong, home_json: &str, avatar: &LogicClientAvatar, timestamp: i64)
    -> (r: PlayerUpdate)
    ensures
        r@ == saved(*id, home_json@, avatar@, timestamp),
        text_fits(avatar@.name) ==> stored_avatar(r@.client_avatar_blob) == Some(avatar@),
{
    PlayerUpdate {
        id: id.lower_int,
        home_json: String::from_str(home_json),
        client_avatar_blob: encode_avatar_blob(avatar),
        last_save_timestamp: timestamp,
    }
}

/// Makes the update that saves a base and an actor at the time of the
/// machine.
pub fn save_player_data(id: &LogicLong, home_json: &str, avatar: &LogicClientAvatar) -> (r:
    PlayerUpdate)
    ensures
        r@ == saved(*id, home_json@, avatar@, r@.last_save_timestamp),
        text_fits(avatar@.name) ==> stored_avatar(r@.client_avatar_blob) == Some(avatar@),
{
    let timestamp = get_current_timestamp();
    save_player_data_at(id, home_json, avatar, timestamp)
}

} // verus!
