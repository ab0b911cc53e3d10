use vstd::prelude::*;
use vstd::string::*;
use vstd::utf8::*;
use crate::byte_stream::{block_bytes, long_at, long_bytes, text_at, text_bytes, ByteStream};
use crate::byte_stream::{lemma_long_read_back, lemma_overwrite_at_end, lemma_overwrite_empty, lemma_text_inside, text_fits};
use crate::helper::{compress_in_zlib_format, length_prefixed, zlib_stream, COMPRESSION_LEVEL};
use crate::logic::avatar::{blank_client_avatar, client_avatar_bytes, ClientAvatarView, LogicClientAvatar};
use crate::math::LogicLong;
use crate::network::{MessageView, PiranhaMessage};

verus! {

/// The type of the message by which a client asks for a name.
pub const CHANGE_AVATAR_NAME_MESSAGE: u16 = 10212;

/// The type of the message by which a client asks for a player's profile.
pub const ASK_FOR_AVATAR_PROFILE_MESSAGE: u16 = 14325;

/// The type of the message that carries a player's profile.
pub const AVATAR_PROFILE_MESSAGE: u16 = 24334;

/// What a client sends to give its actor a name.
pub struct ChangeAvatarNameMessage {
    pub avatar_name: String,
}

/// The name that a payload holds, if it holds one.
pub open spec fn change_avatar_name_in(payload: Seq<u8>) -> Option<Seq<char>> {
    match text_at(payload, 0) {
        Some((name, _)) => Some(name),
        None => None,
    }
}

/// A name that fits is read back from the payload that carries it.
pub proof fn lemma_change_avatar_name_round_trip(name: Seq<char>)
    requires
        text_fits(name),
    ensures
        change_avatar_name_in(text_bytes(name)) == Some(name),
{
    let e = Seq::<u8>::empty();
    lemma_text_inside(e, 0, e, name, e);
    assert(e + text_bytes(name) + e =~= text_bytes(name));
    lemma_overwrite_empty(text_bytes(name));
}

impl ChangeAvatarNameMessage {
    pub fn new(avatar_name: &str) -> (r: Self)
        ensures
            r.avatar_name@ == avatar_name@,
    {
        Self { avatar_name: String::from_str(avatar_name) }
    }

    pub fn get_avatar_name(&self) -> (r: String)
        ensures
            r@ == self.avatar_name@,
    {
        self.avatar_name.clone()
    }

    /// Reads the request from the payload of `message`, whatever its type.
    pub fn decode(message: &PiranhaMessage) -> (r: Option<Self>)
        ensures
            match change_avatar_name_in(message@.payload) {
                Some(name) => r is Some && r.unwrap().avatar_name@ == name,
                None => r is None,
            },
    {
        let mut stream = ByteStream::from(message.payload.as_slice());
        match stream.read_text() {
            Some(avatar_name) => Some(Self { avatar_name }),
            None => None,
        }
    }

    /// The message that carries this request.
    pub fn encode(&self) -> (r: PiranhaMessage)
        ensures
            r@ == (MessageView {
                message_type: CHANGE_AVATAR_NAME_MESSAGE,
                version: 0,
                payload: text_bytes(self.avatar_name@),
            }),
    {
        let mut stream = ByteStream::new(16);
        stream.write_text(self.avatar_name.as_str());
        proof {
            lemma_overwrite_empty(text_bytes(self.avatar_name@));
        }
        PiranhaMessage::new(CHANGE_AVATAR_NAME_MESSAGE, 0, stream.buffer)
    }
}

/// What a client sends to see a player's profile.
pub struct AskForAvatarProfileMessage {
    pub account_id: LogicLong,
}

/// An identifier is read back from the payload that carries it.
pub proof fn lemma_ask_for_avatar_profile_round_trip(id: LogicLong)
    ensures
        long_at(long_bytes(id), 0) == Some(id),
{
    lemma_long_read_back(Seq::empty(), 0, id, Seq::empty());
    lemma_overwrite_empty(long_bytes(id));
}

impl AskForAvatarProfileMessage {
    pub fn new(account_id: LogicLong) -> (r: Self)
        ensures
            r.account_id == account_id,
    {
        Self { account_id }
    }

    pub fn get_account_id(&self) -> (r: &LogicLong)
        ensures
            *r == self.account_id,
    {
        &self.account_id
    }

    /// Reads the request from the payload of `message`, whatever its type.
    pub fn decode(message: &PiranhaMessage) -> (r: Option<Self>)
        ensures
            match long_at(message@.payload, 0) {
                Some(id) => r is Some && r.unwrap().account_id == id,
                None => r is None,
            },
    {
        let mut stream = ByteStream::from(message.payload.as_slice());
        match stream.read_long() {
            Some(account_id) => Some(Self { account_id }),
            None => None,
        }
    }

    /// The message that carries this request.
    pub fn encode(&self) -> (r: PiranhaMessage)
        ensures
            r@ == (MessageView {
                message_type: ASK_FOR_AVATAR_PROFILE_MESSAGE,
                version: 0,
                payload: long_bytes(self.account_id),
            }),
    {
        let mut stream = ByteStream::new(8);
        stream.write_long(&self.account_id);
        proof {
            lemma_overwrite_empty(long_bytes(self.account_id));
        }
        PiranhaMessage::new(ASK_FOR_AVATAR_PROFILE_MESSAGE, 0, stream.buffer)
    }
}

/// A player's profile: the actor, and the base in compressed form.
pub struct AvatarProfileFullEntry {
    pub logic_client_avatar: LogicClientAvatar,
    pub compressed_home_json: Vec<u8>,
}

/// The compressed form of a base: the zlib stream of its UTF-8 bytes behind
/// their number.
pub open spec fn compressed_home(home_json: Seq<char>) -> Seq<u8> {
    length_prefixed(
        encode_utf8(home_json).len(),
        zlib_stream(encode_utf8(home_json), COMPRESSION_LEVEL),
    )
}

/// The bytes of a profile: the actor, then the compressed base as a block.
pub open spec fn profile_entry_bytes(actor: ClientAvatarView, compressed: Seq<u8>) -> Seq<u8> {
    client_avatar_bytes(actor) + block_bytes(Some(compressed))
}

impl AvatarProfileFullEntry {
    /// A profile with a blank actor and no base.
    pub fn new() -> (r: Self)
        ensures
            r.logic_client_avatar@ == blank_client_avatar(),
            r.compressed_home_json@ == Seq::<u8>::empty(),
    {
        Self { logic_client_avatar: LogicClientAvatar::new(), compressed_home_json: Vec::new() }
    }

    /// Takes in the base, compressed.
    pub fn set_home_json(&mut self, home_json: &str)
        ensures
            final(self).logic_client_avatar == old(self).logic_client_avatar,
            final(self).compressed_home_json@ == compressed_home(home_json@),
    {
        self.compressed_home_json = compress_in_zlib_format(home_json.as_bytes());
    }

    pub fn set_logic_client_avatar(&mut self, logic_client_avatar: LogicClientAvatar)
        ensures
            final(self).logic_client_avatar == logic_client_avatar,
            final(self).compressed_home_json == old(self).compressed_home_json,
    {
        self.logic_client_avatar = logic_client_avatar;
    }

    /// Writes the profile at the end of `stream`.
    pub fn encode(&self, stream: &mut ByteStream)
        requires
            old(stream).wf(),
            old(stream).offset == old(stream).buffer@.len(),
        ensures
            final(stream).wf(),
            final(stream).offset == final(stream).buffer@.len(),
            final(stream).length == old(stream).length,
            final(stream).buffer@ == old(stream).buffer@ + profile_entry_bytes(
                self.logic_client_avatar@,
                self.compressed_home_json@,
            ),
    {
        let ghost b0 = stream.buffer@;
        self.logic_client_avatar.encode(stream);
        proof {
            lemma_overwrite_at_end(b0, client_avatar_bytes(self.logic_client_avatar@));
        }
        let ghost b1 = stream.buffer@;
        stream.write_bytes(Some(self.compressed_home_json.as_slice()));
        proof {
            lemma_overwrite_at_end(b1, block_bytes(Some(self.compressed_home_json@)));
            assert(b1 + block_bytes(Some(self.compressed_home_json@)) =~= b0 + profile_entry_bytes(
                self.logic_client_avatar@,
                self.compressed_home_json@,
            ));
        }
    }
}

/// What the server sends to show a player's profile.
pub struct AvatarProfileMessage {
    pub avatar_profile_full_entry: AvatarProfileFullEntry,
}

impl AvatarProfileMessage {
    /// A message with a blank profile.
    pub fn new() -> (r: Self)
        ensures
            r.avatar_profile_full_entry.logic_client_avatar@ == blank_client_avatar(),
            r.avatar_profile_full_entry.compressed_home_json@ == Seq::<u8>::empty(),
    {
        Self { avatar_profile_full_entry: AvatarProfileFullEntry::new() }
    }

    pub fn set_avatar_profile_full_entry(&mut self, avatar_profile_full_entry: AvatarProfileFullEntry)
        ensures
            final(self).avatar_profile_full_entry == avatar_profile_full_entry,
    {
        self.avatar_profile_full_entry = avatar_profile_full_entry;
    }

    /// The message that carries this profile.
    pub fn encode(&self) -> (r: PiranhaMessage)
        ensures
            r@ == (MessageView {
                message_type: AVATAR_PROFILE_MESSAGE,
                version: 0,
                payload: profile_entry_bytes(
                    self.avatar_profile_full_entry.logic_client_avatar@,
                    self.avatar_profile_full_entry.compressed_home_json@,
                ),
            }),
    {
        let mut stream = ByteStream::new(64);
        self.avatar_profile_full_entry.encode(&mut stream);
        assert(stream.buffer@ =~= profile_entry_bytes(
            self.avatar_profile_full_entry.logic_client_avatar@,
            self.avatar_profile_full_entry.compressed_home_json@,
        ));
        PiranhaMessage::new(AVATAR_PROFILE_MESSAGE, 0, stream.buffer)
    }
}

} // verus!
