use vstd::prelude::*;
use vstd::string::*;
use crate::byte_stream::{int_at, int_bytes, long_at, long_bytes, overwrite, text_at, text_bytes, text_fits, ByteStream};
use crate::byte_stream::{lemma_int_inside, lemma_long_inside, lemma_overwrite_twice, lemma_overwrite_empty, lemma_overwrite_len, lemma_text_inside, lemma_three_parts};
use crate::math::LogicLong;
use super::data::npc::{npc_data_at, npc_data_bytes};
use super::data::{LogicNpcData, NpcDataView};

verus! {

/// What both kinds of actor offer: a default value, and a byte form that can
/// be written to a stream and read back.
pub trait LogicAvatar: Sized {
    /// The bytes that `encode` writes.
    spec fn encoding(&self) -> Seq<u8>;

    /// The index behind the actor stored at index `at` of `bytes`, if one is
    /// stored there.
    spec fn stored_end(bytes: Seq<u8>, at: int) -> Option<int>;

    /// Whether the actor stored at index `at` of `bytes` holds what `self`
    /// holds.
    spec fn is_stored(&self, bytes: Seq<u8>, at: int) -> bool;

    /// Whether the actor holds what the default actor of its kind holds.
    spec fn is_blank(&self) -> bool;

    /// The default actor.
    fn new() -> (r: Self)
        ensures
            r.is_blank(),
    ;

    /// Reads an actor at the cursor of `stream` into `self`; `false`, with the
    /// cursor where it was, where none is stored there.
    fn decode(&mut self, stream: &mut ByteStream) -> (ok: bool)
        ensures
            final(stream).buffer == old(stream).buffer,
            final(stream).length == old(stream).length,
            old(stream).wf() ==> final(stream).wf(),
            ok == (Self::stored_end(old(stream).buffer@, old(stream).offset as int) is Some),
            ok ==> final(self).is_stored(old(stream).buffer@, old(stream).offset as int)
                && final(stream).offset == Self::stored_end(
                old(stream).buffer@,
                old(stream).offset as int,
            ).unwrap(),
            !ok ==> final(stream).offset == old(stream).offset,
    ;

    /// Writes the actor at the cursor of `stream`.
    fn encode(&self, stream: &mut ByteStream)
        requires
            old(stream).wf(),
        ensures
            final(stream).wf(),
            final(stream).buffer@ == overwrite(
                old(stream).buffer@,
                old(stream).offset as int,
                self.encoding(),
            ),
            final(stream).offset == old(stream).offset + self.encoding().len(),
            final(stream).length == old(stream).length,
    ;
}

/// Copies an actor by writing it to a fresh stream and reading it back, so
/// that the copy shares nothing with the actor it was made from. Nothing
/// where the bytes written cannot be read back.
pub fn clone_via_round_trip<T: LogicAvatar>(avatar: &T) -> (r: Option<T>)
    ensures
        match r {
            Some(copy) => copy.is_stored(avatar.encoding(), 0),
            None => T::stored_end(avatar.encoding(), 0) is None,
        },
{
    let mut stream = ByteStream::new(10);
    avatar.encode(&mut stream);
    stream.reset_offset();
    proof {
        lemma_overwrite_empty(avatar.encoding());
    }
    let mut copy = T::new();
    if copy.decode(&mut stream) {
        Some(copy)
    } else {
        None
    }
}

/// The actor that a player controls.
pub struct LogicClientAvatar {
    pub id: LogicLong,
    pub name: String,
    pub level: i32,
    pub diamonds: i32,
    pub gold: i32,
    pub elixir: i32,
    pub score: i32,
}

/// What a player's actor holds, as plain values.
pub struct ClientAvatarView {
    pub id: LogicLong,
    pub name: Seq<char>,
    pub level: i32,
    pub diamonds: i32,
    pub gold: i32,
    pub elixir: i32,
    pub score: i32,
}

impl View for LogicClientAvatar {
    type V = ClientAvatarView;

    open spec fn view(&self) -> ClientAvatarView {
        ClientAvatarView {
            id: self.id,
            name: self.name@,
            level: self.level,
            diamonds: self.diamonds,
            gold: self.gold,
            elixir: self.elixir,
            score: self.score,
        }
    }
}

/// The level of a new player's actor.
pub const STARTING_LEVEL: i32 = 1;

/// The diamonds of a new player's actor.
pub const STARTING_DIAMONDS: i32 = 100000000;

/// The gold, and the elixir, of a new player's actor.
pub const STARTING_RESOURCE_COUNT: i32 = 750;

/// The actor that `LogicClientAvatar::new` gives.
pub open spec fn blank_client_avatar() -> ClientAvatarView {
    ClientAvatarView {
        id: LogicLong { higher_int: 0, lower_int: 0 },
        name: Seq::empty(),
        level: 0,
        diamonds: 0,
        gold: 0,
        elixir: 0,
        score: 0,
    }
}

/// The actor that a new player starts with.
pub open spec fn default_client_avatar() -> ClientAvatarView {
    ClientAvatarView {
        level: STARTING_LEVEL,
        diamonds: STARTING_DIAMONDS,
        gold: STARTING_RESOURCE_COUNT,
        elixir: STARTING_RESOURCE_COUNT,
        ..blank_client_avatar()
    }
}

/// A player's actor on the wire: identifier, name, then level, diamonds,
/// gold, elixir and score.
pub open spec fn client_avatar_bytes(a: ClientAvatarView) -> Seq<u8> {
    long_bytes(a.id) + text_bytes(a.name) + int_bytes(a.level) + int_bytes(a.diamonds) + int_bytes(
        a.gold,
    ) + int_bytes(a.elixir) + int_bytes(a.score)
}

/// The player's actor stored at index `at` of `bytes`, with the index behind
/// it.
pub open spec fn client_avatar_at(bytes: Seq<u8>, at: int) -> Option<(ClientAvatarView, int)> {
    let id = long_at(bytes, at);
    let name = text_at(bytes, at + 8);
    if id is None || name is None {
        None
    } else {
        let p = name.unwrap().1;
        if p < 0 || p + 20 > bytes.len() {
            None
        } else {
            Some(
                (
                    ClientAvatarView {
                        id: id.unwrap(),
                        name: name.unwrap().0,
                        level: int_at(bytes, p).unwrap(),
                        diamonds: int_at(bytes, p + 4).unwrap(),
                        gold: int_at(bytes, p + 8).unwrap(),
                        elixir: int_at(bytes, p + 12).unwrap(),
                        score: int_at(bytes, p + 16).unwrap(),
                    },
                    p + 20,
                ),
            )
        }
    }
}

/// The five counters of a player's actor on the wire.
pub open spec fn counters_bytes(a: ClientAvatarView) -> Seq<u8> {
    int_bytes(a.level) + int_bytes(a.diamonds) + int_bytes(a.gold) + int_bytes(a.elixir)
        + int_bytes(a.score)
}

/// The five counters of a player's actor, written anywhere inside a write,
/// are read back from their places.
pub proof fn lemma_counters_inside(
    buffer: Seq<u8>,
    at: int,
    before: Seq<u8>,
    a: ClientAvatarView,
    after: Seq<u8>,
)
    requires
        0 <= at <= buffer.len(),
    ensures
        ({
            let w = overwrite(buffer, at, before + counters_bytes(a) + after);
            let p = at + before.len();
            &&& p + 20 <= w.len()
            &&& int_at(w, p) == Some(a.level)
            &&& int_at(w, p + 4) == Some(a.diamonds)
            &&& int_at(w, p + 8) == Some(a.gold)
            &&& int_at(w, p + 12) == Some(a.elixir)
            &&& int_at(w, p + 16) == Some(a.score)
        }),
{
    let i1 = int_bytes(a.level);
    let i2 = int_bytes(a.diamonds);
    let i3 = int_bytes(a.gold);
    let i4 = int_bytes(a.elixir);
    let i5 = int_bytes(a.score);
    let all = before + counters_bytes(a) + after;
    assert(i1.len() == 4 && i2.len() == 4 && i3.len() == 4 && i4.len() == 4 && i5.len() == 4);
    assert(all =~= before + i1 + (i2 + i3 + i4 + i5 + after));
    lemma_int_inside(buffer, at, before, a.level, i2 + i3 + i4 + i5 + after);
    assert(all =~= (before + i1) + i2 + (i3 + i4 + i5 + after));
    lemma_int_inside(buffer, at, before + i1, a.diamonds, i3 + i4 + i5 + after);
    assert(all =~= (before + i1 + i2) + i3 + (i4 + i5 + after));
    lemma_int_inside(buffer, at, before + i1 + i2, a.gold, i4 + i5 + after);
    assert(all =~= (before + i1 + i2 + i3) + i4 + (i5 + after));
    lemma_int_inside(buffer, at, before + i1 + i2 + i3, a.elixir, i5 + after);
    assert(all =~= (before + i1 + i2 + i3 + i4) + i5 + after);
    lemma_int_inside(buffer, at, before + i1 + i2 + i3 + i4, a.score, after);
}

/// A player's actor whose name fits is read back from the index at which it
/// was written, whatever was written behind it.
pub proof fn lemma_client_avatar_read_back(
    buffer: Seq<u8>,
    at: int,
    a: ClientAvatarView,
    rest: Seq<u8>,
)
    requires
        0 <= at <= buffer.len(),
        text_fits(a.name),
    ensures
        client_avatar_at(overwrite(buffer, at, client_avatar_bytes(a) + rest), at) == Some(
            (a, at + client_avatar_bytes(a).len()),
        ),
{
    let id = long_bytes(a.id);
    let name = text_bytes(a.name);
    let counters = counters_bytes(a);
    let e = Seq::<u8>::empty();
    assert(id.len() == 8);
    assert(counters.len() == 20);
    assert(client_avatar_bytes(a) == id + name + counters) by {
        assert(client_avatar_bytes(a) =~= id + name + counters);
    }
    lemma_three_parts(e, id, name, counters, rest);
    assert(e + (id + name + counters) == id + name + counters) by {
        assert(e + (id + name + counters) =~= id + name + counters);
    }
    let w = overwrite(buffer, at, client_avatar_bytes(a) + rest);
    assert(long_at(w, at) == Some(a.id)) by {
        lemma_long_inside(buffer, at, e, a.id, name + counters + rest);
    }
    assert(text_at(w, at + 8) == Some((a.name, at + 8 + name.len()))) by {
        assert(e + id == id);
        lemma_text_inside(buffer, at, e + id, a.name, counters + rest);
    }
    let p = at + 8 + name.len();
    lemma_overwrite_len(buffer, at, client_avatar_bytes(a) + rest);
    assert(p + 20 <= w.len() && int_at(w, p) == Some(a.level) && int_at(w, p + 4) == Some(a.diamonds)
        && int_at(w, p + 8) == Some(a.gold) && int_at(w, p + 12) == Some(a.elixir) && int_at(
        w,
        p + 16,
    ) == Some(a.score)) by {
        lemma_counters_inside(buffer, at, e + id + name, a, rest);
    }
}

impl LogicClientAvatar {
    /// An actor without identity, name or belongings.
    pub fn new() -> (r: Self)
        ensures
            r@ == blank_client_avatar(),
    {
        Self {
            id: LogicLong::new(0, 0),
            name: String::new(),
            level: 0,
            diamonds: 0,
            gold: 0,
            elixir: 0,
            score: 0,
        }
    }

    /// The actor that a new player starts with.
    pub fn get_default_avatar() -> (r: Self)
        ensures
            r@ == default_client_avatar(),
    {
        let mut avatar = Self::new();
        avatar.gold = STARTING_RESOURCE_COUNT;
        avatar.elixir = STARTING_RESOURCE_COUNT;
        avatar.level = STARTING_LEVEL;
        avatar.diamonds = STARTING_DIAMONDS;
        avatar
    }

    pub fn set_id(&mut self, id: &LogicLong)
        ensures
            final(self)@ == (ClientAvatarView { id: *id, ..old(self)@ }),
    {
        self.id = *id;
    }

    pub fn set_name(&mut self, name: &str)
        ensures
            final(self)@ == (ClientAvatarView { name: name@, ..old(self)@ }),
    {
        self.name = String::from_str(name);
    }

    /// An independent copy, field by field.
    pub fn duplicate(&self) -> (r: Self)
        ensures
            r@ == self@,
    {
        Self {
            id: self.id,
            name: self.name.clone(),
            level: self.level,
            diamonds: self.diamonds,
            gold: self.gold,
            elixir: self.elixir,
            score: self.score,
        }
    }

    /// Reads an actor at the cursor of `stream` into `self`; `false`, with
    /// `self` and the cursor as they were, where none is stored there.
    pub fn decode(&mut self, stream: &mut ByteStream) -> (ok: bool)
        ensures
            final(stream).buffer == old(stream).buffer,
            final(stream).length == old(stream).length,
            old(stream).wf() ==> final(stream).wf(),
            match client_avatar_at(old(stream).buffer@, old(stream).offset as int) {
                None => !ok && final(self)@ == old(self)@ && final(stream).offset == old(
                    stream,
                ).offset,
                Some((a, next)) => ok && final(self)@ == a && final(stream).offset == next,
            },
    {
        let start: usize = stream.offset;
        let id: LogicLong = match stream.read_long() {
            None => {
                proof {
                    if text_at(stream.buffer@, start + 8) is Some {
                    }
                }
                return false;
            },
            Some(v) => v,
        };
        let name: String = match stream.read_text() {
            None => {
                stream.offset = start;
                return false;
            },
            Some(v) => v,
        };
        let filled: usize = stream.buffer.len();
        if stream.offset > filled || filled - stream.offset < 20 {
            stream.offset = start;
            return false;
        }
        self.id = id;
        self.name = name;
        self.level = stream.read_int().unwrap();
        self.diamonds = stream.read_int().unwrap();
        self.gold = stream.read_int().unwrap();
        self.elixir = stream.read_int().unwrap();
        self.score = stream.read_int().unwrap();
        true
    }

    /// Writes the actor at the cursor of `stream`.
    pub fn encode(&self, stream: &mut ByteStream)
        requires
            old(stream).wf(),
        ensures
            final(stream).wf(),
            final(stream).buffer@ == overwrite(
                old(stream).buffer@,
                old(stream).offset as int,
                client_avatar_bytes(self@),
            ),
            final(stream).offset == old(stream).offset + client_avatar_bytes(self@).len(),
            final(stream).length == old(stream).length,
    {
        let ghost b = old(stream).buffer@;
        let ghost at = old(stream).offset as int;
        stream.write_long(&self.id);
        stream.write_text(self.name.as_str());
        let ghost s2 = long_bytes(self.id) + text_bytes(self.name@);
        proof {
            lemma_overwrite_twice(b, at, long_bytes(self.id), text_bytes(self.name@));
        }
        stream.write_int(self.level);
        let ghost s3 = s2 + int_bytes(self.level);
        proof {
            lemma_overwrite_twice(b, at, s2, int_bytes(self.level));
        }
        stream.write_int(self.diamonds);
        let ghost s4 = s3 + int_bytes(self.diamonds);
        proof {
            lemma_overwrite_twice(b, at, s3, int_bytes(self.diamonds));
        }
        stream.write_int(self.gold);
        let ghost s5 = s4 + int_bytes(self.gold);
        proof {
            lemma_overwrite_twice(b, at, s4, int_bytes(self.gold));
        }
        stream.write_int(self.elixir);
        let ghost s6 = s5 + int_bytes(self.elixir);
        proof {
            lemma_overwrite_twice(b, at, s5, int_bytes(self.elixir));
        }
        stream.write_int(self.score);
        proof {
            lemma_overwrite_twice(b, at, s6, int_bytes(self.score));
        }
    }
}

/// An actor that the computer runs, known by its description.
pub struct LogicNpcAvatar {
    pub npc_data: LogicNpcData,
}

impl View for LogicNpcAvatar {
    type V = NpcDataView;

    open spec fn view(&self) -> NpcDataView {
        self.npc_data@
    }
}

/// The description of the actor that `LogicNpcAvatar::new` gives.
pub open spec fn blank_npc_data() -> NpcDataView {
    NpcDataView { global_id: 0, level_json_file_name: Seq::empty() }
}

impl LogicNpcAvatar {
    /// An actor without a description.
    pub fn new() -> (r: Self)
        ensures
            r@ == blank_npc_data(),
    {
        Self { npc_data: LogicNpcData { global_id: 0, level_json_file_name: String::new() } }
    }

    pub fn set_npc_data(&mut self, data: &LogicNpcData)
        ensures
            final(self)@ == data@,
    {
        self.npc_data = data.duplicate();
    }

    /// An independent copy.
    pub fn duplicate(&self) -> (r: Self)
        ensures
            r@ == self@,
    {
        Self { npc_data: self.npc_data.duplicate() }
    }

    /// Reads an actor at the cursor of `stream` into `self`; `false`, with
    /// `self` and the cursor as they were, where none is stored there.
    pub fn decode(&mut self, stream: &mut ByteStream) -> (ok: bool)
        ensures
            final(stream).buffer == old(stream).buffer,
            final(stream).length == old(stream).length,
            old(stream).wf() ==> final(stream).wf(),
            match npc_data_at(old(stream).buffer@, old(stream).offset as int) {
                None => !ok && final(self)@ == old(self)@ && final(stream).offset == old(
                    stream,
                ).offset,
                Some((a, next)) => ok && final(self)@ == a && final(stream).offset == next,
            },
    {
        match LogicNpcData::decode(stream) {
            None => false,
            Some(data) => {
                self.npc_data = data;
                true
            },
        }
    }

    /// Writes the actor at the cursor of `stream`.
    pub fn encode(&self, stream: &mut ByteStream)
        requires
            old(stream).wf(),
        ensures
            final(stream).wf(),
            final(stream).buffer@ == overwrite(
                old(stream).buffer@,
                old(stream).offset as int,
                npc_data_bytes(self@),
            ),
            final(stream).offset == old(stream).offset + npc_data_bytes(self@).len(),
            final(stream).length == old(stream).length,
    {
        self.npc_data.encode(stream);
    }
}

impl LogicAvatar for LogicClientAvatar {
    open spec fn encoding(&self) -> Seq<u8> {
        client_avatar_bytes(self@)
    }

    open spec fn stored_end(bytes: Seq<u8>, at: int) -> Option<int> {
        match client_avatar_at(bytes, at) {
            Some((_, next)) => Some(next),
            None => None,
        }
    }

    open spec fn is_stored(&self, bytes: Seq<u8>, at: int) -> bool {
        client_avatar_at(bytes, at) is Some && client_avatar_at(bytes, at).unwrap().0 == self@
    }

    fn new() -> (r: Self) {
        LogicClientAvatar::new()
    }

    fn decode(&mut self, stream: &mut ByteStream) -> (ok: bool) {
        LogicClientAvatar::decode(self, stream)
    }

    fn encode(&self, stream: &mut ByteStream) {
        LogicClientAvatar::encode(self, stream)
    }

    open spec fn is_blank(&self) -> bool {
        self@ == blank_client_avatar()
    }
}

impl LogicAvatar for LogicNpcAvatar {
    open spec fn encoding(&self) -> Seq<u8> {
        npc_data_bytes(self@)
    }

    open spec fn stored_end(bytes: Seq<u8>, at: int) -> Option<int> {
        match npc_data_at(bytes, at) {
            Some((_, next)) => Some(next),
            None => None,
        }
    }

    open spec fn is_stored(&self, bytes: Seq<u8>, at: int) -> bool {
        npc_data_at(bytes, at) is Some && npc_data_at(bytes, at).unwrap().0 == self@
    }

    fn new() -> (r: Self) {
        LogicNpcAvatar::new()
    }

    fn decode(&mut self, stream: &mut ByteStream) -> (ok: bool) {
        LogicNpcAvatar::decode(self, stream)
    }

    fn encode(&self, stream: &mut ByteStream) {
        LogicNpcAvatar::encode(self, stream)
    }

    open spec fn is_blank(&self) -> bool {
        self@ == blank_npc_data()
    }
}

} // verus!
