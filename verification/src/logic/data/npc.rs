use vstd::prelude::*;
use vstd::string::*;
use crate::byte_stream::{int_at, int_bytes, text_at, text_bytes, text_fits, overwrite, ByteStream};
use crate::byte_stream::{lemma_int_inside, lemma_overwrite_twice, lemma_text_inside};
use crate::sc_string::ScString;

verus! {

/// The description of one computer-run opponent: its identifier in the data
/// tables and the resource that holds its level.
pub struct LogicNpcData {
    pub global_id: i32,
    pub level_json_file_name: String,
}

/// What a description holds, as plain values.
pub struct NpcDataView {
    pub global_id: i32,
    pub level_json_file_name: Seq<char>,
}

impl View for LogicNpcData {
    type V = NpcDataView;

    open spec fn view(&self) -> NpcDataView {
        NpcDataView { global_id: self.global_id, level_json_file_name: self.level_json_file_name@ }
    }
}

/// A description on the wire: the identifier, then the resource name.
pub open spec fn npc_data_bytes(data: NpcDataView) -> Seq<u8> {
    int_bytes(data.global_id) + text_bytes(data.level_json_file_name)
}

/// The description stored at index `at` of `bytes`, with the index behind it.
pub open spec fn npc_data_at(bytes: Seq<u8>, at: int) -> Option<(NpcDataView, int)> {
    match int_at(bytes, at) {
        None => None,
        Some(global_id) => match text_at(bytes, at + 4) {
            None => None,
            Some((name, next)) => Some((NpcDataView { global_id, level_json_file_name: name }, next)),
        },
    }
}

/// A description whose resource name fits is read back from the index at
/// which it was written.
pub proof fn lemma_npc_data_read_back(buffer: Seq<u8>, at: int, data: NpcDataView, rest: Seq<u8>)
    requires
        0 <= at <= buffer.len(),
        text_fits(data.level_json_file_name),
    ensures
        npc_data_at(overwrite(buffer, at, npc_data_bytes(data) + rest), at) == Some(
            (data, at + npc_data_bytes(data).len()),
        ),
{
    let id = int_bytes(data.global_id);
    let name = text_bytes(data.level_json_file_name);
    let e = Seq::<u8>::empty();
    assert(id.len() == 4);
    assert(npc_data_bytes(data) + rest == e + id + (name + rest) && npc_data_bytes(data) + rest == id
        + name + rest) by {
        assert(npc_data_bytes(data) + rest =~= e + id + (name + rest));
        assert(npc_data_bytes(data) + rest =~= id + name + rest);
    }
    lemma_int_inside(buffer, at, e, data.global_id, name + rest);
    lemma_text_inside(buffer, at, id, data.level_json_file_name, rest);
}

impl LogicNpcData {
    pub fn new(global_id: i32, level_json_file_name: &str) -> (r: Self)
        ensures
            r@ == (NpcDataView { global_id, level_json_file_name: level_json_file_name@ }),
    {
        Self { global_id, level_json_file_name: String::from_str(level_json_file_name) }
    }

    /// The name of the resource that holds the opponent's level.
    pub fn get_level_json_file_name(&self) -> (r: ScString)
        ensures
            r@ == self@.level_json_file_name,
    {
        ScString::from(self.level_json_file_name.as_str())
    }

    /// An independent copy.
    pub fn duplicate(&self) -> (r: Self)
        ensures
            r@ == self@,
    {
        Self { global_id: self.global_id, level_json_file_name: self.level_json_file_name.clone() }
    }

    /// Writes the description at the cursor of `stream`.
    pub fn encode(&self, stream: &mut ByteStream)
        requires
            old(stream).wf(),
        ensures
            final(stream).wf(),
            final(stream).buffer@ == overwrite(
                old(stream).buffer@,
                old(stream).offset as int,
                npc_data_bytes(self@),
            ),
            final(stream).offset == old(stream).offset + npc_data_bytes(self@).len(),
            final(stream).length == old(stream).length,
    {
        stream.write_int(self.global_id);
        stream.write_text(self.level_json_file_name.as_str());
        proof {
            lemma_overwrite_twice(
                old(stream).buffer@,
                old(stream).offset as int,
                int_bytes(self.global_id),
                text_bytes(self.level_json_file_name@),
            );
        }
    }

    /// Reads a description at the cursor of `stream`. Nothing, with the cursor
    /// where it was, where none is stored there.
    pub fn decode(stream: &mut ByteStream) -> (r: Option<Self>)
        ensures
            final(stream).buffer == old(stream).buffer,
            final(stream).length == old(stream).length,
            old(stream).wf() ==> final(stream).wf(),
            match npc_data_at(old(stream).buffer@, old(stream).offset as int) {
                None => r is None && final(stream).offset == old(stream).offset,
                Some((data, next)) => r is Some && r.unwrap()@ == data && final(stream).offset
                    == next,
            },
    {
        let start: usize = stream.offset;
        let global_id: i32 = match stream.read_int() {
            None => {
                return None;
            },
            Some(v) => v,
        };
        match stream.read_text() {
            None => {
                stream.offset = start;
                None
            },
            Some(level_json_file_name) => Some(Self { global_id, level_json_file_name }),
        }
    }
}

} // verus!
