use vstd::prelude::*;
use vstd::slice::slice_subrange;
use vstd::utf8::*;
use vstd::string::*;
use crate::math::LogicLong;
use crate::sc_string::string_from_utf8;

verus! {

/// The four bytes of `v`, most significant first.
pub open spec fn int_bytes(v: i32) -> Seq<u8> {
    let u = v as u32;
    seq![(u >> 24) as u8, (u >> 16) as u8, (u >> 8) as u8, u as u8]
}

/// The integer whose big-endian bytes are `b0 b1 b2 b3`.
pub open spec fn int_of_bytes(b0: u8, b1: u8, b2: u8, b3: u8) -> i32 {
    (((b0 as u32) << 24) | ((b1 as u32) << 16) | ((b2 as u32) << 8) | (b3 as u32)) as i32
}

/// Reading back the bytes of an integer gives the integer.
pub proof fn lemma_int_bytes_round_trip(v: i32)
    ensures
        int_bytes(v).len() == 4,
        int_of_bytes(int_bytes(v)[0], int_bytes(v)[1], int_bytes(v)[2], int_bytes(v)[3]) == v,
{
    let u = v as u32;
    assert((((((u >> 24) as u8) as u32) << 24) | ((((u >> 16) as u8) as u32) << 16) | ((((u >> 8) as u8) as u32) << 8)
        | ((u as u8) as u32)) == u) by (bit_vector);
    assert((v as u32) as i32 == v) by (bit_vector);
}


/// `buffer` after `data` was written at index `at`: the bytes under the write
/// are replaced, and the buffer grows where the write runs past its end.
#[verifier::opaque]
pub open spec fn overwrite(buffer: Seq<u8>, at: int, data: Seq<u8>) -> Seq<u8> {
    Seq::new(
        if buffer.len() > at + data.len() {
            buffer.len()
        } else {
            (at + data.len()) as nat
        },
        |k: int|
            if at <= k < at + data.len() {
                data[k - at]
            } else {
                buffer[k]
            },
    )
}

/// Writing at the end of a buffer appends.
pub proof fn lemma_overwrite_at_end(buffer: Seq<u8>, data: Seq<u8>)
    ensures
        overwrite(buffer, buffer.len() as int, data) =~= buffer + data,
{
    reveal(overwrite);
}

/// Writing into an empty buffer leaves what was written.
pub proof fn lemma_overwrite_empty(data: Seq<u8>)
    ensures
        overwrite(Seq::empty(), 0, data) == data,
        overwrite(Seq::empty(), 0, data + Seq::<u8>::empty()) == data,
{
    reveal(overwrite);
    assert(overwrite(Seq::empty(), 0, data) =~= data);
    assert(data + Seq::<u8>::empty() =~= data);
}

/// A write changes nothing before its index and leaves a buffer that holds
/// all that was written.
pub proof fn lemma_overwrite_len(buffer: Seq<u8>, at: int, data: Seq<u8>)
    requires
        0 <= at <= buffer.len(),
    ensures
        overwrite(buffer, at, data).len() >= at + data.len(),
        overwrite(buffer, at, data).len() >= buffer.len(),
{
    reveal(overwrite);
}

/// Two writes, the second where the first ended, are one write of both.
pub proof fn lemma_overwrite_twice(buffer: Seq<u8>, at: int, first: Seq<u8>, second: Seq<u8>)
    requires
        0 <= at <= buffer.len(),
    ensures
        overwrite(overwrite(buffer, at, first), at + first.len(), second) =~= overwrite(
            buffer,
            at,
            first + second,
        ),
{
    reveal(overwrite);
}

/// The integer stored at index `at` of `bytes`, if four bytes are there.
pub open spec fn int_at(bytes: Seq<u8>, at: int) -> Option<i32> {
    if 0 <= at && at + 4 <= bytes.len() {
        Some(int_of_bytes(bytes[at], bytes[at + 1], bytes[at + 2], bytes[at + 3]))
    } else {
        None
    }
}

/// The eight bytes of an identifier: the higher half, then the lower half.
pub open spec fn long_bytes(v: LogicLong) -> Seq<u8> {
    int_bytes(v.higher_int) + int_bytes(v.lower_int)
}

/// The identifier stored at index `at` of `bytes`, if eight bytes are there.
pub open spec fn long_at(bytes: Seq<u8>, at: int) -> Option<LogicLong> {
    if 0 <= at && at + 8 <= bytes.len() {
        Some(
            LogicLong {
                higher_int: int_at(bytes, at).unwrap(),
                lower_int: int_at(bytes, at + 4).unwrap(),
            },
        )
    } else {
        None
    }
}

/// A length-prefixed block: the length as an integer, then the bytes.
/// A missing block is the length -1 alone.
pub open spec fn block_bytes(data: Option<Seq<u8>>) -> Seq<u8> {
    match data {
        None => int_bytes(-1i32),
        Some(d) => int_bytes(d.len() as i32) + d,
    }
}

/// The length-prefixed block stored at index `at` of `bytes`, with the index
/// behind it. A negative length stands for a missing block. `None` where the
/// prefix or the announced bytes are not all there.
pub open spec fn block_at(bytes: Seq<u8>, at: int) -> Option<(Option<Seq<u8>>, int)> {
    match int_at(bytes, at) {
        None => None,
        Some(n) => if n < 0 {
            Some((None, at + 4))
        } else if at + 4 + n <= bytes.len() {
            Some((Some(bytes.subrange(at + 4, at + 4 + n)), at + 4 + n))
        } else {
            None
        },
    }
}

/// A string on the wire: its UTF-8 bytes as a length-prefixed block.
pub open spec fn string_bytes(text: Option<Seq<char>>) -> Seq<u8> {
    match text {
        None => block_bytes(None),
        Some(t) => block_bytes(Some(encode_utf8(t))),
    }
}

/// The string stored at index `at` of `bytes`, with the index behind it.
/// `None` where no block is there or its bytes are not UTF-8.
pub open spec fn string_at(bytes: Seq<u8>, at: int) -> Option<(Option<Seq<char>>, int)> {
    match block_at(bytes, at) {
        None => None,
        Some((None, next)) => Some((None, next)),
        Some((Some(d), next)) => if valid_utf8(d) {
            Some((Some(decode_utf8(d)), next))
        } else {
            None
        },
    }
}

/// An integer written into a buffer is read back from the same index.
pub proof fn lemma_int_read_back(buffer: Seq<u8>, at: int, v: i32, rest: Seq<u8>)
    requires
        0 <= at <= buffer.len(),
    ensures
        int_at(overwrite(buffer, at, int_bytes(v) + rest), at) == Some(v),
{
    reveal(overwrite);
    lemma_int_bytes_round_trip(v);
    let w = overwrite(buffer, at, int_bytes(v) + rest);
    assert(w[at] == int_bytes(v)[0]);
    assert(w[at + 1] == int_bytes(v)[1]);
    assert(w[at + 2] == int_bytes(v)[2]);
    assert(w[at + 3] == int_bytes(v)[3]);
}

/// An identifier written into a buffer is read back from the same index.
pub proof fn lemma_long_read_back(buffer: Seq<u8>, at: int, v: LogicLong, rest: Seq<u8>)
    requires
        0 <= at <= buffer.len(),
    ensures
        long_at(overwrite(buffer, at, long_bytes(v) + rest), at) == Some(v),
{
    let w = overwrite(buffer, at, long_bytes(v) + rest);
    lemma_int_bytes_round_trip(v.higher_int);
    lemma_int_bytes_round_trip(v.lower_int);
    assert(long_bytes(v) + rest =~= int_bytes(v.higher_int) + (int_bytes(v.lower_int) + rest));
    lemma_int_read_back(buffer, at, v.higher_int, int_bytes(v.lower_int) + rest);
    let mid = overwrite(buffer, at, int_bytes(v.higher_int));
    lemma_overwrite_len(buffer, at, int_bytes(v.higher_int));
    lemma_overwrite_twice(buffer, at, int_bytes(v.higher_int), int_bytes(v.lower_int) + rest);
    lemma_int_read_back(mid, at + 4, v.lower_int, rest);
}

/// A block of at most `i32::MAX` bytes written into a buffer is read back from
/// the same index.
pub proof fn lemma_block_read_back(buffer: Seq<u8>, at: int, data: Option<Seq<u8>>, rest: Seq<u8>)
    requires
        0 <= at <= buffer.len(),
        data is Some ==> data.unwrap().len() <= i32::MAX,
    ensures
        block_at(overwrite(buffer, at, block_bytes(data) + rest), at) == Some(
            (data, at + block_bytes(data).len()),
        ),
{
    reveal(overwrite);
    let w = overwrite(buffer, at, block_bytes(data) + rest);
    match data {
        None => {
            lemma_int_bytes_round_trip(-1i32);
            lemma_int_read_back(buffer, at, -1i32, rest);
        },
        Some(d) => {
            let n = d.len() as i32;
            lemma_int_bytes_round_trip(n);
            assert(block_bytes(data) + rest =~= int_bytes(n) + (d + rest));
            lemma_int_read_back(buffer, at, n, d + rest);
            assert(w.subrange(at + 4, at + 4 + n) =~= d);
        },
    }
}

/// A string of at most `i32::MAX` bytes written into a buffer is read back
/// from the same index.
pub proof fn lemma_string_read_back(buffer: Seq<u8>, at: int, text: Option<Seq<char>>, rest: Seq<u8>)
    requires
        0 <= at <= buffer.len(),
        text is Some ==> encode_utf8(text.unwrap()).len() <= i32::MAX,
    ensures
        string_at(overwrite(buffer, at, string_bytes(text) + rest), at) == Some(
            (text, at + string_bytes(text).len()),
        ),
{
    match text {
        None => {
            lemma_block_read_back(buffer, at, None, rest);
        },
        Some(t) => {
            encode_utf8_valid_utf8(t);
            encode_utf8_decode_utf8(t);
            lemma_block_read_back(buffer, at, Some(encode_utf8(t)), rest);
        },
    }
}

/// A text on the wire: a string that is never missing.
pub open spec fn text_bytes(text: Seq<char>) -> Seq<u8> {
    string_bytes(Some(text))
}

/// The text stored at index `at` of `bytes`, with the index behind it. `None`
/// where no string is there or the string is missing.
pub open spec fn text_at(bytes: Seq<u8>, at: int) -> Option<(Seq<char>, int)> {
    match string_at(bytes, at) {
        Some((Some(t), next)) => Some((t, next)),
        _ => None,
    }
}

/// A text whose UTF-8 bytes a length prefix can count.
pub open spec fn text_fits(text: Seq<char>) -> bool {
    encode_utf8(text).len() <= i32::MAX
}

/// An integer written anywhere inside a write is read back from its place.
pub proof fn lemma_int_inside(buffer: Seq<u8>, at: int, before: Seq<u8>, v: i32, after: Seq<u8>)
    requires
        0 <= at <= buffer.len(),
    ensures
        int_at(overwrite(buffer, at, before + int_bytes(v) + after), at + before.len()) == Some(v),
{
    assert(before + int_bytes(v) + after =~= before + (int_bytes(v) + after));
    lemma_overwrite_twice(buffer, at, before, int_bytes(v) + after);
    lemma_overwrite_len(buffer, at, before);
    lemma_int_read_back(overwrite(buffer, at, before), at + before.len(), v, after);
}

/// An identifier written anywhere inside a write is read back from its place.
pub proof fn lemma_long_inside(
    buffer: Seq<u8>,
    at: int,
    before: Seq<u8>,
    v: LogicLong,
    after: Seq<u8>,
)
    requires
        0 <= at <= buffer.len(),
    ensures
        long_at(overwrite(buffer, at, before + long_bytes(v) + after), at + before.len()) == Some(v),
{
    assert(before + long_bytes(v) + after =~= before + (long_bytes(v) + after));
    lemma_overwrite_twice(buffer, at, before, long_bytes(v) + after);
    lemma_overwrite_len(buffer, at, before);
    lemma_long_read_back(overwrite(buffer, at, before), at + before.len(), v, after);
}

/// A string that fits, written anywhere inside a write, is read back from its
/// place.
pub proof fn lemma_string_inside(
    buffer: Seq<u8>,
    at: int,
    before: Seq<u8>,
    text: Option<Seq<char>>,
    after: Seq<u8>,
)
    requires
        0 <= at <= buffer.len(),
        text is Some ==> text_fits(text.unwrap()),
    ensures
        string_at(overwrite(buffer, at, before + string_bytes(text) + after), at + before.len())
            == Some((text, at + before.len() + string_bytes(text).len())),
{
    assert(before + string_bytes(text) + after =~= before + (string_bytes(text) + after));
    lemma_overwrite_twice(buffer, at, before, string_bytes(text) + after);
    lemma_overwrite_len(buffer, at, before);
    lemma_string_read_back(overwrite(buffer, at, before), at + before.len(), text, after);
}

/// A text that fits, written anywhere inside a write, is read back from its
/// place.
pub proof fn lemma_text_inside(
    buffer: Seq<u8>,
    at: int,
    before: Seq<u8>,
    text: Seq<char>,
    after: Seq<u8>,
)
    requires
        0 <= at <= buffer.len(),
        text_fits(text),
    ensures
        text_at(overwrite(buffer, at, before + text_bytes(text) + after), at + before.len())
            == Some((text, at + before.len() + text_bytes(text).len())),
{
    lemma_string_inside(buffer, at, before, Some(text), after);
}

/// Three pieces between two others can be grouped round each of the three.
pub proof fn lemma_three_parts(before: Seq<u8>, a: Seq<u8>, b: Seq<u8>, c: Seq<u8>, after: Seq<u8>)
    ensures
        before + (a + b + c) + after == before + a + (b + c + after),
        before + (a + b + c) + after == (before + a) + b + (c + after),
        before + (a + b + c) + after == (before + a + b) + c + after,
        Seq::<u8>::empty() + a == a,
{
    let all = before + (a + b + c) + after;
    assert(all =~= before + a + (b + c + after));
    assert(all =~= (before + a) + b + (c + after));
    assert(all =~= (before + a + b) + c + after);
    assert(Seq::<u8>::empty() + a =~= a);
}

/// Four pieces between two others can be grouped round each of the four.
pub proof fn lemma_four_parts(
    before: Seq<u8>,
    a: Seq<u8>,
    b: Seq<u8>,
    c: Seq<u8>,
    d: Seq<u8>,
    after: Seq<u8>,
)
    ensures
        before + (a + b + c + d) + after == before + a + (b + c + d + after),
        before + (a + b + c + d) + after == (before + a) + b + (c + d + after),
        before + (a + b + c + d) + after == (before + a + b) + c + (d + after),
        before + (a + b + c + d) + after == (before + a + b + c) + d + after,
{
    let all = before + (a + b + c + d) + after;
    assert(all =~= before + a + (b + c + d + after));
    assert(all =~= (before + a) + b + (c + d + after));
    assert(all =~= (before + a + b) + c + (d + after));
    assert(all =~= (before + a + b + c) + d + after);
}

/// A growable byte buffer with one cursor, shared by reads and writes.
///
/// `length` is the number of bytes the stream was made from; bytes written
/// later move the cursor only.
pub struct ByteStream {
    pub buffer: Vec<u8>,
    pub offset: usize,
    pub length: usize,
}

impl ByteStream {
    /// The cursor and the declared length lie inside the buffer.
    pub open spec fn wf(&self) -> bool {
        self.offset <= self.buffer@.len() && self.length <= self.buffer@.len()
    }

    /// The number of meaningful bytes: the larger of cursor and declared length.
    pub open spec fn spec_length(&self) -> int {
        if self.offset >= self.length {
            self.offset as int
        } else {
            self.length as int
        }
    }

    /// An empty stream. The capacity is a hint for the allocation only.
    pub fn new(initial_capacity: usize) -> (r: Self)
        ensures
            r.wf(),
            r.buffer@ == Seq::<u8>::empty(),
            r.offset == 0,
            r.length == 0,
    {
        Self { buffer: Vec::with_capacity(initial_capacity), offset: 0, length: 0 }
    }

    /// A stream over a copy of `value`, with the cursor at its start.
    pub fn from(value: &[u8]) -> (r: Self)
        ensures
            r.wf(),
            r.buffer@ == value@,
            r.offset == 0,
            r.length == value@.len(),
    {
        let mut buffer: Vec<u8> = Vec::with_capacity(value.len());
        buffer.extend_from_slice(value);
        assert(buffer@ =~= value@);
        Self { buffer, offset: 0, length: value.len() }
    }

    /// The meaningful bytes, from the start of the buffer.
    pub fn get_byte_array(&self) -> (r: &[u8])
        requires
            self.wf(),
        ensures
            r@ == self.buffer@.subrange(0, self.spec_length()),
    {
        let end: usize = if self.offset >= self.length {
            self.offset
        } else {
            self.length
        };
        slice_subrange(self.buffer.as_slice(), 0, end)
    }

    /// The number of meaningful bytes, cut to 32 bits.
    pub fn get_length(&self) -> (r: i32)
        ensures
            r == self.spec_length() as i32,
    {
        if self.offset >= self.length {
            #[verifier::truncate]
            (self.offset as i32)
        } else {
            #[verifier::truncate]
            (self.length as i32)
        }
    }

    /// The cursor.
    pub fn get_offset(&self) -> (r: usize)
        ensures
            r == self.offset,
    {
        self.offset
    }

    /// Moves the cursor back to the start.
    pub fn reset_offset(&mut self)
        ensures
            final(self).buffer == old(self).buffer,
            final(self).length == old(self).length,
            final(self).offset == 0,
    {
        self.offset = 0;
    }

    /// Whether the cursor stands behind the last byte of the buffer.
    pub fn is_at_end(&self) -> (r: bool)
        ensures
            r == (self.offset >= self.buffer@.len()),
    {
        self.offset >= self.buffer.len()
    }

    /// Writes `data` at the cursor and moves the cursor behind it.
    pub fn write_raw(&mut self, data: &[u8])
        requires
            old(self).wf(),
        ensures
            final(self).wf(),
            final(self).buffer@ == overwrite(old(self).buffer@, old(self).offset as int, data@),
            final(self).offset == old(self).offset + data@.len(),
            final(self).length == old(self).length,
    {
        let mut i: usize = 0;
        proof {
            reveal(overwrite);
        }
        while i < data.len()
            invariant
                i <= data@.len(),
                self.wf(),
                self.length == old(self).length,
                self.offset == old(self).offset + i,
                old(self).wf(),
                self.buffer@ =~= overwrite(
                    old(self).buffer@,
                    old(self).offset as int,
                    data@.subrange(0, i as int),
                ),
            decreases data@.len() - i,
        {
            proof {
                reveal(overwrite);
            }
            if self.offset < self.buffer.len() {
                self.buffer.set(self.offset, data[i]);
            } else {
                self.buffer.push(data[i]);
            }
            let filled: usize = self.buffer.len();
            assert(self.offset < filled);
            self.offset = self.offset + 1;
            i = i + 1;
        }
        assert(data@.subrange(0, i as int) =~= data@);
    }

    /// Writes one byte.
    pub fn write_byte(&mut self, value: u8)
        requires
            old(self).wf(),
        ensures
            final(self).wf(),
            final(self).buffer@ == overwrite(old(self).buffer@, old(self).offset as int, seq![value]),
            final(self).offset == old(self).offset + 1,
            final(self).length == old(self).length,
    {
        let data: [u8; 1] = [value];
        assert(data@ =~= seq![value]);
        self.write_raw(data.as_slice());
    }

    /// Writes an integer, most significant byte first.
    pub fn write_int(&mut self, value: i32)
        requires
            old(self).wf(),
        ensures
            final(self).wf(),
            final(self).buffer@ == overwrite(old(self).buffer@, old(self).offset as int, int_bytes(value)),
            final(self).offset == old(self).offset + 4,
            final(self).length == old(self).length,
    {
        let u: u32 = #[verifier::truncate]
        (value as u32);
        let data: [u8; 4] = [
            #[verifier::truncate]
            ((u >> 24) as u8),
            #[verifier::truncate]
            ((u >> 16) as u8),
            #[verifier::truncate]
            ((u >> 8) as u8),
            #[verifier::truncate]
            (u as u8),
        ];
        assert(data@ =~= int_bytes(value));
        self.write_raw(data.as_slice());
    }

    /// Writes an identifier: the higher half, then the lower half.
    pub fn write_long(&mut self, value: &LogicLong)
        requires
            old(self).wf(),
        ensures
            final(self).wf(),
            final(self).buffer@ == overwrite(old(self).buffer@, old(self).offset as int, long_bytes(*value)),
            final(self).offset == old(self).offset + 8,
            final(self).length == old(self).length,
    {
        self.write_int(value.higher_int);
        self.write_int(value.lower_int);
        proof {
            lemma_overwrite_twice(
                old(self).buffer@,
                old(self).offset as int,
                int_bytes(value.higher_int),
                int_bytes(value.lower_int),
            );
        }
    }

    /// Writes a length-prefixed block; a missing block as the length -1.
    pub fn write_bytes(&mut self, data: Option<&[u8]>)
        requires
            old(self).wf(),
        ensures
            final(self).wf(),
            final(self).buffer@ == overwrite(
                old(self).buffer@,
                old(self).offset as int,
                block_bytes(
                    match data {
                        Some(d) => Some(d@),
                        None => None,
                    },
                ),
            ),
            final(self).offset == old(self).offset + block_bytes(
                match data {
                    Some(d) => Some(d@),
                    None => None,
                },
            ).len(),
            final(self).length == old(self).length,
    {
        match data {
            None => {
                self.write_int(-1);
            },
            Some(d) => {
                let n: i32 = #[verifier::truncate]
                (d.len() as i32);
                self.write_int(n);
                self.write_raw(d);
                proof {
                    lemma_overwrite_twice(old(self).buffer@, old(self).offset as int, int_bytes(n), d@);
                }
            },
        }
    }

    /// Writes a string as the length-prefixed block of its UTF-8 bytes; a
    /// missing string as the length -1.
    pub fn write_string(&mut self, text: Option<&str>)
        requires
            old(self).wf(),
        ensures
            final(self).wf(),
            final(self).buffer@ == overwrite(
                old(self).buffer@,
                old(self).offset as int,
                string_bytes(
                    match text {
                        Some(t) => Some(t@),
                        None => None,
                    },
                ),
            ),
            final(self).offset == old(self).offset + string_bytes(
                match text {
                    Some(t) => Some(t@),
                    None => None,
                },
            ).len(),
            final(self).length == old(self).length,
    {
        match text {
            None => {
                self.write_bytes(None);
            },
            Some(t) => {
                self.write_bytes(Some(t.as_bytes()));
            },
        }
    }

    /// Reads one byte at the cursor, if there is one.
    pub fn read_byte(&mut self) -> (r: Option<u8>)
        ensures
            final(self).buffer == old(self).buffer,
            final(self).length == old(self).length,
            match r {
                Some(v) => old(self).offset < old(self).buffer@.len() && v == old(self).buffer@[old(
                    self,
                ).offset as int] && final(self).offset == old(self).offset + 1,
                None => old(self).offset >= old(self).buffer@.len() && final(self).offset == old(
                    self,
                ).offset,
            },
    {
        if self.offset < self.buffer.len() {
            let v: u8 = self.buffer[self.offset];
            self.offset = self.offset + 1;
            Some(v)
        } else {
            None
        }
    }

    /// Reads an integer at the cursor, if four bytes are there.
    pub fn read_int(&mut self) -> (r: Option<i32>)
        ensures
            final(self).buffer == old(self).buffer,
            final(self).length == old(self).length,
            r == int_at(old(self).buffer@, old(self).offset as int),
            final(self).offset == if r is Some {
                old(self).offset + 4
            } else {
                old(self).offset as int
            },
            old(self).wf() ==> final(self).wf(),
    {
        let len: usize = self.buffer.len();
        if len < 4 || self.offset > len - 4 {
            return None;
        }
        let b0: u32 = self.buffer[self.offset] as u32;
        let b1: u32 = self.buffer[self.offset + 1] as u32;
        let b2: u32 = self.buffer[self.offset + 2] as u32;
        let b3: u32 = self.buffer[self.offset + 3] as u32;
        let u: u32 = (b0 << 24) | (b1 << 16) | (b2 << 8) | b3;
        self.offset = self.offset + 4;
        Some(
            #[verifier::truncate]
            (u as i32),
        )
    }

    /// Reads an identifier at the cursor, if eight bytes are there.
    pub fn read_long(&mut self) -> (r: Option<LogicLong>)
        ensures
            final(self).buffer == old(self).buffer,
            final(self).length == old(self).length,
            r == long_at(old(self).buffer@, old(self).offset as int),
            final(self).offset == if r is Some {
                old(self).offset + 8
            } else {
                old(self).offset as int
            },
            old(self).wf() ==> final(self).wf(),
    {
        let len: usize = self.buffer.len();
        if len < 8 || self.offset > len - 8 {
            return None;
        }
        let higher_int: i32 = self.read_int().unwrap();
        let lower_int: i32 = self.read_int().unwrap();
        Some(LogicLong { higher_int, lower_int })
    }

    /// Reads a length-prefixed block at the cursor. `None` where the stream
    /// ends too early; `Some(None)` for a missing block.
    pub fn read_bytes(&mut self) -> (r: Option<Option<Vec<u8>>>)
        ensures
            final(self).buffer == old(self).buffer,
            final(self).length == old(self).length,
            match block_at(old(self).buffer@, old(self).offset as int) {
                None => r is None && final(self).offset == old(self).offset,
                Some((None, next)) => r == Some(None::<Vec<u8>>) && final(self).offset == next,
                Some((Some(d), next)) => r is Some && r.unwrap() is Some && r.unwrap().unwrap()@ == d
                    && final(self).offset == next,
            },
            old(self).wf() ==> final(self).wf(),
    {
        let start: usize = self.offset;
        let n: i32 = match self.read_int() {
            None => {
                return None;
            },
            Some(n) => n,
        };
        if n < 0 {
            return Some(None);
        }
        let count: usize = n as usize;
        if count > self.buffer.len() - self.offset {
            self.offset = start;
            return None;
        }
        let end: usize = self.offset + count;
        let mut data: Vec<u8> = Vec::with_capacity(count);
        data.extend_from_slice(slice_subrange(self.buffer.as_slice(), self.offset, end));
        assert(data@ =~= self.buffer@.subrange(self.offset as int, end as int));
        self.offset = end;
        Some(Some(data))
    }

    /// Reads a string at the cursor. `None` where the stream ends too early or
    /// the bytes are not UTF-8; `Some(None)` for a missing string.
    pub fn read_string(&mut self) -> (r: Option<Option<String>>)
        ensures
            final(self).buffer == old(self).buffer,
            final(self).length == old(self).length,
            match string_at(old(self).buffer@, old(self).offset as int) {
                None => r is None && final(self).offset == old(self).offset,
                Some((None, next)) => r == Some(None::<String>) && final(self).offset == next,
                Some((Some(t), next)) => r is Some && r.unwrap() is Some && r.unwrap().unwrap()@ == t
                    && final(self).offset == next,
            },
            old(self).wf() ==> final(self).wf(),
    {
        let start: usize = self.offset;
        match self.read_bytes() {
            None => None,
            Some(None) => Some(None),
            Some(Some(data)) => match string_from_utf8(data) {
                None => {
                    self.offset = start;
                    None
                },
                Some(text) => Some(Some(text)),
            },
        }
    }
    /// Writes a text as the length-prefixed block of its UTF-8 bytes.
    pub fn write_text(&mut self, text: &str)
        requires
            old(self).wf(),
        ensures
            final(self).wf(),
            final(self).buffer@ == overwrite(old(self).buffer@, old(self).offset as int, text_bytes(text@)),
            final(self).offset == old(self).offset + text_bytes(text@).len(),
            final(self).length == old(self).length,
    {
        self.write_string(Some(text));
    }

    /// Reads a text at the cursor. `None`, with the cursor where it was, where
    /// the stream ends too early, the string is missing or its bytes are not
    /// UTF-8.
    pub fn read_text(&mut self) -> (r: Option<String>)
        ensures
            final(self).buffer == old(self).buffer,
            final(self).length == old(self).length,
            match text_at(old(self).buffer@, old(self).offset as int) {
                None => r is None && final(self).offset == old(self).offset,
                Some((t, next)) => r is Some && r.unwrap()@ == t && final(self).offset == next,
            },
            old(self).wf() ==> final(self).wf(),
    {
        let start: usize = self.offset;
        match self.read_string() {
            Some(Some(text)) => Some(text),
            _ => {
                self.offset = start;
                None
            },
        }
    }

    /// Moves the cursor to `offset`.
    pub fn set_offset(&mut self, offset: usize)
        requires
            offset <= old(self).buffer@.len(),
        ensures
            final(self).buffer == old(self).buffer,
            final(self).length == old(self).length,
            final(self).offset == offset,
    {
        self.offset = offset;
    }
}

} // verus!
