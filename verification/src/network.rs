use vstd::prelude::*;
use vstd::string::*;
use vstd::slice::slice_subrange;
use crate::mersenne::{scramble, scrambled};

verus! {

/// The state of the stream cipher: a permutation of the byte values and two
/// indices into it.
pub struct CipherState {
    pub table: Seq<u8>,
    pub i: u8,
    pub j: u8,
}

/// `table` with the entries at `a` and `b` exchanged.
pub open spec fn exchanged(table: Seq<u8>, a: int, b: int) -> Seq<u8> {
    table.update(a, table[b]).update(b, table[a])
}

/// The byte of the key that round `round` of the key schedule mixes in. An
/// empty key mixes in zero.
pub open spec fn key_byte(key: Seq<u8>, round: int) -> u8 {
    if key.len() == 0 {
        0u8
    } else {
        key[round % (key.len() as int)]
    }
}

/// The table and the running index after the first `rounds` rounds of the key
/// schedule, which starts from the identity table.
pub open spec fn scheduled(key: Seq<u8>, rounds: nat) -> (Seq<u8>, u8)
    decreases rounds,
{
    if rounds == 0 {
        (Seq::new(256, |k: int| k as u8), 0u8)
    } else {
        let (table, j) = scheduled(key, (rounds - 1) as nat);
        let i = rounds - 1;
        let next = ((j as int + table[i] as int + key_byte(key, i) as int) % 256) as u8;
        (exchanged(table, i, next as int), next)
    }
}

/// The state one output byte later.
pub open spec fn stepped(state: CipherState) -> CipherState {
    let i = ((state.i as int + 1) % 256) as u8;
    let j = ((state.j as int + state.table[i as int] as int) % 256) as u8;
    CipherState { table: exchanged(state.table, i as int, j as int), i, j }
}

/// The byte that a state gives out once it has been stepped into.
pub open spec fn emitted(state: CipherState) -> u8 {
    state.table[(state.table[state.i as int] as int + state.table[state.j as int] as int) % 256]
}

/// The state `count` output bytes later.
pub open spec fn advanced(state: CipherState, count: nat) -> CipherState
    decreases count,
{
    if count == 0 {
        state
    } else {
        stepped(advanced(state, (count - 1) as nat))
    }
}

/// The state of a cipher that was just keyed: the whole key schedule, then as
/// many output bytes thrown away as the key is long.
pub open spec fn keyed(key: Seq<u8>) -> CipherState {
    advanced(CipherState { table: scheduled(key, 256).0, i: 0, j: 0 }, key.len())
}

/// `data` with byte `k` combined with output byte `k` of the cipher.
pub open spec fn ciphered(state: CipherState, data: Seq<u8>) -> Seq<u8> {
    Seq::new(data.len(), |k: int| data[k] ^ emitted(advanced(state, (k + 1) as nat)))
}

/// A state whose table has one entry for each byte value.
pub open spec fn state_wf(state: CipherState) -> bool {
    state.table.len() == 256
}

/// Advancing in two runs is advancing by the sum.
pub proof fn lemma_advanced_sum(state: CipherState, first: nat, second: nat)
    ensures
        advanced(advanced(state, first), second) == advanced(state, first + second),
    decreases second,
{
    if second > 0 {
        lemma_advanced_sum(state, first, (second - 1) as nat);
    }
}

/// The cipher is a stream: ciphering two pieces one after the other, the
/// second from the state the first left, is ciphering their concatenation.
pub proof fn lemma_ciphered_concat(state: CipherState, first: Seq<u8>, second: Seq<u8>)
    ensures
        ciphered(state, first + second) =~= ciphered(state, first) + ciphered(
            advanced(state, first.len()),
            second,
        ),
{
    let whole = ciphered(state, first + second);
    let parts = ciphered(state, first) + ciphered(advanced(state, first.len()), second);
    assert forall|k: int| 0 <= k < whole.len() implies whole[k] == parts[k] by {
        if k >= first.len() {
            lemma_advanced_sum(state, first.len(), (k - first.len() + 1) as nat);
        }
    }
}

/// Ciphering twice from the same state gives the data back: what one side
/// encrypts, the other side decrypts when both hold the same state.
pub proof fn lemma_ciphered_twice(state: CipherState, data: Seq<u8>)
    ensures
        ciphered(state, ciphered(state, data)) =~= data,
{
    assert forall|k: int| 0 <= k < data.len() implies ciphered(state, ciphered(state, data))[k]
        == data[k] by {
        let a = data[k];
        let b = emitted(advanced(state, (k + 1) as nat));
        assert((a ^ b) ^ b == a) by (bit_vector);
    }
}

/// One direction of the stream cipher.
pub struct RC4Encrypter {
    pub table: Vec<u8>,
    pub i: u8,
    pub j: u8,
}

impl View for RC4Encrypter {
    type V = CipherState;

    open spec fn view(&self) -> CipherState {
        CipherState { table: self.table@, i: self.i, j: self.j }
    }
}

impl RC4Encrypter {
    /// The table has one entry for each byte value.
    pub open spec fn wf(&self) -> bool {
        state_wf(self@)
    }

    /// A cipher keyed with the bytes of `key` followed by the bytes of `nonce`.
    pub fn new(key: &str, nonce: &str) -> (r: Self)
        ensures
            r.wf(),
            r@ == keyed(key.spec_bytes() + nonce.spec_bytes()),
    {
        Self::new_with_nonce_bytes(key, nonce.as_bytes())
    }

    /// A cipher keyed with the bytes of `key` followed by `nonce`.
    pub fn new_with_nonce_bytes(key: &str, nonce: &[u8]) -> (r: Self)
        ensures
            r.wf(),
            r@ == keyed(key.spec_bytes() + nonce@),
    {
        let key_bytes = key.as_bytes();
        let mut material: Vec<u8> = Vec::with_capacity(key_bytes.len());
        material.extend_from_slice(key_bytes);
        material.extend_from_slice(nonce);
        assert(material@ =~= key.spec_bytes() + nonce@);
        Self::from_key(material.as_slice())
    }

    /// A cipher keyed with `key`.
    pub fn from_key(key: &[u8]) -> (r: Self)
        ensures
            r.wf(),
            r@ == keyed(key@),
    {
        let mut table: Vec<u8> = Vec::with_capacity(256);
        let mut k: usize = 0;
        while k < 256
            invariant
                k <= 256,
                table@ =~= Seq::new(k as nat, |n: int| n as u8),
            decreases 256 - k,
        {
            table.push(k as u8);
            k = k + 1;
        }
        let mut j: u8 = 0;
        let mut round: usize = 0;
        while round < 256
            invariant
                round <= 256,
                table@.len() == 256,
                (table@, j) == scheduled(key@, round as nat),
            decreases 256 - round,
        {
            let mixed: u8 = if key.len() == 0 {
                0
            } else {
                key[round % key.len()]
            };
            let next: u8 = ((j as usize + table[round] as usize + mixed as usize) % 256) as u8;
            let at_round: u8 = table[round];
            let at_next: u8 = table[next as usize];
            table.set(round, at_next);
            table.set(next as usize, at_round);
            j = next;
            round = round + 1;
            assert(table@ =~= scheduled(key@, round as nat).0);
        }
        let mut cipher = Self { table, i: 0, j: 0 };
        cipher.skip(key.len());
        cipher
    }

    /// Moves the cipher on by one output byte and returns that byte.
    pub fn next_byte(&mut self) -> (r: u8)
        requires
            old(self).wf(),
        ensures
            final(self).wf(),
            final(self)@ == stepped(old(self)@),
            r == emitted(final(self)@),
    {
        let i: u8 = ((self.i as usize + 1) % 256) as u8;
        let at_i: u8 = self.table[i as usize];
        let j: u8 = ((self.j as usize + at_i as usize) % 256) as u8;
        let at_j: u8 = self.table[j as usize];
        self.table.set(i as usize, at_j);
        self.table.set(j as usize, at_i);
        self.i = i;
        self.j = j;
        assert(self.table@ =~= exchanged(old(self).table@, i as int, j as int));
        let at: usize = (self.table[i as usize] as usize + self.table[j as usize] as usize) % 256;
        self.table[at]
    }

    /// Throws away `count` output bytes.
    pub fn skip(&mut self, count: usize)
        requires
            old(self).wf(),
        ensures
            final(self).wf(),
            final(self)@ == advanced(old(self)@, count as nat),
    {
        let mut done: usize = 0;
        while done < count
            invariant
                done <= count,
                self.wf(),
                self@ == advanced(old(self)@, done as nat),
            decreases count - done,
        {
            let _ = self.next_byte();
            done = done + 1;
        }
    }

    /// Combines `data` in place with the next output bytes of the cipher.
    pub fn process(&mut self, data: &mut Vec<u8>)
        requires
            old(self).wf(),
        ensures
            final(self).wf(),
            final(self)@ == advanced(old(self)@, old(data)@.len()),
            final(data)@ == ciphered(old(self)@, old(data)@),
    {
        let mut k: usize = 0;
        while k < data.len()
            invariant
                k <= data@.len(),
                data@.len() == old(data)@.len(),
                self.wf(),
                self@ == advanced(old(self)@, k as nat),
                forall|n: int| 0 <= n < k ==> #[trigger] data@[n] == ciphered(old(self)@, old(data)@)[n],
                forall|n: int| k <= n < data@.len() ==> #[trigger] data@[n] == old(data)@[n],
            decreases data@.len() - k,
        {
            let pad: u8 = self.next_byte();
            let plain: u8 = data[k];
            data.set(k, plain ^ pad);
            k = k + 1;
        }
        assert(data@ =~= ciphered(old(self)@, old(data)@));
    }

    /// Encrypts `data` in place.
    pub fn encrypt(&mut self, data: &mut Vec<u8>)
        requires
            old(self).wf(),
        ensures
            final(self).wf(),
            final(self)@ == advanced(old(self)@, old(data)@.len()),
            final(data)@ == ciphered(old(self)@, old(data)@),
    {
        self.process(data);
    }

    /// Decrypts `data` in place.
    pub fn decrypt(&mut self, data: &mut Vec<u8>)
        requires
            old(self).wf(),
        ensures
            final(self).wf(),
            final(self)@ == advanced(old(self)@, old(data)@.len()),
            final(data)@ == ciphered(old(self)@, old(data)@),
    {
        self.process(data);
    }

    /// An independent copy in the same state.
    pub fn duplicate(&self) -> (r: Self)
        ensures
            r@ == self@,
    {
        let table = self.table.clone();
        assert(table@ =~= self.table@);
        Self { table, i: self.i, j: self.j }
    }
}


/// A typed unit of the protocol: what one frame carries.
pub struct PiranhaMessage {
    pub message_type: u16,
    pub version: u16,
    pub payload: Vec<u8>,
}

/// What a message holds, as plain values.
pub struct MessageView {
    pub message_type: u16,
    pub version: u16,
    pub payload: Seq<u8>,
}

impl View for PiranhaMessage {
    type V = MessageView;

    open spec fn view(&self) -> MessageView {
        MessageView { message_type: self.message_type, version: self.version, payload: self.payload@ }
    }
}

impl PiranhaMessage {
    pub fn new(message_type: u16, version: u16, payload: Vec<u8>) -> (r: Self)
        ensures
            r.message_type == message_type,
            r.version == version,
            r.payload == payload,
    {
        Self { message_type, version, payload }
    }

    pub fn get_message_type(&self) -> (r: u16)
        ensures
            r == self.message_type,
    {
        self.message_type
    }

    /// An independent copy.
    pub fn duplicate(&self) -> (r: Self)
        ensures
            r@ == self@,
    {
        let payload = self.payload.clone();
        assert(payload@ =~= self.payload@);
        Self { message_type: self.message_type, version: self.version, payload }
    }
}

/// What each message of a sequence holds.
pub open spec fn message_views(messages: Seq<PiranhaMessage>) -> Seq<MessageView> {
    Seq::new(messages.len(), |k: int| messages[k]@)
}

/// The number of bytes before the payload of a frame: two for the type, three
/// for the payload's length, two for the version, each most significant byte
/// first.
pub const HEADER_LENGTH: usize = 7;

/// The longest payload that a frame may announce or carry.
pub const MAX_PAYLOAD_LENGTH: usize = 1048576;

/// The header of a frame.
pub open spec fn header_bytes(message_type: u16, length: int, version: u16) -> Seq<u8> {
    seq![
        (message_type / 256) as u8,
        (message_type % 256) as u8,
        (length / 65536) as u8,
        ((length / 256) % 256) as u8,
        (length % 256) as u8,
        (version / 256) as u8,
        (version % 256) as u8,
    ]
}

/// The frame of a message: its header, then its payload.
pub open spec fn frame_bytes(message: MessageView) -> Seq<u8> {
    header_bytes(message.message_type, message.payload.len() as int, message.version)
        + message.payload
}

/// The payload length that the header at the start of `bytes` announces.
pub open spec fn announced_length(bytes: Seq<u8>) -> int {
    bytes[2] as int * 65536 + bytes[3] as int * 256 + bytes[4] as int
}

/// What stands at the start of a byte sequence.
pub enum FrameView {
    /// Less than one whole frame: more bytes are needed.
    Incomplete,
    /// A header that announces more than the longest payload.
    Oversized,
    /// One whole frame, `consumed` bytes long.
    Complete { message: MessageView, consumed: int },
}

/// The frame at the start of `bytes`.
pub open spec fn frame_at(bytes: Seq<u8>) -> FrameView {
    if bytes.len() < HEADER_LENGTH {
        FrameView::Incomplete
    } else if announced_length(bytes) > MAX_PAYLOAD_LENGTH {
        FrameView::Oversized
    } else if bytes.len() < HEADER_LENGTH + announced_length(bytes) {
        FrameView::Incomplete
    } else {
        FrameView::Complete {
            message: MessageView {
                message_type: (bytes[0] as int * 256 + bytes[1] as int) as u16,
                version: (bytes[5] as int * 256 + bytes[6] as int) as u16,
                payload: bytes.subrange(
                    HEADER_LENGTH as int,
                    HEADER_LENGTH + announced_length(bytes),
                ),
            },
            consumed: HEADER_LENGTH + announced_length(bytes),
        }
    }
}

/// The whole frames at the start of `bytes`, in order, the number of bytes
/// they take, and whether an oversized header stopped the reading.
pub open spec fn frames_in(bytes: Seq<u8>) -> (Seq<MessageView>, int, bool)
    decreases bytes.len(),
{
    match frame_at(bytes) {
        FrameView::Incomplete => (Seq::empty(), 0, false),
        FrameView::Oversized => (Seq::empty(), 0, true),
        FrameView::Complete { message, consumed } => {
            let rest = frames_in(bytes.subrange(consumed, bytes.len() as int));
            (seq![message] + rest.0, consumed + rest.1, rest.2)
        },
    }
}

/// The frames of `messages`, one after the other.
pub open spec fn frames_of(messages: Seq<MessageView>) -> Seq<u8>
    decreases messages.len(),
{
    if messages.len() == 0 {
        Seq::empty()
    } else {
        frame_bytes(messages[0]) + frames_of(messages.drop_first())
    }
}

/// A message whose payload a frame can carry.
pub open spec fn frameable(message: MessageView) -> bool {
    message.payload.len() <= MAX_PAYLOAD_LENGTH
}

/// Decoding the frame of a message gives the message back, whatever follows
/// the frame.
pub proof fn lemma_frame_round_trip(message: MessageView, rest: Seq<u8>)
    requires
        frameable(message),
    ensures
        frame_at(frame_bytes(message) + rest) == (FrameView::Complete {
            message,
            consumed: frame_bytes(message).len() as int,
        }),
{
    let bytes = frame_bytes(message) + rest;
    let n = message.payload.len() as int;
    let h = header_bytes(message.message_type, n, message.version);
    assert(forall|k: int| 0 <= k < 7 ==> bytes[k] == h[k]);
    assert(announced_length(bytes) == n);
    assert(bytes.subrange(7, 7 + n) =~= message.payload);
}

/// A frame that has not wholly arrived is never decoded: every proper prefix
/// of a message's frame is incomplete.
pub proof fn lemma_frame_prefix_incomplete(message: MessageView, cut: int)
    requires
        frameable(message),
        0 <= cut < frame_bytes(message).len(),
    ensures
        frame_at(frame_bytes(message).subrange(0, cut)) == FrameView::Incomplete,
{
    let bytes = frame_bytes(message).subrange(0, cut);
    let n = message.payload.len() as int;
    let h = header_bytes(message.message_type, n, message.version);
    if cut >= 7 {
        assert(forall|k: int| 0 <= k < 7 ==> bytes[k] == h[k]);
        assert(announced_length(bytes) == n);
    }
}

/// What stands at the start of a byte sequence is decided by the bytes of the
/// first frame alone: bytes that arrive later do not change a whole frame.
pub proof fn lemma_frame_at_extended(bytes: Seq<u8>, more: Seq<u8>)
    requires
        frame_at(bytes) is Complete,
    ensures
        frame_at(bytes + more) == frame_at(bytes),
{
    let all = bytes + more;
    assert(forall|k: int| 0 <= k < 7 ==> all[k] == bytes[k]);
    let n = announced_length(bytes);
    assert(all.subrange(7, 7 + n) =~= bytes.subrange(7, 7 + n));
}

/// Decoding the frames of a sequence of messages gives the sequence back and
/// takes every byte.
pub proof fn lemma_frames_round_trip(messages: Seq<MessageView>)
    requires
        forall|k: int| 0 <= k < messages.len() ==> frameable(#[trigger] messages[k]),
    ensures
        frames_in(frames_of(messages)) == (messages, frames_of(messages).len() as int, false),
    decreases messages.len(),
{
    if messages.len() == 0 {
        assert(frames_in(Seq::<u8>::empty()) == (Seq::<MessageView>::empty(), 0int, false));
    } else {
        let first = messages[0];
        let tail = messages.drop_first();
        let bytes = frames_of(messages);
        lemma_frame_round_trip(first, frames_of(tail));
        let consumed = frame_bytes(first).len() as int;
        assert(bytes.subrange(consumed, bytes.len() as int) =~= frames_of(tail));
        assert forall|k: int| 0 <= k < tail.len() implies frameable(#[trigger] tail[k]) by {
            assert(tail[k] == messages[k + 1]);
        }
        lemma_frames_round_trip(tail);
        assert(seq![first] + tail =~= messages);
    }
}

/// What `decode_frame` found at the start of a buffer.
pub enum Frame {
    /// Less than one whole frame: more bytes are needed.
    Incomplete,
    /// A header that announces more than the longest payload.
    Oversized,
    /// One whole frame and the number of bytes it took.
    Complete(PiranhaMessage, usize),
}

impl View for Frame {
    type V = FrameView;

    open spec fn view(&self) -> FrameView {
        match self {
            Frame::Incomplete => FrameView::Incomplete,
            Frame::Oversized => FrameView::Oversized,
            Frame::Complete(message, consumed) => FrameView::Complete {
                message: message@,
                consumed: *consumed as int,
            },
        }
    }
}

/// The payload length announced by a header of at least five bytes.
pub fn announced(bytes: &[u8]) -> (r: usize)
    requires
        bytes@.len() >= 5,
    ensures
        r == announced_length(bytes@),
{
    (bytes[2] as usize) * 65536 + (bytes[3] as usize) * 256 + (bytes[4] as usize)
}

/// Extracts the frame at the start of `bytes`, if a whole one is there.
pub fn decode_frame(bytes: &[u8]) -> (r: Frame)
    ensures
        r@ == frame_at(bytes@),
{
    if bytes.len() < HEADER_LENGTH {
        return Frame::Incomplete;
    }
    let length: usize = announced(bytes);
    if length > MAX_PAYLOAD_LENGTH {
        return Frame::Oversized;
    }
    if bytes.len() - HEADER_LENGTH < length {
        return Frame::Incomplete;
    }
    let message_type: u16 = (bytes[0] as u16) * 256 + (bytes[1] as u16);
    let version: u16 = (bytes[5] as u16) * 256 + (bytes[6] as u16);
    let mut payload: Vec<u8> = Vec::with_capacity(length);
    payload.extend_from_slice(slice_subrange(bytes, HEADER_LENGTH, HEADER_LENGTH + length));
    assert(payload@ =~= bytes@.subrange(HEADER_LENGTH as int, HEADER_LENGTH + length));
    Frame::Complete(PiranhaMessage { message_type, version, payload }, HEADER_LENGTH + length)
}

/// Extracts every whole frame at the start of `bytes`. Returns the messages in
/// order, the number of bytes they took, and whether an oversized header
/// stopped the reading; the bytes behind the count are left for the next call.
pub fn decode_frames(bytes: &[u8]) -> (r: (Vec<PiranhaMessage>, usize, bool))
    ensures
        message_views(r.0@) == frames_in(bytes@).0,
        r.1 == frames_in(bytes@).1,
        r.2 == frames_in(bytes@).2,
        r.1 <= bytes@.len(),
{
    let mut messages: Vec<PiranhaMessage> = Vec::new();
    let mut consumed: usize = 0;
    let mut failed: bool = false;
    let mut open: bool = true;
    assert(bytes@.subrange(0, bytes@.len() as int) =~= bytes@);
    assert(message_views(messages@) + frames_in(bytes@).0 =~= frames_in(bytes@).0);
    while open
        invariant
            consumed <= bytes@.len(),
            !open ==> frames_in(bytes@) == (
                message_views(messages@),
                consumed as int,
                failed,
            ),
            open ==> !failed && frames_in(bytes@) == (
                message_views(messages@) + frames_in(
                    bytes@.subrange(consumed as int, bytes@.len() as int),
                ).0,
                consumed + frames_in(bytes@.subrange(consumed as int, bytes@.len() as int)).1,
                frames_in(bytes@.subrange(consumed as int, bytes@.len() as int)).2,
            ),
        decreases bytes@.len() - consumed + (if open { 1int } else { 0int }),
    {
        let rest = slice_subrange(bytes, consumed, bytes.len());
        match decode_frame(rest) {
            Frame::Incomplete => {
                open = false;
                assert(message_views(messages@) + Seq::<MessageView>::empty()
                    =~= message_views(messages@));
            },
            Frame::Oversized => {
                open = false;
                failed = true;
                assert(message_views(messages@) + Seq::<MessageView>::empty()
                    =~= message_views(messages@));
            },
            Frame::Complete(message, taken) => {
                proof {
                    let before = message_views(messages@);
                    let tail = rest@.subrange(taken as int, rest@.len() as int);
                    assert(tail =~= bytes@.subrange(consumed + taken, bytes@.len() as int));
                    assert(before.push(message@) + frames_in(tail).0 =~= before + (seq![message@]
                        + frames_in(tail).0));
                    assert(message_views(messages@.push(message)) =~= before.push(
                        message@,
                    ));
                }
                messages.push(message);
                consumed = consumed + taken;
            },
        }
    }
    (messages, consumed, failed)
}

/// Writes the frame of `message`. Nothing where the payload is longer than a
/// frame may carry.
pub fn encode_frame(message: &PiranhaMessage) -> (r: Option<Vec<u8>>)
    ensures
        match r {
            Some(bytes) => frameable(message@) && bytes@ == frame_bytes(message@),
            None => !frameable(message@),
        },
{
    let length: usize = message.payload.len();
    if length > MAX_PAYLOAD_LENGTH {
        return None;
    }
    let mut bytes: Vec<u8> = Vec::with_capacity(HEADER_LENGTH + length);
    bytes.push((message.message_type / 256) as u8);
    bytes.push((message.message_type % 256) as u8);
    bytes.push((length / 65536) as u8);
    bytes.push(((length / 256) % 256) as u8);
    bytes.push((length % 256) as u8);
    bytes.push((message.version / 256) as u8);
    bytes.push((message.version % 256) as u8);
    bytes.extend_from_slice(message.payload.as_slice());
    assert(bytes@ =~= frame_bytes(message@));
    Some(bytes)
}


/// The socket of one client and whether it is still live.
pub struct Connection {
    pub fd: i32,
    pub is_connected: bool,
}

/// The source of the fixed secret that every connection starts with.
pub struct LogicMagicMessageFactory {}

impl LogicMagicMessageFactory {
    pub fn new() -> Self {
        Self {  }
    }

    /// The fixed secret of the cipher.
    pub fn rc4_key() -> (r: &'static str)
        ensures
            r@ == "fhsd6f86f67rt8fw78fw789we78r9789wer6re"@,
    {
        "fhsd6f86f67rt8fw78fw789we78r9789wer6re"
    }
}

/// `data` as one direction of the transport turns it: ciphered where a cipher
/// is set, unchanged where none is.
pub open spec fn transformed(cipher: Option<CipherState>, data: Seq<u8>) -> Seq<u8> {
    match cipher {
        Some(state) => ciphered(state, data),
        None => data,
    }
}

/// The cipher of one direction after it has turned `count` bytes.
pub open spec fn moved_on(cipher: Option<CipherState>, count: nat) -> Option<CipherState> {
    match cipher {
        Some(state) => Some(advanced(state, count)),
        None => None,
    }
}

/// What a flush writes for the waiting messages, the cipher it leaves, and
/// whether every message fitted a frame. The flush stops at the first message
/// that does not fit.
pub open spec fn flushed(cipher: Option<CipherState>, messages: Seq<MessageView>) -> (
    Seq<u8>,
    Option<CipherState>,
    bool,
)
    decreases messages.len(),
{
    if messages.len() == 0 {
        (Seq::empty(), cipher, true)
    } else if !frameable(messages[0]) {
        (Seq::empty(), cipher, false)
    } else {
        let frame = frame_bytes(messages[0]);
        let rest = flushed(moved_on(cipher, frame.len()), messages.drop_first());
        (transformed(cipher, frame) + rest.0, rest.1, rest.2)
    }
}

/// The transport of one connection as plain values.
pub struct MessagingView {
    pub fd: i32,
    pub connected: bool,
    pub encrypter: Option<CipherState>,
    pub decrypter: Option<CipherState>,
    pub inbound: Seq<u8>,
    pub outgoing: Seq<MessageView>,
    pub outbound: Seq<u8>,
}

/// The frame at the head of the received bytes, as the decrypting cipher
/// shows it from its present state.
pub open spec fn head_frame(m: MessagingView) -> FrameView {
    frame_at(transformed(m.decrypter, m.inbound))
}

/// The transport after a flush: a live transport frames and encrypts the
/// waiting replies in order and puts their bytes behind those ready for the
/// socket, and it ends where a reply does not fit a frame; a transport that
/// has ended drops its replies unwritten.
pub open spec fn woken(m: MessagingView) -> MessagingView {
    if !m.connected {
        MessagingView { outgoing: Seq::empty(), ..m }
    } else {
        MessagingView {
            connected: flushed(m.encrypter, m.outgoing).2,
            encrypter: flushed(m.encrypter, m.outgoing).1,
            outgoing: Seq::empty(),
            outbound: m.outbound + flushed(m.encrypter, m.outgoing).0,
            ..m
        }
    }
}

/// The transport with one more reply waiting for the next flush.
pub open spec fn queued(m: MessagingView, message: MessageView) -> MessagingView {
    MessagingView { outgoing: m.outgoing.push(message), ..m }
}

/// The transport after `bytes` arrived: a live transport keeps them behind
/// what it already holds, an empty read ends it, and one that has ended takes
/// nothing.
pub open spec fn received(m: MessagingView, bytes: Seq<u8>) -> MessagingView {
    if !m.connected {
        m
    } else if bytes.len() == 0 {
        MessagingView { connected: false, ..m }
    } else {
        MessagingView { inbound: m.inbound + bytes, ..m }
    }
}

/// What arrives is kept whole however the reads cut it: two reads that are
/// not empty leave the transport as one read of both would.
pub proof fn lemma_received_in_pieces(m: MessagingView, first: Seq<u8>, second: Seq<u8>)
    requires
        first.len() > 0,
        second.len() > 0,
    ensures
        received(received(m, first), second) == received(m, first + second),
{
    if m.connected {
        assert((m.inbound + first) + second =~= m.inbound + (first + second));
    }
}

/// The bytes before index `count` are ciphered alike whether or not more
/// bytes follow them.
pub proof fn lemma_transformed_prefix(cipher: Option<CipherState>, data: Seq<u8>, count: int)
    requires
        0 <= count <= data.len(),
    ensures
        transformed(cipher, data.subrange(0, count)) =~= transformed(cipher, data).subrange(0, count),
{
}

/// A frame that has not wholly arrived is waited for: a transport whose
/// received bytes are a proper prefix of an encrypted frame, and whose
/// decrypting cipher stands where the encrypting cipher stood, finds no
/// message yet.
pub proof fn lemma_partial_frame_waits(m: MessagingView, message: MessageView, cut: int)
    requires
        frameable(message),
        0 <= cut < frame_bytes(message).len(),
        m.inbound == transformed(m.decrypter, frame_bytes(message)).subrange(0, cut),
    ensures
        head_frame(m) == FrameView::Incomplete,
{
    let frame = frame_bytes(message);
    match m.decrypter {
        Some(state) => {
            lemma_ciphered_twice(state, frame);
            assert(ciphered(state, m.inbound) =~= ciphered(state, ciphered(state, frame)).subrange(
                0,
                cut,
            ));
        },
        None => {},
    }
    lemma_frame_prefix_incomplete(message, cut);
}

/// A message that one side frames and encrypts is the message that the other
/// side finds at the head of what it received, when the decrypting cipher
/// stands where the encrypting cipher stood, whatever bytes follow.
pub proof fn lemma_transport_round_trip(
    cipher: Option<CipherState>,
    message: MessageView,
    following: Seq<u8>,
)
    requires
        frameable(message),
    ensures
        frame_at(transformed(cipher, transformed(cipher, frame_bytes(message)) + following)) == (
        FrameView::Complete { message, consumed: frame_bytes(message).len() as int }),
{
    let frame = frame_bytes(message);
    let wire = transformed(cipher, frame) + following;
    let plain = transformed(cipher, wire);
    match cipher {
        Some(state) => {
            lemma_ciphered_twice(state, frame);
            lemma_ciphered_concat(state, transformed(cipher, frame), following);
            assert(plain =~= frame + ciphered(advanced(state, frame.len()), following));
            lemma_frame_round_trip(message, ciphered(advanced(state, frame.len()), following));
        },
        None => {
            lemma_frame_round_trip(message, following);
        },
    }
}

/// Key replacement falls on a frame boundary. A sender that frames `before`
/// under one cipher state and `after` under a fresh one puts both on the wire;
/// a receiver that starts in the first state finds `before` at the head, and
/// once it has taken that frame and replaced its cipher with the fresh state
/// it finds `after` at the head of what is left.
pub proof fn lemma_key_rotation(
    old_cipher: CipherState,
    new_cipher: CipherState,
    before: MessageView,
    after: MessageView,
)
    requires
        frameable(before),
        frameable(after),
    ensures
        ({
            let wire = ciphered(old_cipher, frame_bytes(before)) + ciphered(
                new_cipher,
                frame_bytes(after),
            );
            let taken = frame_bytes(before).len() as int;
            &&& frame_at(ciphered(old_cipher, wire)) == (FrameView::Complete {
                message: before,
                consumed: taken,
            })
            &&& frame_at(ciphered(new_cipher, wire.subrange(taken, wire.len() as int))) == (
            FrameView::Complete { message: after, consumed: frame_bytes(after).len() as int })
        }),
{
    let first = ciphered(old_cipher, frame_bytes(before));
    let second = ciphered(new_cipher, frame_bytes(after));
    let wire = first + second;
    lemma_transport_round_trip(Some(old_cipher), before, second);
    assert(wire.subrange(first.len() as int, wire.len() as int) =~= second);
    lemma_transport_round_trip(Some(new_cipher), after, Seq::empty());
    assert(second + Seq::<u8>::empty() =~= second);
}

/// What a receiver holds once it has taken `count` frames, one after the
/// other, from the bytes `wire`: the messages in order, the cipher as the
/// frames left it, and the bytes behind the last frame. Each frame is
/// deciphered from the state in which the frame before it left the cipher,
/// and moves the cipher on by exactly its own bytes. Nothing where fewer than
/// `count` whole frames are there.
pub open spec fn taken(cipher: Option<CipherState>, wire: Seq<u8>, count: nat) -> Option<
    (Seq<MessageView>, Option<CipherState>, Seq<u8>),
>
    decreases count,
{
    if count == 0 {
        Some((Seq::empty(), cipher, wire))
    } else {
        match frame_at(transformed(cipher, wire)) {
            FrameView::Complete { message, consumed } => match taken(
                moved_on(cipher, consumed as nat),
                wire.subrange(consumed, wire.len() as int),
                (count - 1) as nat,
            ) {
                Some((messages, last, rest)) => Some((seq![message] + messages, last, rest)),
                None => None,
            },
            _ => None,
        }
    }
}

/// Taking one frame is the step that `next_message` makes on a live
/// transport: where a whole frame stands at the head it gives that message,
/// the cipher moved on by the frame's bytes, and the bytes behind the frame;
/// where none stands there, nothing is taken.
pub proof fn lemma_taken_one(m: MessagingView)
    ensures
        match head_frame(m) {
            FrameView::Complete { message, consumed } => taken(m.decrypter, m.inbound, 1) == Some(
                (
                    seq![message],
                    moved_on(m.decrypter, consumed as nat),
                    m.inbound.subrange(consumed, m.inbound.len() as int),
                ),
            ),
            _ => taken(m.decrypter, m.inbound, 1) is None,
        },
{
    match head_frame(m) {
        FrameView::Complete { message, consumed } => {
            let next = moved_on(m.decrypter, consumed as nat);
            let rest = m.inbound.subrange(consumed, m.inbound.len() as int);
            assert(taken(next, rest, 0) == Some((Seq::<MessageView>::empty(), next, rest)));
            assert(seq![message] + Seq::<MessageView>::empty() =~= seq![message]);
        },
        _ => {},
    }
}

/// A run of messages that one side flushes is the run that the other side
/// takes, frame by frame, when its decrypting cipher stands where the
/// encrypting cipher stood: every message arrives, in order, the receiver's
/// cipher ends where the sender's ended, and the bytes behind the run are
/// left untouched.
pub proof fn lemma_run_round_trip(
    cipher: Option<CipherState>,
    messages: Seq<MessageView>,
    following: Seq<u8>,
)
    requires
        forall|k: int| 0 <= k < messages.len() ==> frameable(#[trigger] messages[k]),
    ensures
        flushed(cipher, messages).2,
        taken(cipher, flushed(cipher, messages).0 + following, messages.len()) == Some(
            (messages, flushed(cipher, messages).1, following),
        ),
    decreases messages.len(),
{
    let wire = flushed(cipher, messages).0 + following;
    if messages.len() == 0 {
        assert(wire =~= following);
        assert(messages =~= Seq::<MessageView>::empty());
    } else {
        let first = messages[0];
        let tail = messages.drop_first();
        let frame = frame_bytes(first);
        let next = moved_on(cipher, frame.len());
        let rest = flushed(next, tail);
        assert forall|k: int| 0 <= k < tail.len() implies frameable(#[trigger] tail[k]) by {
            assert(tail[k] == messages[k + 1]);
        }
        lemma_run_round_trip(next, tail, following);
        assert(wire == transformed(cipher, frame) + (rest.0 + following)) by {
            assert(wire =~= transformed(cipher, frame) + (rest.0 + following));
        }
        lemma_transport_round_trip(cipher, first, rest.0 + following);
        assert(transformed(cipher, frame).len() == frame.len());
        assert(wire.subrange(frame.len() as int, wire.len() as int) == rest.0 + following) by {
            assert(wire.subrange(frame.len() as int, wire.len() as int) =~= rest.0 + following);
        }
        assert(seq![first] + tail =~= messages);
    }
}

/// Key replacement over a run of frames. A sender flushes the messages
/// `before` under one cipher state and the messages `after` under a fresh one.
/// A receiver that starts in the first state takes exactly `before`, every
/// byte of them under the first state, and is left with the bytes of `after`
/// and nothing else; once it has replaced its cipher with the fresh state it
/// takes exactly `after`, every byte of them under the fresh state from its
/// start, and no byte is left over.
pub proof fn lemma_key_rotation_over_a_run(
    old_cipher: Option<CipherState>,
    new_cipher: Option<CipherState>,
    before: Seq<MessageView>,
    after: Seq<MessageView>,
)
    requires
        forall|k: int| 0 <= k < before.len() ==> frameable(#[trigger] before[k]),
        forall|k: int| 0 <= k < after.len() ==> frameable(#[trigger] after[k]),
    ensures
        ({
            let first = flushed(old_cipher, before);
            let second = flushed(new_cipher, after);
            &&& taken(old_cipher, first.0 + second.0, before.len()) == Some(
                (before, first.1, second.0),
            )
            &&& taken(new_cipher, second.0, after.len()) == Some(
                (after, second.1, Seq::<u8>::empty()),
            )
        }),
{
    let second = flushed(new_cipher, after);
    lemma_run_round_trip(old_cipher, before, second.0);
    lemma_run_round_trip(new_cipher, after, Seq::empty());
    assert(second.0 + Seq::<u8>::empty() =~= second.0);
}

/// The transport of one connection: the ciphers of both directions, the bytes
/// received and not yet framed, the replies waiting for the next flush, and
/// the bytes ready for the socket.
pub struct Messaging {
    pub connection: Connection,
    pub encrypter: Option<RC4Encrypter>,
    pub decrypter: Option<RC4Encrypter>,
    pub inbound: Vec<u8>,
    pub outgoing: Vec<PiranhaMessage>,
    pub outbound: Vec<u8>,
}

/// The state of a cipher, if one is set.
pub open spec fn cipher_view(cipher: Option<RC4Encrypter>) -> Option<CipherState> {
    match cipher {
        Some(c) => Some(c@),
        None => None,
    }
}

impl View for Messaging {
    type V = MessagingView;

    open spec fn view(&self) -> MessagingView {
        MessagingView {
            fd: self.connection.fd,
            connected: self.connection.is_connected,
            encrypter: cipher_view(self.encrypter),
            decrypter: cipher_view(self.decrypter),
            inbound: self.inbound@,
            outgoing: message_views(self.outgoing@),
            outbound: self.outbound@,
        }
    }
}

impl Messaging {
    /// Each cipher that is set has a whole table.
    pub open spec fn wf(&self) -> bool {
        &&& self.encrypter is Some ==> self.encrypter.unwrap().wf()
        &&& self.decrypter is Some ==> self.decrypter.unwrap().wf()
    }

    /// A live transport on the socket `fd`, without ciphers and with nothing
    /// received or waiting.
    pub fn new(fd: i32) -> (r: Self)
        ensures
            r.wf(),
            r@ == (MessagingView {
                fd,
                connected: true,
                encrypter: None,
                decrypter: None,
                inbound: Seq::empty(),
                outgoing: Seq::empty(),
                outbound: Seq::empty(),
            }),
    {
        let r = Self {
            connection: Connection { fd, is_connected: true },
            encrypter: None,
            decrypter: None,
            inbound: Vec::new(),
            outgoing: Vec::new(),
            outbound: Vec::new(),
        };
        assert(message_views(r.outgoing@) =~= Seq::empty());
        r
    }

    /// Replaces the ciphers of both directions. Bytes already received and not
    /// yet framed, and replies not yet flushed, will meet the new ciphers.
    pub fn set_encrypters(&mut self, encrypter: RC4Encrypter, decrypter: RC4Encrypter)
        requires
            encrypter.wf(),
            decrypter.wf(),
        ensures
            final(self).wf(),
            final(self).connection == old(self).connection,
            final(self)@ == (MessagingView {
                encrypter: Some(encrypter@),
                decrypter: Some(decrypter@),
                ..old(self)@
            }),
    {
        self.encrypter = Some(encrypter);
        self.decrypter = Some(decrypter);
    }

    /// Takes in what one read of the socket gave. An empty read ends the
    /// connection.
    pub fn on_receive(&mut self, bytes: &[u8])
        ensures
            final(self).wf() == old(self).wf(),
            final(self)@ == received(old(self)@, bytes@),
    {
        if !self.connection.is_connected {
            return ;
        }
        if bytes.len() == 0 {
            self.connection.is_connected = false;
            return ;
        }
        self.inbound.extend_from_slice(bytes);
        assert(self.inbound@ =~= old(self).inbound@ + bytes@);
    }

    /// Takes the next whole message from the received bytes, in arrival
    /// order. The decrypting cipher moves on by exactly the bytes of the frame
    /// taken; a frame that has not wholly arrived changes nothing. A header
    /// that announces too long a payload ends the connection.
    pub fn next_message(&mut self) -> (r: Option<PiranhaMessage>)
        requires
            old(self).wf(),
        ensures
            final(self).wf(),
            !old(self)@.connected ==> r is None && final(self)@ == old(self)@,
            old(self)@.connected ==> match head_frame(old(self)@) {
                FrameView::Incomplete => r is None && final(self)@ == old(self)@,
                FrameView::Oversized => r is None && final(self)@ == (MessagingView {
                    connected: false,
                    ..old(self)@
                }),
                FrameView::Complete { message, consumed } => r is Some && r.unwrap()@ == message
                    && final(self)@ == (MessagingView {
                    decrypter: moved_on(old(self)@.decrypter, consumed as nat),
                    inbound: old(self)@.inbound.subrange(consumed, old(self)@.inbound.len() as int),
                    ..old(self)@
                }),
            },
    {
        if !self.connection.is_connected {
            return None;
        }
        if self.inbound.len() < HEADER_LENGTH {
            return None;
        }
        let mut header: Vec<u8> = Vec::with_capacity(HEADER_LENGTH);
        header.extend_from_slice(slice_subrange(self.inbound.as_slice(), 0, HEADER_LENGTH));
        assert(header@ =~= self.inbound@.subrange(0, HEADER_LENGTH as int));
        match &self.decrypter {
            Some(cipher) => {
                let mut probe = cipher.duplicate();
                probe.decrypt(&mut header);
            },
            None => {},
        }
        proof {
            lemma_transformed_prefix(self@.decrypter, self.inbound@, HEADER_LENGTH as int);
        }
        let ghost plain = transformed(self@.decrypter, self.inbound@);
        assert(forall|k: int| 0 <= k < 7 ==> header@[k] == plain[k]);
        let length: usize = announced(header.as_slice());
        assert(length == announced_length(plain));
        if length > MAX_PAYLOAD_LENGTH {
            self.connection.is_connected = false;
            return None;
        }
        if self.inbound.len() - HEADER_LENGTH < length {
            return None;
        }
        let total: usize = HEADER_LENGTH + length;
        let rest: Vec<u8> = self.inbound.split_off(total);
        let mut frame: Vec<u8> = Vec::new();
        std::mem::swap(&mut frame, &mut self.inbound);
        self.inbound = rest;
        assert(frame@ =~= old(self).inbound@.subrange(0, total as int));
        match &mut self.decrypter {
            Some(cipher) => {
                cipher.decrypt(&mut frame);
            },
            None => {},
        }
        proof {
            lemma_transformed_prefix(old(self)@.decrypter, old(self).inbound@, total as int);
            assert(frame@ =~= plain.subrange(0, total as int));
            assert(plain =~= frame@ + plain.subrange(total as int, plain.len() as int));
            assert(forall|k: int| 0 <= k < 7 ==> frame@[k] == plain[k]);
            assert(frame@.subrange(7, total as int) =~= plain.subrange(7, total as int));
        }
        match decode_frame(frame.as_slice()) {
            Frame::Complete(message, _) => Some(message),
            _ => None,
        }
    }

    /// Queues a reply for the next flush.
    pub fn send(&mut self, message: PiranhaMessage)
        ensures
            final(self).connection == old(self).connection,
            final(self).encrypter == old(self).encrypter,
            final(self).decrypter == old(self).decrypter,
            final(self)@ == queued(old(self)@, message@),
    {
        self.outgoing.push(message);
        assert(message_views(self.outgoing@) =~= message_views(old(self).outgoing@).push(message@));
    }

    /// Flushes the waiting replies: each is framed and encrypted in order, and
    /// its bytes are put behind those already waiting for the socket. A reply
    /// too long for a frame ends the connection, and it and the replies behind
    /// it are dropped. A transport that has ended drops its replies unwritten.
    pub fn on_wakeup(&mut self)
        requires
            old(self).wf(),
        ensures
            final(self).wf(),
            final(self)@ == woken(old(self)@),
    {
        let mut waiting: Vec<PiranhaMessage> = Vec::new();
        std::mem::swap(&mut waiting, &mut self.outgoing);
        assert(message_views(self.outgoing@) =~= Seq::empty());
        if !self.connection.is_connected {
            return ;
        }
        let ghost all = message_views(waiting@);
        let ghost start = old(self)@.encrypter;
        let mut k: usize = 0;
        let mut fits: bool = true;
        assert(all.subrange(0, all.len() as int) =~= all);
        assert(self.outbound@ + Seq::<u8>::empty() =~= self.outbound@);
        while fits && k < waiting.len()
            invariant
                k <= waiting@.len(),
                all == message_views(waiting@),
                all == old(self)@.outgoing,
                start == old(self)@.encrypter,
                old(self)@.connected,
                self.wf(),
                self.connection == old(self).connection,
                self.decrypter == old(self).decrypter,
                self.inbound == old(self).inbound,
                self.outgoing@.len() == 0,
                fits ==> flushed(start, all) == (
                    self.outbound@.subrange(old(self).outbound@.len() as int, self.outbound@.len() as int)
                        + flushed(self@.encrypter, all.subrange(k as int, all.len() as int)).0,
                    flushed(self@.encrypter, all.subrange(k as int, all.len() as int)).1,
                    flushed(self@.encrypter, all.subrange(k as int, all.len() as int)).2,
                ),
                !fits ==> flushed(start, all) == (
                    self.outbound@.subrange(old(self).outbound@.len() as int, self.outbound@.len() as int),
                    self@.encrypter,
                    false,
                ),
                self.outbound@.len() >= old(self).outbound@.len(),
                self.outbound@.subrange(0, old(self).outbound@.len() as int) == old(self).outbound@,
            decreases waiting@.len() - k + (if fits { 1int } else { 0int }),
        {
            let ghost remaining = all.subrange(k as int, all.len() as int);
            let ghost written = self.outbound@.subrange(
                old(self).outbound@.len() as int,
                self.outbound@.len() as int,
            );
            let ghost cipher_before = self@.encrypter;
            assert(remaining[0] == waiting@[k as int]@);
            assert(remaining.drop_first() =~= all.subrange(k + 1, all.len() as int));
            match encode_frame(&waiting[k]) {
                None => {
                    fits = false;
                    assert(written + Seq::<u8>::empty() =~= written);
                },
                Some(frame) => {
                    let mut frame = frame;
                    let ghost clear = frame@;
                    match &mut self.encrypter {
                        Some(cipher) => {
                            cipher.encrypt(&mut frame);
                        },
                        None => {},
                    }
                    assert(frame@ == transformed(cipher_before, clear));
                    self.outbound.extend_from_slice(frame.as_slice());
                    assert(self.outbound@ =~= old(self).outbound@ + (written + frame@));
                    k = k + 1;
                    proof {
                        let rest = flushed(self@.encrypter, all.subrange(k as int, all.len() as int));
                        assert(self.outbound@.subrange(
                            old(self).outbound@.len() as int,
                            self.outbound@.len() as int,
                        ) =~= written + frame@);
                        assert((written + frame@) + rest.0 =~= written + (frame@ + rest.0));
                        assert(self.outbound@.subrange(0, old(self).outbound@.len() as int)
                            =~= old(self).outbound@);
                    }
                },
            }
        }
        proof {
            if fits {
                assert(all.subrange(k as int, all.len() as int) =~= Seq::<MessageView>::empty());
            }
            let written = self.outbound@.subrange(
                old(self).outbound@.len() as int,
                self.outbound@.len() as int,
            );
            assert(written + Seq::<u8>::empty() =~= written);
            assert(self.outbound@ =~= old(self).outbound@ + written);
            assert(message_views(self.outgoing@) =~= Seq::empty());
        }
        if !fits {
            self.connection.is_connected = false;
        }
    }

    /// Hands over the bytes that are ready for the socket and keeps none.
    pub fn take_outbound(&mut self) -> (r: Vec<u8>)
        ensures
            r@ == old(self)@.outbound,
            final(self).connection == old(self).connection,
            final(self).encrypter == old(self).encrypter,
            final(self).decrypter == old(self).decrypter,
            final(self)@ == (MessagingView { outbound: Seq::empty(), ..old(self)@ }),
    {
        let mut ready: Vec<u8> = Vec::new();
        std::mem::swap(&mut ready, &mut self.outbound);
        ready
    }

    pub fn get_connection(&mut self) -> (r: &mut Connection)
        ensures
            *r == old(self).connection,
            final(self).connection == *final(r),
            final(self).encrypter == old(self).encrypter,
            final(self).decrypter == old(self).decrypter,
            final(self).inbound == old(self).inbound,
            final(self).outgoing == old(self).outgoing,
            final(self).outbound == old(self).outbound,
    {
        &mut self.connection
    }

    /// Whether the connection is still live.
    pub fn is_connected(&self) -> (r: bool)
        ensures
            r == self@.connected,
    {
        self.connection.is_connected
    }

    /// Ends the connection: nothing more is read or written.
    pub fn disconnect(&mut self)
        ensures
            final(self).encrypter == old(self).encrypter,
            final(self).decrypter == old(self).decrypter,
            final(self)@ == (MessagingView { connected: false, ..old(self)@ }),
    {
        self.connection.is_connected = false;
    }

    /// Turns the nonce that was sent to the client into the nonce that keys
    /// the session, as the client does with the seed it chose.
    pub fn scramble_nonce_using_mersenne_twister(seed: i32, nonce: &mut [u8])
        ensures
            final(nonce)@ == scrambled(seed, old(nonce)@),
    {
        scramble(seed, nonce);
    }
}

} // verus!
