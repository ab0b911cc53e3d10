use vstd::prelude::*;

verus! {

/// The number of words in the generator's table.
pub const TABLE_WORDS: usize = 624;

/// The number of draws that are thrown away before the mask byte is drawn.
pub const MASK_DRAW: usize = 99;

/// The word that follows `previous` at index `index` of a freshly seeded table.
pub open spec fn seed_word(previous: u32, index: int) -> u32 {
    ((1812433253 * ((previous ^ (previous >> 30)) as int) + index) % 0x1_0000_0000) as u32
}

/// The first `count` words of the table that `seed` gives.
pub open spec fn seeded(seed: u32, count: nat) -> Seq<u32>
    decreases count,
{
    if count == 0 {
        Seq::empty()
    } else if count == 1 {
        seq![seed]
    } else {
        let before = seeded(seed, (count - 1) as nat);
        before.push(seed_word(before[count - 2], count - 1))
    }
}

/// The word that replaces `current` when the table is regenerated, from the
/// word after it and the word 397 places on.
pub open spec fn twist_word(current: u32, following: u32, far: u32) -> u32 {
    let y = (current & 0x8000_0000u32) | (following & 0x7fff_ffffu32);
    let z = far ^ (y >> 1);
    if y & 1u32 == 1u32 {
        z ^ 0x9908_b0dfu32
    } else {
        z
    }
}

/// The table after the first `rounds` words were regenerated in place.
pub open spec fn twisted(table: Seq<u32>, rounds: nat) -> Seq<u32>
    decreases rounds,
{
    if rounds == 0 {
        table
    } else {
        let t = twisted(table, (rounds - 1) as nat);
        let i = rounds - 1;
        t.update(i, twist_word(t[i], t[(i + 1) % 624], t[(i + 397) % 624]))
    }
}

/// The output word made from a table word.
pub open spec fn tempered(word: u32) -> u32 {
    let a = word ^ (word >> 11);
    let b = a ^ ((a << 7) & 0x9d2c_5680u32);
    let c = b ^ ((b << 15) & 0xefc6_0000u32);
    c ^ (c >> 18)
}

/// The generator as plain values: its table and the index of the next word.
pub struct TwisterState {
    pub table: Seq<u32>,
    pub index: int,
}

/// The state of a generator that `seed` has just seeded: the next draw
/// regenerates the table first.
pub open spec fn seeded_state(seed: u32) -> TwisterState {
    TwisterState { table: seeded(seed, 624), index: 624 }
}

/// The state in which the next word can be read: the table regenerated where
/// it was used up.
pub open spec fn refilled(state: TwisterState) -> TwisterState {
    if state.index >= 624 {
        TwisterState { table: twisted(state.table, 624), index: 0 }
    } else {
        state
    }
}

/// The state after one draw.
pub open spec fn after_draw(state: TwisterState) -> TwisterState {
    TwisterState { table: refilled(state).table, index: refilled(state).index + 1 }
}

/// The word that the next draw gives.
pub open spec fn next_word(state: TwisterState) -> u32 {
    tempered(refilled(state).table[refilled(state).index])
}

/// The state after `count` draws.
pub open spec fn after_draws(state: TwisterState, count: nat) -> TwisterState
    decreases count,
{
    if count == 0 {
        state
    } else {
        after_draw(after_draws(state, (count - 1) as nat))
    }
}

/// Draw number `n`, counted from zero, of a generator seeded with `seed`, cut
/// to its lowest byte.
pub open spec fn drawn_byte(seed: u32, n: nat) -> u8 {
    (next_word(after_draws(seeded_state(seed), n)) % 256) as u8
}

/// The nonce as both sides derive it from the one that was sent: each byte
/// combined with a byte drawn from a generator that the seed starts, masked
/// with one byte drawn earlier from the same generator.
pub open spec fn scrambled(seed: i32, nonce: Seq<u8>) -> Seq<u8> {
    Seq::new(
        nonce.len(),
        |k: int|
            nonce[k] ^ (drawn_byte(seed as u32, (MASK_DRAW + 1 + k) as nat) & drawn_byte(
                seed as u32,
                MASK_DRAW as nat,
            )),
    )
}

/// Scrambling with the same seed twice gives the nonce back.
pub proof fn lemma_scrambled_twice(seed: i32, nonce: Seq<u8>)
    ensures
        scrambled(seed, nonce).len() == nonce.len(),
        scrambled(seed, scrambled(seed, nonce)) =~= nonce,
{
    assert forall|k: int| 0 <= k < nonce.len() implies scrambled(seed, scrambled(seed, nonce))[k]
        == nonce[k] by {
        let a = nonce[k];
        let b = drawn_byte(seed as u32, (MASK_DRAW + 1 + k) as nat) & drawn_byte(
            seed as u32,
            MASK_DRAW as nat,
        );
        assert((a ^ b) ^ b == a) by (bit_vector);
    }
}

/// A pseudo-random generator with a table of 624 words.
pub struct MersenneTwister {
    pub table: Vec<u32>,
    pub index: usize,
}

impl View for MersenneTwister {
    type V = TwisterState;

    open spec fn view(&self) -> TwisterState {
        TwisterState { table: self.table@, index: self.index as int }
    }
}

impl MersenneTwister {
    /// The table is whole and the index lies in it or just behind it.
    pub open spec fn wf(&self) -> bool {
        self.table@.len() == 624 && self.index <= 624
    }

    /// A generator seeded with `seed`.
    pub fn new(seed: u32) -> (r: Self)
        ensures
            r.wf(),
            r@ == seeded_state(seed),
    {
        let mut table: Vec<u32> = Vec::with_capacity(TABLE_WORDS);
        table.push(seed);
        let mut i: usize = 1;
        while i < TABLE_WORDS
            invariant
                1 <= i <= 624,
                table@.len() == i,
                table@ == seeded(seed, i as nat),
            decreases 624 - i,
        {
            let previous: u32 = table[i - 1];
            let mixed: u64 = (previous ^ (previous >> 30)) as u64;
            let word: u32 = ((1812433253u64 * mixed + i as u64) % 0x1_0000_0000u64) as u32;
            table.push(word);
            i = i + 1;
        }
        Self { table, index: TABLE_WORDS }
    }

    /// Regenerates the table in place.
    fn regenerate(&mut self)
        requires
            old(self).wf(),
        ensures
            final(self).table@ == twisted(old(self).table@, 624),
            final(self).table@.len() == 624,
            final(self).index == old(self).index,
    {
        let mut i: usize = 0;
        while i < TABLE_WORDS
            invariant
                i <= 624,
                self.table@.len() == 624,
                self.index == old(self).index,
                self.table@ == twisted(old(self).table@, i as nat),
            decreases 624 - i,
        {
            let current: u32 = self.table[i];
            let following: u32 = self.table[(i + 1) % TABLE_WORDS];
            let far: u32 = self.table[(i + 397) % TABLE_WORDS];
            let y: u32 = (current & 0x8000_0000u32) | (following & 0x7fff_ffffu32);
            let z: u32 = far ^ (y >> 1);
            let word: u32 = if y & 1u32 == 1u32 {
                z ^ 0x9908_b0dfu32
            } else {
                z
            };
            self.table.set(i, word);
            i = i + 1;
        }
    }

    /// Draws the next word.
    pub fn next_int(&mut self) -> (r: u32)
        requires
            old(self).wf(),
        ensures
            final(self).wf(),
            final(self)@ == after_draw(old(self)@),
            r == next_word(old(self)@),
    {
        if self.index >= TABLE_WORDS {
            self.regenerate();
            self.index = 0;
        }
        let word: u32 = self.table[self.index];
        self.index = self.index + 1;
        let a: u32 = word ^ (word >> 11);
        let b: u32 = a ^ ((a << 7) & 0x9d2c_5680u32);
        let c: u32 = b ^ ((b << 15) & 0xefc6_0000u32);
        c ^ (c >> 18)
    }

    /// Draws the next word and cuts it to its lowest byte.
    pub fn next_byte(&mut self) -> (r: u8)
        requires
            old(self).wf(),
        ensures
            final(self).wf(),
            final(self)@ == after_draw(old(self)@),
            r == (next_word(old(self)@) % 256) as u8,
    {
        let word: u32 = self.next_int();
        (word % 256) as u8
    }
}

/// Scrambles `nonce` in place with the generator that `seed` starts.
pub fn scramble(seed: i32, nonce: &mut [u8])
    ensures
        final(nonce)@ == scrambled(seed, old(nonce)@),
{
    let start: u32 = #[verifier::truncate]
    (seed as u32);
    let mut generator = MersenneTwister::new(start);
    let mut mask: u8 = 0;
    let mut draws: usize = 0;
    while draws <= MASK_DRAW
        invariant
            draws <= MASK_DRAW + 1,
            generator.wf(),
            generator@ == after_draws(seeded_state(start), draws as nat),
            draws > 0 ==> mask == drawn_byte(start, (draws - 1) as nat),
        decreases MASK_DRAW + 1 - draws,
    {
        mask = generator.next_byte();
        draws = draws + 1;
    }
    let mut k: usize = 0;
    while k < nonce.len()
        invariant
            k <= nonce@.len(),
            nonce@.len() == old(nonce)@.len(),
            generator.wf(),
            generator@ == after_draws(seeded_state(start), (MASK_DRAW + 1 + k) as nat),
            mask == drawn_byte(start, MASK_DRAW as nat),
            start == seed as u32,
            forall|n: int| 0 <= n < k ==> #[trigger] nonce@[n] == scrambled(seed, old(nonce)@)[n],
            forall|n: int| k <= n < nonce@.len() ==> #[trigger] nonce@[n] == old(nonce)@[n],
        decreases nonce@.len() - k,
    {
        let pad: u8 = generator.next_byte();
        let plain: u8 = nonce[k];
        nonce[k] = plain ^ (pad & mask);
        k = k + 1;
    }
    assert(nonce@ =~= scrambled(seed, old(nonce)@));
}

} // verus!
