//! The bit-banged SPI protocol that drives the wireless chip's shared data
//! line: 32-bit words go out most significant bit first, with the data line
//! set while the clock is low and taken by the chip on the rising edge, and
//! come in by sampling the line before each rising edge.

use vstd::prelude::*;

verus! {

/// One step on the two pins of the bus: the clock and the shared data line.
#[derive(Clone, Copy, Debug, PartialEq, Eq, Structural)]
pub enum PinAction {
    /// Turn the data line into an output.
    DataOutput,
    /// Turn the data line into an input.
    DataInput,
    /// Drive the data line high.
    DataHigh,
    /// Drive the data line low.
    DataLow,
    /// Drive the clock high.
    ClockHigh,
    /// Drive the clock low.
    ClockLow,
    /// Read the level of the data line: one bit of the word coming in.
    SampleData,
}

/// Bit `i` of `word` counted from the most significant end (`i` in 0..32).
pub open spec fn msb_bit(word: u32, i: int) -> bool {
    (word >> ((31 - i) as u32)) & 1u32 == 1u32
}

/// The bits of `word`, most significant first.
pub open spec fn word_bits_spec(word: u32) -> Seq<bool> {
    Seq::new(32, |i: int| msb_bit(word, i))
}

/// The number that `bits` spell, most significant bit first.
pub open spec fn bits_value(bits: Seq<bool>) -> nat
    decreases bits.len(),
{
    if bits.len() == 0 {
        0
    } else {
        2 * bits_value(bits.drop_last()) + if bits.last() {
            1nat
        } else {
            0nat
        }
    }
}

/// The data-line step that puts bit `b` on the bus.
pub open spec fn data_action(b: bool) -> PinAction {
    if b {
        PinAction::DataHigh
    } else {
        PinAction::DataLow
    }
}

/// The steps that clock `bits` out: for each bit, clock low, data line set
/// to the bit, clock high.
pub open spec fn bits_schedule(bits: Seq<bool>) -> Seq<PinAction>
    decreases bits.len(),
{
    if bits.len() == 0 {
        Seq::empty()
    } else {
        bits_schedule(bits.drop_last()) + seq![
            PinAction::ClockLow,
            data_action(bits.last()),
            PinAction::ClockHigh,
        ]
    }
}

/// The steps that clock `words` out one after the other.
pub open spec fn words_schedule(words: Seq<u32>) -> Seq<PinAction>
    decreases words.len(),
{
    if words.len() == 0 {
        Seq::empty()
    } else {
        words_schedule(words.drop_last()) + bits_schedule(word_bits_spec(words.last()))
    }
}

/// A whole write: the data line turned to output, the words clocked out,
/// then the clock left low and the data line handed back as an input.
pub open spec fn write_schedule(words: Seq<u32>) -> Seq<PinAction> {
    seq![PinAction::DataOutput] + words_schedule(words) + seq![
        PinAction::ClockLow,
        PinAction::DataInput,
    ]
}

/// The steps that clock one word in: for each of its 32 bits, sample the
/// data line, then clock high and low again.
pub open spec fn read_word_schedule() -> Seq<PinAction> {
    Seq::new(96, |j: int| if j % 3 == 0 {
        PinAction::SampleData
    } else if j % 3 == 1 {
        PinAction::ClockHigh
    } else {
        PinAction::ClockLow
    })
}

proof fn lemma_msb_of_shifted(word: u32, i: u32)
    requires
        i < 32,
    ensures
        ((word << i) & 0x8000_0000u32 != 0u32) == msb_bit(word, i as int),
        i < 31 ==> (word << i) << 1u32 == word << ((i + 1) as u32),
{
    assert(((word << i) & 0x8000_0000u32 != 0u32) == ((word >> ((31 - i) as u32)) & 1u32 == 1u32))
        by (bit_vector)
        requires
            i < 32,
    ;
    assert(i < 31 ==> (word << i) << 1u32 == word << ((i + 1) as u32)) by (bit_vector)
        requires
            i < 32,
    ;
}

/// The bits of `word`, most significant first, as the write takes them:
/// test the top bit, then shift the word left by one.
pub fn word_bits(word: u32) -> (bits: Vec<bool>)
    ensures
        bits@ == word_bits_spec(word),
{
    let mut bits: Vec<bool> = Vec::new();
    let mut w: u32 = word;
    let mut i: u32 = 0;
    assert(word << 0u32 == word) by (bit_vector);
    while i < 32
        invariant
            i <= 32,
            i < 32 ==> w == word << i,
            bits@ =~= word_bits_spec(word).take(i as int),
        decreases 32 - i,
    {
        proof {
            lemma_msb_of_shifted(word, i);
        }
        bits.push(w & 0x8000_0000 != 0);
        assert(word_bits_spec(word).take(i + 1) =~= word_bits_spec(word).take(i as int).push(
            msb_bit(word, i as int),
        ));
        if i < 31 {
            w = w << 1;
        }
        i = i + 1;
    }
    assert(word_bits_spec(word).take(32) =~= word_bits_spec(word));
    bits
}

/// Two to the power `n`.
pub open spec fn two_to(n: nat) -> nat
    decreases n,
{
    if n == 0 {
        1
    } else {
        2 * two_to((n - 1) as nat)
    }
}

proof fn lemma_bits_value_bound(bits: Seq<bool>)
    ensures
        bits_value(bits) < two_to(bits.len()),
    decreases bits.len(),
{
    if bits.len() > 0 {
        lemma_bits_value_bound(bits.drop_last());
    }
}

proof fn lemma_two_to_monotone(a: nat, b: nat)
    requires
        a <= b,
    ensures
        two_to(a) <= two_to(b),
    decreases b,
{
    if a < b {
        lemma_two_to_monotone(a, (b - 1) as nat);
    }
}

proof fn lemma_two_to_31()
    ensures
        two_to(31) == 0x8000_0000,
{
    reveal_with_fuel(two_to, 32);
}

proof fn lemma_short_bits_fit(bits: Seq<bool>)
    requires
        bits.len() <= 31,
    ensures
        bits_value(bits) < 0x8000_0000,
{
    lemma_bits_value_bound(bits);
    lemma_two_to_monotone(bits.len(), 31);
    lemma_two_to_31();
}

/// The steps that write `words` on the bus, in order.
pub fn write_actions(words: &Vec<u32>) -> (actions: Vec<PinAction>)
    ensures
        actions@ == write_schedule(words@),
{
    let mut actions: Vec<PinAction> = Vec::new();
    actions.push(PinAction::DataOutput);
    let mut k: usize = 0;
    while k < words.len()
        invariant
            k <= words@.len(),
            actions@ =~= seq![PinAction::DataOutput] + words_schedule(words@.take(k as int)),
        decreases words@.len() - k,
    {
        let bits: Vec<bool> = word_bits(words[k]);
        let ghost start = actions@;
        let mut i: usize = 0;
        while i < bits.len()
            invariant
                bits@ == word_bits_spec(words@[k as int]),
                i <= bits@.len(),
                actions@ =~= start + bits_schedule(bits@.take(i as int)),
            decreases bits@.len() - i,
        {
            actions.push(PinAction::ClockLow);
            if bits[i] {
                actions.push(PinAction::DataHigh);
            } else {
                actions.push(PinAction::DataLow);
            }
            actions.push(PinAction::ClockHigh);
            assert(bits@.take(i + 1).drop_last() =~= bits@.take(i as int));
            i = i + 1;
        }
        assert(bits@.take(bits@.len() as int) =~= bits@);
        assert(words@.take(k + 1).drop_last() =~= words@.take(k as int));
        k = k + 1;
    }
    assert(words@.take(words@.len() as int) =~= words@);
    actions.push(PinAction::ClockLow);
    actions.push(PinAction::DataInput);
    actions
}

/// The word that the sampled bits spell, most significant first, as the
/// read builds it: shift the word left by one, then set the low bit when
/// the data line was high.
pub fn word_from_bits(bits: &Vec<bool>) -> (word: u32)
    requires
        bits@.len() <= 32,
    ensures
        word as nat == bits_value(bits@),
{
    let mut w: u32 = 0;
    let mut i: usize = 0;
    while i < bits.len()
        invariant
            bits@.len() <= 32,
            i <= bits@.len(),
            w as nat == bits_value(bits@.take(i as int)),
        decreases bits@.len() - i,
    {
        proof {
            lemma_short_bits_fit(bits@.take(i as int));
        }
        assert(w < 0x8000_0000u32);
        let next: u32 = w << 1;
        assert(next == 2 * w) by (bit_vector)
            requires
                w < 0x8000_0000u32,
                next == w << 1,
        ;
        if bits[i] {
            let set: u32 = next | 1;
            assert(set == next + 1) by (bit_vector)
                requires
                    next == 2 * w,
                    w < 0x8000_0000u32,
                    set == next | 1,
            ;
            w = set;
        } else {
            w = next;
        }
        assert(bits@.take(i + 1).drop_last() =~= bits@.take(i as int));
        i = i + 1;
    }
    assert(bits@.take(bits@.len() as int) =~= bits@);
    w
}

proof fn lemma_shift_split(w: u32, s: u32)
    requires
        s < 31,
    ensures
        (w >> s) as int == 2 * ((w >> ((s + 1) as u32)) as int) + (if (w >> s) & 1u32 == 1u32 {
            1int
        } else {
            0int
        }),
{
    assert((w >> s) == 2 * (w >> ((s + 1) as u32)) + ((w >> s) & 1u32)) by (bit_vector)
        requires
            s < 31,
    ;
    assert(((w >> s) & 1u32 == 1u32) || ((w >> s) & 1u32 == 0u32)) by (bit_vector);
}

proof fn lemma_prefix_value(word: u32, k: int)
    requires
        1 <= k <= 32,
    ensures
        bits_value(word_bits_spec(word).take(k)) == (word >> ((32 - k) as u32)) as nat,
    decreases k,
{
    let bits = word_bits_spec(word);
    assert(bits.take(k).last() == msb_bit(word, k - 1));
    assert(bits.take(k).drop_last() =~= bits.take(k - 1));
    assert(bits_value(bits.take(k)) == 2 * bits_value(bits.take(k - 1)) + if msb_bit(word, k - 1) {
        1nat
    } else {
        0nat
    });
    if k == 1 {
        assert(bits.take(0) =~= Seq::<bool>::empty());
        assert(bits_value(bits.take(0)) == 0);
        assert(((32 - k) as u32) == 31u32);
        assert((word >> 31u32) == ((word >> 31u32) & 1u32)) by (bit_vector);
        assert(((word >> 31u32) & 1u32 == 1u32) || ((word >> 31u32) & 1u32 == 0u32))
            by (bit_vector);
    } else {
        lemma_prefix_value(word, k - 1);
        let sh: u32 = (32 - k) as u32;
        lemma_shift_split(word, sh);
        assert(((sh + 1) as u32) == ((32 - (k - 1)) as u32));
        assert(((31 - (k - 1)) as u32) == sh);
        assert(msb_bit(word, k - 1) == ((word >> sh) & 1u32 == 1u32));
    }
}

/// Reading back the bits that a write puts on the bus for a word gives the
/// word again.
pub proof fn lemma_read_returns_written(word: u32)
    ensures
        bits_value(word_bits_spec(word)) == word as nat,
{
    lemma_prefix_value(word, 32);
    assert(word_bits_spec(word).take(32) =~= word_bits_spec(word));
    assert(word >> 0u32 == word) by (bit_vector);
}

proof fn lemma_bits_schedule_len(bits: Seq<bool>)
    ensures
        bits_schedule(bits).len() == 3 * bits.len(),
    decreases bits.len(),
{
    if bits.len() > 0 {
        lemma_bits_schedule_len(bits.drop_last());
    }
}

proof fn lemma_words_schedule_len(words: Seq<u32>)
    ensures
        words_schedule(words).len() == 96 * words.len(),
    decreases words.len(),
{
    if words.len() > 0 {
        lemma_words_schedule_len(words.drop_last());
        lemma_bits_schedule_len(word_bits_spec(words.last()));
    }
}

/// A write takes 96 steps per word, three per bit, plus three around them,
/// and leaves the bus with the clock low and the data line an input.
pub proof fn lemma_write_shape(words: Seq<u32>)
    ensures
        write_schedule(words).len() == 96 * words.len() + 3,
        write_schedule(words)[0] == PinAction::DataOutput,
        write_schedule(words)[write_schedule(words).len() - 2] == PinAction::ClockLow,
        write_schedule(words)[write_schedule(words).len() - 1] == PinAction::DataInput,
{
    lemma_words_schedule_len(words);
}

fn read_word_actions() -> (actions: Vec<PinAction>)
    ensures
        actions@ == read_word_schedule(),
{
    let mut actions: Vec<PinAction> = Vec::new();
    let mut i: usize = 0;
    while i < 32
        invariant
            i <= 32,
            actions@ =~= read_word_schedule().take(3 * i as int),
        decreases 32 - i,
    {
        actions.push(PinAction::SampleData);
        actions.push(PinAction::ClockHigh);
        actions.push(PinAction::ClockLow);
        assert(read_word_schedule().take(3 * (i + 1) as int) =~= read_word_schedule().take(
            3 * i as int,
        ).push(PinAction::SampleData).push(PinAction::ClockHigh).push(PinAction::ClockLow));
        i = i + 1;
    }
    assert(read_word_schedule().take(96) =~= read_word_schedule());
    actions
}

/// The steps that clock `n` words in one after the other.
pub open spec fn words_read_schedule(n: nat) -> Seq<PinAction>
    decreases n,
{
    if n == 0 {
        Seq::empty()
    } else {
        words_read_schedule((n - 1) as nat) + read_word_schedule()
    }
}

/// A whole read of `n` words: the data line turned to input, then one word
/// schedule per word.
pub open spec fn read_schedule(n: nat) -> Seq<PinAction> {
    seq![PinAction::DataInput] + words_read_schedule(n)
}

/// The steps that read `n` words off the bus, in order; the samples, in
/// order, are the words' bits, each word from its most significant bit down.
pub fn read_actions(n: usize) -> (actions: Vec<PinAction>)
    ensures
        actions@ == read_schedule(n as nat),
{
    let mut actions: Vec<PinAction> = Vec::new();
    actions.push(PinAction::DataInput);
    let word: Vec<PinAction> = read_word_actions();
    let mut k: usize = 0;
    while k < n
        invariant
            k <= n,
            word@ == read_word_schedule(),
            actions@ =~= seq![PinAction::DataInput] + words_read_schedule(k as nat),
        decreases n - k,
    {
        let mut j: usize = 0;
        let ghost start = actions@;
        while j < word.len()
            invariant
                word@ == read_word_schedule(),
                j <= word@.len(),
                actions@ =~= start + word@.take(j as int),
            decreases word@.len() - j,
        {
            actions.push(word[j]);
            assert(word@.take(j + 1) =~= word@.take(j as int).push(word@[j as int]));
            j = j + 1;
        }
        assert(word@.take(word@.len() as int) =~= word@);
        k = k + 1;
    }
    actions
}

/// How many of `actions` sample the data line.
pub open spec fn sample_count(actions: Seq<PinAction>) -> nat
    decreases actions.len(),
{
    if actions.len() == 0 {
        0
    } else {
        sample_count(actions.drop_last()) + if actions.last() == PinAction::SampleData {
            1nat
        } else {
            0nat
        }
    }
}

proof fn lemma_sample_count_concat(a: Seq<PinAction>, b: Seq<PinAction>)
    ensures
        sample_count(a + b) == sample_count(a) + sample_count(b),
    decreases b.len(),
{
    if b.len() > 0 {
        lemma_sample_count_concat(a, b.drop_last());
        assert((a + b).drop_last() =~= a + b.drop_last());
    }
}

proof fn lemma_word_read_samples(k: nat)
    requires
        k <= 32,
    ensures
        sample_count(read_word_schedule().take(3 * k as int)) == k,
    decreases k,
{
    if k > 0 {
        lemma_word_read_samples((k - 1) as nat);
        let s = read_word_schedule();
        let a = s.take(3 * (k - 1) as int);
        assert(s.take(3 * k as int) =~= a + seq![
            PinAction::SampleData,
            PinAction::ClockHigh,
            PinAction::ClockLow,
        ]);
        lemma_sample_count_concat(
            a,
            seq![PinAction::SampleData, PinAction::ClockHigh, PinAction::ClockLow],
        );
        let t = seq![PinAction::SampleData, PinAction::ClockHigh, PinAction::ClockLow];
        assert(t.drop_last() =~= seq![PinAction::SampleData, PinAction::ClockHigh]);
        assert(t.drop_last().drop_last() =~= seq![PinAction::SampleData]);
        assert(t.drop_last().drop_last().drop_last() =~= Seq::<PinAction>::empty());
        let u = t.drop_last().drop_last();
        assert(u.last() == PinAction::SampleData);
        assert(sample_count(u.drop_last()) == 0);
        assert(sample_count(u) == 1);
        assert(sample_count(t.drop_last()) == 1);
        assert(sample_count(t) == 1);
    } else {
        assert(read_word_schedule().take(0) =~= Seq::<PinAction>::empty());
    }
}

/// A read of `n` words samples the data line 32 times per word, and leaves
/// the clock low after each word.
pub proof fn lemma_read_shape(n: nat)
    ensures
        read_schedule(n).len() == 96 * n + 1,
        read_schedule(n)[0] == PinAction::DataInput,
        sample_count(read_schedule(n)) == 32 * n,
        n > 0 ==> read_schedule(n).last() == PinAction::ClockLow,
    decreases n,
{
    lemma_word_read_samples(32);
    assert(read_word_schedule().take(96) =~= read_word_schedule());
    if n > 0 {
        lemma_read_shape((n - 1) as nat);
        lemma_sample_count_concat(words_read_schedule((n - 1) as nat), read_word_schedule());
        assert(read_schedule(n) =~= read_schedule((n - 1) as nat) + read_word_schedule());
        lemma_sample_count_concat(read_schedule((n - 1) as nat), read_word_schedule());
    } else {
        assert(read_schedule(0) =~= seq![PinAction::DataInput]);
        assert(seq![PinAction::DataInput].drop_last() =~= Seq::<PinAction>::empty());
        let d = seq![PinAction::DataInput];
        assert(d.last() == PinAction::DataInput);
        assert(sample_count(d.drop_last()) == 0);
        assert(sample_count(d) == 0);
    }
}

/// The words that `samples` spell, 32 samples per word, each word from its
/// most significant bit down.
pub open spec fn decode_words(samples: Seq<bool>) -> Seq<u32> {
    Seq::new(
        samples.len() / 32,
        |i: int| bits_value(samples.subrange(32 * i, 32 * i + 32)) as u32,
    )
}

/// The words that a read's samples spell, 32 samples per word, in order.
pub fn words_from_samples(samples: &Vec<bool>) -> (words: Vec<u32>)
    requires
        samples@.len() % 32 == 0,
    ensures
        words@ == decode_words(samples@),
        words@.len() * 32 == samples@.len(),
        forall|i: int|
            0 <= i < words@.len() ==> words@[i] as nat == bits_value(
                #[trigger] samples@.subrange(32 * i, 32 * i + 32),
            ),
{
    let mut words: Vec<u32> = Vec::new();
    let mut pos: usize = 0;
    while pos < samples.len()
        invariant
            samples@.len() % 32 == 0,
            pos % 32 == 0,
            pos <= samples@.len(),
            words@.len() * 32 == pos,
            forall|i: int|
                0 <= i < words@.len() ==> words@[i] as nat == bits_value(
                    #[trigger] samples@.subrange(32 * i, 32 * i + 32),
                ),
        decreases samples@.len() - pos,
    {
        assert(pos + 32 <= samples@.len());
        let mut bits: Vec<bool> = Vec::new();
        let mut j: usize = 0;
        while j < 32
            invariant
                pos + 32 <= samples@.len(),
                samples@.len() == samples.len(),
                j <= 32,
                bits@ =~= samples@.subrange(pos as int, pos + j),
            decreases 32 - j,
        {
            bits.push(samples[pos + j]);
            j = j + 1;
        }
        let w: u32 = word_from_bits(&bits);
        let ghost k = words@.len() as int;
        words.push(w);
        assert(32 * k == pos);
        pos = pos + 32;
    }
    assert(words@ =~= decode_words(samples@)) by {
        assert forall|i: int| 0 <= i < words@.len() implies words@[i] == decode_words(
            samples@,
        )[i] by {
            let sub = samples@.subrange(32 * i, 32 * i + 32);
            assert(words@[i] as nat == bits_value(sub));
        }
    }
    words
}

/// The data bits a write of `words` puts on the bus, in order.
pub open spec fn written_bits(words: Seq<u32>) -> Seq<bool>
    decreases words.len(),
{
    if words.len() == 0 {
        Seq::empty()
    } else {
        written_bits(words.drop_last()) + word_bits_spec(words.last())
    }
}

proof fn lemma_bits_schedule_concat(a: Seq<bool>, b: Seq<bool>)
    ensures
        bits_schedule(a + b) == bits_schedule(a) + bits_schedule(b),
    decreases b.len(),
{
    if b.len() == 0 {
        assert(a + b =~= a);
        assert(bits_schedule(a) + bits_schedule(b) =~= bits_schedule(a));
    } else {
        lemma_bits_schedule_concat(a, b.drop_last());
        assert((a + b).drop_last() =~= a + b.drop_last());
        assert((a + b).last() == b.last());
    }
}

proof fn lemma_written_bits(words: Seq<u32>)
    ensures
        written_bits(words).len() == 32 * words.len(),
        words_schedule(words) == bits_schedule(written_bits(words)),
        forall|i: int|
            0 <= i < words.len() ==> #[trigger] written_bits(words).subrange(32 * i, 32 * i + 32)
                == word_bits_spec(words[i]),
    decreases words.len(),
{
    if words.len() > 0 {
        let front = words.drop_last();
        lemma_written_bits(front);
        lemma_bits_schedule_concat(written_bits(front), word_bits_spec(words.last()));
        let all = written_bits(words);
        assert forall|i: int| 0 <= i < words.len() implies #[trigger] all.subrange(
            32 * i,
            32 * i + 32,
        ) == word_bits_spec(words[i]) by {
            if i < words.len() - 1 {
                assert(all.subrange(32 * i, 32 * i + 32) =~= written_bits(front).subrange(
                    32 * i,
                    32 * i + 32,
                ));
                assert(front[i] == words[i]);
            } else {
                assert(all.subrange(32 * i, 32 * i + 32) =~= word_bits_spec(words.last()));
            }
        }
    } else {
        assert(bits_schedule(Seq::<bool>::empty()) =~= Seq::<PinAction>::empty());
    }
}

/// Reading back, sample by sample, the data bits that a write of `words`
/// puts on the bus at its rising clock edges gives `words` again, in the
/// same order: the write clocks out exactly those bits, 32 per word, and
/// decoding them yields the words.
pub proof fn lemma_read_returns_written_words(words: Seq<u32>)
    ensures
        write_schedule(words) == seq![PinAction::DataOutput] + bits_schedule(written_bits(words))
            + seq![PinAction::ClockLow, PinAction::DataInput],
        written_bits(words).len() == 32 * words.len(),
        decode_words(written_bits(words)) == words,
{
    lemma_written_bits(words);
    let bits = written_bits(words);
    assert forall|i: int| 0 <= i < words.len() implies decode_words(bits)[i] == words[i] by {
        assert(bits.subrange(32 * i, 32 * i + 32) == word_bits_spec(words[i]));
        lemma_read_returns_written(words[i]);
    }
    assert(decode_words(bits) =~= words);
}

/// Each bit goes out as three steps in turn: the clock driven low, the
/// data line set to the bit, the clock driven high, with the bits in order.
pub proof fn lemma_bits_schedule_prefix(bits: Seq<bool>)
    ensures
        bits_schedule(bits).len() == 3 * bits.len(),
        forall|k: int|
            0 <= k < bits.len() ==> {
                &&& #[trigger] bits_schedule(bits)[3 * k] == PinAction::ClockLow
                &&& bits_schedule(bits)[3 * k + 1] == data_action(bits[k])
                &&& bits_schedule(bits)[3 * k + 2] == PinAction::ClockHigh
            },
    decreases bits.len(),
{
    lemma_bits_schedule_len(bits);
    if bits.len() > 0 {
        let front = bits.drop_last();
        lemma_bits_schedule_prefix(front);
        lemma_bits_schedule_len(front);
        assert forall|k: int| 0 <= k < bits.len() implies {
            &&& #[trigger] bits_schedule(bits)[3 * k] == PinAction::ClockLow
            &&& bits_schedule(bits)[3 * k + 1] == data_action(bits[k])
            &&& bits_schedule(bits)[3 * k + 2] == PinAction::ClockHigh
        } by {
            if k < bits.len() - 1 {
                assert(bits_schedule(front)[3 * k] == PinAction::ClockLow);
                assert(front[k] == bits[k]);
            }
        }
    }
}

} // verus!
