//! Audio bookkeeping: the pool of tracked playback slots behind
//! `SoundHandle`s, and the byte layout of the generated PCM WAV assets.
use vstd::prelude::*;

verus! {

/// Opaque index into the audio engine's slot pool.
#[derive(Debug, Clone, Copy, PartialEq, Eq, Hash, Structural)]
pub struct SoundHandle(pub usize);

/// A pool of playback slots.  `None` marks a free slot.
pub struct SlotPool<T> {
    slots: Vec<Option<T>>,
}

/// Index of the first slot that can be reused: free, or marked finished.
pub open spec fn first_reusable<T>(slots: Seq<Option<T>>, finished: Seq<bool>) -> Option<int>
    decreases slots.len(),
{
    if slots.len() == 0 {
        None
    } else {
        match first_reusable(slots.drop_last(), finished) {
            Some(i) => Some(i),
            None => if slots.last() is None || finished[slots.len() - 1] {
                Some(slots.len() - 1)
            } else {
                None
            },
        }
    }
}

impl<T> SlotPool<T> {
    /// The slots, in index order.
    pub closed spec fn slots(&self) -> Seq<Option<T>> {
        self.slots@
    }

    /// An empty pool.
    pub fn new() -> (p: Self)
        ensures
            p.slots() == Seq::<Option<T>>::empty(),
    {
        SlotPool { slots: Vec::new() }
    }

    /// Number of slots.
    pub fn len(&self) -> (n: usize)
        ensures
            n == self.slots().len(),
    {
        self.slots.len()
    }

    /// Pick a slot for a new sound: the first slot that is free or whose
    /// sound has finished (`finished[i]`), which is cleared; if there is
    /// none, a new free slot at the end.
    pub fn alloc_slot(&mut self, finished: &Vec<bool>) -> (i: usize)
        requires
            finished@.len() == old(self).slots().len(),
            old(self).slots().len() < usize::MAX,
        ensures
            match first_reusable(old(self).slots(), finished@) {
                Some(k) => i == k && final(self).slots() == old(self).slots().update(k, None),
                None => i == old(self).slots().len() && final(self).slots() == old(self).slots().push(
                    None,
                ),
            },
    {
        let n = self.slots.len();
        let mut i: usize = 0;
        while i < n
            invariant
                n == self.slots@.len(),
                n == finished@.len(),
                i <= n,
                self.slots@ == old(self).slots@,
                first_reusable(self.slots@.take(i as int), finished@) is None,
            decreases n - i,
        {
            assert(self.slots@.take(i + 1).drop_last() =~= self.slots@.take(i as int));
            if self.slots[i].is_none() || finished[i] {
                self.slots.set(i, None);
                proof {
                    lemma_first_reusable_extends(old(self).slots@, finished@, i as int + 1);
                }
                return i;
            }
            i = i + 1;
        }
        assert(self.slots@.take(n as int) =~= self.slots@);
        self.slots.push(None);
        n
    }

    /// Store a sound in slot `i`.
    pub fn put(&mut self, i: usize, value: T)
        requires
            i < old(self).slots().len(),
        ensures
            final(self).slots() == old(self).slots().update(i as int, Some(value)),
    {
        self.slots.set(i, Some(value));
    }

    /// Take the sound out of slot `i`, leaving it free.  An index past the
    /// end changes nothing.
    pub fn take(&mut self, i: usize) -> (r: Option<T>)
        ensures
            i < old(self).slots().len() ==> r == old(self).slots()[i as int] && final(self).slots()
                == old(self).slots().update(i as int, None),
            i >= old(self).slots().len() ==> r is None && final(self).slots() == old(self).slots(),
    {
        if i < self.slots.len() {
            let mut v: Option<T> = None;
            std::mem::swap(&mut v, &mut self.slots[i]);
            assert(self.slots@ =~= old(self).slots@.update(i as int, None));
            v
        } else {
            None
        }
    }

    /// The sound in slot `i`, if the slot exists and is occupied.
    pub fn get(&self, i: usize) -> (r: Option<&T>)
        ensures
            r == if i < self.slots().len() && self.slots()[i as int] is Some {
                Some(&self.slots()[i as int]->Some_0)
            } else {
                None::<&T>
            },
    {
        if i < self.slots.len() {
            match &self.slots[i] {
                Some(v) => Some(v),
                None => None,
            }
        } else {
            None
        }
    }
}

proof fn lemma_first_reusable_extends<T>(slots: Seq<Option<T>>, finished: Seq<bool>, k: int)
    requires
        0 < k <= slots.len(),
        first_reusable(slots.take(k - 1), finished) is None,
        slots[k - 1] is None || finished[k - 1],
    ensures
        first_reusable(slots, finished) == Some(k - 1),
    decreases slots.len() - k,
{
    assert(slots.take(k).drop_last() =~= slots.take(k - 1));
    if k < slots.len() {
        lemma_first_reusable_prefix(slots, finished, k);
    } else {
        assert(slots.take(k) =~= slots);
    }
}

proof fn lemma_first_reusable_prefix<T>(slots: Seq<Option<T>>, finished: Seq<bool>, k: int)
    requires
        0 <= k <= slots.len(),
        first_reusable(slots.take(k), finished) is Some,
    ensures
        first_reusable(slots, finished) == first_reusable(slots.take(k), finished),
    decreases slots.len() - k,
{
    if k < slots.len() {
        assert(slots.take(k + 1).drop_last() =~= slots.take(k));
        lemma_first_reusable_prefix(slots, finished, k + 1);
    } else {
        assert(slots.take(k) =~= slots);
    }
}

/// A reused or new slot handed out by `alloc_slot` is always free, and a
/// sound is never placed over a sound that is still playing.
pub proof fn lemma_alloc_slot_is_free<T>(slots: Seq<Option<T>>, finished: Seq<bool>)
    requires
        finished.len() == slots.len(),
    ensures
        first_reusable(slots, finished) matches Some(k) ==> 0 <= k < slots.len() && (slots[k] is None
            || finished[k]),
    decreases slots.len(),
{
    if slots.len() > 0 {
        lemma_alloc_slot_is_free(slots.drop_last(), finished.drop_last());
        lemma_first_reusable_finished_prefix(slots.drop_last(), finished);
    }
}

proof fn lemma_first_reusable_finished_prefix<T>(slots: Seq<Option<T>>, finished: Seq<bool>)
    requires
        slots.len() < finished.len(),
    ensures
        first_reusable(slots, finished) == first_reusable(slots, finished.take(slots.len() as int)),
        first_reusable(slots, finished) matches Some(k) ==> 0 <= k < slots.len() && (slots[k] is None
            || finished[k]),
    decreases slots.len(),
{
    if slots.len() > 0 {
        lemma_first_reusable_finished_prefix(slots.drop_last(), finished);
        lemma_first_reusable_finished_prefix(slots.drop_last(), finished.take(slots.len() as int));
        assert(finished.take(slots.len() as int).take(slots.len() - 1) =~= finished.take(
            slots.len() - 1,
        ));
    }
}

// ---------------------------------------------------------------------------
// PCM WAV layout
// ---------------------------------------------------------------------------

/// Sample rate of the generated sounds.
pub const SAMPLE_RATE: u32 = 22050;

/// Little-endian bytes of a 32-bit value.
pub open spec fn le32(x: int) -> Seq<u8> {
    seq![
        (x % 256) as u8,
        ((x / 256) % 256) as u8,
        ((x / 65536) % 256) as u8,
        ((x / 16777216) % 256) as u8,
    ]
}

/// Little-endian bytes of a 16-bit value.
pub open spec fn le16(x: int) -> Seq<u8> {
    seq![(x % 256) as u8, ((x / 256) % 256) as u8]
}

/// The 44-byte header of a 16-bit mono PCM WAV file at `SAMPLE_RATE` holding
/// `n` samples.
pub open spec fn spec_wav_header(n: int) -> Seq<u8> {
    seq![82u8, 73u8, 70u8, 70u8] + le32(36 + 2 * n) + seq![87u8, 65u8, 86u8, 69u8] + seq![
        102u8,
        109u8,
        116u8,
        32u8,
    ] + le32(16) + le16(1) + le16(1) + le32(22050) + le32(44100) + le16(2) + le16(16) + seq![
        100u8,
        97u8,
        116u8,
        97u8,
    ] + le32(2 * n)
}

/// The little-endian bytes of a sequence of 16-bit samples.
pub open spec fn spec_pcm16(samples: Seq<i16>) -> Seq<u8>
    decreases samples.len(),
{
    if samples.len() == 0 {
        Seq::empty()
    } else {
        spec_pcm16(samples.drop_last()) + le16(
            if samples.last() < 0 {
                samples.last() + 65536
            } else {
                samples.last() as int
            },
        )
    }
}

fn push_le32(buf: &mut Vec<u8>, x: u32)
    ensures
        final(buf)@ == old(buf)@ + le32(x as int),
{
    assert((x & 0xffu32) as u8 == x % 256) by (bit_vector);
    assert(((x >> 8u32) & 0xffu32) as u8 == (x / 256) % 256) by (bit_vector);
    assert(((x >> 16u32) & 0xffu32) as u8 == (x / 65536) % 256) by (bit_vector);
    assert(((x >> 24u32) & 0xffu32) as u8 == (x / 16777216) % 256) by (bit_vector);
    buf.push((x & 0xff) as u8);
    buf.push(((x >> 8) & 0xff) as u8);
    buf.push(((x >> 16) & 0xff) as u8);
    buf.push(((x >> 24) & 0xff) as u8);
    assert(final(buf)@ =~= old(buf)@ + le32(x as int));
}

fn push_le16(buf: &mut Vec<u8>, x: u16)
    ensures
        final(buf)@ == old(buf)@ + le16(x as int),
{
    assert((x & 0xffu16) as u8 == x % 256) by (bit_vector);
    assert(((x >> 8u16) & 0xffu16) as u8 == (x / 256) % 256) by (bit_vector);
    buf.push((x & 0xff) as u8);
    buf.push(((x >> 8) & 0xff) as u8);
    assert(final(buf)@ =~= old(buf)@ + le16(x as int));
}

fn push_tag(buf: &mut Vec<u8>, a: u8, b: u8, c: u8, d: u8)
    ensures
        final(buf)@ == old(buf)@ + seq![a, b, c, d],
{
    buf.push(a);
    buf.push(b);
    buf.push(c);
    buf.push(d);
    assert(final(buf)@ =~= old(buf)@ + seq![a, b, c, d]);
}

/// The header of a 16-bit mono PCM WAV file at 22 050 Hz with
/// `num_samples` samples: RIFF/WAVE, a 16-byte `fmt ` chunk, and the
/// `data` chunk size.
pub fn wav_header(num_samples: u32) -> (h: Vec<u8>)
    requires
        36 + 2 * num_samples <= u32::MAX,
    ensures
        h@ == spec_wav_header(num_samples as int),
        h@.len() == 44,
{
    let data_size = num_samples * 2;
    let mut h: Vec<u8> = Vec::new();
    push_tag(&mut h, 82, 73, 70, 70);
    push_le32(&mut h, 36 + data_size);
    push_tag(&mut h, 87, 65, 86, 69);
    push_tag(&mut h, 102, 109, 116, 32);
    push_le32(&mut h, 16);
    push_le16(&mut h, 1);
    push_le16(&mut h, 1);
    push_le32(&mut h, SAMPLE_RATE);
    push_le32(&mut h, SAMPLE_RATE * 2);
    push_le16(&mut h, 2);
    push_le16(&mut h, 16);
    push_tag(&mut h, 100, 97, 116, 97);
    push_le32(&mut h, data_size);
    assert(h@ =~= spec_wav_header(num_samples as int));
    h
}

/// A complete 16-bit mono PCM WAV file holding `samples`.
pub fn wav_file(samples: &Vec<i16>) -> (f: Vec<u8>)
    requires
        36 + 2 * samples@.len() <= u32::MAX,
    ensures
        f@ == spec_wav_header(samples@.len() as int) + spec_pcm16(samples@),
{
    let mut f = wav_header(samples.len() as u32);
    let ghost header = f@;
    let mut i: usize = 0;
    while i < samples.len()
        invariant
            i <= samples@.len(),
            f@ == header + spec_pcm16(samples@.take(i as int)),
        decreases samples@.len() - i,
    {
        let s = samples[i];
        let u = s as u16;
        assert((s as u16) as int == if s < 0 {
            s + 65536
        } else {
            s as int
        }) by (bit_vector);
        push_le16(&mut f, u);
        assert(samples@.take(i + 1).drop_last() =~= samples@.take(i as int));
        i = i + 1;
        assert(f@ =~= header + spec_pcm16(samples@.take(i as int)));
    }
    assert(samples@.take(i as int) =~= samples@);
    f
}

/// A generated WAV file is well framed: its RIFF size field is the file
/// length minus 8 and its data size field is the length of the sample bytes.
pub proof fn lemma_wav_sizes(samples: Seq<i16>)
    ensures
        spec_wav_header(samples.len() as int).len() == 44,
        spec_pcm16(samples).len() == 2 * samples.len(),
        spec_wav_header(samples.len() as int).subrange(4, 8) == le32(
            (spec_wav_header(samples.len() as int) + spec_pcm16(samples)).len() - 8,
        ),
        spec_wav_header(samples.len() as int).subrange(40, 44) == le32(spec_pcm16(samples).len() as int),
    decreases samples.len(),
{
    if samples.len() > 0 {
        lemma_wav_sizes(samples.drop_last());
    }
    let h = spec_wav_header(samples.len() as int);
    assert(h.subrange(4, 8) =~= le32(36 + 2 * samples.len() as int));
    assert(h.subrange(40, 44) =~= le32(2 * samples.len() as int));
}

} // verus!
