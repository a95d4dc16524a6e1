use crate::pcm::{fixed_from_f32_bits, fixed_from_f32_bits_spec, FULL_SCALE};
use vstd::prelude::*;

verus! {

/// The fixed-point value of a 16-bit microphone sample: `s / 32768`.
pub open spec fn i16_to_fixed(s: i16) -> int {
    s as int * (FULL_SCALE as int / 32768)
}

/// Normalizes 16-bit microphone samples (divided by 32768).
pub fn mic_samples_from_i16(data: &[i16]) -> (r: Vec<i32>)
    ensures
        r@.len() == data@.len(),
        forall|i: int| 0 <= i < data@.len() ==> r@[i] as int == i16_to_fixed(#[trigger] data@[i]),
{
    let mut out: Vec<i32> = Vec::new();
    let mut i: usize = 0;
    while i < data.len()
        invariant
            i <= data@.len(),
            out@.len() == i,
            forall|j: int| 0 <= j < i ==> out@[j] as int == i16_to_fixed(#[trigger] data@[j]),
        decreases data@.len() - i,
    {
        out.push(data[i] as i32 * 512);
        i = i + 1;
    }
    out
}

/// Raw microphone samples, at the device's own rate, waiting to be resampled
/// and written. Drained whenever it holds about half a second.
pub struct MicAccumulator {
    buffer: Vec<i32>,
    threshold: usize,
}

impl MicAccumulator {
    /// The samples held.
    pub closed spec fn pending(&self) -> Seq<i32> {
        self.buffer@
    }

    /// Length at which the buffer is drained.
    pub closed spec fn threshold(&self) -> nat {
        self.threshold as nat
    }

    /// The buffer holds less than a drain's worth.
    pub closed spec fn wf(&self) -> bool {
        &&& self.buffer@.len() < self.threshold || self.buffer@.len() == 0
        &&& self.threshold <= u32::MAX / 2
    }

    /// An empty buffer that drains at half a second of `native_rate`.
    pub fn new(native_rate: u32) -> (r: Self)
        ensures
            r.wf(),
            r.pending().len() == 0,
            r.threshold() == native_rate as nat / 2,
    {
        MicAccumulator { buffer: Vec::new(), threshold: (native_rate / 2) as usize }
    }

    /// Appends `data`. Once the buffer holds at least `threshold` samples
    /// (and some at all), all of it is handed back and the buffer is empty.
    pub fn push(&mut self, data: &[i32]) -> (r: Option<Vec<i32>>)
        requires
            old(self).wf(),
            data@.len() <= usize::MAX / 2,
        ensures
            final(self).wf(),
            final(self).threshold() == old(self).threshold(),
            ({
                let all = old(self).pending() + data@;
                if all.len() >= old(self).threshold() && all.len() > 0 {
                    r is Some && r->0@ == all && final(self).pending().len() == 0
                } else {
                    r is None && final(self).pending() == all
                }
            }),
    {
        let mut i: usize = 0;
        let ghost start = self.buffer@;
        while i < data.len()
            invariant
                i <= data@.len(),
                self.buffer@ == start + data@.subrange(0, i as int),
                self.threshold == old(self).threshold,
                start == old(self).buffer@,
                start.len() < self.threshold || start.len() == 0,
                self.threshold <= u32::MAX / 2,
            decreases data@.len() - i,
        {
            self.buffer.push(data[i]);
            proof {
                assert(start + data@.subrange(0, i + 1) =~= (start + data@.subrange(0, i as int)).push(data@[i as int]));
            }
            i = i + 1;
        }
        assert(data@.subrange(0, data@.len() as int) =~= data@);
        if self.buffer.len() >= self.threshold && self.buffer.len() > 0 {
            Some(self.drain())
        } else {
            None
        }
    }

    /// Hands back whatever is held and empties the buffer.
    pub fn drain(&mut self) -> (r: Vec<i32>)
        ensures
            final(self).wf() == (old(self).threshold() <= u32::MAX / 2),
            r@ == old(self).pending(),
            final(self).pending().len() == 0,
            final(self).threshold() == old(self).threshold(),
    {
        let mut taken: Vec<i32> = Vec::new();
        std::mem::swap(&mut taken, &mut self.buffer);
        taken
    }
}

/// The little-endian 32-bit word that starts at byte `4 * k`.
pub open spec fn le_word(data: Seq<u8>, k: int) -> nat {
    (data[4 * k] as nat) + 0x100 * (data[4 * k + 1] as nat) + 0x1_0000 * (data[4 * k + 2] as nat)
        + 0x100_0000 * (data[4 * k + 3] as nat)
}

/// Decodes a buffer of little-endian 32-bit float samples, as the system
/// audio tap delivers them, to fixed-point samples. Trailing bytes that do
/// not fill a sample are ignored.
pub fn decode_system_buffer(data: &[u8]) -> (r: Vec<i32>)
    ensures
        r@.len() == data@.len() / 4,
        forall|k: int|
            0 <= k < r@.len() ==> #[trigger] r@[k] as int == fixed_from_f32_bits_spec(
                le_word(data@, k) as u32,
            ),
{
    let len = data.len();
    let n = len / 4;
    let mut out: Vec<i32> = Vec::new();
    let mut k: usize = 0;
    while k < n
        invariant
            n == data@.len() / 4,
            len == data@.len(),
            k <= n,
            out@.len() == k,
            forall|j: int|
                0 <= j < k ==> #[trigger] out@[j] as int == fixed_from_f32_bits_spec(
                    le_word(data@, j) as u32,
                ),
        decreases n - k,
    {
        let i = 4 * k;
        let word: u32 = data[i] as u32 + 0x100 * (data[i + 1] as u32) + 0x1_0000 * (data[i + 2]
            as u32) + 0x100_0000 * (data[i + 3] as u32);
        out.push(fixed_from_f32_bits(word));
        k = k + 1;
    }
    out
}

/// Converts float samples, given by their bit patterns, to fixed point.
pub fn samples_from_f32_bits(bits: &[u32]) -> (r: Vec<i32>)
    ensures
        r@.len() == bits@.len(),
        forall|i: int|
            0 <= i < bits@.len() ==> r@[i] as int == fixed_from_f32_bits_spec(#[trigger] bits@[i]),
{
    let mut out: Vec<i32> = Vec::new();
    let mut i: usize = 0;
    while i < bits.len()
        invariant
            i <= bits@.len(),
            out@.len() == i,
            forall|j: int|
                0 <= j < i ==> out@[j] as int == fixed_from_f32_bits_spec(#[trigger] bits@[j]),
        decreases bits@.len() - i,
    {
        out.push(fixed_from_f32_bits(bits[i]));
        i = i + 1;
    }
    out
}

} // verus!
