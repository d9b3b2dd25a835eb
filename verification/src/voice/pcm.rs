//! Signed 16-bit little-endian samples.

use crate::plain::{clip, value_at};
use vstd::prelude::*;

verus! {

/// A sample as an unsigned 16-bit number.
pub open spec fn sample_word(s: i16) -> int {
    if s < 0 {
        s + 65536
    } else {
        s as int
    }
}

/// The low byte of a sample.
pub open spec fn low_byte(s: i16) -> u8 {
    (sample_word(s) % 256) as u8
}

/// The high byte of a sample.
pub open spec fn high_byte(s: i16) -> u8 {
    (sample_word(s) / 256) as u8
}

/// The sample of a low and a high byte.
pub open spec fn sample_of(low: u8, high: u8) -> i16 {
    let w = low + 256 * high;
    if w >= 32768 {
        (w - 65536) as i16
    } else {
        w as i16
    }
}

/// Two bytes for each sample, the low one first.
pub open spec fn samples_as_bytes(samples: Seq<i16>) -> Seq<u8> {
    Seq::new(
        2 * samples.len(),
        |i: int|
            if i % 2 == 0 {
                low_byte(samples[i / 2])
            } else {
                high_byte(samples[i / 2])
            },
    )
}

/// One sample for each two bytes; a last odd byte is left out.
pub open spec fn bytes_as_samples(bytes: Seq<u8>) -> Seq<i16> {
    Seq::new(bytes.len() / 2, |i: int| sample_of(bytes[2 * i], bytes[2 * i + 1]))
}

/// The sum of two samples, kept in range.
pub open spec fn mixed_pair(a: i16, b: i16) -> i16 {
    if a + b > 32767 {
        32767
    } else if a + b < -32768 {
        i16::MIN
    } else {
        (a + b) as i16
    }
}

/// A sample comes back from its two bytes.
pub proof fn lemma_sample_round_trip(s: i16)
    ensures
        sample_of(low_byte(s), high_byte(s)) == s,
{
}

/// Samples come back from their bytes.
pub proof fn law_samples_round_trip(samples: Seq<i16>)
    ensures
        bytes_as_samples(samples_as_bytes(samples)) == samples,
{
    let b = samples_as_bytes(samples);
    assert forall|i: int| 0 <= i < samples.len() implies bytes_as_samples(b)[i] == samples[i] by {
        assert((2 * i) / 2 == i && (2 * i + 1) / 2 == i);
        assert(b[2 * i] == low_byte(samples[i]));
        assert(b[2 * i + 1] == high_byte(samples[i]));
        lemma_sample_round_trip(samples[i]);
    }
    assert(bytes_as_samples(b) =~= samples);
}

/// Samples are stored one after the other in two bytes each, and read back so.
/// Bytes are read two by two.
pub proof fn law_pcm_layout(samples: Seq<i16>, bytes: Seq<u8>)
    ensures
        samples_as_bytes(samples).len() == 2 * samples.len(),
        forall|i: int|
            0 <= i < samples.len() ==> value_at(samples_as_bytes(samples), i)
                == #[trigger] samples[i],
        bytes_as_samples(bytes).len() == bytes.len() / 2,
        forall|i: int|
            0 <= i < bytes.len() / 2 ==> #[trigger] bytes_as_samples(bytes)[i] == value_at(bytes, i),
{
    let b = samples_as_bytes(samples);
    assert forall|i: int| 0 <= i < samples.len() implies value_at(b, i) == #[trigger] samples[i] by {
        assert((2 * i) / 2 == i && (2 * i + 1) / 2 == i);
        assert(b[2 * i] == low_byte(samples[i]));
        assert(b[2 * i + 1] == high_byte(samples[i]));
    }
}

/// Two samples are mixed to their sum, or to the nearest value that a sample can
/// have.
pub proof fn law_mixed_pair(a: i16, b: i16)
    ensures
        mixed_pair(a, b) == clip(a + b),
{
}

/// The two bytes of a sample, the low one first.
pub fn split_sample(s: i16) -> (b: (u8, u8))
    ensures
        b.0 == low_byte(s),
        b.1 == high_byte(s),
{
    let w: i32 = if s < 0 {
        s as i32 + 65536
    } else {
        s as i32
    };
    ((w % 256) as u8, (w / 256) as u8)
}

/// The sample of a low and a high byte.
pub fn join_sample(low: u8, high: u8) -> (s: i16)
    ensures
        s == sample_of(low, high),
{
    let w: i32 = low as i32 + 256 * (high as i32);
    if w >= 32768 {
        (w - 65536) as i16
    } else {
        w as i16
    }
}

/// The sum of two samples, kept in range.
pub fn mix_pair(a: i16, b: i16) -> (s: i16)
    ensures
        s == mixed_pair(a, b),
{
    let sum: i32 = a as i32 + b as i32;
    if sum > 32767 {
        32767
    } else if sum < -32768 {
        -32768
    } else {
        sum as i16
    }
}

/// Append two bytes for each sample.
pub fn append_samples(out: &mut Vec<u8>, samples: &Vec<i16>)
    ensures
        final(out)@ == old(out)@ + samples_as_bytes(samples@),
{
    let ghost start = out@;
    let mut i: usize = 0;
    while i < samples.len()
        invariant
            0 <= i <= samples@.len(),
            out@ == start + samples_as_bytes(samples@.take(i as int)),
        decreases samples@.len() - i,
    {
        let (low, high) = split_sample(samples[i]);
        out.push(low);
        out.push(high);
        proof {
            let a = samples_as_bytes(samples@.take(i as int));
            let b = samples_as_bytes(samples@.take(i + 1));
            assert forall|j: int| 0 <= j < b.len() implies b[j] == a.push(low).push(high)[j] by {
                if j < 2 * i {
                    assert(samples@.take(i + 1)[j / 2] == samples@.take(i as int)[j / 2]);
                } else {
                    assert(j / 2 == i);
                }
            }
            assert(b =~= a.push(low).push(high));
            assert(start + b =~= out@);
        }
        i = i + 1;
    }
    assert(samples@.take(samples@.len() as int) =~= samples@);
}

/// Two bytes for each sample.
pub fn samples_to_bytes(samples: &Vec<i16>) -> (bytes: Vec<u8>)
    ensures
        bytes@ == samples_as_bytes(samples@),
{
    let mut bytes: Vec<u8> = Vec::new();
    append_samples(&mut bytes, samples);
    assert(bytes@ =~= samples_as_bytes(samples@));
    bytes
}

/// One sample for each two bytes; a last odd byte is left out.
pub fn bytes_to_samples(bytes: &Vec<u8>) -> (samples: Vec<i16>)
    ensures
        samples@ == bytes_as_samples(bytes@),
{
    let mut samples: Vec<i16> = Vec::new();
    let n: usize = bytes.len() / 2;
    let mut i: usize = 0;
    while i < n
        invariant
            0 <= i <= n,
            n == bytes@.len() / 2,
            2 * n <= usize::MAX,
            samples@ == bytes_as_samples(bytes@).take(i as int),
        decreases n - i,
    {
        samples.push(join_sample(bytes[2 * i], bytes[2 * i + 1]));
        i = i + 1;
        assert(bytes_as_samples(bytes@).take(i as int) =~= bytes_as_samples(bytes@).take(
            i - 1,
        ).push(bytes_as_samples(bytes@)[i - 1]));
    }
    assert(bytes_as_samples(bytes@).take(n as int) =~= bytes_as_samples(bytes@));
    samples
}

} // verus!
