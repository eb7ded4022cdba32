//! The in-app recorder's limits, and how it keeps a take within them.
//! Capturing from the microphone and encoding the WAV are the app's.

use vstd::prelude::*;

verus! {

/// The longest take the recorder keeps, in seconds.
pub const MAX_RECORD_SECS: u32 = 60;

/// The fastest rate a recording is kept at.
pub const TARGET_HZ: u32 = 24_000;

/// The rate a recording from a device running at `sample_rate` is kept at:
/// its own, brought down to `TARGET_HZ` if the device ran faster.
pub fn target_rate(sample_rate: u32) -> (r: u32)
    ensures
        r == if sample_rate < TARGET_HZ { sample_rate } else { TARGET_HZ },
{
    if sample_rate < TARGET_HZ {
        sample_rate
    } else {
        TARGET_HZ
    }
}

/// Appends `samples` to `buffer`, but only up to `max` in all: what doesn't
/// fit is dropped, and a full buffer takes nothing more.
pub fn push_capped(buffer: &mut Vec<i16>, max: usize, samples: &[i16])
    ensures
        old(buffer)@.len() >= max ==> final(buffer)@ == old(buffer)@,
        old(buffer)@.len() < max ==> final(buffer)@ == old(buffer)@ + samples@.take(
            if samples@.len() < max - old(buffer)@.len() {
                samples@.len() as int
            } else {
                max - old(buffer)@.len()
            },
        ),
{
    if buffer.len() >= max {
        return;
    }
    let remaining = max - buffer.len();
    let n = if samples.len() < remaining {
        samples.len()
    } else {
        remaining
    };
    let mut i: usize = 0;
    while i < n
        invariant
            i <= n <= samples.len(),
            buffer@ == old(buffer)@ + samples@.take(i as int),
        decreases n - i,
    {
        buffer.push(samples[i]);
        assert(old(buffer)@ + samples@.take(i + 1) =~= (old(buffer)@ + samples@.take(
            i as int,
        )).push(samples@[i as int]));
        i += 1;
    }
}

/// A full-length recording, at the fastest rate it is kept at, as a 16-bit
/// mono WAV (two bytes a sample and a 44-byte header), is still a sample
/// that can be kept.
pub proof fn law_a_full_recording_can_be_kept()
    ensures
        MAX_RECORD_SECS * TARGET_HZ * 2 + 44 < crate::voice::sample::MAX_BYTES,
{
}

/// An unsigned 16-bit sample as a signed one: the midpoint moves to zero.
pub fn u16_sample_to_i16(s: u16) -> (r: i16)
    ensures
        r == s - 32768,
{
    ((s as i32) - 32768) as i16
}

} // verus!
