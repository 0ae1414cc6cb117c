//! Rules of audio waveforms.

use vstd::prelude::*;

verus! {

/// The fewest samples a normalized waveform has.
pub const MIN_WAVEFORM_SAMPLES: usize = 30;

/// The most samples a normalized waveform has.
pub const MAX_WAVEFORM_SAMPLES: usize = 120;

/// The number of samples of the normalization of a waveform of `len` samples.
///
/// A waveform with fewer than 30 samples is resampled to 30, one with 120 or
/// more is resampled to 120, any other keeps its samples. An empty waveform
/// stays empty. The number of required samples comes from MSC3246.
pub fn normalized_waveform_len(len: usize) -> (target: usize)
    ensures
        target == if len == 0 {
            0
        } else if len < MIN_WAVEFORM_SAMPLES {
            MIN_WAVEFORM_SAMPLES
        } else if len < MAX_WAVEFORM_SAMPLES {
            len
        } else {
            MAX_WAVEFORM_SAMPLES
        },
        len > 0 ==> MIN_WAVEFORM_SAMPLES <= target <= MAX_WAVEFORM_SAMPLES,
        len == 0 <==> target == 0,
{
    if len == 0 {
        0
    } else if len < MIN_WAVEFORM_SAMPLES {
        MIN_WAVEFORM_SAMPLES
    } else if len < MAX_WAVEFORM_SAMPLES {
        len
    } else {
        MAX_WAVEFORM_SAMPLES
    }
}

} // verus!
