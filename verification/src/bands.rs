//! Logarithmic frequency banding: the fixed mapping from the 32 display
//! bands to representative center frequencies and to the FFT bins that
//! feed each band.
//!
//! The bands divide the 20 Hz .. 20 kHz range geometrically: band `b`
//! covers `[20 * 1000^(b/32), 20 * 1000^((b+1)/32))` Hz, and its center
//! sits at the interpolation fraction `(b + 0.5)/32`.  At the fixed
//! 44100 Hz sample rate and 512-point transform, one bin spans
//! `44100/512` Hz, and a band's bin interval is each edge divided by the
//! bin width, truncated, clamped to the 256 usable bins, with the upper
//! bin forced at least one above the lower so every band covers a bin.
//! All of those values are constants of the configuration; the tables
//! below hold them, with the center frequencies kept in millihertz.

use vstd::prelude::*;

verus! {

/// Center frequency of a band, in millihertz.
pub open spec fn center_millihertz_spec(b: int) -> int {
    if b == 0 {
        22279
    } else if b == 1 {
        27647
    } else if b == 2 {
        34308
    } else if b == 3 {
        42575
    } else if b == 4 {
        52832
    } else if b == 5 {
        65562
    } else if b == 6 {
        81358
    } else if b == 7 {
        100961
    } else if b == 8 {
        125286
    } else if b == 9 {
        155473
    } else if b == 10 {
        192932
    } else if b == 11 {
        239417
    } else if b == 12 {
        297101
    } else if b == 13 {
        368684
    } else if b == 14 {
        457514
    } else if b == 15 {
        567747
    } else if b == 16 {
        704538
    } else if b == 17 {
        874288
    } else if b == 18 {
        1084938
    } else if b == 19 {
        1346340
    } else if b == 20 {
        1670725
    } else if b == 21 {
        2073265
    } else if b == 22 {
        2572793
    } else if b == 23 {
        3192677
    } else if b == 24 {
        3961913
    } else if b == 25 {
        4916488
    } else if b == 26 {
        6101055
    } else if b == 27 {
        7571030
    } else if b == 28 {
        9395177
    } else if b == 29 {
        11658830
    } else if b == 30 {
        14467883
    } else {
        17953742
    }
}

/// First FFT bin feeding a band.
pub open spec fn bin_low_spec(b: int) -> int {
    if b <= 6 {
        0
    } else if b <= 9 {
        1
    } else if b <= 11 {
        2
    } else if b <= 13 {
        3
    } else if b == 14 {
        4
    } else if b == 15 {
        5
    } else if b == 16 {
        7
    } else if b == 17 {
        9
    } else if b == 18 {
        11
    } else if b == 19 {
        14
    } else if b == 20 {
        17
    } else if b == 21 {
        21
    } else if b == 22 {
        26
    } else if b == 23 {
        33
    } else if b == 24 {
        41
    } else if b == 25 {
        51
    } else if b == 26 {
        63
    } else if b == 27 {
        78
    } else if b == 28 {
        97
    } else if b == 29 {
        121
    } else if b == 30 {
        150
    } else {
        187
    }
}

/// Last FFT bin feeding a band (inclusive).
pub open spec fn bin_high_spec(b: int) -> int {
    if b <= 6 {
        1
    } else if b <= 9 {
        2
    } else if b <= 11 {
        3
    } else if b <= 13 {
        4
    } else if b == 14 {
        5
    } else if b == 15 {
        7
    } else if b == 16 {
        9
    } else if b == 17 {
        11
    } else if b == 18 {
        14
    } else if b == 19 {
        17
    } else if b == 20 {
        21
    } else if b == 21 {
        26
    } else if b == 22 {
        33
    } else if b == 23 {
        41
    } else if b == 24 {
        51
    } else if b == 25 {
        63
    } else if b == 26 {
        78
    } else if b == 27 {
        97
    } else if b == 28 {
        121
    } else if b == 29 {
        150
    } else if b == 30 {
        187
    } else {
        232
    }
}

/// Center frequency of band `band`, in millihertz.
///
/// The value lies in the audible 20 Hz .. 20 kHz range for every band.
pub fn band_center_millihertz(band: usize) -> (r: u64)
    requires
        band < crate::NUM_BANDS,
    ensures
        r == center_millihertz_spec(band as int),
        20000 <= r <= 20000000,
{
    let table: [u64; 32] = [
        22279,
        27647,
        34308,
        42575,
        52832,
        65562,
        81358,
        100961,
        125286,
        155473,
        192932,
        239417,
        297101,
        368684,
        457514,
        567747,
        704538,
        874288,
        1084938,
        1346340,
        1670725,
        2073265,
        2572793,
        3192677,
        3961913,
        4916488,
        6101055,
        7571030,
        9395177,
        11658830,
        14467883,
        17953742,
    ];
    table[band]
}

/// The inclusive range of usable FFT bins averaged into band `band`.
///
/// The range always covers at least one bin, never reaches past the 256
/// usable (Nyquist-limited) bins of the 512-point transform, and moves
/// upward with the band index.
pub fn band_bins(band: usize) -> (r: (usize, usize))
    requires
        band < crate::NUM_BANDS,
    ensures
        r.0 == bin_low_spec(band as int),
        r.1 == bin_high_spec(band as int),
        r.0 < r.1 < crate::FFT_SIZE / 2,
{
    let lows: [usize; 32] = [
        0,
        0,
        0,
        0,
        0,
        0,
        0,
        1,
        1,
        1,
        2,
        2,
        3,
        3,
        4,
        5,
        7,
        9,
        11,
        14,
        17,
        21,
        26,
        33,
        41,
        51,
        63,
        78,
        97,
        121,
        150,
        187,
    ];
    let highs: [usize; 32] = [
        1,
        1,
        1,
        1,
        1,
        1,
        1,
        2,
        2,
        2,
        3,
        3,
        4,
        4,
        5,
        7,
        9,
        11,
        14,
        17,
        21,
        26,
        33,
        41,
        51,
        63,
        78,
        97,
        121,
        150,
        187,
        232,
    ];
    (lows[band], highs[band])
}

/// The band centers are strictly increasing in the band index.
pub proof fn lemma_band_centers_strictly_increasing(i: int, j: int)
    requires
        0 <= i < j < crate::NUM_BANDS,
    ensures
        center_millihertz_spec(i) < center_millihertz_spec(j),
{
}

/// Consecutive bands cover adjacent, upward-moving bin ranges: a band's
/// last bin is the next band's first bin wherever the next band starts
/// higher, and the bin interval never moves down.
pub proof fn lemma_band_bins_monotone(i: int, j: int)
    requires
        0 <= i < j < crate::NUM_BANDS,
    ensures
        bin_low_spec(i) <= bin_low_spec(j),
        bin_high_spec(i) <= bin_high_spec(j),
{
}

} // verus!
