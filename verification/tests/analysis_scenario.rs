use korg_spectrum::bands::band_bins;
use korg_spectrum::rings::ChannelRings;
use korg_spectrum::FFT_SIZE;
use korg_spectrum::HOP_SIZE;
use korg_spectrum::NUM_BANDS;
use korg_spectrum::SAMPLE_RATE;
use rustfft::num_complex::Complex;
use rustfft::FftPlanner;

// The numeric half of the band calculation: Hann window, forward FFT,
// and the dB normalization over the library's bin table.
fn bands_from_samples(samples: &[f32]) -> Vec<f32> {
    let mut planner: FftPlanner<f32> = FftPlanner::new();
    let fft = planner.plan_fft_forward(FFT_SIZE);
    let mut buf: Vec<Complex<f32>> = (0..FFT_SIZE)
        .map(|i| {
            let phase = 2.0 * std::f32::consts::PI * i as f32 / (FFT_SIZE - 1) as f32;
            let w = 0.5 * (1.0 - phase.cos());
            Complex::new(samples[i] * w, 0.0)
        })
        .collect();
    fft.process(&mut buf);
    let useful_bins = FFT_SIZE / 2;
    let mut bands = vec![0.0f32; NUM_BANDS];
    for band in 0..NUM_BANDS {
        let (bin_low, bin_high) = band_bins(band);
        let mut sum = 0.0f32;
        let mut count = 0u32;
        for bin in bin_low..=bin_high {
            if bin < useful_bins {
                sum += buf[bin].norm();
                count += 1;
            }
        }
        if count > 0 {
            let avg = sum / count as f32;
            let db = 20.0 * (avg + 1e-10).log10();
            bands[band] = ((db + 60.0) / 60.0).clamp(0.0, 1.0);
        }
    }
    bands
}

#[test]
fn one_kilohertz_sine_peaks_in_its_band() {
    let mut rings: ChannelRings<f32> = ChannelRings::new(0.0);
    let mut t = 0usize;
    for _ in 0..4 {
        let mut frames = Vec::new();
        for _ in 0..HOP_SIZE {
            let sample =
                (2.0 * std::f32::consts::PI * 1000.0 * t as f32 / SAMPLE_RATE as f32).sin();
            frames.push(sample);
            frames.push(sample);
            t += 1;
        }
        rings.push_hop_interleaved(&frames);
    }
    let samples = rings.read_left();
    let bands = bands_from_samples(&samples);
    // 1 kHz lies in the band whose edge interval contains it.
    let f_low = 20.0f32 * (1000.0f32).powf(18.0 / 32.0);
    let f_high = 20.0f32 * (1000.0f32).powf(19.0 / 32.0);
    assert!(f_low <= 1000.0 && 1000.0 < f_high);
    let peak = bands[18];
    assert!(peak > 0.0);
    for (band, &value) in bands.iter().enumerate() {
        let center = 20.0f32 * (1000.0f32).powf((band as f32 + 0.5) / 32.0);
        if center < 200.0 || center > 5000.0 {
            assert!(
                peak > value,
                "band {} ({} Hz) reads {} against the 1 kHz band's {}",
                band,
                center,
                value,
                peak
            );
        }
    }
}

#[test]
fn silence_reads_zero_in_every_band() {
    let mut rings: ChannelRings<f32> = ChannelRings::new(0.0);
    for _ in 0..4 {
        rings.push_hop_interleaved(&vec![0.0f32; 2 * HOP_SIZE]);
    }
    let bands = bands_from_samples(&rings.read_left());
    for (band, &value) in bands.iter().enumerate() {
        assert_eq!(value, 0.0, "band {}", band);
    }
}

