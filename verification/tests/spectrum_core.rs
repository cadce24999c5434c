use korg_spectrum::bands::band_bins;
use korg_spectrum::bands::band_center_millihertz;
use korg_spectrum::spectrum::get_monitor_source;
use korg_spectrum::spectrum::hop_action;
use korg_spectrum::spectrum::note_label;
use korg_spectrum::spectrum::AnalyzerControl;
use korg_spectrum::spectrum::HopAction;
use korg_spectrum::spectrum::SpectrumData;
use korg_spectrum::FFT_SIZE;
use korg_spectrum::NUM_BANDS;
use korg_spectrum::SAMPLE_RATE;

#[test]
fn band_centers_strictly_increase() {
    for i in 0..NUM_BANDS - 1 {
        assert!(band_center_millihertz(i) < band_center_millihertz(i + 1));
    }
}

#[test]
fn band_centers_lie_in_audible_range() {
    for i in 0..NUM_BANDS {
        let c = band_center_millihertz(i);
        assert!(c >= 20_000, "band {} center {} below 20 Hz", i, c);
        assert!(c <= 20_000_000, "band {} center {} above 20 kHz", i, c);
    }
}

#[test]
fn band_centers_match_log_interpolation() {
    for i in 0..NUM_BANDS {
        let t = (i as f32 + 0.5) / NUM_BANDS as f32;
        let expected = 20.0f32 * (1000.0f32).powf(t);
        let got = band_center_millihertz(i) as f32 / 1000.0;
        let rel = ((got - expected) / expected).abs();
        assert!(rel < 1e-3, "band {}: {} vs {}", i, got, expected);
    }
}

#[test]
fn band_bins_match_edge_computation() {
    let bin_size = SAMPLE_RATE as f32 / FFT_SIZE as f32;
    let useful_bins = FFT_SIZE / 2;
    for band in 0..NUM_BANDS {
        let t0 = band as f32 / NUM_BANDS as f32;
        let t1 = (band + 1) as f32 / NUM_BANDS as f32;
        let freq_low = 20.0f32 * (1000.0f32).powf(t0);
        let freq_high = 20.0f32 * (1000.0f32).powf(t1);
        let bin_low = ((freq_low / bin_size) as usize).min(useful_bins - 1);
        let bin_high = ((freq_high / bin_size) as usize).min(useful_bins - 1).max(bin_low + 1);
        assert_eq!(band_bins(band), (bin_low, bin_high), "band {}", band);
    }
}

#[test]
fn band_for_one_kilohertz_is_eighteen() {
    let f_low = 20.0f32 * (1000.0f32).powf(18.0 / 32.0);
    let f_high = 20.0f32 * (1000.0f32).powf(19.0 / 32.0);
    assert!(f_low <= 1000.0 && 1000.0 < f_high);
}

#[test]
fn monitor_source_names() {
    assert_eq!(get_monitor_source(""), "@DEFAULT_SINK@.monitor");
    assert_eq!(get_monitor_source("master_sink"), "@DEFAULT_SINK@.monitor");
    assert_eq!(get_monitor_source("comms_sink"), "comms_sink.monitor");
}

#[test]
fn note_labels_render() {
    assert_eq!(note_label(9, 4), "A4");
    assert_eq!(note_label(0, 0), "C0");
    assert_eq!(note_label(1, 3), "C#3");
    assert_eq!(note_label(11, 9), "B9");
}

#[test]
fn hop_actions_follow_flags() {
    assert_eq!(hop_action(true, true), HopAction::Exit);
    assert_eq!(hop_action(true, false), HopAction::Exit);
    assert_eq!(hop_action(false, false), HopAction::Skip);
    assert_eq!(hop_action(false, true), HopAction::Publish);
}

#[test]
fn lifecycle_flags_follow_transitions() {
    let mut control = AnalyzerControl::new();
    assert!(!control.stop_requested);
    assert!(!control.running);
    control.on_start();
    assert!(!control.stop_requested);
    assert!(control.running);
    control.on_stop();
    assert!(control.stop_requested);
    assert!(!control.running);
    control.on_start();
    control.on_open_failure();
    assert!(!control.running);
}

#[test]
fn start_then_stop_reports_not_running() {
    let mut control = AnalyzerControl::new();
    control.on_start();
    control.on_stop();
    assert!(!control.running);
}

#[test]
fn filled_snapshot_covers_all_bands() {
    let data: SpectrumData<f32> = SpectrumData::filled(0.25);
    assert_eq!(data.bands.len(), NUM_BANDS);
    assert_eq!(data.peaks.len(), NUM_BANDS);
    assert_eq!(data.bands_right.len(), NUM_BANDS);
    assert_eq!(data.peaks_right.len(), NUM_BANDS);
    assert!(!data.running);
    assert!(data.bands.iter().all(|&v| v == 0.25));
    assert!(data.peaks_right.iter().all(|&v| v == 0.25));
}

#[test]
fn snapshot_copies_are_equal() {
    let mut data: SpectrumData<f32> = SpectrumData::filled(0.0);
    data.bands[3] = 0.5;
    data.peaks[3] = 0.9;
    data.running = true;
    let copy = data.duplicate();
    assert_eq!(copy.bands, data.bands);
    assert_eq!(copy.peaks, data.peaks);
    assert_eq!(copy.bands_right, data.bands_right);
    assert_eq!(copy.peaks_right, data.peaks_right);
    assert_eq!(copy.running, data.running);
}
