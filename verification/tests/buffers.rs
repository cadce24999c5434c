use korg_spectrum::rings::ChannelRings;
use korg_spectrum::waterfall::WaterfallHistory;
use korg_spectrum::FFT_SIZE;
use korg_spectrum::HOP_SIZE;
use korg_spectrum::NUM_BANDS;
use korg_spectrum::WATERFALL_HISTORY;

fn hop_frames(start: usize) -> Vec<f32> {
    // Interleaved stereo: left carries the index, right its negative.
    let mut frames = Vec::new();
    for k in 0..HOP_SIZE {
        frames.push((start + k) as f32);
        frames.push(-((start + k) as f32));
    }
    frames
}

#[test]
fn rings_start_zeroed() {
    let rings: ChannelRings<f32> = ChannelRings::new(0.0);
    assert_eq!(rings.read_left(), vec![0.0f32; FFT_SIZE]);
    assert_eq!(rings.read_right(), vec![0.0f32; FFT_SIZE]);
}

#[test]
fn rings_hold_most_recent_samples_in_order() {
    let mut rings: ChannelRings<f32> = ChannelRings::new(0.0);
    // Five hops of 128 samples: 640 samples, so the oldest 128 fell out.
    for hop in 0..5 {
        rings.push_hop_interleaved(&hop_frames(hop * HOP_SIZE));
    }
    let left = rings.read_left();
    let right = rings.read_right();
    assert_eq!(left.len(), FFT_SIZE);
    for i in 0..FFT_SIZE {
        let expected = (640 - FFT_SIZE + i) as f32;
        assert_eq!(left[i], expected, "left sample {}", i);
        assert_eq!(right[i], -expected, "right sample {}", i);
    }
}

#[test]
fn rings_partial_fill_keeps_zero_prefix() {
    let mut rings: ChannelRings<f32> = ChannelRings::new(0.0);
    rings.push_hop_interleaved(&hop_frames(0));
    let left = rings.read_left();
    for i in 0..FFT_SIZE - HOP_SIZE {
        assert_eq!(left[i], 0.0);
    }
    for i in 0..HOP_SIZE {
        assert_eq!(left[FFT_SIZE - HOP_SIZE + i], i as f32);
    }
}

#[test]
fn waterfall_position_wraps_modulo_length() {
    let mut wf: WaterfallHistory<f32> = WaterfallHistory::new(0.0);
    assert_eq!(wf.pos, 0);
    for k in 0..300usize {
        assert_eq!(wf.pos, k % WATERFALL_HISTORY, "position before update {}", k);
        wf.push_row(vec![k as f32; NUM_BANDS]);
        assert_eq!(wf.pos, (k + 1) % WATERFALL_HISTORY, "position after update {}", k);
    }
}

#[test]
fn waterfall_row_lands_at_update_index() {
    let mut wf: WaterfallHistory<f32> = WaterfallHistory::new(0.0);
    for k in 0..200usize {
        wf.push_row(vec![k as f32; NUM_BANDS]);
        assert_eq!(wf.rows[k % WATERFALL_HISTORY][0], k as f32, "row written at update {}", k);
    }
}

#[test]
fn waterfall_ages_read_oldest_first() {
    let mut wf: WaterfallHistory<f32> = WaterfallHistory::new(0.0);
    for k in 0..WATERFALL_HISTORY + 10 {
        wf.push_row(vec![k as f32; NUM_BANDS]);
    }
    // The newest row has the highest age index.
    let newest = wf.row_at(WATERFALL_HISTORY - 1);
    assert_eq!(newest[0], (WATERFALL_HISTORY + 9) as f32);
    let oldest = wf.row_at(0);
    assert_eq!(oldest[0], 10.0);
}
