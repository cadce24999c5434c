//! The analyzer's published snapshot, its lifecycle decisions, and the
//! pure helpers around the capture loop.
//!
//! The capture loop itself performs blocking device reads and runs on a
//! thread of its own; it consults `AnalyzerControl` and `hop_action`
//! for every decision it takes, and publishes a `SpectrumData` snapshot
//! each hop.

use vstd::prelude::*;
use vstd::string::StringExecFns;
use crate::textutil::str_eq;

verus! {

/// One published analyzer snapshot: per-band magnitudes and peak-hold
/// values for both channels, and whether the analyzer is producing
/// data.  Consumers copy it out; the producer replaces it wholesale.
pub struct SpectrumData<T> {
    pub bands: Vec<T>,
    pub peaks: Vec<T>,
    pub bands_right: Vec<T>,
    pub peaks_right: Vec<T>,
    pub running: bool,
}

impl<T: Copy> SpectrumData<T> {
    /// Every per-band vector covers exactly the display bands.
    pub open spec fn well_formed(&self) -> bool {
        &&& self.bands.len() == crate::NUM_BANDS
        &&& self.peaks.len() == crate::NUM_BANDS
        &&& self.bands_right.len() == crate::NUM_BANDS
        &&& self.peaks_right.len() == crate::NUM_BANDS
    }

    /// The initial snapshot: every band and peak holds `fill`, and the
    /// analyzer is not running.
    pub fn filled(fill: T) -> (r: Self)
        ensures
            r.well_formed(),
            !r.running,
            forall|i: int| 0 <= i < crate::NUM_BANDS ==> #[trigger] r.bands@[i] == fill,
            forall|i: int| 0 <= i < crate::NUM_BANDS ==> #[trigger] r.peaks@[i] == fill,
            forall|i: int| 0 <= i < crate::NUM_BANDS ==> #[trigger] r.bands_right@[i] == fill,
            forall|i: int| 0 <= i < crate::NUM_BANDS ==> #[trigger] r.peaks_right@[i] == fill,
    {
        SpectrumData {
            bands: filled_bands(fill),
            peaks: filled_bands(fill),
            bands_right: filled_bands(fill),
            peaks_right: filled_bands(fill),
            running: false,
        }
    }

    /// A value copy of the snapshot, as consumers take it out from
    /// under the lock.
    pub fn duplicate(&self) -> (r: Self)
        ensures
            r.bands@ == self.bands@,
            r.peaks@ == self.peaks@,
            r.bands_right@ == self.bands_right@,
            r.peaks_right@ == self.peaks_right@,
            r.running == self.running,
    {
        SpectrumData {
            bands: copy_samples(&self.bands),
            peaks: copy_samples(&self.peaks),
            bands_right: copy_samples(&self.bands_right),
            peaks_right: copy_samples(&self.peaks_right),
            running: self.running,
        }
    }
}

fn copy_samples<T: Copy>(v: &Vec<T>) -> (r: Vec<T>)
    ensures
        r@ == v@,
{
    let mut r: Vec<T> = Vec::new();
    let n = v.len();
    let mut i: usize = 0;
    while i < n
        invariant
            i <= n,
            n == v@.len(),
            r@ =~= v@.take(i as int),
        decreases n - i,
    {
        r.push(v[i]);
        proof {
            assert(r@ =~= v@.take(i + 1));
        }
        i += 1;
    }
    proof {
        assert(v@.take(n as int) =~= v@);
    }
    r
}

fn filled_bands<T: Copy>(fill: T) -> (r: Vec<T>)
    ensures
        r.len() == crate::NUM_BANDS,
        forall|i: int| 0 <= i < crate::NUM_BANDS ==> #[trigger] r@[i] == fill,
{
    let mut r: Vec<T> = Vec::new();
    let mut i: usize = 0;
    while i < crate::NUM_BANDS
        invariant
            i <= crate::NUM_BANDS,
            r@.len() == i,
            forall|j: int| 0 <= j < i ==> #[trigger] r@[j] == fill,
        decreases crate::NUM_BANDS - i,
    {
        r.push(fill);
        i += 1;
    }
    r
}

/// What the capture loop does with one hop iteration.
#[derive(Debug, Clone, Copy, PartialEq, Eq, Structural)]
pub enum HopAction {
    /// Stop was requested: leave the loop.
    Exit,
    /// The read failed transiently: skip this hop and try the next.
    Skip,
    /// The hop was read: transform it and publish a new snapshot.
    Publish,
}

/// The per-hop decision of the capture loop: a requested stop wins,
/// a failed read only skips the hop, and a good read is published.
pub fn hop_action(stop_requested: bool, read_ok: bool) -> (r: HopAction)
    ensures
        stop_requested ==> r == HopAction::Exit,
        !stop_requested && !read_ok ==> r == HopAction::Skip,
        !stop_requested && read_ok ==> r == HopAction::Publish,
{
    if stop_requested {
        HopAction::Exit
    } else if read_ok {
        HopAction::Publish
    } else {
        HopAction::Skip
    }
}

/// The shared control state between the analyzer owner and its capture
/// loop: the cooperative stop flag and the published running flag.
pub struct AnalyzerControl {
    pub stop_requested: bool,
    pub running: bool,
}

impl AnalyzerControl {
    /// Initial state: stopped, nothing requested.
    pub fn new() -> (r: Self)
        ensures
            !r.stop_requested,
            !r.running,
    {
        AnalyzerControl { stop_requested: false, running: false }
    }

    /// Starting (or restarting) the analyzer: any previous stop request
    /// is cleared and the snapshot is marked running.  The owner joins
    /// the previous capture thread before this, so at most one capture
    /// thread is ever live.
    pub fn on_start(&mut self)
        ensures
            !final(self).stop_requested,
            final(self).running,
    {
        self.stop_requested = false;
        self.running = true;
    }

    /// Stopping the analyzer: the stop flag is raised for the capture
    /// loop and the published state stops claiming to run.  After this
    /// the owner joins the thread, so a consumer that asks later sees
    /// `running == false`.
    pub fn on_stop(&mut self)
        ensures
            final(self).stop_requested,
            !final(self).running,
    {
        self.stop_requested = true;
        self.running = false;
    }

    /// The capture source could not be opened: the loop exits at once
    /// and the snapshot stops claiming to run; no retry is attempted.
    pub fn on_open_failure(&mut self)
        ensures
            !final(self).running,
            final(self).stop_requested == old(self).stop_requested,
    {
        self.running = false;
    }
}

/// The monitor source name for `sink_name`: the default sink's monitor
/// for the master placeholder or an empty name, and the sink's own
/// monitor otherwise.
pub open spec fn monitor_source_spec(s: Seq<char>) -> Seq<char> {
    if s == "master_sink"@ || s.len() == 0 {
        "@DEFAULT_SINK@.monitor"@
    } else {
        s + ".monitor"@
    }
}

/// The capture endpoint to open for a sink.
pub fn get_monitor_source(sink_name: &str) -> (r: String)
    ensures
        r@ == monitor_source_spec(sink_name@),
{
    if str_eq(sink_name, "master_sink") || sink_name.unicode_len() == 0 {
        String::from_str("@DEFAULT_SINK@.monitor")
    } else {
        String::from_str(sink_name).concat(".monitor")
    }
}

/// The note names of the twelve semitones of an octave, starting at C.
pub open spec fn semitone_name_spec(i: int) -> Seq<char> {
    if i == 0 {
        "C"@
    } else if i == 1 {
        "C#"@
    } else if i == 2 {
        "D"@
    } else if i == 3 {
        "D#"@
    } else if i == 4 {
        "E"@
    } else if i == 5 {
        "F"@
    } else if i == 6 {
        "F#"@
    } else if i == 7 {
        "G"@
    } else if i == 8 {
        "G#"@
    } else if i == 9 {
        "A"@
    } else if i == 10 {
        "A#"@
    } else {
        "B"@
    }
}

/// The axis label for a note: its semitone name followed by its octave
/// number, as in `A4`.
pub fn note_label(semitone: usize, octave: u32) -> (r: String)
    requires
        semitone < 12,
        octave < 10,
    ensures
        r@ == semitone_name_spec(semitone as int) + crate::numerals::dec_rep(octave as nat),
{
    let name = if semitone == 0 {
        "C"
    } else if semitone == 1 {
        "C#"
    } else if semitone == 2 {
        "D"
    } else if semitone == 3 {
        "D#"
    } else if semitone == 4 {
        "E"
    } else if semitone == 5 {
        "F"
    } else if semitone == 6 {
        "F#"
    } else if semitone == 7 {
        "G"
    } else if semitone == 8 {
        "G#"
    } else if semitone == 9 {
        "A"
    } else if semitone == 10 {
        "A#"
    } else {
        "B"
    };
    proof {
        assert(name@ == semitone_name_spec(semitone as int));
    }
    String::from_str(name).concat(crate::numerals::dec_u32(octave).as_str())
}

} // verus!
