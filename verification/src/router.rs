//! Routing of control-change messages to faders: the MIDI-to-percent
//! conversion, the debounce decision, and the mute toggle state of a
//! fader group.
//!
//! The surrounding loop receives messages and spawns the mixer
//! commands; it asks these functions what to do with each message.

use vstd::prelude::*;

verus! {

/// A controller value (0..=127) as a volume percentage, truncated.
pub open spec fn percent_of_midi(v: u8) -> u8 {
    ((v as int) * 100 / 127) as u8
}

/// Converts a 7-bit controller value to a percentage.
pub fn midi_to_percent(value: u8) -> (r: u8)
    ensures
        r == percent_of_midi(value),
        value <= 127 ==> r <= 100,
{
    let wide: u32 = (value as u32) * 100 / 127;
    wide as u8
}

/// Whether a fader movement is applied: a repeated value is dropped,
/// and a changed value is applied once its debounce interval has
/// passed since the last applied change (or immediately when nothing
/// was applied yet).
pub fn should_update_volume(
    last_value: Option<u8>,
    last_time_ms: Option<u64>,
    now_ms: u64,
    debounce_ms: u32,
    percent: u8,
) -> (r: bool)
    requires
        last_time_ms matches Some(t) ==> t <= now_ms,
    ensures
        r == match last_value {
            Some(lv) => if lv == percent {
                false
            } else {
                match last_time_ms {
                    Some(lt) => now_ms - lt >= debounce_ms,
                    None => true,
                }
            },
            None => true,
        },
{
    match last_value {
        Some(lv) => {
            if lv == percent {
                false
            } else {
                match last_time_ms {
                    Some(lt) => now_ms - lt >= debounce_ms as u64,
                    None => true,
                }
            }
        },
        None => true,
    }
}

/// The mute state of one group of faders: current values, mute flags,
/// and the volume each fader held when it was muted.
pub struct FaderBank {
    pub values: Vec<u8>,
    pub muted: Vec<bool>,
    pub muted_volume: Vec<u8>,
}

impl FaderBank {
    /// The three per-fader arrays cover the same faders.
    pub open spec fn well_formed(&self) -> bool {
        &&& self.muted.len() == self.values.len()
        &&& self.muted_volume.len() == self.values.len()
    }

    /// A group of `count` faders, all at zero and unmuted.
    pub fn new(count: usize) -> (r: Self)
        ensures
            r.well_formed(),
            r.values@.len() == count,
            forall|i: int| 0 <= i < count ==> #[trigger] r.values@[i] == 0,
            forall|i: int| 0 <= i < count ==> #[trigger] r.muted@[i] == false,
            forall|i: int| 0 <= i < count ==> #[trigger] r.muted_volume@[i] == 0,
    {
        let mut values: Vec<u8> = Vec::new();
        let mut muted: Vec<bool> = Vec::new();
        let mut muted_volume: Vec<u8> = Vec::new();
        let mut i: usize = 0;
        while i < count
            invariant
                i <= count,
                values@.len() == i,
                muted@.len() == i,
                muted_volume@.len() == i,
                forall|j: int| 0 <= j < i ==> #[trigger] values@[j] == 0,
                forall|j: int| 0 <= j < i ==> #[trigger] muted@[j] == false,
                forall|j: int| 0 <= j < i ==> #[trigger] muted_volume@[j] == 0,
            decreases count - i,
        {
            values.push(0);
            muted.push(false);
            muted_volume.push(0);
            i += 1;
        }
        FaderBank { values, muted, muted_volume }
    }

    /// Sets a fader to the raw controller value the device reported.
    pub fn set_value(&mut self, idx: usize, value: u8)
        requires
            old(self).well_formed(),
            idx < old(self).values@.len(),
        ensures
            final(self).well_formed(),
            final(self).values@ == old(self).values@.update(idx as int, value),
            final(self).muted@ == old(self).muted@,
            final(self).muted_volume@ == old(self).muted_volume@,
    {
        self.values.set(idx, value);
    }

    /// Toggles a fader's mute: muting saves its current value and
    /// drops the fader to zero; unmuting restores the saved value.
    /// Returns whether the fader is now muted and the percentage to
    /// send to the mixer (zero when muting, the restored value's
    /// percentage when unmuting).
    pub fn toggle_mute(&mut self, idx: usize) -> (r: (bool, u8))
        requires
            old(self).well_formed(),
            idx < old(self).values@.len(),
        ensures
            final(self).well_formed(),
            final(self).values@.len() == old(self).values@.len(),
            r.0 == !old(self).muted@[idx as int],
            final(self).muted@ == old(self).muted@.update(idx as int, r.0),
            r.0 ==> final(self).values@ == old(self).values@.update(idx as int, 0u8)
                && final(self).muted_volume@ == old(self).muted_volume@.update(
                idx as int,
                old(self).values@[idx as int],
            ) && r.1 == 0u8,
            !r.0 ==> final(self).values@ == old(self).values@.update(
                idx as int,
                old(self).muted_volume@[idx as int],
            ) && final(self).muted_volume@ == old(self).muted_volume@ && r.1 == percent_of_midi(
                old(self).muted_volume@[idx as int],
            ),
    {
        let was_muted = self.muted[idx];
        if was_muted {
            let previous = self.muted_volume[idx];
            self.values.set(idx, previous);
            self.muted.set(idx, false);
            (false, midi_to_percent(previous))
        } else {
            let current = self.values[idx];
            self.muted_volume.set(idx, current);
            self.values.set(idx, 0);
            self.muted.set(idx, true);
            (true, 0)
        }
    }
}

} // verus!
