//! Configuration of the controller: which MIDI continuous controllers
//! drive which audio sinks and applications, which buttons mute which
//! fader, and the audio, UI and logging settings.
//!
//! Mapping entries are keyed by strings of the form `cc_N`; entries
//! whose key does not parse that way are ignored.  The entry lists
//! keep their file order, and later entries win on a repeated
//! controller number.

use vstd::prelude::*;
use vstd::string::StringExecFns;
use std::collections::HashMap;
use crate::numerals::parse_u8_spec;
use crate::numerals::parse_u8_chars;
use crate::sorting::sort_by_key_spec;
use crate::sorting::insert_sorted;
use crate::sorting::lemma_insert_sorted_at;
use crate::textutil::trim_spec;
use crate::textutil::trim_string;
use crate::textutil::str_chars;

verus! {

broadcast use vstd::std_specs::hash::group_hash_axioms;

/// The MIDI control tables: fader keys (`cc_N`) to sink names, fader
/// keys to application names, and mute-button keys to the controller
/// number of the fader they mute.
#[derive(Clone, Debug)]
pub struct MidiControlsConfig {
    pub sinks: Vec<(String, String)>,
    pub applications: Vec<(String, String)>,
    pub mute_buttons: Vec<(String, u8)>,
}

/// Audio backend settings.
#[derive(Clone, Debug)]
pub struct AudioConfig {
    pub use_pipewire: Option<bool>,
    pub default_sink: Option<String>,
    pub volume_control_mode: Option<String>,
    pub volume_curve: Option<String>,
    pub debounce_ms: Option<u32>,
    pub applications_sink_search: Option<u64>,
}

/// Window and console settings.
#[derive(Clone, Debug)]
pub struct UiConfig {
    pub window_width: Option<u32>,
    pub window_height: Option<u32>,
    pub theme: Option<String>,
    pub show_console: Option<bool>,
    pub max_console_lines: Option<usize>,
}

/// Logging settings.
#[derive(Clone, Debug)]
pub struct LoggingConfig {
    pub enabled: Option<bool>,
    pub log_level: Option<String>,
    pub timestamps: Option<bool>,
    pub log_fader_events: Option<bool>,
    pub log_device_info: Option<bool>,
}

/// The whole configuration.
#[derive(Clone, Debug)]
pub struct Config {
    pub midi_controls: MidiControlsConfig,
    pub audio: AudioConfig,
    pub ui: UiConfig,
    pub logging: LoggingConfig,
}

/// The controller number of a mapping key: `cc_` followed by a `u8`
/// numeral.
pub open spec fn cc_key_spec(s: Seq<char>) -> Option<u8> {
    if s.len() >= 3 && s[0] == 'c' && s[1] == 'c' && s[2] == '_' {
        parse_u8_spec(s.subrange(3, s.len() as int))
    } else {
        None
    }
}

/// Parses a mapping key of the form `cc_N`.
pub fn parse_cc_key(key: &str) -> (r: Option<u8>)
    ensures
        r == cc_key_spec(key@),
{
    let chars = str_chars(key);
    let n = chars.len();
    if n < 3 || chars[0] != 'c' || chars[1] != 'c' || chars[2] != '_' {
        return None;
    }
    let mut rest: Vec<char> = Vec::new();
    let mut i: usize = 3;
    while i < n
        invariant
            3 <= i <= n,
            n == chars@.len(),
            rest@ =~= chars@.subrange(3, i as int),
        decreases n - i,
    {
        rest.push(chars[i]);
        proof {
            assert(rest@ =~= chars@.subrange(3, i + 1));
        }
        i += 1;
    }
    parse_u8_chars(&rest)
}

/// The trimmed target of the last entry whose key names controller
/// `cc`, if any.
pub open spec fn lookup_in(entries: Seq<(String, String)>, cc: u8) -> Option<Seq<char>>
    decreases entries.len(),
{
    if entries.len() == 0 {
        None
    } else if cc_key_spec(entries.last().0@) == Some(cc) {
        Some(trim_spec(entries.last().1@))
    } else {
        lookup_in(entries.drop_last(), cc)
    }
}

/// The audio target controller `cc` drives: an application entry if one
/// names it, else a sink entry.
pub open spec fn cc_value_spec(mc: &MidiControlsConfig, cc: u8) -> Option<Seq<char>> {
    match lookup_in(mc.applications@, cc) {
        Some(v) => Some(v),
        None => lookup_in(mc.sinks@, cc),
    }
}

/// The mute-button table as a map, later entries winning.
pub open spec fn mute_map_spec(entries: Seq<(String, u8)>) -> Map<u8, u8>
    decreases entries.len(),
{
    if entries.len() == 0 {
        Map::empty()
    } else {
        let m = mute_map_spec(entries.drop_last());
        match cc_key_spec(entries.last().0@) {
            Some(c) => m.insert(c, entries.last().1),
            None => m,
        }
    }
}

/// The parsed fader entries of a table, in table order: controller
/// number and trimmed target name.
pub open spec fn parsed_labels(entries: Seq<(String, String)>) -> Seq<(u8, Seq<char>)>
    decreases entries.len(),
{
    if entries.len() == 0 {
        Seq::empty()
    } else {
        let rest = parsed_labels(entries.drop_last());
        match cc_key_spec(entries.last().0@) {
            Some(c) => rest.push((c, trim_spec(entries.last().1@))),
            None => rest,
        }
    }
}

/// The key a fader label sorts under: its controller number.
pub open spec fn label_key() -> spec_fn((u8, Seq<char>)) -> int {
    |p: (u8, Seq<char>)| p.0 as int
}

/// The parsed fader entries of a table, ordered by controller number.
pub open spec fn sorted_labels(entries: Seq<(String, String)>) -> Seq<(u8, Seq<char>)> {
    sort_by_key_spec(parsed_labels(entries), label_key())
}

impl Config {
    /// The controller-to-target table: every controller named by a
    /// well-formed sink or application entry, mapped to its trimmed
    /// target, application entries winning over sink entries.
    pub fn get_cc_mapping(&self) -> (r: HashMap<u8, String>)
        ensures
            forall|cc: u8| #[trigger]
                r@.contains_key(cc) ==> cc_value_spec(&self.midi_controls, cc) == Some(r@[cc]@),
            forall|cc: u8|
                (#[trigger] cc_value_spec(&self.midi_controls, cc)) is Some ==> r@.contains_key(
                    cc,
                ),
    {
        let mut mapping: HashMap<u8, String> = HashMap::new();
        let sinks = &self.midi_controls.sinks;
        let n = sinks.len();
        let mut i: usize = 0;
        while i < n
            invariant
                i <= n,
                n == sinks@.len(),
                forall|cc: u8| #[trigger]
                    mapping@.contains_key(cc) ==> lookup_in(sinks@.take(i as int), cc) == Some(
                        mapping@[cc]@,
                    ),
                forall|cc: u8|
                    (#[trigger] lookup_in(sinks@.take(i as int), cc)) is Some
                        ==> mapping@.contains_key(cc),
            decreases n - i,
        {
            let entry = &sinks[i];
            let parsed = parse_cc_key(entry.0.as_str());
            if let Some(cc) = parsed {
                let value = trim_string(entry.1.as_str());
                mapping.insert(cc, value);
            }
            proof {
                let pre = sinks@.take(i as int);
                let post = sinks@.take(i + 1);
                assert(post.drop_last() =~= pre);
                assert(post.last() == sinks@[i as int]);
                assert forall|cc: u8| #[trigger]
                    mapping@.contains_key(cc) implies lookup_in(post, cc) == Some(
                    mapping@[cc]@,
                ) by {
                    assert(lookup_in(post.drop_last(), cc) == lookup_in(pre, cc));
                }
                assert forall|cc: u8|
                    (#[trigger] lookup_in(post, cc)) is Some implies mapping@.contains_key(cc) by {
                    assert(lookup_in(post.drop_last(), cc) == lookup_in(pre, cc));
                }
            }
            i += 1;
        }
        proof {
            assert(sinks@.take(n as int) =~= sinks@);
            assert forall|cc: u8| #[trigger]
                mapping@.contains_key(cc) implies lookup_in(sinks@, cc) == Some(mapping@[cc]@) by {
                assert(lookup_in(sinks@.take(n as int), cc) == lookup_in(sinks@, cc));
            }
            assert forall|cc: u8|
                (#[trigger] lookup_in(sinks@, cc)) is Some implies mapping@.contains_key(cc) by {
                assert(lookup_in(sinks@.take(n as int), cc) == lookup_in(sinks@, cc));
            }
        }
        let apps = &self.midi_controls.applications;
        let m = apps.len();
        let mut j: usize = 0;
        while j < m
            invariant
                j <= m,
                m == apps@.len(),
                forall|cc: u8| #[trigger]
                    mapping@.contains_key(cc) ==> combined_lookup(
                        sinks@,
                        apps@.take(j as int),
                        cc,
                    ) == Some(mapping@[cc]@),
                forall|cc: u8|
                    (#[trigger] combined_lookup(sinks@, apps@.take(j as int), cc)) is Some
                        ==> mapping@.contains_key(cc),
            decreases m - j,
        {
            let entry = &apps[j];
            let parsed = parse_cc_key(entry.0.as_str());
            if let Some(cc) = parsed {
                let value = trim_string(entry.1.as_str());
                mapping.insert(cc, value);
            }
            proof {
                let pre = apps@.take(j as int);
                let post = apps@.take(j + 1);
                assert(post.drop_last() =~= pre);
                assert(post.last() == apps@[j as int]);
                assert forall|cc: u8| #[trigger]
                    mapping@.contains_key(cc) implies combined_lookup(sinks@, post, cc) == Some(
                    mapping@[cc]@,
                ) by {
                    assert(lookup_in(post.drop_last(), cc) == lookup_in(pre, cc));
                    assert(combined_lookup(sinks@, pre, cc) == combined_lookup(
                        sinks@,
                        apps@.take(j as int),
                        cc,
                    ));
                }
                assert forall|cc: u8|
                    (#[trigger] combined_lookup(sinks@, post, cc)) is Some
                    implies mapping@.contains_key(cc) by {
                    assert(lookup_in(post.drop_last(), cc) == lookup_in(pre, cc));
                    assert(combined_lookup(sinks@, pre, cc) == combined_lookup(
                        sinks@,
                        apps@.take(j as int),
                        cc,
                    ));
                }
            }
            j += 1;
        }
        proof {
            assert(apps@.take(m as int) =~= apps@);
            assert forall|cc: u8|
                (#[trigger] cc_value_spec(&self.midi_controls, cc)) is Some
                implies mapping@.contains_key(cc) by {
                assert(combined_lookup(sinks@, apps@, cc) == cc_value_spec(
                    &self.midi_controls,
                    cc,
                ));
            }
            assert forall|cc: u8| #[trigger]
                mapping@.contains_key(cc) implies cc_value_spec(&self.midi_controls, cc) == Some(
                mapping@[cc]@,
            ) by {
                assert(combined_lookup(sinks@, apps@, cc) == cc_value_spec(
                    &self.midi_controls,
                    cc,
                ));
            }
        }
        mapping
    }

    /// The sink fader entries, ordered by controller number.
    pub fn get_sink_labels(&self) -> (r: Vec<(u8, String)>)
        ensures
            r@.len() == sorted_labels(self.midi_controls.sinks@).len(),
            forall|t: int|
                0 <= t < r@.len() ==> (#[trigger] r@[t]).0 == sorted_labels(
                    self.midi_controls.sinks@,
                )[t].0 && r@[t].1@ == sorted_labels(self.midi_controls.sinks@)[t].1,
    {
        sorted_label_vec(&self.midi_controls.sinks)
    }

    /// The application fader entries, ordered by controller number.
    pub fn get_app_labels(&self) -> (r: Vec<(u8, String)>)
        ensures
            r@.len() == sorted_labels(self.midi_controls.applications@).len(),
            forall|t: int|
                0 <= t < r@.len() ==> (#[trigger] r@[t]).0 == sorted_labels(
                    self.midi_controls.applications@,
                )[t].0 && r@[t].1@ == sorted_labels(self.midi_controls.applications@)[t].1,
    {
        sorted_label_vec(&self.midi_controls.applications)
    }

    /// The mute-button table: each well-formed `cc_N` button key mapped
    /// to the controller number of the fader it mutes.
    pub fn get_mute_button_mappings(&self) -> (r: HashMap<u8, u8>)
        ensures
            r@ == mute_map_spec(self.midi_controls.mute_buttons@),
    {
        let entries = &self.midi_controls.mute_buttons;
        let n = entries.len();
        let mut mappings: HashMap<u8, u8> = HashMap::new();
        let mut i: usize = 0;
        while i < n
            invariant
                i <= n,
                n == entries@.len(),
                mappings@ == mute_map_spec(entries@.take(i as int)),
            decreases n - i,
        {
            let entry = &entries[i];
            let parsed = parse_cc_key(entry.0.as_str());
            proof {
                assert(entries@.take(i + 1).drop_last() =~= entries@.take(i as int));
                assert(entries@.take(i + 1).last() == entries@[i as int]);
            }
            if let Some(cc) = parsed {
                mappings.insert(cc, entry.1);
            }
            i += 1;
        }
        proof {
            assert(entries@.take(n as int) =~= entries@);
        }
        mappings
    }
}

/// The sort key of a raw table entry in the rendered file: its parsed
/// controller number, with unparseable keys sorting last.
pub open spec fn entry_order(k: Seq<char>) -> int {
    match cc_key_spec(k) {
        Some(v) => v as int,
        None => 255,
    }
}

/// `entry_order` over string-valued entries.
pub open spec fn toml_key() -> spec_fn((Seq<char>, Seq<char>)) -> int {
    |p: (Seq<char>, Seq<char>)| entry_order(p.0)
}

/// `entry_order` over mute-button entries.
pub open spec fn mute_key() -> spec_fn((Seq<char>, u8)) -> int {
    |p: (Seq<char>, u8)| entry_order(p.0)
}

/// The views of a string-valued entry table.
pub open spec fn entry_views(entries: Seq<(String, String)>) -> Seq<(Seq<char>, Seq<char>)> {
    Seq::new(entries.len(), |i: int| (entries[i].0@, entries[i].1@))
}

/// The views of the mute-button table.
pub open spec fn mute_views(entries: Seq<(String, u8)>) -> Seq<(Seq<char>, u8)> {
    Seq::new(entries.len(), |i: int| (entries[i].0@, entries[i].1))
}

/// One `key = "value"` line per entry.
pub open spec fn quoted_lines(s: Seq<(Seq<char>, Seq<char>)>) -> Seq<char>
    decreases s.len(),
{
    if s.len() == 0 {
        Seq::empty()
    } else {
        quoted_lines(s.drop_last()) + s.last().0 + " = \""@ + s.last().1 + "\"\n"@
    }
}

/// One `key = value` line per mute-button entry.
pub open spec fn mute_lines(s: Seq<(Seq<char>, u8)>) -> Seq<char>
    decreases s.len(),
{
    if s.len() == 0 {
        Seq::empty()
    } else {
        mute_lines(s.drop_last()) + s.last().0 + " = "@ + crate::numerals::dec_rep(
            s.last().1 as nat,
        ) + "\n"@
    }
}

/// How a boolean renders in the file.
pub open spec fn bool_seq(b: bool) -> Seq<char> {
    if b {
        "true"@
    } else {
        "false"@
    }
}

/// An application entry overrides a sink entry for the same controller.
pub open spec fn combined_lookup(
    sinks: Seq<(String, String)>,
    apps: Seq<(String, String)>,
    cc: u8,
) -> Option<Seq<char>> {
    match lookup_in(apps, cc) {
        Some(v) => Some(v),
        None => lookup_in(sinks, cc),
    }
}

/// The `[midi_controls.*]` part of the rendered file.
pub open spec fn controls_doc(mc: &MidiControlsConfig) -> Seq<char> {
    "# nanoKontrol2 MIDI Volume Controller Configuration\n"@
        + "# This file allows you to customize MIDI CC to audio target mappings\n\n"@
        + "[midi_controls.sinks]\n"@ + "# Map MIDI CC numbers to audio sinks (faders)\n"@
        + "# Use CC numbers 0-31 for sink volume controls\n"@ + quoted_lines(
        sort_by_key_spec(entry_views(mc.sinks@), toml_key()),
    ) + "\n"@ + "[midi_controls.applications]\n"@ + "# Map MIDI CC numbers to application names\n"@
        + "# Use CC numbers 32-63 or 16-31 for app volume controls\n"@ + quoted_lines(
        sort_by_key_spec(entry_views(mc.applications@), toml_key()),
    ) + "\n"@ + "[midi_controls.mute_buttons]\n"@
        + "# Map mute button CC numbers to the CC number of the fader they should mute\n"@
        + "# Format: cc_BUTTON_CC = FADER_CC_NUMBER (where FADER_CC_NUMBER is an integer)\n"@
        + "# Example: cc_64 = 0 means CC64 button mutes the CC0 fader\n"@ + mute_lines(
        sort_by_key_spec(mute_views(mc.mute_buttons@), mute_key()),
    ) + "\n"@
}

/// An optional `label = value` boolean line.
pub open spec fn bool_item(label: Seq<char>, o: Option<bool>) -> Seq<char> {
    match o {
        Some(b) => label + bool_seq(b) + "\n"@,
        None => Seq::empty(),
    }
}

/// An optional quoted string line, `close` holding the closing quote
/// and anything after it.
pub open spec fn string_item(label: Seq<char>, o: Option<String>, close: Seq<char>) -> Seq<char> {
    match o {
        Some(v) => label + v@ + close,
        None => Seq::empty(),
    }
}

/// An optional numeric line.
pub open spec fn u32_item(label: Seq<char>, o: Option<u32>) -> Seq<char> {
    match o {
        Some(n) => label + crate::numerals::dec_rep(n as nat) + "\n"@,
        None => Seq::empty(),
    }
}

/// An optional numeric line.
pub open spec fn u64_item(label: Seq<char>, o: Option<u64>) -> Seq<char> {
    match o {
        Some(n) => label + crate::numerals::dec_rep(n as nat) + "\n"@,
        None => Seq::empty(),
    }
}

/// An optional numeric line.
pub open spec fn usize_item(label: Seq<char>, o: Option<usize>) -> Seq<char> {
    match o {
        Some(n) => label + crate::numerals::dec_rep(n as nat) + "\n"@,
        None => Seq::empty(),
    }
}

/// The `[audio]` part of the rendered file.
pub open spec fn audio_doc(a: &AudioConfig) -> Seq<char> {
    "[audio]\n"@ + "# PipeWire settings\n"@ + bool_item("use_pipewire = "@, a.use_pipewire)
        + string_item("default_sink = \""@, a.default_sink, "\"\n"@) + "\n"@
        + "# Volume control mode:\n"@
        + "# \"pw-volume\"     - Use pw-volume command (default, simple)\n"@
        + "# \"pipewire-api\"  - Use PipeWire Rust API (requires libpipewire-dev)\n"@
        + string_item("volume_control_mode = \""@, a.volume_control_mode, "\"\n"@) + "\n"@
        + "# Volume curve (linear/exponential)\n"@
        + string_item("volume_curve = \""@, a.volume_curve, "\"\n"@) + "\n"@
        + "# Debounce MIDI events (ms) to prevent excessive updates and phantom inputs\n"@
        + u32_item("debounce_ms = "@, a.debounce_ms) + "\n"@
        + "# Interval in seconds to search for application audio sinks\n"@
        + u64_item("applications_sink_search = "@, a.applications_sink_search) + "\n"@
}

/// The `[ui]` part of the rendered file.
pub open spec fn ui_doc(u: &UiConfig) -> Seq<char> {
    "[ui]\n"@ + "# UI settings\n"@ + u32_item("window_width = "@, u.window_width) + u32_item(
        "window_height = "@,
        u.window_height,
    ) + string_item("theme = \""@, u.theme, "\"  # default, dark, light\n"@) + "\n"@
        + "# Show console by default\n"@ + bool_item("show_console = "@, u.show_console) + "\n"@
        + "# Max console messages to keep\n"@ + usize_item(
        "max_console_lines = "@,
        u.max_console_lines,
    ) + "\n"@
}

/// The `[logging]` part of the rendered file.
pub open spec fn logging_doc(l: &LoggingConfig) -> Seq<char> {
    "[logging]\n"@ + "# Enable or disable logging globally\n"@ + bool_item(
        "enabled = "@,
        l.enabled,
    ) + "\n"@ + "# Log level: off, error, warn, info, debug, trace\n"@ + string_item(
        "log_level = \""@,
        l.log_level,
        "\"\n"@,
    ) + "\n"@ + "# Show timestamps in console\n"@ + bool_item("timestamps = "@, l.timestamps)
        + "\n"@ + "# Show fader movements in console\n"@ + bool_item(
        "log_fader_events = "@,
        l.log_fader_events,
    ) + "\n"@ + "# Show MIDI device info at startup\n"@ + bool_item(
        "log_device_info = "@,
        l.log_device_info,
    )
}

/// The whole rendered configuration file.
pub open spec fn toml_doc_spec(c: &Config) -> Seq<char> {
    controls_doc(&c.midi_controls) + audio_doc(&c.audio) + ui_doc(&c.ui) + logging_doc(&c.logging)
}

fn bool_str(b: bool) -> (r: &'static str)
    ensures
        r@ == bool_seq(b),
{
    if b {
        "true"
    } else {
        "false"
    }
}

fn sorted_label_vec(entries: &Vec<(String, String)>) -> (r: Vec<(u8, String)>)
    ensures
        r@.len() == sorted_labels(entries@).len(),
        forall|t: int|
            0 <= t < r@.len() ==> (#[trigger] r@[t]).0 == sorted_labels(entries@)[t].0
                && r@[t].1@ == sorted_labels(entries@)[t].1,
{
    let n = entries.len();
    let mut r: Vec<(u8, String)> = Vec::new();
    let ghost mut g: Seq<(u8, Seq<char>)> = Seq::empty();
    let mut i: usize = 0;
    while i < n
        invariant
            i <= n,
            n == entries@.len(),
            g == sort_by_key_spec(parsed_labels(entries@.take(i as int)), label_key()),
            r@.len() == g.len(),
            forall|t: int|
                0 <= t < g.len() ==> (#[trigger] r@[t]).0 == g[t].0 && r@[t].1@ == g[t].1,
        decreases n - i,
    {
        let entry = &entries[i];
        let parsed = parse_cc_key(entry.0.as_str());
        let ghost pre = entries@.take(i as int);
        let ghost post = entries@.take(i + 1);
        proof {
            assert(post.drop_last() =~= pre);
            assert(post.last() == entries@[i as int]);
        }
        if let Some(cc) = parsed {
            let value = trim_string(entry.1.as_str());
            let ghost x = (cc, trim_spec(entries@[i as int].1@));
            let mut p: usize = r.len();
            while p > 0 && r[p - 1].0 > cc
                invariant
                    p <= r@.len(),
                    r@.len() == g.len(),
                    forall|t: int|
                        0 <= t < g.len() ==> (#[trigger] r@[t]).0 == g[t].0 && r@[t].1@ == g[t].1,
                    forall|t: int| p <= t < r@.len() ==> (#[trigger] r@[t]).0 > cc,
                decreases p,
            {
                p -= 1;
            }
            proof {
                assert forall|t: int|
                    p <= t < g.len() implies label_key()(#[trigger] g[t]) > label_key()(x) by {
                    assert(r@[t].0 == g[t].0);
                    assert(r@[t].0 > cc);
                }
                if p > 0 {
                    assert(r@[p - 1].0 <= cc);
                    assert(label_key()(g[p - 1]) <= label_key()(x));
                }
                lemma_insert_sorted_at(x, g, label_key(), p as int);
            }
            let ghost gpre = g;
            let ghost rpre = r@;
            r.insert(p, (cc, value));
            proof {
                g = insert_sorted(x, gpre, label_key());
                assert(g == gpre.insert(p as int, x));
                assert(parsed_labels(post) == parsed_labels(pre).push(x));
                assert(sort_by_key_spec(parsed_labels(post), label_key()) == insert_sorted(
                    x,
                    sort_by_key_spec(parsed_labels(pre), label_key()),
                    label_key(),
                )) by {
                    assert(parsed_labels(post).drop_last() =~= parsed_labels(pre));
                }
                assert forall|t: int|
                    0 <= t < g.len() implies (#[trigger] r@[t]).0 == g[t].0 && r@[t].1@
                    == g[t].1 by {
                    if t < p {
                        assert(r@[t] == rpre[t]);
                        assert(g[t] == gpre[t]);
                    } else if t == p {
                        assert(r@[t] == (cc, value));
                        assert(g[t] == x);
                    } else {
                        assert(r@[t] == rpre[t - 1]);
                        assert(g[t] == gpre[t - 1]);
                    }
                }
            }
        } else {
            proof {
                assert(parsed_labels(post) == parsed_labels(pre));
            }
        }
        i += 1;
    }
    proof {
        assert(entries@.take(n as int) =~= entries@);
    }
    r
}

fn sort_raw_entries(entries: &Vec<(String, String)>) -> (r: Vec<(String, String)>)
    ensures
        r@.len() == sort_by_key_spec(entry_views(entries@), toml_key()).len(),
        forall|t: int|
            0 <= t < r@.len() ==> (#[trigger] r@[t]).0@ == sort_by_key_spec(
                entry_views(entries@),
                toml_key(),
            )[t].0 && r@[t].1@ == sort_by_key_spec(entry_views(entries@), toml_key())[t].1,
{
    let n = entries.len();
    let mut r: Vec<(String, String)> = Vec::new();
    let mut ords: Vec<u8> = Vec::new();
    let ghost mut g: Seq<(Seq<char>, Seq<char>)> = Seq::empty();
    let mut i: usize = 0;
    proof {
        assert(entry_views(entries@.take(0)) =~= Seq::<(Seq<char>, Seq<char>)>::empty());
    }
    while i < n
        invariant
            i <= n,
            n == entries@.len(),
            g == sort_by_key_spec(entry_views(entries@.take(i as int)), toml_key()),
            r@.len() == g.len(),
            ords@.len() == g.len(),
            forall|t: int|
                0 <= t < g.len() ==> (#[trigger] r@[t]).0@ == g[t].0 && r@[t].1@ == g[t].1,
            forall|t: int| 0 <= t < g.len() ==> (#[trigger] ords@[t]) as int == toml_key()(g[t]),
        decreases n - i,
    {
        let entry = &entries[i];
        let parsed = parse_cc_key(entry.0.as_str());
        let ord: u8 = match parsed {
            Some(v) => v,
            None => 255,
        };
        let ghost pre = entries@.take(i as int);
        let ghost post = entries@.take(i + 1);
        let ghost x = (entries@[i as int].0@, entries@[i as int].1@);
        proof {
            assert(entry_views(post).drop_last() =~= entry_views(pre));
            assert(entry_views(post).last() == x);
            assert(ord as int == toml_key()(x));
        }
        let mut p: usize = r.len();
        while p > 0 && ords[p - 1] > ord
            invariant
                p <= r@.len(),
                ords@.len() == r@.len(),
                r@.len() == g.len(),
                forall|t: int| 0 <= t < g.len() ==> (#[trigger] ords@[t]) as int == toml_key()(g[t]),
                forall|t: int| p <= t < r@.len() ==> (#[trigger] ords@[t]) > ord,
            decreases p,
        {
            p -= 1;
        }
        proof {
            assert forall|t: int|
                p <= t < g.len() implies toml_key()(#[trigger] g[t]) > toml_key()(x) by {
                assert(ords@[t] as int == toml_key()(g[t]));
            }
            if p > 0 {
                assert(ords@[p - 1] as int == toml_key()(g[p - 1]));
            }
            lemma_insert_sorted_at(x, g, toml_key(), p as int);
        }
        let ghost gpre = g;
        let ghost rpre = r@;
        let ghost opre = ords@;
        r.insert(p, (entry.0.clone(), entry.1.clone()));
        ords.insert(p, ord);
        proof {
            g = insert_sorted(x, gpre, toml_key());
            assert(g == gpre.insert(p as int, x));
            assert(sort_by_key_spec(entry_views(post), toml_key()) == insert_sorted(
                x,
                sort_by_key_spec(entry_views(pre), toml_key()),
                toml_key(),
            ));
            assert forall|t: int|
                0 <= t < g.len() implies (#[trigger] r@[t]).0@ == g[t].0 && r@[t].1@ == g[t].1 by {
                if t < p {
                    assert(r@[t] == rpre[t]);
                    assert(g[t] == gpre[t]);
                } else if t == p {
                } else {
                    assert(r@[t] == rpre[t - 1]);
                    assert(g[t] == gpre[t - 1]);
                }
            }
            assert forall|t: int|
                0 <= t < g.len() implies (#[trigger] ords@[t]) as int == toml_key()(g[t]) by {
                if t < p {
                    assert(ords@[t] == opre[t]);
                    assert(g[t] == gpre[t]);
                } else if t == p {
                } else {
                    assert(ords@[t] == opre[t - 1]);
                    assert(g[t] == gpre[t - 1]);
                }
            }
        }
        i += 1;
    }
    proof {
        assert(entries@.take(n as int) =~= entries@);
    }
    r
}

fn sort_mute_entries(entries: &Vec<(String, u8)>) -> (r: Vec<(String, u8)>)
    ensures
        r@.len() == sort_by_key_spec(mute_views(entries@), mute_key()).len(),
        forall|t: int|
            0 <= t < r@.len() ==> (#[trigger] r@[t]).0@ == sort_by_key_spec(
                mute_views(entries@),
                mute_key(),
            )[t].0 && r@[t].1 == sort_by_key_spec(mute_views(entries@), mute_key())[t].1,
{
    let n = entries.len();
    let mut r: Vec<(String, u8)> = Vec::new();
    let mut ords: Vec<u8> = Vec::new();
    let ghost mut g: Seq<(Seq<char>, u8)> = Seq::empty();
    let mut i: usize = 0;
    proof {
        assert(mute_views(entries@.take(0)) =~= Seq::<(Seq<char>, u8)>::empty());
    }
    while i < n
        invariant
            i <= n,
            n == entries@.len(),
            g == sort_by_key_spec(mute_views(entries@.take(i as int)), mute_key()),
            r@.len() == g.len(),
            ords@.len() == g.len(),
            forall|t: int|
                0 <= t < g.len() ==> (#[trigger] r@[t]).0@ == g[t].0 && r@[t].1 == g[t].1,
            forall|t: int| 0 <= t < g.len() ==> (#[trigger] ords@[t]) as int == mute_key()(g[t]),
        decreases n - i,
    {
        let entry = &entries[i];
        let parsed = parse_cc_key(entry.0.as_str());
        let ord: u8 = match parsed {
            Some(v) => v,
            None => 255,
        };
        let ghost pre = entries@.take(i as int);
        let ghost post = entries@.take(i + 1);
        let ghost x = (entries@[i as int].0@, entries@[i as int].1);
        proof {
            assert(mute_views(post).drop_last() =~= mute_views(pre));
            assert(mute_views(post).last() == x);
            assert(ord as int == mute_key()(x));
        }
        let mut p: usize = r.len();
        while p > 0 && ords[p - 1] > ord
            invariant
                p <= r@.len(),
                ords@.len() == r@.len(),
                r@.len() == g.len(),
                forall|t: int| 0 <= t < g.len() ==> (#[trigger] ords@[t]) as int == mute_key()(g[t]),
                forall|t: int| p <= t < r@.len() ==> (#[trigger] ords@[t]) > ord,
            decreases p,
        {
            p -= 1;
        }
        proof {
            assert forall|t: int|
                p <= t < g.len() implies mute_key()(#[trigger] g[t]) > mute_key()(x) by {
                assert(ords@[t] as int == mute_key()(g[t]));
            }
            if p > 0 {
                assert(ords@[p - 1] as int == mute_key()(g[p - 1]));
            }
            lemma_insert_sorted_at(x, g, mute_key(), p as int);
        }
        let ghost gpre = g;
        let ghost rpre = r@;
        let ghost opre = ords@;
        r.insert(p, (entry.0.clone(), entry.1));
        ords.insert(p, ord);
        proof {
            g = insert_sorted(x, gpre, mute_key());
            assert(g == gpre.insert(p as int, x));
            assert(sort_by_key_spec(mute_views(post), mute_key()) == insert_sorted(
                x,
                sort_by_key_spec(mute_views(pre), mute_key()),
                mute_key(),
            ));
            assert forall|t: int|
                0 <= t < g.len() implies (#[trigger] r@[t]).0@ == g[t].0 && r@[t].1 == g[t].1 by {
                if t < p {
                    assert(r@[t] == rpre[t]);
                    assert(g[t] == gpre[t]);
                } else if t == p {
                } else {
                    assert(r@[t] == rpre[t - 1]);
                    assert(g[t] == gpre[t - 1]);
                }
            }
            assert forall|t: int|
                0 <= t < g.len() implies (#[trigger] ords@[t]) as int == mute_key()(g[t]) by {
                if t < p {
                    assert(ords@[t] == opre[t]);
                    assert(g[t] == gpre[t]);
                } else if t == p {
                } else {
                    assert(ords@[t] == opre[t - 1]);
                    assert(g[t] == gpre[t - 1]);
                }
            }
        }
        i += 1;
    }
    proof {
        assert(entries@.take(n as int) =~= entries@);
    }
    r
}

fn controls_string(mc: &MidiControlsConfig) -> (out: String)
    ensures
        out@ == controls_doc(mc),
{
    let mut out = String::new();
    out.append("# nanoKontrol2 MIDI Volume Controller Configuration\n");
    out.append("# This file allows you to customize MIDI CC to audio target mappings\n\n");
    out.append("[midi_controls.sinks]\n");
    out.append("# Map MIDI CC numbers to audio sinks (faders)\n");
    out.append("# Use CC numbers 0-31 for sink volume controls\n");
    let sorted_sinks = sort_raw_entries(&mc.sinks);
    let sink_lines = quoted_lines_string(
        &sorted_sinks,
        Ghost(sort_by_key_spec(entry_views(mc.sinks@), toml_key())),
    );
    out.append(sink_lines.as_str());
    out.append("\n");
    out.append("[midi_controls.applications]\n");
    out.append("# Map MIDI CC numbers to application names\n");
    out.append("# Use CC numbers 32-63 or 16-31 for app volume controls\n");
    let sorted_apps = sort_raw_entries(&mc.applications);
    let app_lines = quoted_lines_string(
        &sorted_apps,
        Ghost(sort_by_key_spec(entry_views(mc.applications@), toml_key())),
    );
    out.append(app_lines.as_str());
    out.append("\n");
    out.append("[midi_controls.mute_buttons]\n");
    out.append("# Map mute button CC numbers to the CC number of the fader they should mute\n");
    out.append(
        "# Format: cc_BUTTON_CC = FADER_CC_NUMBER (where FADER_CC_NUMBER is an integer)\n",
    );
    out.append("# Example: cc_64 = 0 means CC64 button mutes the CC0 fader\n");
    let sorted_mutes = sort_mute_entries(&mc.mute_buttons);
    let mute_line_str = mute_lines_string(
        &sorted_mutes,
        Ghost(sort_by_key_spec(mute_views(mc.mute_buttons@), mute_key())),
    );
    out.append(mute_line_str.as_str());
    out.append("\n");
    proof {
        assert(out@ =~= controls_doc(mc));
    }
    out
}

fn audio_string(a: &AudioConfig) -> (out: String)
    ensures
        out@ == audio_doc(a),
{
    let mut out = String::new();
    out.append("[audio]\n");
    proof {
        assert(out@ =~= "[audio]\n"@);
    }
    out.append("# PipeWire settings\n");
    let ghost c1 = out@;
    if let Some(b) = a.use_pipewire {
        out.append("use_pipewire = ");
        out.append(bool_str(b));
        out.append("\n");
    }
    proof {
        assert(out@ =~= c1 + bool_item("use_pipewire = "@, a.use_pipewire));
    }
    let ghost c2 = out@;
    if let Some(ref s) = a.default_sink {
        out.append("default_sink = \"");
        out.append(s.as_str());
        out.append("\"\n");
    }
    proof {
        assert(out@ =~= c2 + string_item("default_sink = \""@, a.default_sink, "\"\n"@));
    }
    out.append("\n");
    out.append("# Volume control mode:\n");
    out.append("# \"pw-volume\"     - Use pw-volume command (default, simple)\n");
    out.append("# \"pipewire-api\"  - Use PipeWire Rust API (requires libpipewire-dev)\n");
    let ghost c3 = out@;
    if let Some(ref m) = a.volume_control_mode {
        out.append("volume_control_mode = \"");
        out.append(m.as_str());
        out.append("\"\n");
    }
    proof {
        assert(out@ =~= c3 + string_item(
            "volume_control_mode = \""@,
            a.volume_control_mode,
            "\"\n"@,
        ));
    }
    out.append("\n");
    out.append("# Volume curve (linear/exponential)\n");
    let ghost c4 = out@;
    if let Some(ref c) = a.volume_curve {
        out.append("volume_curve = \"");
        out.append(c.as_str());
        out.append("\"\n");
    }
    proof {
        assert(out@ =~= c4 + string_item("volume_curve = \""@, a.volume_curve, "\"\n"@));
    }
    out.append("\n");
    out.append(
        "# Debounce MIDI events (ms) to prevent excessive updates and phantom inputs\n",
    );
    let ghost c5 = out@;
    if let Some(d) = a.debounce_ms {
        out.append("debounce_ms = ");
        let v = crate::numerals::dec_u32(d);
        out.append(v.as_str());
        out.append("\n");
    }
    proof {
        assert(out@ =~= c5 + u32_item("debounce_ms = "@, a.debounce_ms));
    }
    out.append("\n");
    out.append("# Interval in seconds to search for application audio sinks\n");
    let ghost c6 = out@;
    if let Some(s) = a.applications_sink_search {
        out.append("applications_sink_search = ");
        let v = crate::numerals::dec_u64(s);
        out.append(v.as_str());
        out.append("\n");
    }
    proof {
        assert(out@ =~= c6 + u64_item(
            "applications_sink_search = "@,
            a.applications_sink_search,
        ));
    }
    out.append("\n");
    proof {
        assert(out@ =~= audio_doc(a));
    }
    out
}

fn ui_string(u: &UiConfig) -> (out: String)
    ensures
        out@ == ui_doc(u),
{
    let mut out = String::new();
    out.append("[ui]\n");
    proof {
        assert(out@ =~= "[ui]\n"@);
    }
    out.append("# UI settings\n");
    let ghost c1 = out@;
    if let Some(w) = u.window_width {
        out.append("window_width = ");
        let v = crate::numerals::dec_u32(w);
        out.append(v.as_str());
        out.append("\n");
    }
    proof {
        assert(out@ =~= c1 + u32_item("window_width = "@, u.window_width));
    }
    let ghost c2 = out@;
    if let Some(h) = u.window_height {
        out.append("window_height = ");
        let v = crate::numerals::dec_u32(h);
        out.append(v.as_str());
        out.append("\n");
    }
    proof {
        assert(out@ =~= c2 + u32_item("window_height = "@, u.window_height));
    }
    let ghost c3 = out@;
    if let Some(ref t) = u.theme {
        out.append("theme = \"");
        out.append(t.as_str());
        out.append("\"  # default, dark, light\n");
    }
    proof {
        assert(out@ =~= c3 + string_item("theme = \""@, u.theme, "\"  # default, dark, light\n"@));
    }
    out.append("\n");
    out.append("# Show console by default\n");
    let ghost c4 = out@;
    if let Some(s) = u.show_console {
        out.append("show_console = ");
        out.append(bool_str(s));
        out.append("\n");
    }
    proof {
        assert(out@ =~= c4 + bool_item("show_console = "@, u.show_console));
    }
    out.append("\n");
    out.append("# Max console messages to keep\n");
    let ghost c5 = out@;
    if let Some(l) = u.max_console_lines {
        out.append("max_console_lines = ");
        let v = crate::numerals::dec_usize(l);
        out.append(v.as_str());
        out.append("\n");
    }
    proof {
        assert(out@ =~= c5 + usize_item("max_console_lines = "@, u.max_console_lines));
    }
    out.append("\n");
    proof {
        assert(out@ =~= ui_doc(u));
    }
    out
}

fn logging_string(l: &LoggingConfig) -> (out: String)
    ensures
        out@ == logging_doc(l),
{
    let mut out = String::new();
    out.append("[logging]\n");
    proof {
        assert(out@ =~= "[logging]\n"@);
    }
    out.append("# Enable or disable logging globally\n");
    let ghost c1 = out@;
    if let Some(e) = l.enabled {
        out.append("enabled = ");
        out.append(bool_str(e));
        out.append("\n");
    }
    proof {
        assert(out@ =~= c1 + bool_item("enabled = "@, l.enabled));
    }
    out.append("\n");
    out.append("# Log level: off, error, warn, info, debug, trace\n");
    let ghost c2 = out@;
    if let Some(ref v) = l.log_level {
        out.append("log_level = \"");
        out.append(v.as_str());
        out.append("\"\n");
    }
    proof {
        assert(out@ =~= c2 + string_item("log_level = \""@, l.log_level, "\"\n"@));
    }
    out.append("\n");
    out.append("# Show timestamps in console\n");
    let ghost c3 = out@;
    if let Some(t) = l.timestamps {
        out.append("timestamps = ");
        out.append(bool_str(t));
        out.append("\n");
    }
    proof {
        assert(out@ =~= c3 + bool_item("timestamps = "@, l.timestamps));
    }
    out.append("\n");
    out.append("# Show fader movements in console\n");
    let ghost c4 = out@;
    if let Some(f) = l.log_fader_events {
        out.append("log_fader_events = ");
        out.append(bool_str(f));
        out.append("\n");
    }
    proof {
        assert(out@ =~= c4 + bool_item("log_fader_events = "@, l.log_fader_events));
    }
    out.append("\n");
    out.append("# Show MIDI device info at startup\n");
    let ghost c5 = out@;
    if let Some(d) = l.log_device_info {
        out.append("log_device_info = ");
        out.append(bool_str(d));
        out.append("\n");
    }
    proof {
        assert(out@ =~= c5 + bool_item("log_device_info = "@, l.log_device_info));
        assert(out@ =~= logging_doc(l));
    }
    out
}

fn quoted_lines_string(
    sorted: &Vec<(String, String)>,
    Ghost(gs): Ghost<Seq<(Seq<char>, Seq<char>)>>,
) -> (out: String)
    requires
        sorted@.len() == gs.len(),
        forall|t: int|
            0 <= t < gs.len() ==> (#[trigger] sorted@[t]).0@ == gs[t].0 && sorted@[t].1@
                == gs[t].1,
    ensures
        out@ == quoted_lines(gs),
{
    let mut out = String::new();
    let n = sorted.len();
    let mut t: usize = 0;
    proof {
        assert(gs.take(0) =~= Seq::<(Seq<char>, Seq<char>)>::empty());
    }
    while t < n
        invariant
            t <= n,
            n == sorted@.len(),
            n == gs.len(),
            forall|u: int|
                0 <= u < gs.len() ==> (#[trigger] sorted@[u]).0@ == gs[u].0 && sorted@[u].1@
                    == gs[u].1,
            out@ == quoted_lines(gs.take(t as int)),
        decreases n - t,
    {
        let entry = &sorted[t];
        out.append(entry.0.as_str());
        out.append(" = \"");
        out.append(entry.1.as_str());
        out.append("\"\n");
        proof {
            assert(gs.take(t + 1).drop_last() =~= gs.take(t as int));
            assert(gs.take(t + 1).last() == gs[t as int]);
        }
        t += 1;
    }
    proof {
        assert(gs.take(n as int) =~= gs);
    }
    out
}

fn mute_lines_string(sorted: &Vec<(String, u8)>, Ghost(gs): Ghost<Seq<(Seq<char>, u8)>>) -> (out:
    String)
    requires
        sorted@.len() == gs.len(),
        forall|t: int|
            0 <= t < gs.len() ==> (#[trigger] sorted@[t]).0@ == gs[t].0 && sorted@[t].1 == gs[t].1,
    ensures
        out@ == mute_lines(gs),
{
    let mut out = String::new();
    let n = sorted.len();
    let mut t: usize = 0;
    proof {
        assert(gs.take(0) =~= Seq::<(Seq<char>, u8)>::empty());
    }
    while t < n
        invariant
            t <= n,
            n == sorted@.len(),
            n == gs.len(),
            forall|u: int|
                0 <= u < gs.len() ==> (#[trigger] sorted@[u]).0@ == gs[u].0 && sorted@[u].1
                    == gs[u].1,
            out@ == mute_lines(gs.take(t as int)),
        decreases n - t,
    {
        let entry = &sorted[t];
        out.append(entry.0.as_str());
        out.append(" = ");
        let v = crate::numerals::dec_u8(entry.1);
        out.append(v.as_str());
        out.append("\n");
        proof {
            assert(gs.take(t + 1).drop_last() =~= gs.take(t as int));
            assert(gs.take(t + 1).last() == gs[t as int]);
        }
        t += 1;
    }
    proof {
        assert(gs.take(n as int) =~= gs);
    }
    out
}

impl Config {
    /// Renders the configuration as the commented TOML document the
    /// controller writes back to disk: each mapping table sorted by
    /// controller number, and each optional setting written only when
    /// it is present.
    /// Renders the configuration as the commented TOML document the
    /// controller writes back to disk: each mapping table sorted by
    /// controller number, and each optional setting written only when
    /// it is present.
    pub fn to_toml_string(&self) -> (r: String)
        ensures
            r@ == toml_doc_spec(self),
    {
        let mut out = controls_string(&self.midi_controls);
        let audio = audio_string(&self.audio);
        out.append(audio.as_str());
        let ui = ui_string(&self.ui);
        out.append(ui.as_str());
        let logging = logging_string(&self.logging);
        out.append(logging.as_str());
        out
    }

    /// Builds a configuration from the flattened values a settings
    /// surface edits, turning each controller number back into its
    /// `cc_N` key.
    pub fn from_ui_state(
        sinks: &[(u8, String)],
        applications: &[(u8, String)],
        mute_buttons: &[(u8, u8)],
        use_pipewire: bool,
        default_sink: &str,
        volume_control_mode: &str,
        volume_curve: &str,
        debounce_ms: u32,
        applications_sink_search: u64,
        window_width: u32,
        window_height: u32,
        theme: &str,
        show_console: bool,
        max_console_lines: usize,
        logging_enabled: bool,
        log_level: &str,
        timestamps: bool,
        log_fader_events: bool,
        log_device_info: bool,
    ) -> (r: Config)
        ensures
            r.midi_controls.sinks@.len() == sinks@.len(),
            forall|i: int|
                0 <= i < sinks@.len() ==> (#[trigger] r.midi_controls.sinks@[i]).0@ == "cc_"@
                    + crate::numerals::dec_rep(sinks@[i].0 as nat) && r.midi_controls.sinks@[i].1@
                    == sinks@[i].1@,
            r.midi_controls.applications@.len() == applications@.len(),
            forall|i: int|
                0 <= i < applications@.len() ==> (#[trigger] r.midi_controls.applications@[i]).0@
                    == "cc_"@ + crate::numerals::dec_rep(applications@[i].0 as nat)
                    && r.midi_controls.applications@[i].1@ == applications@[i].1@,
            r.midi_controls.mute_buttons@.len() == mute_buttons@.len(),
            forall|i: int|
                0 <= i < mute_buttons@.len() ==> (#[trigger] r.midi_controls.mute_buttons@[i]).0@
                    == "cc_"@ + crate::numerals::dec_rep(mute_buttons@[i].0 as nat)
                    && r.midi_controls.mute_buttons@[i].1 == mute_buttons@[i].1,
            r.audio.use_pipewire == Some(use_pipewire),
            r.audio.default_sink matches Some(s) && s@ == default_sink@,
            r.audio.volume_control_mode matches Some(s) && s@ == volume_control_mode@,
            r.audio.volume_curve matches Some(s) && s@ == volume_curve@,
            r.audio.debounce_ms == Some(debounce_ms),
            r.audio.applications_sink_search == Some(applications_sink_search),
            r.ui.window_width == Some(window_width),
            r.ui.window_height == Some(window_height),
            r.ui.theme matches Some(s) && s@ == theme@,
            r.ui.show_console == Some(show_console),
            r.ui.max_console_lines == Some(max_console_lines),
            r.logging.enabled == Some(logging_enabled),
            r.logging.log_level matches Some(s) && s@ == log_level@,
            r.logging.timestamps == Some(timestamps),
            r.logging.log_fader_events == Some(log_fader_events),
            r.logging.log_device_info == Some(log_device_info),
    {
        let sinks_vec = keyed_string_entries(sinks);
        let apps_vec = keyed_string_entries(applications);
        let mut mute_vec: Vec<(String, u8)> = Vec::new();
        let n = mute_buttons.len();
        let mut i: usize = 0;
        while i < n
            invariant
                i <= n,
                n == mute_buttons@.len(),
                mute_vec@.len() == i,
                forall|t: int|
                    0 <= t < i ==> (#[trigger] mute_vec@[t]).0@ == "cc_"@
                        + crate::numerals::dec_rep(mute_buttons@[t].0 as nat) && mute_vec@[t].1
                        == mute_buttons@[t].1,
            decreases n - i,
        {
            let pair = &mute_buttons[i];
            let key = String::from_str("cc_").concat(crate::numerals::dec_u8(pair.0).as_str());
            mute_vec.push((key, pair.1));
            i += 1;
        }
        Config {
            midi_controls: MidiControlsConfig {
                sinks: sinks_vec,
                applications: apps_vec,
                mute_buttons: mute_vec,
            },
            audio: AudioConfig {
                use_pipewire: Some(use_pipewire),
                default_sink: Some(String::from_str(default_sink)),
                volume_control_mode: Some(String::from_str(volume_control_mode)),
                volume_curve: Some(String::from_str(volume_curve)),
                debounce_ms: Some(debounce_ms),
                applications_sink_search: Some(applications_sink_search),
            },
            ui: UiConfig {
                window_width: Some(window_width),
                window_height: Some(window_height),
                theme: Some(String::from_str(theme)),
                show_console: Some(show_console),
                max_console_lines: Some(max_console_lines),
            },
            logging: LoggingConfig {
                enabled: Some(logging_enabled),
                log_level: Some(String::from_str(log_level)),
                timestamps: Some(timestamps),
                log_fader_events: Some(log_fader_events),
                log_device_info: Some(log_device_info),
            },
        }
    }
}

fn keyed_string_entries(pairs: &[(u8, String)]) -> (r: Vec<(String, String)>)
    ensures
        r@.len() == pairs@.len(),
        forall|t: int|
            0 <= t < pairs@.len() ==> (#[trigger] r@[t]).0@ == "cc_"@ + crate::numerals::dec_rep(
                pairs@[t].0 as nat,
            ) && r@[t].1@ == pairs@[t].1@,
{
    let mut r: Vec<(String, String)> = Vec::new();
    let n = pairs.len();
    let mut i: usize = 0;
    while i < n
        invariant
            i <= n,
            n == pairs@.len(),
            r@.len() == i,
            forall|t: int|
                0 <= t < i ==> (#[trigger] r@[t]).0@ == "cc_"@ + crate::numerals::dec_rep(
                    pairs@[t].0 as nat,
                ) && r@[t].1@ == pairs@[t].1@,
        decreases n - i,
    {
        let pair = &pairs[i];
        let key = String::from_str("cc_").concat(crate::numerals::dec_u8(pair.0).as_str());
        r.push((key, pair.1.clone()));
        i += 1;
    }
    r
}

impl Default for Config {
    /// The built-in configuration: two sink faders, no application or
    /// mute mappings, and every setting present with its default.
    fn default() -> (r: Self)
        ensures
            r.midi_controls.sinks@.len() == 2,
            r.midi_controls.sinks@[0].0@ == "cc_0"@,
            r.midi_controls.sinks@[0].1@ == "alsa_output.pci-0000_25_00.0.analog-stereo"@,
            r.midi_controls.sinks@[1].0@ == "cc_1"@,
            r.midi_controls.sinks@[1].1@ == "comms_sink"@,
            r.midi_controls.applications@.len() == 0,
            r.midi_controls.mute_buttons@.len() == 0,
            r.audio.use_pipewire == Some(true),
            r.audio.default_sink matches Some(s) && s@
                == "alsa_output.pci-0000_25_00.0.analog-stereo"@,
            r.audio.volume_control_mode matches Some(s) && s@ == "pipewire-api"@,
            r.audio.volume_curve matches Some(s) && s@ == "linear"@,
            r.audio.debounce_ms == Some(10u32),
            r.audio.applications_sink_search == Some(10u64),
            r.ui.window_width == Some(1000u32),
            r.ui.window_height == Some(600u32),
            r.ui.theme matches Some(s) && s@ == "default"@,
            r.ui.show_console == Some(false),
            r.ui.max_console_lines == Some(1000usize),
            r.logging.enabled == Some(true),
            r.logging.log_level matches Some(s) && s@ == "info"@,
            r.logging.timestamps == Some(true),
            r.logging.log_fader_events == Some(true),
            r.logging.log_device_info == Some(true),
    {
        let mut sinks: Vec<(String, String)> = Vec::new();
        sinks.push(
            (
                String::from_str("cc_0"),
                String::from_str("alsa_output.pci-0000_25_00.0.analog-stereo"),
            ),
        );
        sinks.push((String::from_str("cc_1"), String::from_str("comms_sink")));
        Config {
            midi_controls: MidiControlsConfig {
                sinks,
                applications: Vec::new(),
                mute_buttons: Vec::new(),
            },
            audio: AudioConfig {
                use_pipewire: Some(true),
                default_sink: Some(String::from_str("alsa_output.pci-0000_25_00.0.analog-stereo")),
                volume_control_mode: Some(String::from_str("pipewire-api")),
                volume_curve: Some(String::from_str("linear")),
                debounce_ms: Some(10),
                applications_sink_search: Some(10),
            },
            ui: UiConfig {
                window_width: Some(1000),
                window_height: Some(600),
                theme: Some(String::from_str("default")),
                show_console: Some(false),
                max_console_lines: Some(1000),
            },
            logging: LoggingConfig {
                enabled: Some(true),
                log_level: Some(String::from_str("info")),
                timestamps: Some(true),
                log_fader_events: Some(true),
                log_device_info: Some(true),
            },
        }
    }
}

} // verus!
