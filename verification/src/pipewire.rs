//! Planning and parsing around the external mixer utilities.
//!
//! Changing a volume means running one of `wpctl`, `pactl` or `amixer`;
//! finding an application's stream means reading the output of
//! `pactl list sink-inputs`.  The library builds the exact commands to
//! run and parses the listings; spawning the processes is I/O and
//! happens outside, which hands the captured output back in.

use vstd::prelude::*;
use vstd::string::StringExecFns;
use crate::numerals::dec_rep;
use crate::numerals::dec_u32;
use crate::numerals::dec_u8;
use crate::numerals::parse_u32_chars;
use crate::numerals::parse_u32_spec;
use crate::numerals::parse_u8_chars;
use crate::numerals::parse_u8_spec;
use crate::textutil::contains_chars;
use crate::textutil::contains_seq;
use crate::textutil::fold_lower_chars;
use crate::textutil::lines_spec;
use crate::textutil::lower_of;
use crate::textutil::split_lines;
use crate::textutil::split_on_char;
use crate::textutil::split_on_spec;
use crate::textutil::str_chars;
use crate::textutil::trim_chars;
use crate::textutil::trim_spec;

verus! {

/// One playing application stream, as the discovery surface reports it.
#[derive(Debug, Clone)]
pub struct AppStream {
    pub node_id: u32,
    pub app_name: String,
    /// Stream volume as a percentage.
    pub volume_percent: u8,
}

/// One external mixer command to run: a program and its arguments.
#[derive(Debug, Clone)]
pub struct MixerCommand {
    pub program: String,
    pub args: Vec<String>,
}

/// The volume-control planner.
pub struct PipeWireController {
    pub use_api: bool,
}

/// The percentage argument handed to the mixer utilities.
pub open spec fn percent_arg_spec(p: u8) -> Seq<char> {
    dec_rep(p as nat) + "%"@
}

/// The sink-input index on a `Sink Input #N` line: the text after the
/// first `#`, trimmed and parsed.
pub open spec fn sink_index_spec(line: Seq<char>) -> Option<u32> {
    let parts = split_on_spec(line, '#');
    if parts.len() >= 2 {
        parse_u32_spec(trim_spec(parts[1]))
    } else {
        None
    }
}

/// A percentage read from one `/`-separated piece of a volume line:
/// the piece trimmed, a trailing `%` removed, the rest trimmed and
/// parsed.
pub open spec fn piece_percent_spec(part: Seq<char>) -> Option<u8> {
    let t = trim_spec(part);
    if t.len() > 0 && t.last() == '%' {
        parse_u8_spec(trim_spec(t.drop_last()))
    } else {
        None
    }
}

/// The first piece of a volume line that reads as a percentage.
pub open spec fn first_percent_spec(parts: Seq<Seq<char>>) -> Option<u8>
    decreases parts.len(),
{
    if parts.len() == 0 {
        None
    } else {
        match piece_percent_spec(parts[0]) {
            Some(v) => Some(v),
            None => first_percent_spec(parts.drop_first()),
        }
    }
}

/// The sink-input index of the first stream whose name line mentions
/// the (case-folded) application, scanning the listing line by line:
/// a `Sink Input #` line remembers its index, and a matching
/// `application.name` or `application.process.binary` line under a
/// remembered index selects it.
pub open spec fn find_sink_input_spec(
    lines: Seq<Seq<char>>,
    app_lower: Seq<char>,
    current: Option<u32>,
) -> Option<u32>
    decreases lines.len(),
{
    if lines.len() == 0 {
        None
    } else {
        let line = lines[0];
        if contains_seq(line, "Sink Input #"@) {
            find_sink_input_spec(lines.drop_first(), app_lower, sink_index_spec(line))
        } else if (contains_seq(line, "application.name"@) || contains_seq(
            line,
            "application.process.binary"@,
        )) && contains_seq(lower_of(line), app_lower) && current is Some {
            current
        } else {
            find_sink_input_spec(lines.drop_first(), app_lower, current)
        }
    }
}

/// The volume percentage of the application's stream, read from the
/// first `Volume:` line after the line that matched the application.
pub open spec fn find_app_volume_spec(
    lines: Seq<Seq<char>>,
    app_lower: Seq<char>,
    in_match: bool,
) -> Option<u8>
    decreases lines.len(),
{
    if lines.len() == 0 {
        None
    } else {
        let line = lines[0];
        if contains_seq(line, "Sink Input #"@) {
            find_app_volume_spec(lines.drop_first(), app_lower, false)
        } else if (contains_seq(line, "application.name"@) || contains_seq(
            line,
            "application.process.binary"@,
        )) && contains_seq(lower_of(line), app_lower) {
            find_app_volume_spec(lines.drop_first(), app_lower, true)
        } else if in_match && contains_seq(line, "Volume:"@) {
            match first_percent_spec(split_on_spec(line, '/')) {
                Some(v) => Some(v),
                None => find_app_volume_spec(lines.drop_first(), app_lower, in_match),
            }
        } else {
            find_app_volume_spec(lines.drop_first(), app_lower, in_match)
        }
    }
}

fn percent_arg(p: u8) -> (r: String)
    ensures
        r@ == percent_arg_spec(p),
{
    dec_u8(p).concat("%")
}

fn parse_sink_index(line: &Vec<char>) -> (r: Option<u32>)
    ensures
        r == sink_index_spec(line@),
{
    let parts = split_on_char(line, '#');
    if parts.len() >= 2 {
        let trimmed = trim_chars(&parts[1]);
        parse_u32_chars(&trimmed)
    } else {
        None
    }
}

fn piece_percent(part: &Vec<char>) -> (r: Option<u8>)
    ensures
        r == piece_percent_spec(part@),
{
    let mut t = trim_chars(part);
    let n = t.len();
    if n > 0 && t[n - 1] == '%' {
        let _ = t.pop();
        let trimmed = trim_chars(&t);
        parse_u8_chars(&trimmed)
    } else {
        None
    }
}

fn first_percent(parts: &Vec<Vec<char>>, Ghost(ps): Ghost<Seq<Seq<char>>>) -> (r: Option<u8>)
    requires
        parts@.len() == ps.len(),
        forall|t: int| 0 <= t < ps.len() ==> (#[trigger] parts@[t])@ == ps[t],
    ensures
        r == first_percent_spec(ps),
{
    let n = parts.len();
    let mut k: usize = 0;
    proof {
        assert(ps.skip(0) =~= ps);
    }
    while k < n
        invariant
            k <= n,
            n == parts@.len(),
            n == ps.len(),
            forall|t: int| 0 <= t < ps.len() ==> (#[trigger] parts@[t])@ == ps[t],
            first_percent_spec(ps) == first_percent_spec(ps.skip(k as int)),
        decreases n - k,
    {
        proof {
            assert(ps.skip(k as int)[0] == ps[k as int]);
            assert(ps.skip(k as int).drop_first() =~= ps.skip(k + 1));
        }
        let got = piece_percent(&parts[k]);
        if let Some(v) = got {
            return Some(v);
        }
        k += 1;
    }
    proof {
        assert(ps.skip(n as int) =~= Seq::<Seq<char>>::empty());
    }
    None
}

/// The first percentage in pactl's `get-sink-volume` output, read from
/// its `/`-separated pieces.
pub fn volume_percent_from_pactl(text: &str) -> (r: Option<u8>)
    ensures
        r == first_percent_spec(split_on_spec(text@, '/')),
{
    let chars = str_chars(text);
    let parts = split_on_char(&chars, '/');
    first_percent(&parts, Ghost(split_on_spec(text@, '/')))
}

impl PipeWireController {
    /// A planner for the given backend preference.
    pub fn new(use_api: bool) -> (r: Self)
        ensures
            r.use_api == use_api,
    {
        PipeWireController { use_api }
    }

    /// Stream discovery is handled through the command interface, so
    /// no streams are cached.
    pub fn discover_apps(&mut self) -> (r: Vec<AppStream>)
        ensures
            r@.len() == 0,
    {
        Vec::new()
    }

    /// The cached stream list; always empty, as `discover_apps` leaves
    /// discovery to the command interface.
    pub fn get_apps(&self) -> (r: Vec<AppStream>)
        ensures
            r@.len() == 0,
    {
        Vec::new()
    }

    /// The master-volume commands to try in order until one succeeds:
    /// `wpctl` on the default audio sink, then `pactl` on the default
    /// sink, then `amixer` on the master control, each with the same
    /// percentage.
    pub fn set_volume_with_commands(&self, volume_percent: u8) -> (r: Vec<MixerCommand>)
        ensures
            r@.len() == 3,
            r@[0].program@ == "wpctl"@,
            r@[0].args@.len() == 3,
            r@[0].args@[0]@ == "set-volume"@,
            r@[0].args@[1]@ == "@DEFAULT_AUDIO_SINK@"@,
            r@[0].args@[2]@ == percent_arg_spec(volume_percent),
            r@[1].program@ == "pactl"@,
            r@[1].args@.len() == 3,
            r@[1].args@[0]@ == "set-sink-volume"@,
            r@[1].args@[1]@ == "@DEFAULT_SINK@"@,
            r@[1].args@[2]@ == percent_arg_spec(volume_percent),
            r@[2].program@ == "amixer"@,
            r@[2].args@.len() == 3,
            r@[2].args@[0]@ == "set"@,
            r@[2].args@[1]@ == "Master"@,
            r@[2].args@[2]@ == percent_arg_spec(volume_percent),
    {
        let mut r: Vec<MixerCommand> = Vec::new();
        r.push(make_command3("wpctl", "set-volume", "@DEFAULT_AUDIO_SINK@", percent_arg(volume_percent)));
        r.push(make_command3("pactl", "set-sink-volume", "@DEFAULT_SINK@", percent_arg(volume_percent)));
        r.push(make_command3("amixer", "set", "Master", percent_arg(volume_percent)));
        r
    }

    /// Master volume goes through the external commands rather than
    /// the client library, so this plans the same command sequence.
    pub fn set_volume_percent(&self, volume_percent: u8) -> (r: Vec<MixerCommand>)
        ensures
            r@.len() == 3,
            r@[0].program@ == "wpctl"@,
            r@[0].args@.len() == 3,
            r@[0].args@[0]@ == "set-volume"@,
            r@[0].args@[1]@ == "@DEFAULT_AUDIO_SINK@"@,
            r@[0].args@[2]@ == percent_arg_spec(volume_percent),
            r@[1].program@ == "pactl"@,
            r@[1].args@.len() == 3,
            r@[1].args@[0]@ == "set-sink-volume"@,
            r@[1].args@[1]@ == "@DEFAULT_SINK@"@,
            r@[1].args@[2]@ == percent_arg_spec(volume_percent),
            r@[2].program@ == "amixer"@,
            r@[2].args@.len() == 3,
            r@[2].args@[0]@ == "set"@,
            r@[2].args@[1]@ == "Master"@,
            r@[2].args@[2]@ == percent_arg_spec(volume_percent),
    {
        self.set_volume_with_commands(volume_percent)
    }

    /// Plans the `pactl` call that sets an application stream's volume:
    /// the listing of sink inputs is scanned for the application, and a
    /// match yields `pactl set-sink-input-volume <index> <percent>%`.
    /// No matching stream yields no command: an unmatched application
    /// is silently left alone.
    pub fn set_volume_for_app(&self, app_name: &str, volume_percent: u8, sink_inputs: &str) -> (r:
        Option<MixerCommand>)
        ensures
            match find_sink_input_spec(lines_spec(sink_inputs@), lower_of(app_name@), None) {
                Some(idx) => r matches Some(c) && c.program@ == "pactl"@ && c.args@.len() == 3
                    && c.args@[0]@ == "set-sink-input-volume"@ && c.args@[1]@ == dec_rep(idx as nat)
                    && c.args@[2]@ == percent_arg_spec(volume_percent),
                None => r is None,
            },
    {
        let chars = str_chars(sink_inputs);
        let lines = split_lines(&chars);
        let ghost ls = lines_spec(sink_inputs@);
        let name_chars = str_chars(app_name);
        let app_lower = fold_lower_chars(&name_chars);
        let needle_sink = str_chars("Sink Input #");
        let needle_name = str_chars("application.name");
        let needle_binary = str_chars("application.process.binary");
        let n = lines.len();
        let mut current: Option<u32> = None;
        let mut t: usize = 0;
        proof {
            assert(ls.skip(0) =~= ls);
        }
        while t < n
            invariant
                t <= n,
                n == lines@.len(),
                n == ls.len(),
                ls == lines_spec(sink_inputs@),
                forall|u: int| 0 <= u < ls.len() ==> (#[trigger] lines@[u])@ == ls[u],
                app_lower@ == lower_of(app_name@),
                needle_sink@ == "Sink Input #"@,
                needle_name@ == "application.name"@,
                needle_binary@ == "application.process.binary"@,
                find_sink_input_spec(ls, lower_of(app_name@), None) == find_sink_input_spec(
                    ls.skip(t as int),
                    lower_of(app_name@),
                    current,
                ),
            decreases n - t,
        {
            proof {
                assert(ls.skip(t as int)[0] == ls[t as int]);
                assert(ls.skip(t as int).drop_first() =~= ls.skip(t + 1));
            }
            let line = &lines[t];
            if contains_chars(line, &needle_sink) {
                current = parse_sink_index(line);
            } else {
                let mut name_match = false;
                if contains_chars(line, &needle_name) || contains_chars(line, &needle_binary) {
                    let folded = fold_lower_chars(line);
                    if contains_chars(&folded, &app_lower) {
                        name_match = true;
                    }
                }
                if name_match {
                    if let Some(idx) = current {
                        proof {
                            assert(!contains_seq(ls[t as int], "Sink Input #"@));
                            assert(contains_seq(ls[t as int], "application.name"@) || contains_seq(
                                ls[t as int],
                                "application.process.binary"@,
                            ));
                            assert(contains_seq(lower_of(ls[t as int]), lower_of(app_name@)));
                            assert(find_sink_input_spec(
                                ls.skip(t as int),
                                lower_of(app_name@),
                                current,
                            ) == Some(idx));
                        }
                        let idx_str = dec_u32(idx);
                        let cmd = make_command3(
                            "pactl",
                            "set-sink-input-volume",
                            idx_str.as_str(),
                            percent_arg(volume_percent),
                        );
                        return Some(cmd);
                    }
                }
            }
            t += 1;
        }
        proof {
            assert(ls.skip(n as int) =~= Seq::<Seq<char>>::empty());
        }
        None
    }

    /// The volume percentage of an application's stream, read from the
    /// `pactl list sink-inputs` listing; an application with no
    /// readable volume reports the 50% fallback.
    pub fn get_volume_for_app(&self, app_name: &str, sink_inputs: &str) -> (r: u8)
        ensures
            r == match find_app_volume_spec(lines_spec(sink_inputs@), lower_of(app_name@), false) {
                Some(v) => v,
                None => 50u8,
            },
    {
        let chars = str_chars(sink_inputs);
        let lines = split_lines(&chars);
        let ghost ls = lines_spec(sink_inputs@);
        let name_chars = str_chars(app_name);
        let app_lower = fold_lower_chars(&name_chars);
        let needle_sink = str_chars("Sink Input #");
        let needle_name = str_chars("application.name");
        let needle_binary = str_chars("application.process.binary");
        let needle_volume = str_chars("Volume:");
        let n = lines.len();
        let mut in_match = false;
        let mut t: usize = 0;
        proof {
            assert(ls.skip(0) =~= ls);
        }
        while t < n
            invariant
                t <= n,
                n == lines@.len(),
                n == ls.len(),
                ls == lines_spec(sink_inputs@),
                forall|u: int| 0 <= u < ls.len() ==> (#[trigger] lines@[u])@ == ls[u],
                app_lower@ == lower_of(app_name@),
                needle_sink@ == "Sink Input #"@,
                needle_name@ == "application.name"@,
                needle_binary@ == "application.process.binary"@,
                needle_volume@ == "Volume:"@,
                find_app_volume_spec(ls, lower_of(app_name@), false) == find_app_volume_spec(
                    ls.skip(t as int),
                    lower_of(app_name@),
                    in_match,
                ),
            decreases n - t,
        {
            proof {
                assert(ls.skip(t as int)[0] == ls[t as int]);
                assert(ls.skip(t as int).drop_first() =~= ls.skip(t + 1));
            }
            let line = &lines[t];
            if contains_chars(line, &needle_sink) {
                in_match = false;
            } else {
                let mut name_match = false;
                if contains_chars(line, &needle_name) || contains_chars(line, &needle_binary) {
                    let folded = fold_lower_chars(line);
                    if contains_chars(&folded, &app_lower) {
                        name_match = true;
                    }
                }
                if name_match {
                    in_match = true;
                } else if in_match && contains_chars(line, &needle_volume) {
                    let parts = split_on_char(line, '/');
                    let got = first_percent(&parts, Ghost(split_on_spec(ls[t as int], '/')));
                    if let Some(v) = got {
                        proof {
                            assert(!contains_seq(ls[t as int], "Sink Input #"@));
                            assert(!((contains_seq(ls[t as int], "application.name"@)
                                || contains_seq(ls[t as int], "application.process.binary"@))
                                && contains_seq(lower_of(ls[t as int]), lower_of(app_name@))));
                            assert(contains_seq(ls[t as int], "Volume:"@));
                            assert(find_app_volume_spec(
                                ls.skip(t as int),
                                lower_of(app_name@),
                                in_match,
                            ) == Some(v));
                        }
                        return v;
                    }
                }
            }
            t += 1;
        }
        proof {
            assert(ls.skip(n as int) =~= Seq::<Seq<char>>::empty());
        }
        50
    }
}

fn make_command3(program: &str, arg0: &str, arg1: &str, arg2: String) -> (c: MixerCommand)
    ensures
        c.program@ == program@,
        c.args@.len() == 3,
        c.args@[0]@ == arg0@,
        c.args@[1]@ == arg1@,
        c.args@[2]@ == arg2@,
{
    let mut args: Vec<String> = Vec::new();
    args.push(String::from_str(arg0));
    args.push(String::from_str(arg1));
    args.push(arg2);
    MixerCommand { program: String::from_str(program), args }
}

} // verus!
