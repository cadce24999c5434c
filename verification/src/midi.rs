//! MIDI message handling for the nanoKontrol2 controller: recognising
//! the device's ports, parsing incoming control-change messages, and
//! building the outgoing LED messages.
//!
//! Opening ports and moving bytes is device I/O and stays outside the
//! library; it hands raw message bytes in and takes message bytes out.

use vstd::prelude::*;
use crate::textutil::contains_chars;
use crate::textutil::contains_seq;
use crate::textutil::fold_lower_chars;
use crate::textutil::lower_of;
use crate::textutil::str_chars;

verus! {

/// A parsed MIDI message the controller cares about.
#[derive(Debug, Clone, Copy, PartialEq, Eq, Structural)]
pub enum MidiMessage {
    /// A control-change message on channel 0.
    ControlChange { cc: u8, value: u8 },
}

/// The parsing half of the MIDI input listener; the device callback
/// hands it each raw message.
pub struct MidiListener {
}

impl MidiListener {
    /// Parses one raw MIDI message: a status byte `0xB0` (control
    /// change, channel 0) yields the controller number and value from
    /// the next two bytes; anything else is ignored.
    pub fn parse_message(data: &[u8]) -> (r: Option<MidiMessage>)
        requires
            data@.len() >= 3,
        ensures
            data@[0] == 0xB0 ==> r == Some(
                MidiMessage::ControlChange { cc: data@[1], value: data@[2] },
            ),
            data@[0] != 0xB0 ==> r is None,
    {
        let status = data[0];
        let controller = data[1];
        let value = data[2];
        if status == 0xB0 {
            Some(MidiMessage::ControlChange { cc: controller, value })
        } else {
            None
        }
    }
}

/// Whether a port name, case-folded, names the controller.
pub open spec fn controller_port_spec(name: Seq<char>) -> bool {
    contains_seq(lower_of(name), "nanokontrol"@) || contains_seq(lower_of(name), "korg"@)
}

/// Whether `name` is a port of the controller: its lowercased name
/// mentions the device or its maker.
pub fn is_controller_port(name: &str) -> (r: bool)
    ensures
        r == controller_port_spec(name@),
{
    let chars = str_chars(name);
    let folded = fold_lower_chars(&chars);
    let needle_a = str_chars("nanokontrol");
    let needle_b = str_chars("korg");
    contains_chars(&folded, &needle_a) || contains_chars(&folded, &needle_b)
}

/// The three bytes of a control-change message on channel 0, as sent
/// for LED feedback: status `0xB0`, controller, value.
pub fn control_change_bytes(cc: u8, value: u8) -> (r: Vec<u8>)
    ensures
        r@ == seq![0xB0u8, cc, value],
{
    let mut r: Vec<u8> = Vec::new();
    r.push(0xB0);
    r.push(cc);
    r.push(value);
    proof {
        assert(r@ =~= seq![0xB0u8, cc, value]);
    }
    r
}

} // verus!
