use korg_spectrum::midi::control_change_bytes;
use korg_spectrum::midi::is_controller_port;
use korg_spectrum::midi::MidiListener;
use korg_spectrum::midi::MidiMessage;
use korg_spectrum::pipewire::PipeWireController;
use korg_spectrum::pipewire::volume_percent_from_pactl;
use korg_spectrum::router::midi_to_percent;
use korg_spectrum::router::should_update_volume;
use korg_spectrum::router::FaderBank;

#[test]
fn control_change_messages_parse() {
    let msg = MidiListener::parse_message(&[0xB0, 7, 100]);
    assert!(matches!(msg, Some(MidiMessage::ControlChange { cc: 7, value: 100 })));
    let other = MidiListener::parse_message(&[0x90, 60, 100]);
    assert!(other.is_none());
    let long = MidiListener::parse_message(&[0xB0, 0, 127, 9]);
    assert!(matches!(long, Some(MidiMessage::ControlChange { cc: 0, value: 127 })));
}

#[test]
fn controller_ports_match_case_insensitively() {
    assert!(is_controller_port("KORG nanoKONTROL2 MIDI 1"));
    assert!(is_controller_port("nanokontrol2 28:0"));
    assert!(is_controller_port("Korg Inc. device"));
    assert!(!is_controller_port("Midi Through Port-0"));
    assert!(!is_controller_port(""));
}

#[test]
fn led_messages_are_control_changes() {
    assert_eq!(control_change_bytes(64, 127), vec![0xB0, 64, 127]);
    assert_eq!(control_change_bytes(32, 0), vec![0xB0, 32, 0]);
}

#[test]
fn midi_values_convert_like_float_scaling() {
    for value in 0u8..=127 {
        let float_way = ((value as f32) * (100.0 / 127.0)) as u8;
        assert_eq!(midi_to_percent(value), float_way, "value {}", value);
    }
    assert_eq!(midi_to_percent(127), 100);
    assert_eq!(midi_to_percent(0), 0);
}

#[test]
fn debounce_drops_repeats_and_fast_changes() {
    // First update always goes through.
    assert!(should_update_volume(None, None, 1000, 10, 40));
    // Same value is dropped.
    assert!(!should_update_volume(Some(40), Some(0), 1000, 10, 40));
    // Changed value inside the debounce window is dropped.
    assert!(!should_update_volume(Some(40), Some(995), 1000, 10, 41));
    // Changed value after the window goes through.
    assert!(should_update_volume(Some(40), Some(990), 1000, 10, 41));
    // Changed value with no recorded time goes through.
    assert!(should_update_volume(Some(40), None, 1000, 10, 41));
}

#[test]
fn mute_toggle_saves_and_restores_volume() {
    let mut bank = FaderBank::new(3);
    bank.set_value(1, 100);
    let (muted, sent) = bank.toggle_mute(1);
    assert!(muted);
    assert_eq!(sent, 0);
    assert_eq!(bank.values[1], 0);
    assert_eq!(bank.muted_volume[1], 100);
    assert!(bank.muted[1]);
    // Other faders untouched.
    assert_eq!(bank.values[0], 0);
    assert!(!bank.muted[2]);
    let (muted_again, sent_again) = bank.toggle_mute(1);
    assert!(!muted_again);
    assert_eq!(bank.values[1], 100);
    assert!(!bank.muted[1]);
    assert_eq!(sent_again, midi_to_percent(100));
}

const LISTING: &str = "Sink Input #42\n\
\tapplication.name = \"Google Chrome\"\n\
\tVolume: front-left: 65536 /  100% / 0.00 dB,   front-right: 65536 /  100% / 0.00 dB\n\
Sink Input #57\n\
\tapplication.process.binary = \"spotify\"\n\
\tVolume: front-left: 32768 /  50% / -18.06 dB\n";

#[test]
fn app_volume_command_targets_matching_sink_input() {
    let controller = PipeWireController::new(false);
    let cmd = controller
        .set_volume_for_app("chrome", 30, LISTING)
        .expect("chrome stream should match");
    assert_eq!(cmd.program, "pactl");
    let args: Vec<&str> = cmd.args.iter().map(|s| s.as_str()).collect();
    assert_eq!(args, vec!["set-sink-input-volume", "42", "30%"]);

    let spotify = controller
        .set_volume_for_app("SPOTIFY", 80, LISTING)
        .expect("binary name should match case-folded");
    let args: Vec<&str> = spotify.args.iter().map(|s| s.as_str()).collect();
    assert_eq!(args, vec!["set-sink-input-volume", "57", "80%"]);

    assert!(controller.set_volume_for_app("missing", 10, LISTING).is_none());
}

#[test]
fn app_volume_reads_percentage_from_listing() {
    let controller = PipeWireController::new(false);
    assert_eq!(controller.get_volume_for_app("Chrome", LISTING), 100);
    assert_eq!(controller.get_volume_for_app("spotify", LISTING), 50);
    // Unknown applications report the fallback.
    assert_eq!(controller.get_volume_for_app("missing", LISTING), 50);
}

#[test]
fn master_volume_plan_tries_each_mixer() {
    let controller = PipeWireController::new(true);
    let plan = controller.set_volume_percent(55);
    assert_eq!(plan.len(), 3);
    assert_eq!(plan[0].program, "wpctl");
    let args: Vec<&str> = plan[0].args.iter().map(|s| s.as_str()).collect();
    assert_eq!(args, vec!["set-volume", "@DEFAULT_AUDIO_SINK@", "55%"]);
    assert_eq!(plan[1].program, "pactl");
    let args: Vec<&str> = plan[1].args.iter().map(|s| s.as_str()).collect();
    assert_eq!(args, vec!["set-sink-volume", "@DEFAULT_SINK@", "55%"]);
    assert_eq!(plan[2].program, "amixer");
    let args: Vec<&str> = plan[2].args.iter().map(|s| s.as_str()).collect();
    assert_eq!(args, vec!["set", "Master", "55%"]);
}

#[test]
fn pactl_volume_output_parses() {
    assert_eq!(
        volume_percent_from_pactl("Volume: front-left: 65536 /  100% / 0.00 dB"),
        Some(100)
    );
    assert_eq!(
        volume_percent_from_pactl("Volume: front-left: 42598 /  65% / -11.22 dB"),
        Some(65)
    );
    assert_eq!(volume_percent_from_pactl("no percent here"), None);
}

#[test]
fn controller_discovery_stays_empty() {
    let mut controller = PipeWireController::new(false);
    assert!(controller.discover_apps().is_empty());
    assert!(controller.get_apps().is_empty());
}

#[test]
fn listings_with_crlf_line_endings_parse() {
    let listing = "Sink Input #7\r\n\tapplication.name = \"Chrome\"\r\n\tVolume: front-left: 26214 /  40% / -23.9 dB\r\n";
    let controller = PipeWireController::new(false);
    assert_eq!(controller.get_volume_for_app("chrome", listing), 40);
    let cmd = controller.set_volume_for_app("chrome", 12, listing).unwrap();
    let args: Vec<&str> = cmd.args.iter().map(|s| s.as_str()).collect();
    assert_eq!(args, vec!["set-sink-input-volume", "7", "12%"]);
}
