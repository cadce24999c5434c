use korg_spectrum::config::AudioConfig;
use korg_spectrum::config::Config;
use korg_spectrum::config::LoggingConfig;
use korg_spectrum::config::MidiControlsConfig;
use korg_spectrum::config::UiConfig;
use korg_spectrum::config::parse_cc_key;

fn sample_config() -> Config {
    Config {
        midi_controls: MidiControlsConfig {
            sinks: vec![
                ("cc_5".to_string(), "  alpha_sink ".to_string()),
                ("cc_2".to_string(), "beta_sink".to_string()),
                ("volume".to_string(), "ignored".to_string()),
                ("cc_2".to_string(), "gamma_sink".to_string()),
            ],
            applications: vec![
                ("cc_7".to_string(), "Some App".to_string()),
                ("cc_5".to_string(), "Override App".to_string()),
            ],
            mute_buttons: vec![
                ("cc_64".to_string(), 2u8),
                ("cc_48".to_string(), 5u8),
                ("bad".to_string(), 9u8),
            ],
        },
        audio: AudioConfig {
            use_pipewire: Some(false),
            default_sink: Some("main".to_string()),
            volume_control_mode: None,
            volume_curve: Some("linear".to_string()),
            debounce_ms: Some(25),
            applications_sink_search: None,
        },
        ui: UiConfig {
            window_width: Some(800),
            window_height: None,
            theme: Some("dark".to_string()),
            show_console: Some(true),
            max_console_lines: Some(50),
        },
        logging: LoggingConfig {
            enabled: Some(false),
            log_level: None,
            timestamps: Some(false),
            log_fader_events: None,
            log_device_info: Some(true),
        },
    }
}

#[test]
fn cc_keys_parse_like_rust_numerals() {
    assert_eq!(parse_cc_key("cc_0"), Some(0));
    assert_eq!(parse_cc_key("cc_127"), Some(127));
    assert_eq!(parse_cc_key("cc_255"), Some(255));
    assert_eq!(parse_cc_key("cc_256"), None);
    assert_eq!(parse_cc_key("cc_+7"), Some(7));
    assert_eq!(parse_cc_key("cc_007"), Some(7));
    assert_eq!(parse_cc_key("cc_"), None);
    assert_eq!(parse_cc_key("cc_x"), None);
    assert_eq!(parse_cc_key("CC_1"), None);
    assert_eq!(parse_cc_key("cc"), None);
    assert_eq!(parse_cc_key("cc_-1"), None);
}

#[test]
fn cc_mapping_trims_and_prefers_applications() {
    let config = sample_config();
    let mapping = config.get_cc_mapping();
    assert_eq!(mapping.len(), 3);
    // Later sink entry wins for a repeated controller.
    assert_eq!(mapping.get(&2).map(|s| s.as_str()), Some("gamma_sink"));
    // An application entry overrides the sink entry for the same controller.
    assert_eq!(mapping.get(&5).map(|s| s.as_str()), Some("Override App"));
    assert_eq!(mapping.get(&7).map(|s| s.as_str()), Some("Some App"));
    assert_eq!(mapping.get(&64), None);
}

#[test]
fn sink_labels_come_sorted_and_trimmed() {
    let config = sample_config();
    let labels = config.get_sink_labels();
    let flat: Vec<(u8, &str)> = labels.iter().map(|(cc, s)| (*cc, s.as_str())).collect();
    assert_eq!(flat, vec![(2, "beta_sink"), (2, "gamma_sink"), (5, "alpha_sink")]);
}

#[test]
fn app_labels_come_sorted() {
    let config = sample_config();
    let labels = config.get_app_labels();
    let flat: Vec<(u8, &str)> = labels.iter().map(|(cc, s)| (*cc, s.as_str())).collect();
    assert_eq!(flat, vec![(5, "Override App"), (7, "Some App")]);
}

#[test]
fn mute_button_mappings_keep_parsed_keys() {
    let config = sample_config();
    let mappings = config.get_mute_button_mappings();
    assert_eq!(mappings.len(), 2);
    assert_eq!(mappings.get(&64), Some(&2));
    assert_eq!(mappings.get(&48), Some(&5));
}

#[test]
fn default_config_matches_shipped_settings() {
    let config = Config::default();
    assert_eq!(config.midi_controls.sinks.len(), 2);
    assert_eq!(config.midi_controls.sinks[0].0, "cc_0");
    assert_eq!(config.midi_controls.sinks[0].1, "alsa_output.pci-0000_25_00.0.analog-stereo");
    assert_eq!(config.midi_controls.sinks[1].0, "cc_1");
    assert_eq!(config.midi_controls.sinks[1].1, "comms_sink");
    assert!(config.midi_controls.applications.is_empty());
    assert!(config.midi_controls.mute_buttons.is_empty());
    assert_eq!(config.audio.use_pipewire, Some(true));
    assert_eq!(config.audio.debounce_ms, Some(10));
    assert_eq!(config.ui.window_width, Some(1000));
    assert_eq!(config.ui.window_height, Some(600));
    assert_eq!(config.ui.max_console_lines, Some(1000));
    assert_eq!(config.logging.enabled, Some(true));
    assert_eq!(config.logging.log_level.as_deref(), Some("info"));
}

#[test]
fn toml_rendering_parses_back() {
    let config = Config::default();
    let rendered = config.to_toml_string();
    let table: toml::Table = toml::from_str(&rendered).expect("rendered config must parse");
    let controls = table["midi_controls"].as_table().unwrap();
    let sinks = controls["sinks"].as_table().unwrap();
    assert_eq!(
        sinks["cc_0"].as_str(),
        Some("alsa_output.pci-0000_25_00.0.analog-stereo")
    );
    assert_eq!(sinks["cc_1"].as_str(), Some("comms_sink"));
    let audio = table["audio"].as_table().unwrap();
    assert_eq!(audio["use_pipewire"].as_bool(), Some(true));
    assert_eq!(audio["debounce_ms"].as_integer(), Some(10));
    assert_eq!(audio["volume_control_mode"].as_str(), Some("pipewire-api"));
    let ui = table["ui"].as_table().unwrap();
    assert_eq!(ui["window_width"].as_integer(), Some(1000));
    assert_eq!(ui["theme"].as_str(), Some("default"));
    let logging = table["logging"].as_table().unwrap();
    assert_eq!(logging["log_level"].as_str(), Some("info"));
    assert_eq!(logging["timestamps"].as_bool(), Some(true));
}

#[test]
fn toml_rendering_sorts_entries_by_controller() {
    let mut config = Config::default();
    config.midi_controls.sinks = vec![
        ("cc_9".to_string(), "nine".to_string()),
        ("cc_1".to_string(), "one".to_string()),
        ("cc_30".to_string(), "thirty".to_string()),
    ];
    let rendered = config.to_toml_string();
    let p1 = rendered.find("cc_1 = \"one\"").expect("cc_1 line");
    let p9 = rendered.find("cc_9 = \"nine\"").expect("cc_9 line");
    let p30 = rendered.find("cc_30 = \"thirty\"").expect("cc_30 line");
    assert!(p1 < p9 && p9 < p30);
}

#[test]
fn toml_rendering_skips_absent_settings() {
    let config = sample_config();
    let rendered = config.to_toml_string();
    assert!(!rendered.contains("volume_control_mode ="));
    assert!(!rendered.contains("applications_sink_search ="));
    assert!(!rendered.contains("window_height ="));
    assert!(!rendered.contains("log_level ="));
    assert!(rendered.contains("use_pipewire = false"));
    assert!(rendered.contains("debounce_ms = 25"));
    assert!(rendered.contains("theme = \"dark\""));
}

#[test]
fn ui_state_round_trips_into_config() {
    let sinks = vec![(0u8, "main".to_string()), (1u8, "comms".to_string())];
    let apps = vec![(16u8, "browser".to_string())];
    let mutes = vec![(64u8, 0u8)];
    let config = Config::from_ui_state(
        &sinks, &apps, &mutes, true, "main", "pw-volume", "linear", 15, 20, 640, 480, "light",
        false, 200, true, "debug", false, true, false,
    );
    assert_eq!(config.midi_controls.sinks[0].0, "cc_0");
    assert_eq!(config.midi_controls.sinks[1].0, "cc_1");
    assert_eq!(config.midi_controls.sinks[1].1, "comms");
    assert_eq!(config.midi_controls.applications[0].0, "cc_16");
    assert_eq!(config.midi_controls.mute_buttons[0], ("cc_64".to_string(), 0u8));
    assert_eq!(config.audio.default_sink.as_deref(), Some("main"));
    assert_eq!(config.audio.debounce_ms, Some(15));
    assert_eq!(config.ui.theme.as_deref(), Some("light"));
    assert_eq!(config.logging.log_level.as_deref(), Some("debug"));
    let mapping = config.get_cc_mapping();
    assert_eq!(mapping.get(&16).map(|s| s.as_str()), Some("browser"));
}

#[test]
fn targets_are_trimmed_of_unicode_whitespace() {
    let mut config = Config::default();
    config.midi_controls.sinks = vec![("cc_3".to_string(), "\u{00A0}padded\u{00A0}".to_string())];
    let mapping = config.get_cc_mapping();
    assert_eq!(mapping.get(&3).map(|s| s.as_str()), Some("padded"));
}
