use exiometter::devices::{
    audio_app_entry, base_sink_name, format_device_name, get_port_description, get_sink_index,
    listing_devices, sink_devices, split_sink_name, DeviceInfo, EngineError, PortEntry, SinkEntry,
    SinkRef,
};

fn port(name: Option<&str>, description: Option<&str>) -> PortEntry {
    PortEntry { name: name.map(|s| s.to_string()), description: description.map(|s| s.to_string()) }
}

fn sink(name: Option<&str>, description: Option<&str>, ports: Vec<PortEntry>) -> SinkEntry {
    SinkEntry {
        name: name.map(|s| s.to_string()),
        description: description.map(|s| s.to_string()),
        ports,
    }
}

fn pairs(devices: &[DeviceInfo]) -> Vec<(String, String)> {
    devices.iter().map(|d| (d.name.clone(), d.description.clone())).collect()
}

#[test]
fn port_description_names_each_known_jack() {
    assert_eq!(get_port_description("analog-output-lineout", "x"), "🟢 Line Out (green jack)");
    assert_eq!(get_port_description("analog-output-headphones", "x"), "🎧 Headphones (green jack)");
    assert_eq!(get_port_description("analog-output-speaker-front", ""), "🟢 Front Speakers (green)");
    assert_eq!(get_port_description("speaker-rear", ""), "🔵 Rear Speakers (blue)");
    assert_eq!(get_port_description("speaker-surround", ""), "⚫ Surround (black)");
    assert_eq!(get_port_description("speaker-side", ""), "⚫ Side Speakers (gray)");
    assert_eq!(get_port_description("analog-output-center-lfe", ""), "🟠 Center + Sub (orange)");
    assert_eq!(get_port_description("analog-input-mic", ""), "🔴 Microphone (pink)");
    assert_eq!(get_port_description("analog-input-line-in", ""), "🔵 Line In (blue)");
}

#[test]
fn port_description_order_of_checks() {
    // "lineout" is checked before "headphones"
    assert_eq!(get_port_description("lineout-headphones", ""), "🟢 Line Out (green jack)");
    // a speaker port of no known position falls through to the description
    assert_eq!(get_port_description("analog-output-speaker", "Speakers"), "🔊 Speakers");
}

#[test]
fn port_description_falls_back_to_description_then_name() {
    assert_eq!(get_port_description("hdmi-output-0", "HDMI / DisplayPort"), "🔊 HDMI / DisplayPort");
    assert_eq!(get_port_description("hdmi-output-0", ""), "🔊 hdmi-output-0");
}

#[test]
fn device_name_drops_builtin_prefix_only() {
    assert_eq!(format_device_name("Built-in Audio Analog Stereo"), "Analog Stereo");
    assert_eq!(format_device_name("Built-in Audio Digital Stereo (HDMI)"), "Digital Stereo (HDMI)");
    assert_eq!(format_device_name("USB Headphones"), "USB Headphones");
    assert_eq!(format_device_name("Built-in Audio"), "Built-in Audio");
}

#[test]
fn sink_with_analog_ports_gives_one_device_per_analog_port() {
    let s = sink(
        Some("alsa_output.pci-0000_00_1f.3.analog-stereo"),
        Some("Built-in Audio Analog Stereo"),
        vec![
            port(Some("analog-output-lineout"), Some("Line Out")),
            port(Some("hdmi-output-0"), Some("HDMI")),
            port(Some("analog-output-headphones"), None),
            port(None, Some("nameless")),
        ],
    );
    let devices = sink_devices(&s);
    assert_eq!(
        pairs(&devices),
        vec![
            (
                "alsa_output.pci-0000_00_1f.3.analog-stereo#analog-output-lineout".to_string(),
                "Analog Stereo - 🟢 Line Out (green jack)".to_string()
            ),
            (
                "alsa_output.pci-0000_00_1f.3.analog-stereo#analog-output-headphones".to_string(),
                "Analog Stereo - 🎧 Headphones (green jack)".to_string()
            ),
        ]
    );
}

#[test]
fn analog_port_without_known_jack_uses_its_description() {
    let s = sink(Some("card"), Some("Card"), vec![port(Some("analog-output"), None)]);
    assert_eq!(
        pairs(&sink_devices(&s)),
        vec![("card#analog-output".to_string(), "Card - 🔊 analog-output".to_string())]
    );
}

#[test]
fn sink_without_analog_ports_is_offered_itself() {
    let s = sink(
        Some("alsa_output.pci-0000_01_00.1.hdmi-stereo"),
        Some("Built-in Audio Digital Stereo (HDMI)"),
        vec![port(Some("hdmi-output-0"), Some("HDMI"))],
    );
    assert_eq!(
        pairs(&sink_devices(&s)),
        vec![(
            "alsa_output.pci-0000_01_00.1.hdmi-stereo".to_string(),
            "Digital Stereo (HDMI)".to_string()
        )]
    );
}

#[test]
fn nameless_sink_is_unknown_and_undescribed_sink_uses_its_name() {
    let s = sink(None, None, vec![]);
    assert_eq!(pairs(&sink_devices(&s)), vec![("unknown".to_string(), "unknown".to_string())]);
    let s = sink(Some("bluez_sink.XX"), None, vec![]);
    assert_eq!(pairs(&sink_devices(&s)), vec![("bluez_sink.XX".to_string(), "bluez_sink.XX".to_string())]);
}

#[test]
fn own_combined_sink_is_never_offered() {
    let s = sink(
        Some("exiometter_combined"),
        Some("Combined"),
        vec![port(Some("analog-output-lineout"), None)],
    );
    assert!(sink_devices(&s).is_empty());
    let s = sink(Some("exiometter_combined.monitor"), None, vec![]);
    assert!(sink_devices(&s).is_empty());
}

#[test]
fn listing_concatenates_sinks_in_order() {
    let sinks = vec![
        sink(Some("a"), Some("A"), vec![]),
        sink(Some("exiometter_combined"), None, vec![]),
        sink(Some("b"), Some("B"), vec![port(Some("analog-output-speaker-rear"), None)]),
    ];
    assert_eq!(
        pairs(&listing_devices(&sinks)),
        vec![
            ("a".to_string(), "A".to_string()),
            ("b#analog-output-speaker-rear".to_string(), "B - 🔵 Rear Speakers (blue)".to_string()),
        ]
    );
    assert!(listing_devices(&Vec::new()).is_empty());
}

#[test]
fn device_names_split_into_sink_and_port() {
    assert_eq!(split_sink_name("card#analog-output-lineout"), ("card".to_string(), Some("analog-output-lineout".to_string())));
    assert_eq!(split_sink_name("card"), ("card".to_string(), None));
    assert_eq!(split_sink_name("a#b#c"), ("a".to_string(), Some("b".to_string())));
    assert_eq!(base_sink_name("card#port"), "card");
    assert_eq!(base_sink_name("card"), "card");
}

#[test]
fn offered_device_name_splits_back() {
    let s = sink(Some("card"), Some("Card"), vec![port(Some("analog-output-lineout"), None)]);
    let devices = sink_devices(&s);
    let (base, port_name) = split_sink_name(&devices[0].name);
    assert_eq!(base, "card");
    assert_eq!(port_name, Some("analog-output-lineout".to_string()));
}

#[test]
fn sink_index_is_looked_up_by_base_name_last_match_wins() {
    let sinks = vec![
        SinkRef { name: Some("a".to_string()), index: 1 },
        SinkRef { name: None, index: 2 },
        SinkRef { name: Some("b".to_string()), index: 3 },
        SinkRef { name: Some("a".to_string()), index: 4 },
    ];
    assert_eq!(get_sink_index(&sinks, "b"), Ok(3));
    assert_eq!(get_sink_index(&sinks, "b#analog-output"), Ok(3));
    assert_eq!(get_sink_index(&sinks, "a"), Ok(4));
    assert_eq!(get_sink_index(&sinks, "c"), Err(EngineError::SinkNotFound));
    assert_eq!(get_sink_index(&Vec::new(), "a"), Err(EngineError::SinkNotFound));
}

#[test]
fn error_messages() {
    assert_eq!(EngineError::NoDevices.message(), "Add at least one device");
    assert_eq!(EngineError::SinkNotFound.message(), "Sink not found");
    assert_eq!(EngineError::ModuleLoadFailed.message(), "Failed to load combine-sink module");
}

#[test]
fn app_entry_label_prefers_application_then_media_then_index() {
    let e = audio_app_entry(&Some("Firefox".to_string()), &Some("Video".to_string()), 7, 0.5f32, false).unwrap();
    assert_eq!((e.name.as_str(), e.index, e.volume, e.muted), ("Firefox", 7, 0.5f32, false));
    let e = audio_app_entry(&None, &Some("Video".to_string()), 8, 1.0f32, true).unwrap();
    assert_eq!((e.name.as_str(), e.index, e.muted), ("Video", 8, true));
    let e = audio_app_entry::<f32>(&None, &None, 42, 0.25, false).unwrap();
    assert_eq!(e.name, "Application 42");
}

#[test]
fn own_streams_are_left_out_of_the_app_mixer() {
    assert!(audio_app_entry(&Some("exIOMetter".to_string()), &None, 1, 1.0f32, false).is_none());
    assert!(audio_app_entry(&None, &Some("to exiometter_combined".to_string()), 1, 1.0f32, false).is_none());
    assert!(audio_app_entry(&Some("exiometter".to_string()), &None, 1, 1.0f32, false).is_some());
}

#[test]
fn word_replaced_by_itself_is_unchanged() {
    assert_eq!(format_device_name("Analog Stereo"), "Analog Stereo");
    assert_eq!(format_device_name("HDMI Headphones Digital Stereo"), "HDMI Headphones Digital Stereo");
}

#[test]
fn own_sink_never_listed_even_with_ports() {
    let sinks = vec![
        sink(Some("exiometter_combined"), None, vec![port(Some("analog-output"), None)]),
        sink(Some("exiometter"), None, vec![port(Some("analog-output"), None)]),
    ];
    let devices = listing_devices(&sinks);
    assert_eq!(devices.len(), 1);
    assert!(devices.iter().all(|d| !d.name.starts_with("exiometter_combined")));
}
