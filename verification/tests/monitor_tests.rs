use exiometter::monitor::{choose_monitor_source, is_monitor_of, monitor_variants, MonitorSource};

#[test]
fn variants_of_a_device_name() {
    assert_eq!(monitor_variants("out"), vec!["out", "out.monitor", "out_monitor"]);
}

#[test]
fn monitor_match_by_name_or_monitor_word() {
    assert!(is_monitor_of("Monitor of out", "out"));
    assert!(is_monitor_of("out.monitor", "out"));
    assert!(is_monitor_of("some monitor", "zzz"));
    assert!(!is_monitor_of("Microphone", "out"));
    assert!(!is_monitor_of("Monitor", "out"));
}

#[test]
fn empty_device_name_uses_default_input() {
    let inputs = vec![Some("x.monitor".to_string())];
    assert_eq!(choose_monitor_source("", &inputs), MonitorSource::DefaultInput);
}

#[test]
fn first_matching_input_is_chosen() {
    let inputs = vec![
        Some("Microphone".to_string()),
        None,
        Some("alsa_output.x.monitor".to_string()),
        Some("other monitor".to_string()),
    ];
    assert_eq!(choose_monitor_source("alsa_output.x", &inputs), MonitorSource::Input(2));
    // any input with "monitor" in its name is taken, the first one listed
    assert_eq!(choose_monitor_source("nothing", &inputs), MonitorSource::Input(2));
    let inputs = vec![Some("Microphone".to_string()), Some("Line In of out".to_string())];
    assert_eq!(choose_monitor_source("out", &inputs), MonitorSource::Input(1));
}

#[test]
fn no_match_falls_back_to_default_input() {
    let inputs = vec![Some("Microphone".to_string()), None];
    assert_eq!(choose_monitor_source("out", &inputs), MonitorSource::DefaultInput);
    assert_eq!(choose_monitor_source("out", &Vec::new()), MonitorSource::DefaultInput);
}

#[test]
fn suffixed_variants_add_nothing_to_the_plain_name() {
    for (candidate, name) in [
        ("alsa_output.x.monitor", "alsa_output.x"),
        ("alsa_output.x_monitor", "alsa_output.x"),
        ("Microphone", "alsa_output.x"),
        ("Monitor", "x"),
        ("some monitor", "y"),
        ("", ""),
    ] {
        let plain = candidate.contains(name) || candidate.contains("monitor");
        assert_eq!(is_monitor_of(candidate, name), plain);
    }
}
