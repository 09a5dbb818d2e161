use exiometter::devices::{EngineError, PortEntry, SinkEntry, SinkRef};
use exiometter::engine::{
    connect_step, level_update, limit_volume, AudioEngine, ConnectStep, ContextState, LevelUpdate,
};

fn engine_with(names: &[&str]) -> AudioEngine<f32> {
    let mut e = AudioEngine::new();
    for (i, n) in names.iter().enumerate() {
        e.add_sink(n, &format!("desc {}", i), i as u32 + 10, 1.0, 0.0);
    }
    e
}

fn channel_names(e: &AudioEngine<f32>) -> Vec<String> {
    e.selected_sinks().iter().map(|c| c.info.name.clone()).collect()
}

#[test]
fn new_engine_is_empty_and_stopped() {
    let e: AudioEngine<f32> = AudioEngine::new();
    assert_eq!(e.combined_sink_name(), "exiometter_combined");
    assert!(!e.is_active());
    assert_eq!(e.module_index(), None);
    assert!(e.available_sinks().is_empty());
    assert!(e.selected_sinks().is_empty());
}

#[test]
fn add_sink_appends_an_unmuted_channel() {
    let mut e: AudioEngine<f32> = AudioEngine::new();
    e.add_sink("card#analog-output-lineout", "Card - Line Out", 5, 1.0, 0.0);
    let ch = &e.selected_sinks()[0];
    assert_eq!(ch.info.name, "card#analog-output-lineout");
    assert_eq!(ch.info.description, "Card - Line Out");
    assert_eq!(ch.sink_index, 5);
    assert_eq!(ch.volume, 1.0);
    assert_eq!(ch.audio_level, 0.0);
    assert!(!ch.muted);
}

#[test]
fn remove_sink_keeps_order_and_ignores_bad_index() {
    let mut e = engine_with(&["a", "b", "c"]);
    e.remove_sink(1);
    assert_eq!(channel_names(&e), vec!["a", "c"]);
    e.remove_sink(2);
    assert_eq!(channel_names(&e), vec!["a", "c"]);
    e.remove_sink(0);
    assert_eq!(channel_names(&e), vec!["c"]);
}

#[test]
fn add_then_remove_last_restores_channels() {
    let mut e = engine_with(&["a", "b"]);
    e.add_sink("x", "X", 99, 0.5, 0.1);
    e.remove_sink(2);
    assert_eq!(channel_names(&e), vec!["a", "b"]);
}

#[test]
fn start_without_channels_is_refused() {
    let e: AudioEngine<f32> = AudioEngine::new();
    assert_eq!(e.prepare_start(), Err(EngineError::NoDevices));
}

#[test]
fn start_arguments_name_each_channel_sink() {
    let e = engine_with(&["alsa_a#analog-output-lineout", "alsa_b", "alsa_a#analog-output-headphones"]);
    assert_eq!(
        e.prepare_start().unwrap(),
        "sink_name=exiometter_combined slaves=alsa_a,alsa_b,alsa_a adjust_time=0 resample_method=trivial"
    );
    let one = engine_with(&["only"]);
    assert_eq!(
        one.prepare_start().unwrap(),
        "sink_name=exiometter_combined slaves=only adjust_time=0 resample_method=trivial"
    );
}

#[test]
fn slaves_split_back_into_channel_sinks() {
    let e = engine_with(&["s1#p", "s2", "s3#q#r"]);
    let args = e.prepare_start().unwrap();
    let slaves = args.split(" slaves=").nth(1).unwrap().split(' ').next().unwrap();
    let parts: Vec<&str> = slaves.split(',').collect();
    assert_eq!(parts, vec!["s1", "s2", "s3"]);
}

#[test]
fn finish_start_records_module_and_plans_settings() {
    let mut e = engine_with(&["a", "b"]);
    let _ = e.edit_channel(1, Some(1.5), true, true);
    let plan = e.finish_start(Some(17)).unwrap();
    assert!(e.is_active());
    assert_eq!(e.module_index(), Some(17));
    assert_eq!(plan.default_sink, "exiometter_combined");
    assert_eq!(plan.settings, vec![(10, 1.0, false), (11, 1.5, true)]);
}

#[test]
fn failed_module_load_changes_nothing() {
    let mut e = engine_with(&["a"]);
    assert_eq!(e.finish_start(None).err(), Some(EngineError::ModuleLoadFailed));
    assert!(!e.is_active());
    assert_eq!(channel_names(&e), vec!["a"]);
}

#[test]
fn stop_plan_restores_first_channel_sink() {
    let mut e = engine_with(&["card#port", "b"]);
    assert!(e.stop_plan().is_none());
    let _ = e.finish_start(Some(3));
    let plan = e.stop_plan().unwrap();
    assert_eq!(plan.module_index, 3);
    assert_eq!(plan.restore_default, Some("card".to_string()));
    e.finish_stop();
    assert!(!e.is_active());
    assert!(e.stop_plan().is_none());
}

#[test]
fn stop_plan_without_channels_restores_nothing() {
    let mut e = engine_with(&["a"]);
    let _ = e.finish_start(Some(9));
    e.remove_sink(0);
    let plan = e.stop_plan().unwrap();
    assert_eq!(plan.module_index, 9);
    assert_eq!(plan.restore_default, None);
}

#[test]
fn start_then_stop_returns_to_stopped() {
    let mut e = engine_with(&["a"]);
    let _ = e.finish_start(Some(1));
    e.finish_stop();
    assert!(!e.is_active());
    assert_eq!(e.module_index(), None);
    assert_eq!(channel_names(&e), vec!["a"]);
}

#[test]
fn edits_apply_only_while_running() {
    let mut e = engine_with(&["a"]);
    let u = e.edit_channel(0, Some(0.3), true, false);
    assert!(u.volume.is_none() && u.mute.is_none());
    assert_eq!(e.selected_sinks()[0].volume, 1.0);
    assert!(!e.selected_sinks()[0].muted);

    let u = e.edit_channel(0, Some(0.3), true, true);
    assert_eq!(u.volume, Some((10, 0.3)));
    assert_eq!(u.mute, Some((10, true)));
    assert_eq!(e.selected_sinks()[0].volume, 0.3);
    assert!(e.selected_sinks()[0].muted);

    let u = e.edit_channel(0, None, true, true);
    assert!(u.volume.is_none() && u.mute.is_none());
}

#[test]
fn level_meter_is_set_per_channel() {
    let mut e = engine_with(&["a", "b"]);
    e.set_audio_level(1, 0.75);
    assert_eq!(e.selected_sinks()[1].audio_level, 0.75);
    assert_eq!(e.selected_sinks()[0].audio_level, 0.0);
}

#[test]
fn list_sinks_records_the_offered_devices() {
    let mut e: AudioEngine<f32> = AudioEngine::new();
    let listing = vec![
        SinkEntry { name: Some("a".to_string()), description: Some("A".to_string()), ports: vec![] },
        SinkEntry {
            name: Some("b".to_string()),
            description: None,
            ports: vec![PortEntry { name: Some("analog-output-mic".to_string()), description: None }],
        },
    ];
    let found = e.list_sinks(&listing);
    let names: Vec<String> = found.iter().map(|d| d.name.clone()).collect();
    assert_eq!(names, vec!["a", "b#analog-output-mic"]);
    assert_eq!(found[1].description, "b - 🔴 Microphone (pink)");
    assert_eq!(e.available_sinks().len(), 2);
    assert_eq!(e.available_sinks()[1].name, "b#analog-output-mic");
}

#[test]
fn volume_is_capped_at_twice_normal() {
    assert_eq!(limit_volume(0, 65536), 0);
    assert_eq!(limit_volume(65536, 65536), 65536);
    assert_eq!(limit_volume(131072, 65536), 131072);
    assert_eq!(limit_volume(131073, 65536), 131072);
    assert_eq!(limit_volume(u32::MAX, 65536), 131072);
}

#[test]
fn connection_steps() {
    assert_eq!(connect_step(ContextState::Ready), ConnectStep::Connected);
    assert_eq!(connect_step(ContextState::Failed), ConnectStep::GiveUp);
    assert_eq!(connect_step(ContextState::Terminated), ConnectStep::GiveUp);
    assert_eq!(connect_step(ContextState::Unconnected), ConnectStep::Wait);
    assert_eq!(connect_step(ContextState::Connecting), ConnectStep::Wait);
    assert_eq!(connect_step(ContextState::Authorizing), ConnectStep::Wait);
    assert_eq!(connect_step(ContextState::SettingName), ConnectStep::Wait);
}

#[test]
fn level_meter_rules() {
    assert_eq!(level_update(false, false, false), LevelUpdate::FadeWhileStopped);
    assert_eq!(level_update(false, true, true), LevelUpdate::FadeWhileStopped);
    assert_eq!(level_update(true, true, false), LevelUpdate::FadeWhileSilent);
    assert_eq!(level_update(true, false, true), LevelUpdate::FadeWhileSilent);
    assert_eq!(level_update(true, false, false), LevelUpdate::FollowVolume);
}

#[test]
fn selected_sinks_can_be_edited_in_place() {
    let mut e = engine_with(&["a", "b"]);
    e.get_selected_sinks_mut()[1].volume = 0.4;
    assert_eq!(e.selected_sinks()[1].volume, 0.4);
    e.get_selected_sinks_mut().pop();
    assert_eq!(channel_names(&e), vec!["a"]);
}

#[test]
fn stop_plan_restores_plain_sink_name_as_is() {
    let mut e = engine_with(&["alsa_output.hdmi", "card#port"]);
    let _ = e.finish_start(Some(2));
    assert_eq!(e.stop_plan().unwrap().restore_default, Some("alsa_output.hdmi".to_string()));
}

#[test]
fn listed_sink_is_added_with_its_port() {
    let mut e: AudioEngine<f32> = AudioEngine::new();
    let sinks = vec![
        SinkRef { name: Some("card".to_string()), index: 3 },
        SinkRef { name: Some("hdmi".to_string()), index: 7 },
    ];
    let added = e.add_listed_sink(&sinks, "card#analog-output-lineout", "Card", 1.0, 0.0).unwrap();
    assert_eq!(added.sink_index, 3);
    assert_eq!(added.port, Some("analog-output-lineout".to_string()));
    let added = e.add_listed_sink(&sinks, "hdmi", "HDMI", 0.5, 0.0).unwrap();
    assert_eq!((added.sink_index, added.port), (7, None));
    assert_eq!(channel_names(&e), vec!["card#analog-output-lineout", "hdmi"]);
    assert_eq!(e.selected_sinks()[1].sink_index, 7);
}

#[test]
fn unlisted_sink_is_not_added() {
    let mut e = engine_with(&["a"]);
    let sinks = vec![SinkRef { name: Some("card".to_string()), index: 3 }];
    assert_eq!(
        e.add_listed_sink(&sinks, "missing#port", "M", 1.0, 0.0).err(),
        Some(EngineError::SinkNotFound)
    );
    assert_eq!(channel_names(&e), vec!["a"]);
}
