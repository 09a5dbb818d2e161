use exiometter::devices::{AppAudioInfo, DeviceInfo};
use exiometter::keyed::refreshed_settings;
use std::collections::HashMap;
use exiometter::ui_state::{
    channel_number, channel_rows, channel_title, connection_status, device_count_line,
    device_list_due, device_log_line, start_stop_label, status_text, theme_label, ExIOMeterApp,
    MixerAction,
};

fn dev(name: &str, description: &str) -> DeviceInfo {
    DeviceInfo { name: name.to_string(), description: description.to_string() }
}

fn app(name: &str, index: u32, volume: f32, muted: bool) -> AppAudioInfo<f32> {
    AppAudioInfo { name: name.to_string(), index, volume, muted }
}

#[test]
fn opens_connected_with_listed_devices() {
    let ui: ExIOMeterApp<f32> = ExIOMeterApp::new(true, vec![dev("a", "A")]);
    assert!(ui.is_connected());
    assert_eq!(ui.available_devices().len(), 1);
    assert!(ui.error_message().is_none());
    assert!(ui.dark_theme());
    assert!(!ui.is_running());
    assert!(!ui.show_app_mixer());
    assert!(!ui.show_about());
    assert_eq!(ui.about_tab(), 0);
    assert_eq!(ui.selected_device_idx(), None);
}

#[test]
fn opens_disconnected_with_error_and_no_devices() {
    let ui: ExIOMeterApp<f32> = ExIOMeterApp::new(false, vec![dev("a", "A")]);
    assert!(!ui.is_connected());
    assert!(ui.available_devices().is_empty());
    assert_eq!(ui.error_message().as_deref(), Some("Failed to connect to PulseAudio/PipeWire"));
}

#[test]
fn theme_toggles_back_and_forth() {
    let mut ui: ExIOMeterApp<f32> = ExIOMeterApp::new(true, vec![]);
    ui.toggle_theme();
    assert!(!ui.dark_theme());
    ui.toggle_theme();
    assert!(ui.dark_theme());
}

#[test]
fn windows_and_tabs() {
    let mut ui: ExIOMeterApp<f32> = ExIOMeterApp::new(true, vec![]);
    ui.set_show_app_mixer(true);
    ui.set_show_about(true);
    ui.select_about_tab(3);
    assert!(ui.show_app_mixer() && ui.show_about());
    assert_eq!(ui.about_tab(), 3);
    ui.set_show_about(false);
    assert!(!ui.show_about());
}

#[test]
fn selector_text_and_device_to_add() {
    let mut ui: ExIOMeterApp<f32> = ExIOMeterApp::new(true, vec![dev("a", "A"), dev("b", "B")]);
    assert_eq!(ui.selected_text(), "Select device...");
    assert!(ui.device_to_add().is_none());
    ui.select_device(Some(1));
    assert_eq!(ui.selected_text(), "B");
    assert_eq!(ui.device_to_add().unwrap().name, "b");
    ui.select_device(Some(5));
    assert_eq!(ui.selected_text(), "Select device...");
    assert!(ui.device_to_add().is_none());
}

#[test]
fn start_and_stop_results() {
    let mut ui: ExIOMeterApp<f32> = ExIOMeterApp::new(true, vec![]);
    ui.record_start_result(Err("Add at least one device"));
    assert!(!ui.is_running());
    assert_eq!(ui.error_message().as_deref(), Some("Start error: Add at least one device"));
    ui.record_start_result(Ok(()));
    assert!(ui.is_running());
    assert!(ui.error_message().is_none());
    ui.record_stop_result(Err("Context not initialized"));
    assert!(ui.is_running());
    assert_eq!(ui.error_message().as_deref(), Some("Stop error: Context not initialized"));
    ui.record_stop_result(Ok(()));
    assert!(!ui.is_running());
    assert!(ui.error_message().is_none());
}

#[test]
fn add_refresh_and_restart_results() {
    let mut ui: ExIOMeterApp<f32> = ExIOMeterApp::new(true, vec![dev("a", "A")]);
    ui.record_add_result(Err("Sink not found"));
    assert_eq!(ui.error_message().as_deref(), Some("Error: Sink not found"));
    ui.record_add_result(Ok(()));
    assert!(ui.error_message().is_none());
    ui.record_refresh(Err("Context not initialized"));
    assert_eq!(ui.error_message().as_deref(), Some("Error: Context not initialized"));
    assert_eq!(ui.available_devices().len(), 1);
    ui.record_refresh(Ok(vec![dev("x", "X"), dev("y", "Y")]));
    assert!(ui.error_message().is_none());
    assert_eq!(ui.available_devices().len(), 2);
    ui.record_periodic_listing(Err("gone"));
    assert_eq!(ui.available_devices().len(), 2);
    assert!(ui.error_message().is_none());
    ui.record_periodic_listing(Ok(vec![]));
    assert!(ui.available_devices().is_empty());
    ui.record_start_result(Ok(()));
    ui.record_restart_result(Ok(()));
    assert!(ui.is_running());
    ui.record_restart_result(Err("Failed to load combine-sink module"));
    assert!(!ui.is_running());
    assert_eq!(ui.error_message().as_deref(), Some("Ошибка: Failed to load combine-sink module"));
}

#[test]
fn app_list_refresh_keeps_settings_of_known_apps() {
    let mut ui: ExIOMeterApp<f32> = ExIOMeterApp::new(true, vec![]);
    ui.update_app_list(vec![app("A", 1, 0.5, false), app("B", 2, 1.0, true)]);
    assert_eq!(ui.app_volume(1, 0.9), 0.5);
    ui.set_app_volume(1, 0.2);
    assert!(ui.toggle_app_mute(2, true) == false);
    ui.update_app_list(vec![app("B", 2, 1.0, true), app("C", 3, 0.7, false), app("C2", 3, 0.1, true)]);
    assert_eq!(ui.audio_apps().len(), 3);
    // A left: its settings are gone
    assert_eq!(ui.app_volume(1, 0.9), 0.9);
    assert_eq!(ui.app_mute_state(1, true), true);
    // B stays with the setting chosen by the user
    assert_eq!(ui.app_mute_state(2, true), false);
    // C is new: the first listing's values are taken
    assert_eq!(ui.app_mute_state(3, true), false);
    assert_eq!(ui.app_volume(3, 0.4), 0.7);
}

#[test]
fn mute_toggles_twice_to_the_start() {
    let mut ui: ExIOMeterApp<f32> = ExIOMeterApp::new(true, vec![]);
    assert_eq!(ui.app_mute_state(5, false), false);
    assert_eq!(ui.toggle_app_mute(5, false), true);
    assert_eq!(ui.app_mute_state(5, false), true);
    assert_eq!(ui.toggle_app_mute(5, false), false);
    assert_eq!(ui.app_mute_state(5, false), false);
}

#[test]
fn volume_is_kept_once_shown() {
    let mut ui: ExIOMeterApp<f32> = ExIOMeterApp::new(true, vec![]);
    assert_eq!(ui.app_volume(7, 0.6), 0.6);
    assert_eq!(ui.app_volume(7, 0.1), 0.6);
    ui.set_app_volume(7, 1.25);
    assert_eq!(ui.app_volume(7, 0.1), 1.25);
}

#[test]
fn apps_listed_twice_are_shown_once() {
    let mut ui: ExIOMeterApp<f32> = ExIOMeterApp::new(true, vec![]);
    ui.update_app_list(vec![
        app("A", 4, 1.0, false),
        app("B", 2, 1.0, false),
        app("A again", 4, 1.0, false),
        app("C", 9, 1.0, false),
        app("B again", 2, 1.0, false),
    ]);
    assert_eq!(ui.shown_apps(), vec![0, 1, 3]);
    let empty: ExIOMeterApp<f32> = ExIOMeterApp::new(true, vec![]);
    assert!(empty.shown_apps().is_empty());
}

#[test]
fn refresh_timers() {
    let mut ui: ExIOMeterApp<f32> = ExIOMeterApp::new(true, vec![]);
    assert!(!ui.app_list_due(5));
    ui.set_show_app_mixer(true);
    assert!(!ui.app_list_due(1));
    assert!(ui.app_list_due(2));
    assert!(!device_list_due(9));
    assert!(device_list_due(10));
}

#[test]
fn labels() {
    assert_eq!(start_stop_label(true), "⏸ Stop");
    assert_eq!(start_stop_label(false), "▶ Start");
    assert_eq!(theme_label(true), "🌙 Dark");
    assert_eq!(theme_label(false), "☀ Light");
    assert_eq!(status_text(true), "Running");
    assert_eq!(status_text(false), "Stopped");
    assert_eq!(connection_status(true), "Connected");
    assert_eq!(connection_status(false), "Disconnected");
    assert_eq!(channel_title(0), "Channel 01");
    assert_eq!(channel_title(11), "Channel 12");
    assert_eq!(channel_number(8), "09");
    assert_eq!(channel_number(99), "100");
    assert_eq!(device_log_line(0, &dev("sink", "Sink")), "  1. Sink (sink)");
    assert_eq!(device_count_line(3), "  • Devices Available: 3");
}

#[test]
fn channel_rows_cut_strips_into_rows() {
    assert_eq!(channel_rows(0, 3), vec![]);
    assert_eq!(channel_rows(7, 3), vec![(0, 3), (3, 6), (6, 7)]);
    assert_eq!(channel_rows(6, 3), vec![(0, 3), (3, 6)]);
    assert_eq!(channel_rows(2, 5), vec![(0, 2)]);
    assert_eq!(channel_rows(3, 1), vec![(0, 1), (1, 2), (2, 3)]);
    assert_eq!(channel_rows(4, usize::MAX), vec![(0, 4)]);
}

#[test]
fn settings_refresh_keeps_listed_and_drops_the_rest() {
    let mut old: HashMap<u32, u32> = HashMap::new();
    old.insert(1, 11);
    old.insert(2, 20);
    old.insert(3, 30);
    let r = refreshed_settings(&old, &vec![(2, 99), (4, 40), (4, 41)]);
    assert_eq!(r.len(), 2);
    assert_eq!(r.get(&1), None);
    assert_eq!(r.get(&2), Some(&20));
    assert_eq!(r.get(&3), None);
    assert_eq!(r.get(&4), Some(&40));
    assert!(refreshed_settings(&old, &vec![]).is_empty());
}

#[test]
fn start_then_stop_returns_to_stopped_without_error() {
    let mut ui: ExIOMeterApp<f32> = ExIOMeterApp::new(true, vec![dev("a", "A")]);
    ui.record_start_result(Ok(()));
    ui.record_stop_result(Ok(()));
    assert!(!ui.is_running());
    assert!(ui.error_message().is_none());
    assert!(ui.dark_theme());
    assert_eq!(ui.available_devices().len(), 1);
}

#[test]
fn button_action_guard_and_restart_decision() {
    let mut ui: ExIOMeterApp<f32> = ExIOMeterApp::new(true, vec![]);
    assert!(ui.controls_shown());
    assert_eq!(ui.start_stop_action(), MixerAction::Start);
    assert!(!ui.restart_after_removal());
    ui.record_start_result(Ok(()));
    assert_eq!(ui.start_stop_action(), MixerAction::Stop);
    assert!(ui.restart_after_removal());
    let off: ExIOMeterApp<f32> = ExIOMeterApp::new(false, vec![]);
    assert!(!off.controls_shown());
}

#[test]
fn frame_plan_follows_timers_and_connection() {
    let mut ui: ExIOMeterApp<f32> = ExIOMeterApp::new(true, vec![]);
    let p = ui.frame_plan(5, 3);
    assert!(!p.refresh_apps && !p.reset_device_timer && !p.refresh_devices && p.show_controls);
    ui.set_show_app_mixer(true);
    let p = ui.frame_plan(2, 10);
    assert!(p.refresh_apps && p.reset_device_timer && p.refresh_devices && p.show_controls);
    let off: ExIOMeterApp<f32> = ExIOMeterApp::new(false, vec![]);
    let p = off.frame_plan(0, 12);
    assert!(p.reset_device_timer && !p.refresh_devices && !p.show_controls);
}
