//! The state of the mixer window and how each user action or reply of the
//! sound server changes it. Drawing is done elsewhere; this holds what the
//! drawing shows and decides.
use vstd::prelude::*;
use vstd::string::*;
use crate::devices::{devices_view, opt_text, AppAudioInfo, AppView, DeviceInfo, DeviceView};
use crate::engine::copy_devices;
use crate::keyed::{refreshed_map, refreshed_settings};
use std::collections::{HashMap, HashSet};
use crate::text::{decimal, decimal_text, two_digit_decimal, two_digit_text};

verus! {

/// What an [`ExIOMeterApp`] stands for.
pub struct UiView<V> {
    pub available: Seq<DeviceView>,
    pub selected_device: Option<usize>,
    pub running: bool,
    pub error: Option<Seq<char>>,
    pub connected: bool,
    pub dark_theme: bool,
    pub show_app_mixer: bool,
    pub show_about: bool,
    pub about_tab: usize,
    pub apps: Seq<AppView<V>>,
    pub app_volumes: Map<u32, V>,
    pub app_mutes: Map<u32, bool>,
}

/// The message shown when the sound server cannot be reached.
pub open spec fn not_connected_message() -> Seq<char> {
    "Failed to connect to PulseAudio/PipeWire"@
}

/// The views of a sequence of application entries.
pub open spec fn apps_view<V>(v: Seq<AppAudioInfo<V>>) -> Seq<AppView<V>> {
    v.map_values(|a: AppAudioInfo<V>| a@)
}

/// The (index, volume) of each application entry.
pub open spec fn app_volume_pairs<V>(apps: Seq<AppView<V>>) -> Seq<(u32, V)> {
    apps.map_values(|a: AppView<V>| (a.index, a.volume))
}

/// The (index, mute state) of each application entry.
pub open spec fn app_mute_pairs<V>(apps: Seq<AppView<V>>) -> Seq<(u32, bool)> {
    apps.map_values(|a: AppView<V>| (a.index, a.muted))
}

/// The error text of a failed action: the prefix, then the reason.
pub open spec fn error_text(prefix: Seq<char>, reason: Seq<char>) -> Seq<char> {
    prefix + reason
}

/// The window after the theme button: the other theme.
pub open spec fn theme_toggled<V>(u: UiView<V>) -> UiView<V> {
    UiView { dark_theme: !u.dark_theme, ..u }
}

/// The mute state shown for application `index`: the kept one, else the
/// one it reported.
pub open spec fn shown_mute<V>(u: UiView<V>, index: u32, reported: bool) -> bool {
    if u.app_mutes.dom().contains(index) {
        u.app_mutes[index]
    } else {
        reported
    }
}

/// The window after the mute button of application `index`: the flipped
/// shown state is kept.
pub open spec fn mute_toggled<V>(u: UiView<V>, index: u32, reported: bool) -> UiView<V> {
    UiView { app_mutes: u.app_mutes.insert(index, !shown_mute(u, index, reported)), ..u }
}

/// The window after the mixer started: running, no error.
pub open spec fn started<V>(u: UiView<V>) -> UiView<V> {
    UiView { running: true, error: None, ..u }
}

/// The window after the mixer stopped: not running, no error.
pub open spec fn stopped<V>(u: UiView<V>) -> UiView<V> {
    UiView { running: false, error: None, ..u }
}

/// Pressing the theme button twice gives back the theme one had.
pub proof fn lemma_theme_toggle_twice<V>(u: UiView<V>)
    ensures
        theme_toggled(theme_toggled(u)) == u,
{
}

/// Pressing an application's mute button twice shows the state it had
/// before, and after the first press the shown state is the flipped one.
pub proof fn lemma_mute_toggle_twice<V>(u: UiView<V>, index: u32, reported: bool)
    ensures
        shown_mute(mute_toggled(u, index, reported), index, reported) == !shown_mute(
            u,
            index,
            reported,
        ),
        shown_mute(mute_toggled(mute_toggled(u, index, reported), index, reported), index, reported)
            == shown_mute(u, index, reported),
{
}

/// A mixer that was stopped without error and is started and stopped
/// again is back where it was.
pub proof fn lemma_start_stop_round_trip<V>(u: UiView<V>)
    requires
        !u.running,
        u.error is None,
    ensures
        stopped(started(u)) == u,
{
}

/// What the start/stop button does.
#[derive(PartialEq, Eq, Structural, Clone, Copy, Debug)]
pub enum MixerAction {
    Start,
    Stop,
}

/// What a frame of the window does besides drawing: refresh the list of
/// playing applications, restart the device-list timer, list the devices
/// again, and show the mixer controls (through which every other request
/// to the sound server is made).
pub struct FramePlan {
    pub refresh_apps: bool,
    pub reset_device_timer: bool,
    pub refresh_devices: bool,
    pub show_controls: bool,
}

/// The plan of a frame, given the seconds since the application list and
/// the device list were last refreshed.
pub open spec fn frame_plan_of<V>(u: UiView<V>, app_elapsed_secs: u64, device_elapsed_secs: u64) -> FramePlan {
    FramePlan {
        refresh_apps: u.show_app_mixer && app_elapsed_secs >= 2,
        reset_device_timer: device_elapsed_secs >= 10,
        refresh_devices: u.connected && device_elapsed_secs >= 10,
        show_controls: u.connected,
    }
}

/// A frame shows the controls exactly when the sound server is connected,
/// whether the mixer runs or not; it lists the devices when connected and
/// ten seconds have passed, and the applications when their window is open
/// and two seconds have passed.
pub proof fn lemma_frame_plan<V>(u: UiView<V>, app_elapsed_secs: u64, device_elapsed_secs: u64)
    ensures
        frame_plan_of(u, app_elapsed_secs, device_elapsed_secs).show_controls == u.connected,
        frame_plan_of(u, app_elapsed_secs, device_elapsed_secs).refresh_devices == (u.connected
            && device_elapsed_secs >= 10),
        frame_plan_of(u, app_elapsed_secs, device_elapsed_secs).reset_device_timer == (
        device_elapsed_secs >= 10),
        frame_plan_of(u, app_elapsed_secs, device_elapsed_secs).refresh_apps == (u.show_app_mixer
            && app_elapsed_secs >= 2),
{
}

/// While the sound server is unreachable a frame neither lists devices nor
/// shows the controls, so no request that changes the mix is made.
pub proof fn lemma_disconnected_frame<V>(u: UiView<V>, app_elapsed_secs: u64, device_elapsed_secs: u64)
    requires
        !u.connected,
    ensures
        !frame_plan_of(u, app_elapsed_secs, device_elapsed_secs).refresh_devices,
        !frame_plan_of(u, app_elapsed_secs, device_elapsed_secs).show_controls,
{
}

/// The window's state.
pub struct ExIOMeterApp<V> {
    available_devices: Vec<DeviceInfo>,
    selected_device_idx: Option<usize>,
    is_running: bool,
    error_message: Option<String>,
    connected: bool,
    dark_theme: bool,
    show_app_mixer: bool,
    show_about: bool,
    about_tab: usize,
    audio_apps: Vec<AppAudioInfo<V>>,
    app_volumes: HashMap<u32, V>,
    app_mutes: HashMap<u32, bool>,
}

impl<V> View for ExIOMeterApp<V> {
    type V = UiView<V>;

    closed spec fn view(&self) -> UiView<V> {
        UiView {
            available: devices_view(self.available_devices@),
            selected_device: self.selected_device_idx,
            running: self.is_running,
            error: opt_text(self.error_message),
            connected: self.connected,
            dark_theme: self.dark_theme,
            show_app_mixer: self.show_app_mixer,
            show_about: self.show_about,
            about_tab: self.about_tab,
            apps: apps_view(self.audio_apps@),
            app_volumes: self.app_volumes@,
            app_mutes: self.app_mutes@,
        }
    }
}

/// A string made of a prefix and a reason.
fn prefixed(prefix: &str, reason: &str) -> (r: String)
    ensures
        r@ == error_text(prefix@, reason@),
{
    let mut s = String::from_str(prefix);
    s.append(reason);
    s
}

impl<V: Copy> ExIOMeterApp<V> {
    /// The window as it opens: dark theme, stopped, no window open, the
    /// devices listed when the sound server could be reached (none
    /// otherwise), and an error when it could not.
    pub fn new(connected: bool, devices: Vec<DeviceInfo>) -> (r: Self)
        ensures
            r@.available == if connected {
                devices_view(devices@)
            } else {
                Seq::<DeviceView>::empty()
            },
            r@.selected_device is None,
            !r@.running,
            r@.error == if connected {
                None::<Seq<char>>
            } else {
                Some(not_connected_message())
            },
            r@.connected == connected,
            r@.dark_theme,
            !r@.show_app_mixer,
            !r@.show_about,
            r@.about_tab == 0,
            r@.apps == Seq::<AppView<V>>::empty(),
            r@.app_volumes == Map::<u32, V>::empty(),
            r@.app_mutes == Map::<u32, bool>::empty(),
    {
        let available_devices = if connected {
            devices
        } else {
            let none: Vec<DeviceInfo> = Vec::new();
            assert(devices_view(none@) =~= Seq::<DeviceView>::empty());
            none
        };
        let error_message = if connected {
            None
        } else {
            Some(String::from_str("Failed to connect to PulseAudio/PipeWire"))
        };
        let r = ExIOMeterApp {
            available_devices,
            selected_device_idx: None,
            is_running: false,
            error_message,
            connected,
            dark_theme: true,
            show_app_mixer: false,
            show_about: false,
            about_tab: 0,
            audio_apps: Vec::new(),
            app_volumes: HashMap::new(),
            app_mutes: HashMap::new(),
        };
        assert(apps_view(r.audio_apps@) =~= Seq::<AppView<V>>::empty());
        r
    }

    pub fn is_running(&self) -> (r: bool)
        ensures
            r == self@.running,
    {
        self.is_running
    }

    pub fn is_connected(&self) -> (r: bool)
        ensures
            r == self@.connected,
    {
        self.connected
    }

    pub fn dark_theme(&self) -> (r: bool)
        ensures
            r == self@.dark_theme,
    {
        self.dark_theme
    }

    pub fn show_app_mixer(&self) -> (r: bool)
        ensures
            r == self@.show_app_mixer,
    {
        self.show_app_mixer
    }

    pub fn show_about(&self) -> (r: bool)
        ensures
            r == self@.show_about,
    {
        self.show_about
    }

    pub fn about_tab(&self) -> (r: usize)
        ensures
            r == self@.about_tab,
    {
        self.about_tab
    }

    pub fn selected_device_idx(&self) -> (r: Option<usize>)
        ensures
            r == self@.selected_device,
    {
        self.selected_device_idx
    }

    pub fn error_message(&self) -> (r: &Option<String>)
        ensures
            opt_text(*r) == self@.error,
    {
        &self.error_message
    }

    pub fn available_devices(&self) -> (r: &Vec<DeviceInfo>)
        ensures
            devices_view(r@) == self@.available,
    {
        &self.available_devices
    }

    pub fn audio_apps(&self) -> (r: &Vec<AppAudioInfo<V>>)
        ensures
            apps_view(r@) == self@.apps,
    {
        &self.audio_apps
    }

    /// The plan of a frame, see [`frame_plan_of`].
    pub fn frame_plan(&self, app_elapsed_secs: u64, device_elapsed_secs: u64) -> (r: FramePlan)
        ensures
            r == frame_plan_of(self@, app_elapsed_secs, device_elapsed_secs),
    {
        let due = device_list_due(device_elapsed_secs);
        FramePlan {
            refresh_apps: self.app_list_due(app_elapsed_secs),
            reset_device_timer: due,
            refresh_devices: self.connected && due,
            show_controls: self.connected,
        }
    }

    /// What the start/stop button does: stop a running mixer, start a stopped one.
    pub fn start_stop_action(&self) -> (a: MixerAction)
        ensures
            a == if self@.running {
                MixerAction::Stop
            } else {
                MixerAction::Start
            },
    {
        if self.is_running {
            MixerAction::Stop
        } else {
            MixerAction::Start
        }
    }

    /// Whether the mixer controls (buttons, device list, channel strips) are
    /// shown: only while the sound server is reachable.
    pub fn controls_shown(&self) -> (r: bool)
        ensures
            r == self@.connected,
    {
        self.connected
    }

    /// Whether removing a channel restarts the mixer (stop, then start with
    /// the channels left): exactly when it runs.
    pub fn restart_after_removal(&self) -> (r: bool)
        ensures
            r == self@.running,
    {
        self.is_running
    }

    /// Switches between the dark and the light theme.
    pub fn toggle_theme(&mut self)
        ensures
            final(self)@ == theme_toggled(old(self)@),
    {
        self.dark_theme = !self.dark_theme;
    }

    /// Opens or closes the application mixer window.
    pub fn set_show_app_mixer(&mut self, show: bool)
        ensures
            final(self)@ == (UiView { show_app_mixer: show, ..old(self)@ }),
    {
        self.show_app_mixer = show;
    }

    /// Opens or closes the about window.
    pub fn set_show_about(&mut self, show: bool)
        ensures
            final(self)@ == (UiView { show_about: show, ..old(self)@ }),
    {
        self.show_about = show;
    }

    /// Selects a tab of the about window.
    pub fn select_about_tab(&mut self, tab: usize)
        ensures
            final(self)@ == (UiView { about_tab: tab, ..old(self)@ }),
    {
        self.about_tab = tab;
    }

    /// Selects an entry of the device list (or none).
    pub fn select_device(&mut self, idx: Option<usize>)
        ensures
            final(self)@ == (UiView { selected_device: idx, ..old(self)@ }),
    {
        self.selected_device_idx = idx;
    }

    /// The device that the "Add" button adds: the selected one, when the
    /// selection points into the list.
    pub fn device_to_add(&self) -> (r: Option<DeviceInfo>)
        ensures
            match self@.selected_device {
                Some(i) => if i < self@.available.len() {
                    r matches Some(d) && d@ == self@.available[i as int]
                } else {
                    r is None
                },
                None => r is None,
            },
    {
        match self.selected_device_idx {
            Some(i) => {
                if i < self.available_devices.len() {
                    Some(self.available_devices[i].clone())
                } else {
                    None
                }
            },
            None => None,
        }
    }

    /// The text of the device selector: the selected device's description,
    /// or "Select device..." when nothing valid is selected.
    pub fn selected_text(&self) -> (r: String)
        ensures
            r@ == match self@.selected_device {
                Some(i) => if i < self@.available.len() {
                    self@.available[i as int].description
                } else {
                    "Select device..."@
                },
                None => "Select device..."@,
            },
    {
        match self.device_to_add() {
            Some(d) => d.description,
            None => String::from_str("Select device..."),
        }
    }

    /// Records how adding a device went: a failure is shown as "Error: "
    /// and its reason; a success clears the error.
    pub fn record_add_result(&mut self, result: Result<(), &str>)
        ensures
            final(self)@ == (UiView {
                error: match result {
                    Ok(_) => None,
                    Err(e) => Some(error_text("Error: "@, e@)),
                },
                ..old(self)@
            }),
    {
        self.error_message = match result {
            Ok(_) => None,
            Err(e) => Some(prefixed("Error: ", e)),
        };
    }

    /// Records how starting the mixer went: on success it runs and the
    /// error is cleared; on failure "Start error: " and the reason are shown.
    pub fn record_start_result(&mut self, result: Result<(), &str>)
        ensures
            final(self)@ == match result {
                Ok(_) => started(old(self)@),
                Err(e) => UiView { error: Some(error_text("Start error: "@, e@)), ..old(self)@ },
            },
    {
        match result {
            Ok(_) => {
                self.is_running = true;
                self.error_message = None;
            },
            Err(e) => {
                self.error_message = Some(prefixed("Start error: ", e));
            },
        }
    }

    /// Records how stopping the mixer went: on success it is stopped and the
    /// error is cleared; on failure "Stop error: " and the reason are shown.
    pub fn record_stop_result(&mut self, result: Result<(), &str>)
        ensures
            final(self)@ == match result {
                Ok(_) => stopped(old(self)@),
                Err(e) => UiView { error: Some(error_text("Stop error: "@, e@)), ..old(self)@ },
            },
    {
        match result {
            Ok(_) => {
                self.is_running = false;
                self.error_message = None;
            },
            Err(e) => {
                self.error_message = Some(prefixed("Stop error: ", e));
            },
        }
    }

    /// Records a listing asked for with the refresh button: its devices
    /// replace the list and the error is cleared; a failure is shown as
    /// "Error: " and its reason.
    pub fn record_refresh(&mut self, result: Result<Vec<DeviceInfo>, &str>)
        ensures
            final(self)@ == match result {
                Ok(devices) => UiView {
                    available: devices_view(devices@),
                    error: None,
                    ..old(self)@
                },
                Err(e) => UiView { error: Some(error_text("Error: "@, e@)), ..old(self)@ },
            },
    {
        match result {
            Ok(devices) => {
                self.available_devices = devices;
                self.error_message = None;
            },
            Err(e) => {
                self.error_message = Some(prefixed("Error: ", e));
            },
        }
    }

    /// Records a listing made by the periodic update: its devices replace
    /// the list; a failure changes nothing (it is only logged).
    pub fn record_periodic_listing(&mut self, result: Result<Vec<DeviceInfo>, &str>)
        ensures
            final(self)@ == match result {
                Ok(devices) => UiView { available: devices_view(devices@), ..old(self)@ },
                Err(_) => old(self)@,
            },
    {
        match result {
            Ok(devices) => {
                self.available_devices = devices;
            },
            Err(_) => {},
        }
    }

    /// Records how restarting the mixer after removing a channel went: a
    /// failure stops it and is shown as "Ошибка: " and its reason; a success
    /// changes nothing.
    pub fn record_restart_result(&mut self, result: Result<(), &str>)
        ensures
            final(self)@ == match result {
                Ok(_) => old(self)@,
                Err(e) => UiView {
                    running: false,
                    error: Some(error_text("Ошибка: "@, e@)),
                    ..old(self)@
                },
            },
    {
        match result {
            Ok(_) => {},
            Err(e) => {
                self.error_message = Some(prefixed("Ошибка: ", e));
                self.is_running = false;
            },
        }
    }

    /// Whether the application list is due for a refresh: the application
    /// mixer is open and at least two seconds have passed.
    pub fn app_list_due(&self, elapsed_secs: u64) -> (r: bool)
        ensures
            r == (self@.show_app_mixer && elapsed_secs >= 2),
    {
        self.show_app_mixer && elapsed_secs >= 2
    }

    /// Records a fresh list of playing applications: the list is replaced,
    /// and the kept volumes and mute switches are refreshed for it (see
    /// [`refreshed_map`]).
    pub fn update_app_list(&mut self, apps: Vec<AppAudioInfo<V>>)
        ensures
            final(self)@ == (UiView {
                apps: apps_view(apps@),
                app_volumes: refreshed_map(
                    old(self)@.app_volumes,
                    app_volume_pairs(apps_view(apps@)),
                ),
                app_mutes: refreshed_map(old(self)@.app_mutes, app_mute_pairs(apps_view(apps@))),
                ..old(self)@
            }),
    {
        let ghost views = apps_view(apps@);
        let mut volumes: Vec<(u32, V)> = Vec::new();
        let mut mutes: Vec<(u32, bool)> = Vec::new();
        let mut i: usize = 0;
        while i < apps.len()
            invariant
                i <= apps.len(),
                views == apps_view(apps@),
                volumes@ == app_volume_pairs(views).take(i as int),
                mutes@ == app_mute_pairs(views).take(i as int),
            decreases apps.len() - i,
        {
            assert(views[i as int] == apps@[i as int]@);
            volumes.push((apps[i].index, apps[i].volume));
            mutes.push((apps[i].index, apps[i].muted));
            assert(volumes@ =~= app_volume_pairs(views).take(i + 1));
            assert(mutes@ =~= app_mute_pairs(views).take(i + 1));
            i = i + 1;
        }
        assert(app_volume_pairs(views).take(i as int) =~= app_volume_pairs(views));
        assert(app_mute_pairs(views).take(i as int) =~= app_mute_pairs(views));
        self.app_volumes = refreshed_settings(&self.app_volumes, &volumes);
        self.app_mutes = refreshed_settings(&self.app_mutes, &mutes);
        self.audio_apps = apps;
    }

    /// The mute state shown for application `index`: the kept one, else the
    /// one the application reported.
    pub fn app_mute_state(&self, index: u32, reported: bool) -> (r: bool)
        ensures
            r == shown_mute(self@, index, reported),
    {
        broadcast use vstd::std_specs::hash::group_hash_axioms;

        match self.app_mutes.get(&index) {
            Some(m) => *m,
            None => reported,
        }
    }

    /// Flips the mute switch of application `index` (from the state shown,
    /// see [`Self::app_mute_state`]); the new state is kept and returned.
    pub fn toggle_app_mute(&mut self, index: u32, reported: bool) -> (r: bool)
        ensures
            r == !shown_mute(old(self)@, index, reported),
            final(self)@ == mute_toggled(old(self)@, index, reported),
    {
        broadcast use vstd::std_specs::hash::group_hash_axioms;

        let new_mute = !self.app_mute_state(index, reported);
        self.app_mutes.insert(index, new_mute);
        new_mute
    }

    /// The volume shown for application `index`: the kept one; when there is
    /// none, the reported one, which is kept from then on.
    pub fn app_volume(&mut self, index: u32, reported: V) -> (r: V)
        ensures
            old(self)@.app_volumes.dom().contains(index) ==> r == old(self)@.app_volumes[index]
                && final(self)@ == old(self)@,
            !old(self)@.app_volumes.dom().contains(index) ==> r == reported && final(self)@ == (
            UiView { app_volumes: old(self)@.app_volumes.insert(index, reported), ..old(self)@ }),
    {
        broadcast use vstd::std_specs::hash::group_hash_axioms;

        match self.app_volumes.get(&index) {
            Some(v) => *v,
            None => {
                self.app_volumes.insert(index, reported);
                reported
            },
        }
    }

    /// Keeps a volume the user set for application `index`.
    pub fn set_app_volume(&mut self, index: u32, volume: V)
        ensures
            final(self)@ == (UiView {
                app_volumes: old(self)@.app_volumes.insert(index, volume),
                ..old(self)@
            }),
    {
        broadcast use vstd::std_specs::hash::group_hash_axioms;

        self.app_volumes.insert(index, volume);
    }

    /// The positions of the applications the mixer window shows: the first
    /// entry for each application index, in list order.
    pub fn shown_apps(&self) -> (r: Vec<usize>)
        ensures
            first_occurrences(self@.apps.map_values(|a: AppView<V>| a.index), r@),
    {
        broadcast use vstd::std_specs::hash::group_hash_axioms;

        let ghost keys = self@.apps.map_values(|a: AppView<V>| a.index);
        let mut seen: HashSet<u32> = HashSet::new();
        let mut shown: Vec<usize> = Vec::new();
        let mut i: usize = 0;
        assert(seen@ =~= shown_keys(keys, shown@));
        while i < self.audio_apps.len()
            invariant
                i <= self.audio_apps.len(),
                keys == apps_view(self.audio_apps@).map_values(|a: AppView<V>| a.index),
                keys.len() == self.audio_apps.len(),
                first_occurrences(keys.take(i as int), shown@),
                seen@ == shown_keys(keys, shown@),
            decreases self.audio_apps.len() - i,
        {
            let k = self.audio_apps[i].index;
            assert(keys[i as int] == k);
            let ghost listed = shown@.map_values(|p: usize| keys[p as int]);
            let ghost before = seen@;
            let fresh = seen.insert(k);
            proof {
                if exists|m: int| 0 <= m < listed.len() && #[trigger] listed[m] == keys[i as int] {
                    let m = choose|m: int| 0 <= m < listed.len() && #[trigger] listed[m] == keys[i as int];
                    assert(before.contains(k)) by {
                        assert(keys[shown@[m] as int] == k);
                    }
                }
                if before.contains(k) {
                    let m = choose|m: int| 0 <= m < shown@.len() && keys[shown@[m] as int] == k;
                    assert(listed[m] == keys[i as int]);
                }
                lemma_first_occurrences_step(keys, i as int, shown@, listed, !fresh);
            }
            if fresh {
                let ghost prev = shown@;
                shown.push(i);
                assert forall|x: u32| seen@.contains(x) <==> shown_keys(keys, shown@).contains(x) by {
                    if before.contains(x) {
                        let m = choose|m: int| 0 <= m < prev.len() && keys[prev[m] as int] == x;
                        assert(shown@[m] == prev[m]);
                    }
                    if shown_keys(keys, shown@).contains(x) && x != k {
                        let m = choose|m: int| 0 <= m < shown@.len() && keys[shown@[m] as int] == x;
                        assert(m < prev.len());
                        assert(prev[m] == shown@[m]);
                    }
                    assert(shown@[prev.len() as int] == i);
                }
                assert(seen@ =~= shown_keys(keys, shown@));
            }
            i = i + 1;
        }
        assert(keys.take(i as int) =~= keys);
        shown
    }
}

/// The keys at the positions listed in `shown`.
pub open spec fn shown_keys(keys: Seq<u32>, shown: Seq<usize>) -> Set<u32> {
    Set::new(|k: u32| exists|m: int| 0 <= m < shown.len() && keys[shown[m] as int] == k)
}

/// `shown` lists, in increasing order, the positions in `keys` whose key
/// did not occur at any earlier position.
pub open spec fn first_occurrences(keys: Seq<u32>, shown: Seq<usize>) -> bool {
    &&& forall|a: int, b: int| 0 <= a < b < shown.len() ==> shown[a] < shown[b]
    &&& forall|a: int| 0 <= a < shown.len() ==> shown[a] < keys.len()
    &&& forall|p: int|
        0 <= p < keys.len() ==> (#[trigger] is_shown(shown, p) <==> is_first(keys, p))
}

/// Position `p` is listed in `shown`.
pub open spec fn is_shown(shown: Seq<usize>, p: int) -> bool {
    exists|a: int| 0 <= a < shown.len() && shown[a] == p
}

/// No position before `p` holds the key at `p`.
pub open spec fn is_first(keys: Seq<u32>, p: int) -> bool {
    forall|q: int| 0 <= q < p ==> keys[q] != keys[p]
}

proof fn lemma_first_occurrences_step(
    keys: Seq<u32>,
    i: int,
    shown: Seq<usize>,
    seen: Seq<u32>,
    found: bool,
)
    requires
        0 <= i < keys.len(),
        i <= usize::MAX,
        first_occurrences(keys.take(i), shown),
        seen == shown.map_values(|p: usize| keys[p as int]),
        found == exists|m: int| 0 <= m < seen.len() && #[trigger] seen[m] == keys[i],
    ensures
        found ==> first_occurrences(keys.take(i + 1), shown),
        !found ==> first_occurrences(keys.take(i + 1), shown.push(i as usize)),
{
    let t = keys.take(i);
    let t1 = keys.take(i + 1);
    let s2 = shown.push(i as usize);
    assert forall|p: int| 0 <= p < i implies is_first(t1, p) == is_first(t, p) by {
        assert forall|q: int| 0 <= q <= p implies t1[q] == t[q] by {}
    }
    assert forall|p: int| 0 <= p < i implies is_shown(s2, p) == is_shown(shown, p) by {
        if is_shown(s2, p) {
            let a = choose|a: int| 0 <= a < s2.len() && s2[a] == p;
            assert(a < shown.len());
            assert(shown[a] == p);
        }
        if is_shown(shown, p) {
            let a = choose|a: int| 0 <= a < shown.len() && shown[a] == p;
            assert(s2[a] == p);
        }
    }
    assert(!is_shown(shown, i)) by {
        if is_shown(shown, i) {
            let a = choose|a: int| 0 <= a < shown.len() && shown[a] == i;
            assert(shown[a] < t.len());
        }
    }
    if found {
        let m = choose|m: int| 0 <= m < seen.len() && #[trigger] seen[m] == keys[i];
        assert(shown[m] < i);
        assert(t1[shown[m] as int] == t1[i]);
        assert(!is_first(t1, i));
        assert forall|p: int| 0 <= p < t1.len() implies (#[trigger] is_shown(shown, p) <==> is_first(
            t1,
            p,
        )) by {
            if p < i {
                assert(is_shown(shown, p) <==> is_first(t, p));
            }
        }
    } else {
        assert(is_shown(s2, i)) by {
            assert(s2[shown.len() as int] == i);
        }
        assert(is_first(t1, i)) by {
            assert forall|q: int| 0 <= q < i implies t1[q] != t1[i] by {
                if t1[q] == t1[i] {
                    assert(t[q] == keys[i]);
                    lemma_first_position(t, keys[i], q);
                    let f = first_position(t, keys[i]);
                    assert(is_first(t, f));
                    assert(is_shown(shown, f));
                    let a = choose|a: int| 0 <= a < shown.len() && shown[a] == f;
                    assert(seen[a] == keys[f]);
                    assert(seen[a] == keys[i]);
                }
            }
        }
        assert forall|p: int| 0 <= p < t1.len() implies (#[trigger] is_shown(s2, p) <==> is_first(
            t1,
            p,
        )) by {
            if p < i {
                assert(is_shown(shown, p) <==> is_first(t, p));
            }
        }
        assert forall|a: int, b: int| 0 <= a < b < s2.len() implies s2[a] < s2[b] by {
            if b == shown.len() {
                assert(shown[a] < t.len());
            } else {
                assert(s2[a] == shown[a]);
                assert(s2[b] == shown[b]);
            }
        }
        assert forall|a: int| 0 <= a < s2.len() implies s2[a] < t1.len() by {
            if a < shown.len() {
                assert(s2[a] == shown[a]);
            }
        }
    }
}

/// The first position of `k` in `s`.
spec fn first_position(s: Seq<u32>, k: u32) -> int
    decreases s.len(),
{
    if s.len() == 0 {
        0
    } else if s[0] == k {
        0
    } else {
        first_position(s.skip(1), k) + 1
    }
}

proof fn lemma_first_position(s: Seq<u32>, k: u32, q: int)
    requires
        0 <= q < s.len(),
        s[q] == k,
    ensures
        0 <= first_position(s, k) <= q,
        s[first_position(s, k)] == k,
        is_first(s, first_position(s, k)),
    decreases s.len(),
{
    if s[0] != k {
        lemma_first_position(s.skip(1), k, q - 1);
        let f = first_position(s.skip(1), k);
        assert forall|r: int| 0 <= r < f + 1 implies s[r] != k by {
            if r > 0 {
                assert(s[r] == s.skip(1)[r - 1]);
            }
        }
    }
}

/// The label of the start/stop button.
pub fn start_stop_label(running: bool) -> (r: &'static str)
    ensures
        r@ == if running {
            "⏸ Stop"@
        } else {
            "▶ Start"@
        },
{
    if running {
        "⏸ Stop"
    } else {
        "▶ Start"
    }
}

/// The label of the theme button.
pub fn theme_label(dark: bool) -> (r: &'static str)
    ensures
        r@ == if dark {
            "🌙 Dark"@
        } else {
            "☀ Light"@
        },
{
    if dark {
        "🌙 Dark"
    } else {
        "☀ Light"
    }
}

/// The status shown in the log tab.
pub fn status_text(running: bool) -> (r: &'static str)
    ensures
        r@ == if running {
            "Running"@
        } else {
            "Stopped"@
        },
{
    if running {
        "Running"
    } else {
        "Stopped"
    }
}

/// The connection status shown in the about tab.
pub fn connection_status(connected: bool) -> (r: &'static str)
    ensures
        r@ == if connected {
            "Connected"@
        } else {
            "Disconnected"@
        },
{
    if connected {
        "Connected"
    } else {
        "Disconnected"
    }
}

/// Whether the device list is due for a refresh: at least ten seconds
/// have passed.
pub fn device_list_due(elapsed_secs: u64) -> (r: bool)
    ensures
        r == (elapsed_secs >= 10),
{
    elapsed_secs >= 10
}

/// The title of channel `n` (counted from zero): "Channel " and its
/// number counted from one, with at least two digits.
pub fn channel_title(n: u64) -> (r: String)
    requires
        n < u64::MAX,
    ensures
        r@ == "Channel "@ + two_digit_decimal((n + 1) as nat),
{
    let mut s = String::from_str("Channel ");
    let num = two_digit_text(n + 1);
    s.append(num.as_str());
    s
}

/// The number of channel `n` (counted from zero) as shown below its strip:
/// counted from one, with at least two digits.
pub fn channel_number(n: u64) -> (r: String)
    requires
        n < u64::MAX,
    ensures
        r@ == two_digit_decimal((n + 1) as nat),
{
    two_digit_text(n + 1)
}

/// The line of the log tab that lists device `n` (counted from zero): its
/// number counted from one, its description and its name.
pub fn device_log_line(n: u64, device: &DeviceInfo) -> (r: String)
    requires
        n < u64::MAX,
    ensures
        r@ == "  "@ + decimal((n + 1) as nat) + ". "@ + device@.description + " ("@ + device@.name
            + ")"@,
{
    let mut s = String::from_str("  ");
    let num = decimal_text(n + 1);
    s.append(num.as_str());
    s.append(". ");
    s.append(device.description.as_str());
    s.append(" (");
    s.append(device.name.as_str());
    s.append(")");
    s
}

/// The line of the log tab that counts the devices on offer.
pub fn device_count_line(count: u64) -> (r: String)
    ensures
        r@ == "  • Devices Available: "@ + decimal(count as nat),
{
    let mut s = String::from_str("  • Devices Available: ");
    let num = decimal_text(count);
    s.append(num.as_str());
    s
}

/// The channel strips of the mix laid out in rows of `per_row`: the
/// (start, end) positions of each row, in order.
pub fn channel_rows(count: usize, per_row: usize) -> (r: Vec<(usize, usize)>)
    requires
        per_row >= 1,
    ensures
        rows_partition(r@, count, per_row),
{
    let mut rows: Vec<(usize, usize)> = Vec::new();
    let mut start: usize = 0;
    while start < count
        invariant
            start <= count,
            per_row >= 1,
            start == 0 <==> rows@.len() == 0,
            rows@.len() > 0 ==> rows@.last().1 == start,
            rows@.len() > 0 ==> rows@[0].0 == 0,
            forall|i: int| 0 <= i < rows@.len() - 1 ==> #[trigger] rows@[i].1 == rows@[i + 1].0,
            forall|i: int|
                0 <= i < rows@.len() ==> #[trigger] rows@[i].0 < rows@[i].1 && rows@[i].1 - rows@[i].0
                    <= per_row,
            forall|i: int|
                0 <= i < rows@.len() - 1 ==> #[trigger] rows@[i].1 - rows@[i].0 == per_row,
            rows@.len() > 0 && rows@.last().1 - rows@.last().0 != per_row ==> start == count,
        decreases count - start,
    {
        let end = if per_row > count - start {
            count
        } else {
            start + per_row
        };
        let ghost prev = rows@;
        rows.push((start, end));
        assert(rows@[0].0 == 0) by {
            if prev.len() > 0 {
                assert(rows@[0] == prev[0]);
            }
        }
        assert forall|i: int| 0 <= i < rows@.len() - 1 implies #[trigger] rows@[i].1 - rows@[i].0
            == per_row by {
            if i == prev.len() - 1 {
                assert(rows@[i] == prev.last());
            } else {
                assert(rows@[i] == prev[i]);
            }
        }
        assert forall|i: int| 0 <= i < rows@.len() - 1 implies #[trigger] rows@[i].1 == rows@[i
            + 1].0 by {
            if i == prev.len() - 1 {
                assert(rows@[i] == prev.last());
            } else {
                assert(rows@[i] == prev[i]);
                assert(rows@[i + 1] == prev[i + 1]);
            }
        }
        start = end;
    }
    rows
}

/// `rows` cuts positions `0..count` into consecutive non-empty rows, each
/// of `per_row` positions but the last, which holds the rest.
pub open spec fn rows_partition(rows: Seq<(usize, usize)>, count: usize, per_row: usize) -> bool {
    &&& count == 0 <==> rows.len() == 0
    &&& rows.len() > 0 ==> rows[0].0 == 0 && rows.last().1 == count
    &&& forall|i: int| 0 <= i < rows.len() - 1 ==> #[trigger] rows[i].1 == rows[i + 1].0
    &&& forall|i: int|
        0 <= i < rows.len() ==> #[trigger] rows[i].0 < rows[i].1 && rows[i].1 - rows[i].0 <= per_row
    &&& forall|i: int| 0 <= i < rows.len() - 1 ==> #[trigger] rows[i].1 - rows[i].0 == per_row
}

} // verus!
