//! The mixer's state: the devices on offer, the channels added to the mix,
//! and whether the combining sink is loaded. The sound server is driven from
//! outside: the engine says what to ask of it and records what it answered.
use vstd::prelude::*;
use vstd::string::*;
use crate::devices::{
    combined_prefix, devices_view, get_sink_index, opt_text, sink_index_seq, split_sink_name,
    SinkRef, listing_devices, listing_devices_seq, DeviceInfo, DeviceView, EngineError,
    SinkEntry, SinkView,
};
use crate::text::{
    before_first, free_of, second_field, join_seq, join_texts, lemma_before_first_free, lemma_split_join,
    split_seq, text_before_first,
};

verus! {

/// A device added to the mix, with its own volume, mute switch and level
/// meter, and the index of its sink on the sound server.
pub struct SinkChannel<V> {
    pub info: DeviceInfo,
    pub volume: V,
    pub muted: bool,
    pub audio_level: V,
    pub sink_index: u32,
}

pub struct ChannelView<V> {
    pub info: DeviceView,
    pub volume: V,
    pub muted: bool,
    pub audio_level: V,
    pub sink_index: u32,
}

impl<V> View for SinkChannel<V> {
    type V = ChannelView<V>;

    open spec fn view(&self) -> ChannelView<V> {
        ChannelView {
            info: self.info@,
            volume: self.volume,
            muted: self.muted,
            audio_level: self.audio_level,
            sink_index: self.sink_index,
        }
    }
}

/// The views of a sequence of channels.
pub open spec fn channels_view<V>(v: Seq<SinkChannel<V>>) -> Seq<ChannelView<V>> {
    v.map_values(|c: SinkChannel<V>| c@)
}

/// What an [`AudioEngine`] stands for.
pub struct EngineView<V> {
    pub combined_sink_name: Seq<char>,
    pub module_index: Option<u32>,
    pub available: Seq<DeviceView>,
    pub selected: Seq<ChannelView<V>>,
}

/// The name under which the mixer's combining sink is created: the name
/// that the device listing leaves out.
pub open spec fn combined_sink_seq() -> Seq<char> {
    combined_prefix()
}

/// The sinks that the combining sink plays to: the sink of each channel,
/// in channel order.
pub open spec fn slave_sinks<V>(selected: Seq<ChannelView<V>>) -> Seq<Seq<char>> {
    selected.map_values(|c: ChannelView<V>| before_first(c.info.name, '#'))
}

/// The arguments the combining module is loaded with.
pub open spec fn module_args_seq<V>(combined: Seq<char>, selected: Seq<ChannelView<V>>) -> Seq<char> {
    "sink_name="@ + combined + " slaves="@ + join_seq(slave_sinks(selected), ","@)
        + " adjust_time=0 resample_method=trivial"@
}

/// The channel that adding device `name` (described as `description`) with
/// sink index `sink_index` creates: at the given volume and level, unmuted.
pub open spec fn new_channel<V>(
    name: Seq<char>,
    description: Seq<char>,
    sink_index: u32,
    volume: V,
    audio_level: V,
) -> ChannelView<V> {
    ChannelView {
        info: DeviceView { name: name, description: description },
        volume: volume,
        muted: false,
        audio_level: audio_level,
        sink_index: sink_index,
    }
}

/// The engine with channel `ch` added last.
pub open spec fn with_added<V>(e: EngineView<V>, ch: ChannelView<V>) -> EngineView<V> {
    EngineView { selected: e.selected.push(ch), ..e }
}

/// The engine with the channel at `index` removed (unchanged when there is none).
pub open spec fn with_removed<V>(e: EngineView<V>, index: int) -> EngineView<V> {
    if 0 <= index < e.selected.len() {
        EngineView { selected: e.selected.remove(index), ..e }
    } else {
        e
    }
}

/// The engine with the combining module recorded as `module_index`.
pub open spec fn with_module<V>(e: EngineView<V>, module_index: Option<u32>) -> EngineView<V> {
    EngineView { module_index: module_index, ..e }
}

/// A channel after a user's edit: while the mixer runs a moved volume and
/// the mute switch are taken; while it is stopped the channel keeps its settings.
pub open spec fn edited_channel<V>(ch: ChannelView<V>, volume: Option<V>, muted: bool, running: bool) -> ChannelView<V> {
    ChannelView {
        volume: if running && volume is Some {
            volume->0
        } else {
            ch.volume
        },
        muted: if running {
            muted
        } else {
            ch.muted
        },
        ..ch
    }
}

/// The engine after a user's edit of the channel at `index`.
pub open spec fn with_edit<V>(
    e: EngineView<V>,
    index: int,
    volume: Option<V>,
    muted: bool,
    running: bool,
) -> EngineView<V> {
    EngineView {
        selected: e.selected.update(index, edited_channel(e.selected[index], volume, muted, running)),
        ..e
    }
}

/// While the mixer runs, an edit records the mute switch exactly as given
/// (whether or not the slider moved), takes the new volume when one is
/// given and keeps the old one otherwise; the channel's device, sink and
/// level, every other channel, and the rest of the engine stay as they were.
pub proof fn lemma_edit_while_running<V>(e: EngineView<V>, index: int, volume: Option<V>, muted: bool)
    requires
        0 <= index < e.selected.len(),
    ensures
        with_edit(e, index, volume, muted, true).selected.len() == e.selected.len(),
        with_edit(e, index, volume, muted, true).selected[index].muted == muted,
        with_edit(e, index, volume, muted, true).selected[index].volume == match volume {
            Some(v) => v,
            None => e.selected[index].volume,
        },
        with_edit(e, index, volume, muted, true).selected[index].info == e.selected[index].info,
        with_edit(e, index, volume, muted, true).selected[index].sink_index
            == e.selected[index].sink_index,
        with_edit(e, index, volume, muted, true).selected[index].audio_level
            == e.selected[index].audio_level,
        forall|k: int|
            0 <= k < e.selected.len() && k != index ==> #[trigger] with_edit(
                e,
                index,
                volume,
                muted,
                true,
            ).selected[k] == e.selected[k],
        with_edit(e, index, volume, muted, true).module_index == e.module_index,
        with_edit(e, index, volume, muted, true).available == e.available,
        with_edit(e, index, volume, muted, true).combined_sink_name == e.combined_sink_name,
{
}

/// A second click of a channel's mute button while the mixer runs undoes
/// the first: the channel is recorded with its first mute state again.
pub proof fn lemma_mute_click_twice<V>(e: EngineView<V>, index: int)
    requires
        0 <= index < e.selected.len(),
    ensures
        ({
            let m0 = e.selected[index].muted;
            let once = with_edit(e, index, None, !m0, true);
            &&& once.selected[index].muted == !m0
            &&& with_edit(once, index, None, m0, true) == e
        }),
{
    let m0 = e.selected[index].muted;
    let once = with_edit(e, index, None, !m0, true);
    assert(with_edit(once, index, None, m0, true).selected =~= e.selected);
}

/// The combining module is loaded with one slave per channel, in channel
/// order, each the channel's sink (its device name up to the first `#`):
/// `sink_name=<combined> slaves=<sink 0>,<sink 1>,... adjust_time=0
/// resample_method=trivial`.
pub proof fn lemma_module_args_name_every_channel<V>(combined: Seq<char>, selected: Seq<ChannelView<V>>)
    ensures
        slave_sinks(selected).len() == selected.len(),
        forall|k: int|
            0 <= k < selected.len() ==> #[trigger] slave_sinks(selected)[k] == before_first(
                selected[k].info.name,
                '#',
            ),
        module_args_seq(combined, selected) == "sink_name="@ + combined + " slaves="@ + join_seq(
            Seq::new(selected.len(), |k: int| before_first(selected[k].info.name, '#')),
            ","@,
        ) + " adjust_time=0 resample_method=trivial"@,
{
    assert(slave_sinks(selected) =~= Seq::new(
        selected.len(),
        |k: int| before_first(selected[k].info.name, '#'),
    ));
}

/// Edits made while the mixer is stopped are not kept: the mix is left as it was.
pub proof fn lemma_edit_while_stopped<V>(e: EngineView<V>, index: int, volume: Option<V>, muted: bool)
    requires
        0 <= index < e.selected.len(),
    ensures
        with_edit(e, index, volume, muted, false) == e,
{
    assert(e.selected.update(index, edited_channel(e.selected[index], volume, muted, false))
        =~= e.selected);
}

/// Removing the channel just added gives back the engine as it was.
pub proof fn lemma_add_then_remove<V>(e: EngineView<V>, ch: ChannelView<V>)
    ensures
        with_removed(with_added(e, ch), e.selected.len() as int) == e,
{
    assert(e.selected.push(ch).remove(e.selected.len() as int) =~= e.selected);
}

/// Removing a channel leaves the others in their order: the channels
/// before it keep their places and the ones after it move up by one.
pub proof fn lemma_remove_keeps_others<V>(e: EngineView<V>, index: int)
    requires
        0 <= index < e.selected.len(),
    ensures
        with_removed(e, index).selected.len() == e.selected.len() - 1,
        forall|k: int| 0 <= k < index ==> with_removed(e, index).selected[k] == e.selected[k],
        forall|k: int|
            index <= k < e.selected.len() - 1 ==> with_removed(e, index).selected[k]
                == e.selected[k + 1],
{
}

/// Starting and then stopping a stopped mixer leaves it as it was.
pub proof fn lemma_start_then_stop<V>(e: EngineView<V>, module_index: u32)
    requires
        e.module_index is None,
    ensures
        with_module(with_module(e, Some(module_index)), None) == e,
{
}

/// The combining sink plays to every channel's sink: cutting its list of
/// sinks at the commas gives back each channel's sink, in channel order,
/// when no sink name holds a comma.
pub proof fn lemma_slaves_cover_channels<V>(selected: Seq<ChannelView<V>>)
    requires
        selected.len() > 0,
        forall|k: int| 0 <= k < selected.len() ==> free_of(#[trigger] selected[k].info.name, ','),
    ensures
        split_seq(join_seq(slave_sinks(selected), ","@), ',') == slave_sinks(selected),
{
    reveal_strlit(",");
    assert(","@ =~= seq![',']);
    let parts = slave_sinks(selected);
    assert forall|k: int| 0 <= k < parts.len() implies free_of(#[trigger] parts[k], ',') by {
        let n = selected[k].info.name;
        lemma_before_first_free(n, '#', ',');
    }
    lemma_split_join(parts, ',');
}

/// What to ask of the sound server to stop the mixer: make the sink of the
/// first channel the default again (when there is a channel), then
/// unload the combining module.
pub struct StopPlan {
    pub restore_default: Option<String>,
    pub module_index: u32,
}

/// What to ask of the sound server once the combining module is loaded:
/// apply each channel's (sink index, volume, mute) in channel order, then
/// make the combining sink the default.
pub struct StartPlan<V> {
    pub settings: Vec<(u32, V, bool)>,
    pub default_sink: String,
}

/// A device that was added to the mix: the index of its sink, and the output
/// port to switch that sink to (when the device names one).
pub struct AddedSink {
    pub sink_index: u32,
    pub port: Option<String>,
}

/// The updates a channel edit asks the sound server for.
pub struct ChannelUpdates<V> {
    pub volume: Option<(u32, V)>,
    pub mute: Option<(u32, bool)>,
}

/// The state of a connection attempt, as the sound server reports it.
#[derive(PartialEq, Eq, Structural, Clone, Copy, Debug)]
pub enum ContextState {
    Unconnected,
    Connecting,
    Authorizing,
    SettingName,
    Ready,
    Failed,
    Terminated,
}

/// What a connection attempt does next.
#[derive(PartialEq, Eq, Structural, Clone, Copy, Debug)]
pub enum ConnectStep {
    /// The connection is up.
    Connected,
    /// The connection failed for good.
    GiveUp,
    /// Wait and look at the state again.
    Wait,
}

/// The next step of a connection attempt in the given state.
pub fn connect_step(state: ContextState) -> (r: ConnectStep)
    ensures
        r == match state {
            ContextState::Ready => ConnectStep::Connected,
            ContextState::Failed | ContextState::Terminated => ConnectStep::GiveUp,
            _ => ConnectStep::Wait,
        },
{
    match state {
        ContextState::Ready => ConnectStep::Connected,
        ContextState::Failed | ContextState::Terminated => ConnectStep::GiveUp,
        _ => ConnectStep::Wait,
    }
}

/// How a channel's level meter moves on each frame.
#[derive(PartialEq, Eq, Structural, Clone, Copy, Debug)]
pub enum LevelUpdate {
    /// The mixer runs but the channel is muted or nearly silent: the meter
    /// fades (to nine tenths of its level).
    FadeWhileSilent,
    /// The mixer runs and the channel plays: the meter shows its volume.
    FollowVolume,
    /// The mixer is stopped: the meter fades (to 85% of its level).
    FadeWhileStopped,
}

/// How the level meter of a channel moves, given whether the mixer runs,
/// whether the channel is muted, and whether its volume is below audible.
pub fn level_update(mixer_active: bool, muted: bool, quiet: bool) -> (r: LevelUpdate)
    ensures
        r == if !mixer_active {
            LevelUpdate::FadeWhileStopped
        } else if muted || quiet {
            LevelUpdate::FadeWhileSilent
        } else {
            LevelUpdate::FollowVolume
        },
{
    if !mixer_active {
        LevelUpdate::FadeWhileStopped
    } else if muted || quiet {
        LevelUpdate::FadeWhileSilent
    } else {
        LevelUpdate::FollowVolume
    }
}

/// A raw sound-server volume capped at twice the normal volume (200%).
pub fn limit_volume(raw: u32, normal: u32) -> (r: u32)
    requires
        normal <= 0x7fff_ffff,
    ensures
        r == if raw <= 2 * normal {
            raw
        } else {
            (2 * normal) as u32
        },
{
    let cap = normal * 2;
    if raw <= cap {
        raw
    } else {
        cap
    }
}

/// A copy of a list of devices.
pub fn copy_devices(v: &Vec<DeviceInfo>) -> (r: Vec<DeviceInfo>)
    ensures
        devices_view(r@) == devices_view(v@),
{
    let mut out: Vec<DeviceInfo> = Vec::new();
    let mut i: usize = 0;
    while i < v.len()
        invariant
            i <= v.len(),
            devices_view(out@) == devices_view(v@).take(i as int),
        decreases v.len() - i,
    {
        let d = v[i].clone();
        assert(d@ == devices_view(v@)[i as int]);
        let ghost prev = devices_view(out@);
        out.push(d);
        assert(devices_view(out@) =~= prev.push(d@));
        assert(devices_view(out@) =~= devices_view(v@).take(i + 1));
        i = i + 1;
    }
    assert(devices_view(v@).take(i as int) =~= devices_view(v@));
    out
}

/// The mixer's state.
pub struct AudioEngine<V> {
    combined_sink_name: CombinedSinkName,
    combined_module_index: Option<u32>,
    available_sinks: Vec<DeviceInfo>,
    selected_sinks: Vec<SinkChannel<V>>,
}

impl<V> View for AudioEngine<V> {
    type V = EngineView<V>;

    closed spec fn view(&self) -> EngineView<V> {
        EngineView {
            combined_sink_name: self.combined_sink_name.name@,
            module_index: self.combined_module_index,
            available: devices_view(self.available_sinks@),
            selected: channels_view(self.selected_sinks@),
        }
    }
}

/// The name of the combining sink, which is always the mixer's own.
struct CombinedSinkName {
    name: String,
}

impl CombinedSinkName {
    #[verifier::type_invariant]
    spec fn is_own_name(self) -> bool {
        self.name@ == combined_sink_seq()
    }
}

impl<V: Copy> AudioEngine<V> {
    /// A mixer with nothing on offer, no channel, and no combining sink loaded.
    pub fn new() -> (r: Self)
        ensures
            r@.combined_sink_name == combined_sink_seq(),
            r@.module_index is None,
            r@.available == Seq::<DeviceView>::empty(),
            r@.selected == Seq::<ChannelView<V>>::empty(),
    {
        let r = AudioEngine {
            combined_sink_name: CombinedSinkName { name: String::from_str("exiometter_combined") },
            combined_module_index: None,
            available_sinks: Vec::new(),
            selected_sinks: Vec::new(),
        };
        assert(devices_view(r.available_sinks@) =~= Seq::<DeviceView>::empty());
        assert(channels_view(r.selected_sinks@) =~= Seq::<ChannelView<V>>::empty());
        r
    }

    /// The name of the combining sink.
    pub fn combined_sink_name(&self) -> (r: &String)
        ensures
            r@ == self@.combined_sink_name,
            r@ == combined_sink_seq(),
    {
        proof {
            use_type_invariant(&self.combined_sink_name);
        }
        &self.combined_sink_name.name
    }

    /// The index of the loaded combining module, if one is loaded.
    pub fn module_index(&self) -> (r: Option<u32>)
        ensures
            r == self@.module_index,
    {
        self.combined_module_index
    }

    /// Whether the mixer is running, that is, the combining module is loaded.
    pub fn is_active(&self) -> (r: bool)
        ensures
            r == self@.module_index is Some,
    {
        self.combined_module_index.is_some()
    }

    /// The devices on offer.
    pub fn available_sinks(&self) -> (r: &Vec<DeviceInfo>)
        ensures
            devices_view(r@) == self@.available,
    {
        &self.available_sinks
    }

    /// The channels of the mix.
    pub fn selected_sinks(&self) -> (r: &Vec<SinkChannel<V>>)
        ensures
            channels_view(r@) == self@.selected,
    {
        &self.selected_sinks
    }

    /// The channels of the mix, to be edited in place; whatever the caller
    /// leaves in the list is the mix afterwards, the rest of the engine
    /// unchanged.
    pub fn get_selected_sinks_mut(&mut self) -> (r: &mut Vec<SinkChannel<V>>)
        ensures
            channels_view(r@) == old(self)@.selected,
            final(self)@ == (EngineView { selected: channels_view(final(r)@), ..old(self)@ }),
    {
        &mut self.selected_sinks
    }

    /// Records a fresh listing of the sound server's sinks: the devices
    /// offered become those of the listing, which are returned.
    pub fn list_sinks(&mut self, sinks: &Vec<SinkEntry>) -> (r: Vec<DeviceInfo>)
        ensures
            devices_view(r@) == listing_devices_seq(sinks@.map_values(|s: SinkEntry| s@)),
            final(self)@ == (EngineView { available: devices_view(r@), ..old(self)@ }),
    {
        let found = listing_devices(sinks);
        self.available_sinks = copy_devices(&found);
        found
    }

    /// Adds a channel for the device `sink_name` (described as `description`)
    /// whose sink has index `sink_index` on the sound server, starting at the
    /// given volume and level and not muted. It comes last in the mix.
    pub fn add_sink(
        &mut self,
        sink_name: &str,
        description: &str,
        sink_index: u32,
        volume: V,
        audio_level: V,
    )
        ensures
            final(self)@ == with_added(
                old(self)@,
                new_channel(sink_name@, description@, sink_index, volume, audio_level),
            ),
    {
        let channel = SinkChannel {
            info: DeviceInfo {
                name: String::from_str(sink_name),
                description: String::from_str(description),
            },
            volume,
            muted: false,
            audio_level,
            sink_index,
        };
        self.selected_sinks.push(channel);
        assert(channels_view(self.selected_sinks@) =~= channels_view(old(self).selected_sinks@).push(
            channel@,
        ));
    }

    /// Adds device `sink_name` (described as `description`) to the mix when
    /// the listing of the server's sinks holds its sink (the part of the
    /// name before `#`; the last such sink listed): the channel comes last,
    /// with the given volume and level and unmuted, and the sink's index and
    /// the port to switch it to are returned. When the sink is not listed,
    /// `SinkNotFound` is returned and the mix is left as it was.
    pub fn add_listed_sink(
        &mut self,
        sinks: &Vec<SinkRef>,
        sink_name: &str,
        description: &str,
        volume: V,
        audio_level: V,
    ) -> (r: Result<AddedSink, EngineError>)
        ensures
            match sink_index_seq(
                sinks@.map_values(|s: SinkRef| s@),
                before_first(sink_name@, '#'),
            ) {
                Some(i) => {
                    &&& (r matches Ok(added) && added.sink_index == i && opt_text(added.port)
                        == second_field(sink_name@, '#'))
                    &&& final(self)@ == with_added(
                        old(self)@,
                        new_channel(sink_name@, description@, i, volume, audio_level),
                    )
                },
                None => {
                    &&& (r matches Err(e) && e == EngineError::SinkNotFound)
                    &&& final(self)@ == old(self)@
                },
            },
    {
        match get_sink_index(sinks, sink_name) {
            Ok(sink_index) => {
                let (_, port) = split_sink_name(sink_name);
                self.add_sink(sink_name, description, sink_index, volume, audio_level);
                Ok(AddedSink { sink_index, port })
            },
            Err(e) => Err(e),
        }
    }

    /// Removes the channel at `index`; the others keep their order. An index
    /// past the last channel changes nothing.
    pub fn remove_sink(&mut self, index: usize)
        ensures
            final(self)@ == with_removed(old(self)@, index as int),
    {
        if index < self.selected_sinks.len() {
            self.selected_sinks.remove(index);
            assert(channels_view(self.selected_sinks@) =~= channels_view(
                old(self).selected_sinks@,
            ).remove(index as int));
        }
    }

    /// Sets the level meter of the channel at `index`.
    pub fn set_audio_level(&mut self, index: usize, level: V)
        requires
            index < old(self)@.selected.len(),
        ensures
            final(self)@ == (EngineView {
                selected: old(self)@.selected.update(
                    index as int,
                    ChannelView { audio_level: level, ..old(self)@.selected[index as int] },
                ),
                ..old(self)@
            }),
    {
        let ghost old_view = channels_view(self.selected_sinks@);
        let mut ch = self.selected_sinks.remove(index);
        ch.audio_level = level;
        self.selected_sinks.insert(index, ch);
        assert(channels_view(self.selected_sinks@) =~= old_view.update(index as int, ch@));
    }

    /// Applies a user's edit of the channel at `index`: a new volume (when
    /// the slider moved) and the mute switch. While the mixer runs, a moved
    /// volume and a flipped mute are kept and returned as updates for the
    /// sound server; while it is stopped the channel keeps its settings and
    /// nothing is returned.
    pub fn edit_channel(&mut self, index: usize, volume: Option<V>, muted: bool, running: bool) -> (r:
        ChannelUpdates<V>)
        requires
            index < old(self)@.selected.len(),
        ensures
            final(self)@ == with_edit(old(self)@, index as int, volume, muted, running),
            ({
                let ch = old(self)@.selected[index as int];
                &&& r.volume == if running && volume is Some {
                    Some((ch.sink_index, volume->0))
                } else {
                    None::<(u32, V)>
                }
                &&& r.mute == if running && muted != ch.muted {
                    Some((ch.sink_index, muted))
                } else {
                    None::<(u32, bool)>
                }
            }),
    {
        let ghost old_view = channels_view(self.selected_sinks@);
        let mut ch = self.selected_sinks.remove(index);
        let mut updates = ChannelUpdates { volume: None, mute: None };
        if running {
            match volume {
                Some(v) => {
                    ch.volume = v;
                    updates.volume = Some((ch.sink_index, v));
                },
                None => {},
            }
            if muted != ch.muted {
                ch.muted = muted;
                updates.mute = Some((ch.sink_index, muted));
            }
        }
        self.selected_sinks.insert(index, ch);
        assert(channels_view(self.selected_sinks@) =~= old_view.update(index as int, ch@));
        updates
    }

    /// The arguments to load the combining module with, or `NoDevices` when
    /// the mix has no channel.
    pub fn prepare_start(&self) -> (r: Result<String, EngineError>)
        ensures
            self@.selected.len() == 0 ==> r == Err::<String, EngineError>(EngineError::NoDevices),
            self@.selected.len() > 0 ==> (r matches Ok(args) && args@ == module_args_seq(
                combined_sink_seq(),
                self@.selected,
            )),
    {
        proof {
            use_type_invariant(&self.combined_sink_name);
        }
        if self.selected_sinks.len() == 0 {
            return Err(EngineError::NoDevices);
        }
        let ghost sel = channels_view(self.selected_sinks@);
        let mut names: Vec<String> = Vec::new();
        let mut i: usize = 0;
        while i < self.selected_sinks.len()
            invariant
                i <= self.selected_sinks.len(),
                sel == channels_view(self.selected_sinks@),
                names@.map_values(|p: String| p@) == slave_sinks(sel).take(i as int),
            decreases self.selected_sinks.len() - i,
        {
            let base = text_before_first(self.selected_sinks[i].info.name.as_str(), '#');
            assert(sel[i as int] == self.selected_sinks@[i as int]@);
            assert(slave_sinks(sel)[i as int] == base@);
            let ghost prev = names@.map_values(|p: String| p@);
            names.push(base);
            assert(names@.map_values(|p: String| p@) =~= prev.push(base@));
            assert(names@.map_values(|p: String| p@) =~= slave_sinks(sel).take(i + 1));
            i = i + 1;
        }
        assert(slave_sinks(sel).take(i as int) =~= slave_sinks(sel));
        let slaves = join_texts(&names, ",");
        let mut args = String::from_str("sink_name=");
        args.append(self.combined_sink_name.name.as_str());
        args.append(" slaves=");
        args.append(slaves.as_str());
        args.append(" adjust_time=0 resample_method=trivial");
        Ok(args)
    }

    /// Records the answer to loading the combining module. When it loaded,
    /// the mixer runs with that module, and the plan says which settings to
    /// apply and which sink to make the default; when it did not, nothing
    /// changes and `ModuleLoadFailed` is returned.
    pub fn finish_start(&mut self, loaded: Option<u32>) -> (r: Result<StartPlan<V>, EngineError>)
        ensures
            match loaded {
                Some(idx) => {
                    &&& final(self)@ == with_module(old(self)@, Some(idx))
                    &&& (r matches Ok(plan) && plan.default_sink@ == combined_sink_seq()
                        && plan.settings@ == old(self)@.selected.map_values(
                        |c: ChannelView<V>| (c.sink_index, c.volume, c.muted),
                    ))
                },
                None => final(self)@ == old(self)@ && r == Err::<StartPlan<V>, EngineError>(
                    EngineError::ModuleLoadFailed,
                ),
            },
    {
        proof {
            use_type_invariant(&self.combined_sink_name);
        }
        match loaded {
            Some(idx) => {
                self.combined_module_index = Some(idx);
                let ghost sel = channels_view(self.selected_sinks@);
                let mut settings: Vec<(u32, V, bool)> = Vec::new();
                let mut i: usize = 0;
                while i < self.selected_sinks.len()
                    invariant
                        i <= self.selected_sinks.len(),
                        sel == channels_view(self.selected_sinks@),
                        settings@ == sel.map_values(
                            |c: ChannelView<V>| (c.sink_index, c.volume, c.muted),
                        ).take(i as int),
                    decreases self.selected_sinks.len() - i,
                {
                    let ch = &self.selected_sinks[i];
                    settings.push((ch.sink_index, ch.volume, ch.muted));
                    assert(settings@ =~= sel.map_values(
                        |c: ChannelView<V>| (c.sink_index, c.volume, c.muted),
                    ).take(i + 1));
                    i = i + 1;
                }
                assert(sel.map_values(|c: ChannelView<V>| (c.sink_index, c.volume, c.muted)).take(
                    i as int,
                ) =~= sel.map_values(|c: ChannelView<V>| (c.sink_index, c.volume, c.muted)));
                Ok(StartPlan { settings, default_sink: self.combined_sink_name.name.clone() })
            },
            None => Err(EngineError::ModuleLoadFailed),
        }
    }

    /// What to ask of the sound server to stop the mixer; nothing when it is
    /// not running. The default output goes back to the sink of the first
    /// channel (its device name up to the first `#`).
    pub fn stop_plan(&self) -> (r: Option<StopPlan>)
        ensures
            match self@.module_index {
                Some(idx) => (r matches Some(plan) && plan.module_index == idx && match plan.restore_default {
                    Some(name) => self@.selected.len() > 0 && name@ == before_first(
                        self@.selected[0].info.name,
                        '#',
                    ),
                    None => self@.selected.len() == 0,
                }),
                None => r is None,
            },
    {
        match self.combined_module_index {
            Some(idx) => {
                let restore_default = if self.selected_sinks.len() > 0 {
                    Some(text_before_first(self.selected_sinks[0].info.name.as_str(), '#'))
                } else {
                    None
                };
                Some(StopPlan { restore_default, module_index: idx })
            },
            None => None,
        }
    }

    /// Records that the combining module was unloaded: the mixer is stopped.
    pub fn finish_stop(&mut self)
        ensures
            final(self)@ == with_module(old(self)@, None),
    {
        self.combined_module_index = None;
    }
}

} // verus!
