//! Output devices as the sound server reports them, and the names and
//! descriptions under which the mixer offers them.
use vstd::prelude::*;
use vstd::string::*;
use crate::text::{
    free_of, lemma_first_index_absent, lemma_first_index_after, before_first, contains_seq, decimal, decimal_text, replace_seq, replace_text, second_field,
    starts_with_seq, text_before_first, text_contains, text_second_field, text_starts_with,
};

verus! {

/// An output device the mixer can add: the sink name (with `#port` when a
/// particular output port is meant) and the text shown to the user.
pub struct DeviceInfo {
    pub name: String,
    pub description: String,
}

/// What a [`DeviceInfo`] stands for.
pub struct DeviceView {
    pub name: Seq<char>,
    pub description: Seq<char>,
}

impl View for DeviceInfo {
    type V = DeviceView;

    open spec fn view(&self) -> DeviceView {
        DeviceView { name: self.name@, description: self.description@ }
    }
}

impl Clone for DeviceInfo {
    fn clone(&self) -> (r: Self)
        ensures
            r@ == self@,
    {
        DeviceInfo { name: self.name.clone(), description: self.description.clone() }
    }
}

/// The views of a sequence of devices.
pub open spec fn devices_view(v: Seq<DeviceInfo>) -> Seq<DeviceView> {
    v.map_values(|d: DeviceInfo| d@)
}

/// The view of an optional string.
pub open spec fn opt_text(o: Option<String>) -> Option<Seq<char>> {
    match o {
        Some(s) => Some(s@),
        None => None,
    }
}

/// A port of a sink, as listed by the sound server.
pub struct PortEntry {
    pub name: Option<String>,
    pub description: Option<String>,
}

pub struct PortView {
    pub name: Option<Seq<char>>,
    pub description: Option<Seq<char>>,
}

impl View for PortEntry {
    type V = PortView;

    open spec fn view(&self) -> PortView {
        PortView { name: opt_text(self.name), description: opt_text(self.description) }
    }
}

/// A sink, as listed by the sound server: its name, its description and its ports.
pub struct SinkEntry {
    pub name: Option<String>,
    pub description: Option<String>,
    pub ports: Vec<PortEntry>,
}

pub struct SinkView {
    pub name: Option<Seq<char>>,
    pub description: Option<Seq<char>>,
    pub ports: Seq<PortView>,
}

impl View for SinkEntry {
    type V = SinkView;

    open spec fn view(&self) -> SinkView {
        SinkView {
            name: opt_text(self.name),
            description: opt_text(self.description),
            ports: self.ports@.map_values(|p: PortEntry| p@),
        }
    }
}

/// A sink's name and its index on the sound server.
pub struct SinkRef {
    pub name: Option<String>,
    pub index: u32,
}

pub struct SinkRefView {
    pub name: Option<Seq<char>>,
    pub index: u32,
}

impl View for SinkRef {
    type V = SinkRefView;

    open spec fn view(&self) -> SinkRefView {
        SinkRefView { name: opt_text(self.name), index: self.index }
    }
}

/// The name prefix of the sink that the mixer itself creates; such sinks
/// are never offered as outputs.
pub open spec fn combined_prefix() -> Seq<char> {
    "exiometter_combined"@
}

/// The label of a port: the jack colour for the well-known port kinds,
/// else the port's own description, else its name.
pub open spec fn port_description_seq(port_name: Seq<char>, port_desc: Seq<char>) -> Seq<char> {
    if contains_seq(port_name, "lineout"@) {
        "🟢 Line Out (green jack)"@
    } else if contains_seq(port_name, "headphones"@) {
        "🎧 Headphones (green jack)"@
    } else if contains_seq(port_name, "speaker"@) && contains_seq(port_name, "front"@) {
        "🟢 Front Speakers (green)"@
    } else if contains_seq(port_name, "speaker"@) && contains_seq(port_name, "rear"@) {
        "🔵 Rear Speakers (blue)"@
    } else if contains_seq(port_name, "speaker"@) && contains_seq(port_name, "surround"@) {
        "⚫ Surround (black)"@
    } else if contains_seq(port_name, "speaker"@) && contains_seq(port_name, "side"@) {
        "⚫ Side Speakers (gray)"@
    } else if contains_seq(port_name, "center-lfe"@) {
        "🟠 Center + Sub (orange)"@
    } else if contains_seq(port_name, "mic"@) {
        "🔴 Microphone (pink)"@
    } else if contains_seq(port_name, "line-in"@) {
        "🔵 Line In (blue)"@
    } else if port_desc.len() == 0 {
        "🔊 "@ + port_name
    } else {
        "🔊 "@ + port_desc
    }
}

/// The label of a port, see [`port_description_seq`].
pub fn get_port_description(port_name: &str, port_desc: &str) -> (r: String)
    ensures
        r@ == port_description_seq(port_name@, port_desc@),
{
    if text_contains(port_name, "lineout") {
        String::from_str("🟢 Line Out (green jack)")
    } else if text_contains(port_name, "headphones") {
        String::from_str("🎧 Headphones (green jack)")
    } else if text_contains(port_name, "speaker") && text_contains(port_name, "front") {
        String::from_str("🟢 Front Speakers (green)")
    } else if text_contains(port_name, "speaker") && text_contains(port_name, "rear") {
        String::from_str("🔵 Rear Speakers (blue)")
    } else if text_contains(port_name, "speaker") && text_contains(port_name, "surround") {
        String::from_str("⚫ Surround (black)")
    } else if text_contains(port_name, "speaker") && text_contains(port_name, "side") {
        String::from_str("⚫ Side Speakers (gray)")
    } else if text_contains(port_name, "center-lfe") {
        String::from_str("🟠 Center + Sub (orange)")
    } else if text_contains(port_name, "mic") {
        String::from_str("🔴 Microphone (pink)")
    } else if text_contains(port_name, "line-in") {
        String::from_str("🔵 Line In (blue)")
    } else {
        let mut r = String::from_str("🔊 ");
        if port_desc.is_empty() {
            r.append(port_name);
        } else {
            r.append(port_desc);
        }
        r
    }
}

/// A device description with the "Built-in Audio " prefix words removed.
pub open spec fn device_name_seq(name: Seq<char>) -> Seq<char> {
    replace_seq(name, "Built-in Audio "@, ""@)
}

/// Replacing a text by itself changes nothing.
pub proof fn lemma_replace_same(s: Seq<char>, p: Seq<char>)
    ensures
        replace_seq(s, p, p) == s,
    decreases s.len(),
{
    if p.len() == 0 || s.len() < p.len() {
    } else if s.take(p.len() as int) == p {
        lemma_replace_same(s.skip(p.len() as int), p);
        assert(s =~= p + s.skip(p.len() as int));
    } else {
        lemma_replace_same(s.skip(1), p);
        assert(s =~= seq![s[0]] + s.skip(1));
    }
}

/// A device description as the mixer shows it, see [`device_name_seq`]; the
/// further replacements of a word by itself leave the text as it is.
pub fn format_device_name(name: &str) -> (r: String)
    ensures
        r@ == device_name_seq(name@),
{
    proof {
        reveal_strlit("Built-in Audio ");
        reveal_strlit("Analog Stereo");
        reveal_strlit("Digital Stereo");
        reveal_strlit("HDMI");
        reveal_strlit("Headphones");
    }
    let r = replace_text(name, "Built-in Audio ", "");
    let r = replace_text(r.as_str(), "Analog Stereo", "Analog Stereo");
    proof { lemma_replace_same(device_name_seq(name@), "Analog Stereo"@); }
    let r = replace_text(r.as_str(), "Digital Stereo", "Digital Stereo");
    proof { lemma_replace_same(device_name_seq(name@), "Digital Stereo"@); }
    let r = replace_text(r.as_str(), "HDMI", "HDMI");
    proof { lemma_replace_same(device_name_seq(name@), "HDMI"@); }
    let r = replace_text(r.as_str(), "Headphones", "Headphones");
    proof { lemma_replace_same(device_name_seq(name@), "Headphones"@); }
    r
}

/// The port names that mark an analog output.
pub open spec fn is_analog_output(port: PortView) -> bool {
    match port.name {
        Some(n) => contains_seq(n, "analog-output"@),
        None => false,
    }
}

/// The device offered for one port of sink `sink` (described as `desc`):
/// one entry for an analog output port, none for any other port.
pub open spec fn port_device(sink: Seq<char>, desc: Seq<char>, port: PortView) -> Seq<DeviceView> {
    if is_analog_output(port) {
        let pn = port.name.unwrap();
        let pd = match port.description {
            Some(d) => d,
            None => ""@,
        };
        seq![
            DeviceView {
                name: sink + "#"@ + pn,
                description: desc + " - "@ + port_description_seq(pn, pd),
            },
        ]
    } else {
        Seq::empty()
    }
}

/// The devices offered for the ports of a sink, in port order.
pub open spec fn port_devices(sink: Seq<char>, desc: Seq<char>, ports: Seq<PortView>) -> Seq<
    DeviceView,
>
    decreases ports.len(),
{
    if ports.len() == 0 {
        Seq::empty()
    } else {
        port_devices(sink, desc, ports.drop_last()) + port_device(sink, desc, ports.last())
    }
}

/// Whether some port of the sink is an analog output.
pub open spec fn has_analog_output(ports: Seq<PortView>) -> bool {
    exists|i: int| 0 <= i < ports.len() && is_analog_output(#[trigger] ports[i])
}

/// The devices a listed sink is offered as: none for the mixer's own sink;
/// else one per analog output port, or the sink itself when it has none.
pub open spec fn sink_devices_seq(sink: SinkView) -> Seq<DeviceView> {
    let name = match sink.name {
        Some(n) => n,
        None => "unknown"@,
    };
    if starts_with_seq(name, combined_prefix()) {
        Seq::empty()
    } else {
        let desc = match sink.description {
            Some(d) => device_name_seq(d),
            None => name,
        };
        port_devices(name, desc, sink.ports) + if has_analog_output(sink.ports) {
            Seq::<DeviceView>::empty()
        } else {
            seq![DeviceView { name: name, description: desc }]
        }
    }
}

/// The devices a listed sink is offered as, see [`sink_devices_seq`].
pub fn sink_devices(sink: &SinkEntry) -> (r: Vec<DeviceInfo>)
    ensures
        devices_view(r@) == sink_devices_seq(sink@),
{
    let name = match &sink.name {
        Some(n) => n.clone(),
        None => String::from_str("unknown"),
    };
    let mut out: Vec<DeviceInfo> = Vec::new();
    if text_starts_with(name.as_str(), "exiometter_combined") {
        assert(devices_view(out@) =~= Seq::<DeviceView>::empty());
        return out;
    }
    let description = match &sink.description {
        Some(d) => format_device_name(d.as_str()),
        None => name.clone(),
    };
    let ghost ports = sink@.ports;
    let mut any = false;
    let mut i: usize = 0;
    assert(ports.take(0) =~= Seq::<PortView>::empty());
    assert(devices_view(out@) =~= Seq::<DeviceView>::empty());
    while i < sink.ports.len()
        invariant
            i <= sink.ports.len(),
            ports == sink@.ports,
            ports.len() == sink.ports.len(),
            devices_view(out@) == port_devices(name@, description@, ports.take(i as int)),
            any == exists|k: int| 0 <= k < i && is_analog_output(#[trigger] ports[k]),
        decreases sink.ports.len() - i,
    {
        let port = &sink.ports[i];
        assert(ports[i as int] == port@);
        assert(ports.take(i + 1).drop_last() =~= ports.take(i as int));
        assert(ports.take(i + 1).last() == port@);
        match &port.name {
            Some(pn) => {
                if text_contains(pn.as_str(), "analog-output") {
                    let pd: &str = match &port.description {
                        Some(d) => d.as_str(),
                        None => "",
                    };
                    let mut dn = name.clone();
                    dn.append("#");
                    dn.append(pn.as_str());
                    let label = get_port_description(pn.as_str(), pd);
                    let mut dd = description.clone();
                    dd.append(" - ");
                    dd.append(label.as_str());
                    let ghost prev = devices_view(out@);
                    out.push(DeviceInfo { name: dn, description: dd });
                    assert(devices_view(out@) =~= prev + port_device(
                        name@,
                        description@,
                        port@,
                    ));
                    any = true;
                } else {
                    assert(port_device(name@, description@, port@) =~= Seq::<DeviceView>::empty());
                    assert(devices_view(out@) =~= devices_view(out@) + Seq::<DeviceView>::empty());
                }
            },
            None => {
                assert(port_device(name@, description@, port@) =~= Seq::<DeviceView>::empty());
                assert(devices_view(out@) =~= devices_view(out@) + Seq::<DeviceView>::empty());
            },
        }
        i = i + 1;
    }
    assert(ports.take(i as int) =~= ports);
    if !any {
        let ghost prev = devices_view(out@);
        out.push(DeviceInfo { name, description });
        assert(devices_view(out@) =~= prev + seq![
            DeviceView { name: name@, description: description@ },
        ]);
    } else {
        assert(devices_view(out@) =~= devices_view(out@) + Seq::<DeviceView>::empty());
    }
    out
}

/// The devices offered for a whole listing of sinks, sink by sink.
pub open spec fn listing_devices_seq(sinks: Seq<SinkView>) -> Seq<DeviceView>
    decreases sinks.len(),
{
    if sinks.len() == 0 {
        Seq::empty()
    } else {
        listing_devices_seq(sinks.drop_last()) + sink_devices_seq(sinks.last())
    }
}

/// The devices offered for a whole listing of sinks, see [`listing_devices_seq`].
pub fn listing_devices(sinks: &Vec<SinkEntry>) -> (r: Vec<DeviceInfo>)
    ensures
        devices_view(r@) == listing_devices_seq(sinks@.map_values(|s: SinkEntry| s@)),
{
    let ghost views = sinks@.map_values(|s: SinkEntry| s@);
    let mut out: Vec<DeviceInfo> = Vec::new();
    let mut i: usize = 0;
    assert(devices_view(out@) =~= Seq::<DeviceView>::empty());
    while i < sinks.len()
        invariant
            i <= sinks.len(),
            views == sinks@.map_values(|s: SinkEntry| s@),
            devices_view(out@) == listing_devices_seq(views.take(i as int)),
        decreases sinks.len() - i,
    {
        let mut more = sink_devices(&sinks[i]);
        assert(views.take(i + 1).drop_last() =~= views.take(i as int));
        assert(views.take(i + 1).last() == sinks@[i as int]@);
        let ghost prev = out@;
        let ghost extra = more@;
        out.append(&mut more);
        assert(devices_view(out@) =~= devices_view(prev) + devices_view(extra));
        i = i + 1;
    }
    assert(views.take(i as int) =~= views);
    out
}

/// A port whose name names no known jack is labelled with its own
/// description when it has one, and with its name otherwise.
pub proof fn lemma_plain_port_label(port_name: Seq<char>, port_desc: Seq<char>)
    requires
        !contains_seq(port_name, "lineout"@),
        !contains_seq(port_name, "headphones"@),
        !contains_seq(port_name, "center-lfe"@),
        !contains_seq(port_name, "mic"@),
        !contains_seq(port_name, "line-in"@),
        !contains_seq(port_name, "front"@),
        !contains_seq(port_name, "rear"@),
        !contains_seq(port_name, "surround"@),
        !contains_seq(port_name, "side"@),
    ensures
        port_desc.len() > 0 ==> port_description_seq(port_name, port_desc) == "🔊 "@ + port_desc,
        port_desc.len() == 0 ==> port_description_seq(port_name, port_desc) == "🔊 "@ + port_name,
{
}

/// The devices offered for the first ports of a sink lie among those for
/// all of its ports, and each analog output port is offered.
proof fn lemma_port_offered(sink: Seq<char>, desc: Seq<char>, ports: Seq<PortView>, j: int)
    requires
        0 <= j < ports.len(),
    ensures
        forall|x: DeviceView| port_device(sink, desc, ports[j]).contains(x) ==> port_devices(
            sink,
            desc,
            ports,
        ).contains(x),
    decreases ports.len(),
{
    let front = port_devices(sink, desc, ports.drop_last());
    let last = port_device(sink, desc, ports.last());
    assert(port_devices(sink, desc, ports) == front + last);
    if j == ports.len() - 1 {
        assert(ports.last() == ports[j]);
        assert forall|x: DeviceView|
            port_device(sink, desc, ports[j]).contains(x) implies (front + last).contains(x) by {
            assert(last.contains(x));
            let k = choose|k: int| 0 <= k < last.len() && last[k] == x;
            assert((front + last)[front.len() + k] == x);
        }
    } else {
        lemma_port_offered(sink, desc, ports.drop_last(), j);
        assert(ports.drop_last()[j] == ports[j]);
        assert forall|x: DeviceView|
            port_device(sink, desc, ports[j]).contains(x) implies (front + last).contains(x) by {
            assert(port_device(sink, desc, ports.drop_last()[j]).contains(x));
            assert(front.contains(x));
            let k = choose|k: int| 0 <= k < front.len() && front[k] == x;
            assert((front + last)[k] == x);
        }
    }
}

/// Every analog output port of a listed sink (other than the mixer's own)
/// is offered as a device named `<sink>#<port>` and described as the sink's
/// description, " - ", and the label of the port computed from the port's
/// name and the port's own description (empty when it has none).
pub proof fn lemma_analog_port_offered(sink: SinkView, j: int, port_name: Seq<char>)
    requires
        0 <= j < sink.ports.len(),
        sink.ports[j].name == Some(port_name),
        contains_seq(port_name, "analog-output"@),
        !starts_with_seq(
            match sink.name {
                Some(n) => n,
                None => "unknown"@,
            },
            "exiometter_combined"@,
        ),
    ensures
        ({
            let name = match sink.name {
                Some(n) => n,
                None => "unknown"@,
            };
            let desc = match sink.description {
                Some(d) => replace_seq(d, "Built-in Audio "@, ""@),
                None => name,
            };
            let port_desc = match sink.ports[j].description {
                Some(d) => d,
                None => ""@,
            };
            sink_devices_seq(sink).contains(
                DeviceView {
                    name: name + "#"@ + port_name,
                    description: desc + " - "@ + port_description_seq(port_name, port_desc),
                },
            )
        }),
{
    let name = match sink.name {
        Some(n) => n,
        None => "unknown"@,
    };
    let desc = match sink.description {
        Some(d) => replace_seq(d, "Built-in Audio "@, ""@),
        None => name,
    };
    let port_desc = match sink.ports[j].description {
        Some(d) => d,
        None => ""@,
    };
    let dev = DeviceView {
        name: name + "#"@ + port_name,
        description: desc + " - "@ + port_description_seq(port_name, port_desc),
    };
    assert(port_device(name, desc, sink.ports[j])[0] == dev);
    lemma_port_offered(name, desc, sink.ports, j);
    let front = port_devices(name, desc, sink.ports);
    assert(front.contains(dev));
    let all = sink_devices_seq(sink);
    let k = choose|k: int| 0 <= k < front.len() && front[k] == dev;
    assert(all[k] == dev);
}

/// Splitting a device name gives back what it was made of: for a port
/// device (sink, `#`, port) the sink and the port, for a sink device the
/// sink and no port, when neither name holds a `#`.
pub proof fn lemma_device_name_split(sink: Seq<char>, port: Seq<char>)
    requires
        free_of(sink, '#'),
        free_of(port, '#'),
    ensures
        before_first(sink + "#"@ + port, '#') == sink,
        second_field(sink + "#"@ + port, '#') == Some(port),
        before_first(sink, '#') == sink,
        second_field(sink, '#') is None,
{
    reveal_strlit("#");
    assert("#"@ =~= seq!['#']);
    lemma_first_index_after(sink, '#', port);
    let s = sink + seq!['#'] + port;
    assert(s.take(sink.len() as int) =~= sink);
    assert(s.skip(sink.len() as int + 1) =~= port);
    lemma_first_index_absent(port, '#');
    lemma_first_index_absent(sink, '#');
}

/// A name that does not begin with `p` (which holds no `#`) does not
/// begin with `p` once `#` and more are put after it.
proof fn lemma_no_prefix_extended(n: Seq<char>, p: Seq<char>, rest: Seq<char>)
    requires
        !starts_with_seq(n, p),
        free_of(p, '#'),
    ensures
        !starts_with_seq(n + "#"@ + rest, p),
{
    reveal_strlit("#");
    let s = n + "#"@ + rest;
    if starts_with_seq(s, p) {
        if n.len() >= p.len() {
            assert(n.subrange(0, p.len() as int) =~= s.subrange(0, p.len() as int));
        } else {
            assert(s[n.len() as int] == '#');
            assert(s.subrange(0, p.len() as int)[n.len() as int] == p[n.len() as int]);
        }
    }
}

/// Every device offered for the ports of sink `sink` is named `sink`, `#`
/// and a port name.
proof fn lemma_port_device_names(sink: Seq<char>, desc: Seq<char>, ports: Seq<PortView>)
    ensures
        forall|k: int|
            0 <= k < port_devices(sink, desc, ports).len() ==> exists|pn: Seq<char>|
                (#[trigger] port_devices(sink, desc, ports)[k]).name == sink + "#"@ + pn,
    decreases ports.len(),
{
    if ports.len() > 0 {
        lemma_port_device_names(sink, desc, ports.drop_last());
        let front = port_devices(sink, desc, ports.drop_last());
        let last = port_device(sink, desc, ports.last());
        let all = port_devices(sink, desc, ports);
        assert(all == front + last);
        assert forall|k: int| 0 <= k < all.len() implies exists|pn: Seq<char>|
            (#[trigger] all[k]).name == sink + "#"@ + pn by {
            if k < front.len() {
                assert(all[k] == front[k]);
            } else {
                assert(all[k] == last[k - front.len()]);
                let pn = ports.last().name.unwrap();
                assert(all[k].name == sink + "#"@ + pn);
            }
        }
    }
}

/// The mixer never offers its own combining sink as an output: no offered
/// device's name begins with the combining sink's name.
pub proof fn lemma_own_sink_not_offered(sink: SinkView)
    ensures
        forall|k: int|
            0 <= k < sink_devices_seq(sink).len() ==> !starts_with_seq(
                #[trigger] sink_devices_seq(sink)[k].name,
                combined_prefix(),
            ),
{
    reveal_strlit("exiometter_combined");
    let p = combined_prefix();
    assert(free_of(p, '#'));
    let name = match sink.name {
        Some(n) => n,
        None => "unknown"@,
    };
    if !starts_with_seq(name, p) {
        let desc = match sink.description {
            Some(d) => device_name_seq(d),
            None => name,
        };
        let front = port_devices(name, desc, sink.ports);
        lemma_port_device_names(name, desc, sink.ports);
        let all = sink_devices_seq(sink);
        assert forall|k: int| 0 <= k < all.len() implies !starts_with_seq(
            #[trigger] all[k].name,
            p,
        ) by {
            if k < front.len() {
                assert(all[k] == front[k]);
                let pn = choose|pn: Seq<char>| (#[trigger] front[k]).name == name + "#"@ + pn;
                lemma_no_prefix_extended(name, p, pn);
            } else {
                assert(all[k].name == name);
            }
        }
    }
}

/// No device of a whole listing is the mixer's own combining sink.
pub proof fn lemma_own_sink_not_listed(sinks: Seq<SinkView>)
    ensures
        forall|k: int|
            0 <= k < listing_devices_seq(sinks).len() ==> !starts_with_seq(
                #[trigger] listing_devices_seq(sinks)[k].name,
                combined_prefix(),
            ),
    decreases sinks.len(),
{
    if sinks.len() > 0 {
        lemma_own_sink_not_listed(sinks.drop_last());
        lemma_own_sink_not_offered(sinks.last());
        let front = listing_devices_seq(sinks.drop_last());
        let last = sink_devices_seq(sinks.last());
        let all = listing_devices_seq(sinks);
        assert forall|k: int| 0 <= k < all.len() implies !starts_with_seq(
            #[trigger] all[k].name,
            combined_prefix(),
        ) by {
            if k < front.len() {
                assert(all[k] == front[k]);
            } else {
                assert(all[k] == last[k - front.len()]);
            }
        }
    }
}

/// The sink that a device name designates: the part before the first `#`.
pub fn base_sink_name(sink_name: &str) -> (r: String)
    ensures
        r@ == before_first(sink_name@, '#'),
{
    text_before_first(sink_name, '#')
}

/// A device name split into the sink it designates and, after a `#`, the
/// output port meant on that sink.
pub fn split_sink_name(sink_name: &str) -> (r: (String, Option<String>))
    ensures
        r.0@ == before_first(sink_name@, '#'),
        opt_text(r.1) == second_field(sink_name@, '#'),
{
    let base = text_before_first(sink_name, '#');
    let port = text_second_field(sink_name, '#');
    (base, port)
}

/// The index of the last listed sink named `target`.
pub open spec fn sink_index_seq(sinks: Seq<SinkRefView>, target: Seq<char>) -> Option<u32>
    decreases sinks.len(),
{
    if sinks.len() == 0 {
        None
    } else if sinks.last().name == Some(target) {
        Some(sinks.last().index)
    } else {
        sink_index_seq(sinks.drop_last(), target)
    }
}

/// Why an operation on the mixer was refused.
#[derive(PartialEq, Eq, Structural, Clone, Copy, Debug)]
pub enum EngineError {
    /// The mixer was started with no device added.
    NoDevices,
    /// No listed sink has the name asked for.
    SinkNotFound,
    /// The sound server did not load the combining module.
    ModuleLoadFailed,
}

impl EngineError {
    /// The message shown for the error.
    pub fn message(&self) -> (r: &'static str)
        ensures
            r@ == match self {
                EngineError::NoDevices => "Add at least one device"@,
                EngineError::SinkNotFound => "Sink not found"@,
                EngineError::ModuleLoadFailed => "Failed to load combine-sink module"@,
            },
    {
        match self {
            EngineError::NoDevices => "Add at least one device",
            EngineError::SinkNotFound => "Sink not found",
            EngineError::ModuleLoadFailed => "Failed to load combine-sink module",
        }
    }
}

/// The index of the sink that the device name `sink_name` designates
/// (its part before `#`), in a listing of sinks; where several sinks carry
/// that name, the last one listed.
pub fn get_sink_index(sinks: &Vec<SinkRef>, sink_name: &str) -> (r: Result<u32, EngineError>)
    ensures
        match sink_index_seq(
            sinks@.map_values(|s: SinkRef| s@),
            before_first(sink_name@, '#'),
        ) {
            Some(i) => r == Ok::<u32, EngineError>(i),
            None => r == Err::<u32, EngineError>(EngineError::SinkNotFound),
        },
{
    let base = text_before_first(sink_name, '#');
    let ghost views = sinks@.map_values(|s: SinkRef| s@);
    let mut found: Option<u32> = None;
    let mut i: usize = 0;
    while i < sinks.len()
        invariant
            i <= sinks.len(),
            views == sinks@.map_values(|s: SinkRef| s@),
            found == sink_index_seq(views.take(i as int), base@),
        decreases sinks.len() - i,
    {
        assert(views.take(i + 1).drop_last() =~= views.take(i as int));
        assert(views.take(i + 1).last() == sinks@[i as int]@);
        match &sinks[i].name {
            Some(n) => {
                if *n == base {
                    found = Some(sinks[i].index);
                }
            },
            None => {},
        }
        i = i + 1;
    }
    assert(views.take(i as int) =~= views);
    match found {
        Some(idx) => Ok(idx),
        None => Err(EngineError::SinkNotFound),
    }
}

/// An application that plays sound, with its volume and mute state.
pub struct AppAudioInfo<V> {
    pub name: String,
    pub index: u32,
    pub volume: V,
    pub muted: bool,
}

pub struct AppView<V> {
    pub name: Seq<char>,
    pub index: u32,
    pub volume: V,
    pub muted: bool,
}

impl<V> View for AppAudioInfo<V> {
    type V = AppView<V>;

    open spec fn view(&self) -> AppView<V> {
        AppView { name: self.name@, index: self.index, volume: self.volume, muted: self.muted }
    }
}

/// The name an application stream is shown under: its application name,
/// else its media name, else "Application" and its index.
pub open spec fn app_label_seq(
    application_name: Option<Seq<char>>,
    media_name: Option<Seq<char>>,
    index: u32,
) -> Seq<char> {
    match application_name {
        Some(a) => a,
        None => match media_name {
            Some(m) => m,
            None => "Application "@ + decimal(index as nat),
        },
    }
}

/// Whether a stream name marks the mixer's own output.
pub open spec fn is_own_stream(name: Seq<char>) -> bool {
    contains_seq(name, "exIOMetter"@) || contains_seq(name, combined_prefix())
}

/// The entry of the application mixer for a playing stream: none for the
/// mixer's own streams, else the stream under its label with the given
/// volume and mute state.
pub fn audio_app_entry<V>(
    application_name: &Option<String>,
    media_name: &Option<String>,
    index: u32,
    volume: V,
    muted: bool,
) -> (r: Option<AppAudioInfo<V>>)
    ensures
        ({
            let label = app_label_seq(opt_text(*application_name), opt_text(*media_name), index);
            match r {
                Some(app) => !is_own_stream(label) && app.name@ == label && app.index == index
                    && app.volume == volume && app.muted == muted,
                None => is_own_stream(label),
            }
        }),
{
    let label = match application_name {
        Some(a) => a.clone(),
        None => match media_name {
            Some(m) => m.clone(),
            None => {
                let mut s = String::from_str("Application ");
                let digits = decimal_text(index as u64);
                s.append(digits.as_str());
                s
            },
        },
    };
    if text_contains(label.as_str(), "exIOMetter") || text_contains(
        label.as_str(),
        "exiometter_combined",
    ) {
        None
    } else {
        Some(AppAudioInfo { name: label, index, volume, muted })
    }
}

} // verus!
