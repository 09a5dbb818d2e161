//! Choosing the input that monitors an output device, for the level meter.
use vstd::prelude::*;
use vstd::string::*;
use crate::devices::opt_text;
use crate::text::{contains_seq, occurs_at, text_contains};

verus! {

/// The names under which the monitor source of device `name` may be listed:
/// the name itself, and the name with ".monitor" or "_monitor" after it.
pub open spec fn monitor_variants_seq(name: Seq<char>) -> Seq<Seq<char>> {
    seq![name, name + ".monitor"@, name + "_monitor"@]
}

/// The names under which the monitor source of a device may be listed,
/// see [`monitor_variants_seq`].
pub fn monitor_variants(name: &str) -> (r: Vec<String>)
    ensures
        r@.map_values(|s: String| s@) == monitor_variants_seq(name@),
{
    let mut dotted = String::from_str(name);
    dotted.append(".monitor");
    let mut underscored = String::from_str(name);
    underscored.append("_monitor");
    let mut r: Vec<String> = Vec::new();
    r.push(String::from_str(name));
    r.push(dotted);
    r.push(underscored);
    assert(r@.map_values(|s: String| s@) =~= monitor_variants_seq(name@));
    r
}

/// An input listed as `candidate` is taken as the monitor of device `name`
/// when it names one of the device's variants, or any monitor at all.
pub open spec fn is_monitor_of_seq(candidate: Seq<char>, name: Seq<char>) -> bool {
    exists|i: int|
        0 <= i < 3 && (contains_seq(candidate, #[trigger] monitor_variants_seq(name)[i])
            || contains_seq(candidate, "monitor"@))
}

/// Whether the input listed as `candidate` is taken as the monitor of
/// device `name`, see [`is_monitor_of_seq`].
pub fn is_monitor_of(candidate: &str, name: &str) -> (r: bool)
    ensures
        r == is_monitor_of_seq(candidate@, name@),
{
    let variants = monitor_variants(name);
    let ghost vs = monitor_variants_seq(name@);
    assert(variants@.map_values(|s: String| s@).len() == 3);
    let mut i: usize = 0;
    while i < variants.len()
        invariant
            i <= variants.len(),
            variants.len() == 3,
            variants@.map_values(|s: String| s@) == vs,
            vs == monitor_variants_seq(name@),
            forall|k: int|
                0 <= k < i ==> !(contains_seq(candidate@, #[trigger] vs[k]) || contains_seq(
                    candidate@,
                    "monitor"@,
                )),
        decreases variants.len() - i,
    {
        assert(vs[i as int] == variants@[i as int]@);
        if text_contains(candidate, variants[i].as_str()) || text_contains(candidate, "monitor") {
            assert(contains_seq(candidate@, monitor_variants_seq(name@)[i as int]) || contains_seq(
                candidate@,
                "monitor"@,
            ));
            return true;
        }
        i = i + 1;
    }
    false
}

/// Where the meter takes its input from.
#[derive(PartialEq, Eq, Structural, Clone, Copy, Debug)]
pub enum MonitorSource {
    /// The default input of the system.
    DefaultInput,
    /// The input at this position of the listing.
    Input(usize),
}

/// The input listed at `i` (when its name could be read) monitors device `name`.
pub open spec fn input_matches(inputs: Seq<Option<Seq<char>>>, i: int, name: Seq<char>) -> bool {
    match inputs[i] {
        Some(n) => is_monitor_of_seq(n, name),
        None => false,
    }
}

/// The input to monitor device `device_name` with: for an empty name the
/// default input; else the first listed input taken as its monitor (see
/// [`is_monitor_of_seq`]), or the default input when none is.
pub fn choose_monitor_source(device_name: &str, inputs: &Vec<Option<String>>) -> (r: MonitorSource)
    ensures
        ({
            let names = inputs@.map_values(|o: Option<String>| opt_text(o));
            match r {
                MonitorSource::Input(i) => {
                    &&& device_name@.len() > 0
                    &&& i < inputs.len()
                    &&& input_matches(names, i as int, device_name@)
                    &&& forall|k: int| 0 <= k < i ==> !input_matches(names, k, device_name@)
                },
                MonitorSource::DefaultInput => device_name@.len() == 0 || forall|k: int|
                    0 <= k < inputs.len() ==> !input_matches(names, k, device_name@),
            }
        }),
{
    if device_name.is_empty() {
        return MonitorSource::DefaultInput;
    }
    let ghost names = inputs@.map_values(|o: Option<String>| opt_text(o));
    let mut i: usize = 0;
    while i < inputs.len()
        invariant
            i <= inputs.len(),
            device_name@.len() > 0,
            names == inputs@.map_values(|o: Option<String>| opt_text(o)),
            forall|k: int| 0 <= k < i ==> !input_matches(names, k, device_name@),
        decreases inputs.len() - i,
    {
        assert(names[i as int] == opt_text(inputs@[i as int]));
        match &inputs[i] {
            Some(n) => {
                if is_monitor_of(n.as_str(), device_name) {
                    assert(names[i as int] == Some(n@));
                    assert(input_matches(names, i as int, device_name@));
                    return MonitorSource::Input(i);
                }
            },
            None => {},
        }
        i = i + 1;
    }
    MonitorSource::DefaultInput
}

/// The ".monitor" and "_monitor" variants add nothing: an input is taken
/// as the monitor of a device exactly when its name contains the device
/// name or the word "monitor".
pub proof fn lemma_monitor_variants_redundant(candidate: Seq<char>, name: Seq<char>)
    ensures
        is_monitor_of_seq(candidate, name) == (contains_seq(candidate, name) || contains_seq(
            candidate,
            "monitor"@,
        )),
{
    let vs = monitor_variants_seq(name);
    assert(vs[0] == name);
    if is_monitor_of_seq(candidate, name) {
        let i = choose|i: int|
            0 <= i < 3 && (contains_seq(candidate, #[trigger] vs[i]) || contains_seq(
                candidate,
                "monitor"@,
            ));
        if contains_seq(candidate, vs[i]) && !contains_seq(candidate, "monitor"@) {
            let j = choose|j: int| #[trigger] occurs_at(candidate, vs[i], j);
            assert(vs[i].subrange(0, name.len() as int) =~= name);
            assert(candidate.subrange(j, j + name.len()) =~= vs[i].subrange(0, name.len() as int));
            assert(occurs_at(candidate, name, j));
        }
    }
}

} // verus!
