use vstd::prelude::*;
use crate::text::{concat_text, text_eq};

verus! {

pub const NO_DEFAULT_DEVICE_ERROR: &'static str = "No default input device found";
pub const NO_AUDIO_CAPTURED_ERROR: &'static str = "No audio captured";

/// An input device as the settings list it.
#[derive(Debug, Clone, PartialEq)]
pub struct MicDevice {
    pub name: String,
    pub is_default: bool,
}

/// What saving a recording found out.
#[derive(Debug, Clone, Copy, PartialEq, Eq)]
pub struct RecordingSaveResult {
    pub should_cancel_transcription: bool,
}

/// The devices whose name could be read, in order, marked as default when their name is the
/// default device's name.
pub open spec fn listed_devices(names: Seq<Option<String>>, default_name: Seq<char>) -> Seq<(Seq<char>, bool)>
    decreases names.len(),
{
    if names.len() == 0 {
        seq![]
    } else {
        let acc = listed_devices(names.drop_last(), default_name);
        match names.last() {
            Some(n) => acc.push((n@, n@ == default_name)),
            None => acc,
        }
    }
}

/// The name and default mark of each listed device.
pub open spec fn device_views(devices: Seq<MicDevice>) -> Seq<(Seq<char>, bool)> {
    devices.map_values(|d: MicDevice| (d.name@, d.is_default))
}

/// The microphones to offer, given the input devices' names (`None` where a name could not be
/// read) and the default input device's name (empty when there is none).
pub fn microphone_list(names: Vec<Option<String>>, default_name: &str) -> (r: Vec<MicDevice>)
    ensures
        device_views(r@) == listed_devices(names@, default_name@),
{
    let ghost all = names@;
    let n = names.len();
    let mut rest = names;
    let mut devices: Vec<MicDevice> = Vec::new();
    let mut k: usize = 0;
    while rest.len() > 0
        invariant
            k + rest@.len() == all.len(),
            all.len() == n,
            rest@ == all.subrange(k as int, all.len() as int),
            device_views(devices@) == listed_devices(all.take(k as int), default_name@),
        decreases rest@.len(),
    {
        let entry = rest.remove(0);
        proof {
            assert(all.take(k + 1).drop_last() =~= all.take(k as int));
            assert(all.take(k + 1).last() == entry);
        }
        match entry {
            Some(name) => {
                let is_default = text_eq(name.as_str(), default_name);
                devices.push(MicDevice { name, is_default });
                assert(device_views(devices@) =~= listed_devices(all.take(k as int), default_name@).push(
                    (devices@.last().name@, is_default),
                ));
            },
            None => {},
        }
        k = k + 1;
        assert(rest@ =~= all.subrange(k as int, all.len() as int));
    }
    assert(all.take(k as int) =~= all);
    devices
}

/// Which input device to record from.
#[derive(Debug, Clone, PartialEq)]
pub enum InputDeviceChoice {
    /// The system's default input device.
    Default,
    /// The device at this position of the device list.
    Listed(usize),
    /// No device has the name; the error to return.
    NotFound(String),
}

/// The first position whose name reads `wanted`.
pub open spec fn first_named(names: Seq<Option<String>>, wanted: Seq<char>, i: int) -> bool {
    &&& 0 <= i < names.len()
    &&& names[i] matches Some(n) && n@ == wanted
    &&& forall|j: int| 0 <= j < i ==> !(#[trigger] names[j] matches Some(m) && m@ == wanted)
}

/// The device to record from: the default device for `default`, else the first device with the
/// microphone's name, else an error naming it.
pub fn choose_input_device(mic_name: &str, names: &Vec<Option<String>>) -> (r: InputDeviceChoice)
    ensures
        mic_name@ == "default"@ ==> r == InputDeviceChoice::Default,
        mic_name@ != "default"@ ==> match r {
            InputDeviceChoice::Default => false,
            InputDeviceChoice::Listed(i) => first_named(names@, mic_name@, i as int),
            InputDeviceChoice::NotFound(e) => {
                &&& e@ == "Microphone '"@ + mic_name@ + "' not found"@
                &&& forall|j: int| 0 <= j < names@.len() ==> !(#[trigger] names@[j] matches Some(m) && m@ == mic_name@)
            },
        },
{
    if text_eq(mic_name, "default") {
        return InputDeviceChoice::Default;
    }
    let mut k: usize = 0;
    while k < names.len()
        invariant
            k <= names.len(),
            mic_name@ != "default"@,
            forall|j: int| 0 <= j < k ==> !(#[trigger] names@[j] matches Some(m) && m@ == mic_name@),
        decreases names.len() - k,
    {
        match &names[k] {
            Some(n) => {
                if text_eq(n.as_str(), mic_name) {
                    return InputDeviceChoice::Listed(k);
                }
            },
            None => {},
        }
        k = k + 1;
    }
    let mut e = concat_text("Microphone '", mic_name);
    e.append("' not found");
    InputDeviceChoice::NotFound(e)
}

} // verus!
