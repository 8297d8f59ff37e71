//! Which encoder records.
use vstd::prelude::*;

use crate::paths::join;
use crate::text::{ascii_lowercase, ends_with, push_word, same, strip_prefix, trim};

verus! {

/// Who made a graphics device.
#[derive(Clone, Copy, Debug, PartialEq, Eq, Structural)]
pub enum GpuVendor {
    Amd,
    Nvidia,
}

/// A graphics device.
#[derive(Clone, Debug, PartialEq, Eq)]
pub struct GpuDevice {
    pub vendor: GpuVendor,
    pub render_node: Option<String>,
    /// It drives the screen from the start.
    pub primary: bool,
}

/// An encoder and the device it runs on.
#[derive(Clone, Debug, PartialEq, Eq)]
pub struct EncoderChoice {
    pub codec: String,
    pub device: Option<String>,
    pub description: &'static str,
}

/// What an [`EncoderChoice`] says.
pub struct ChoiceView {
    pub codec: Seq<char>,
    pub device: Option<Seq<char>>,
    pub description: Seq<char>,
}

impl EncoderChoice {
    /// What the choice says.
    pub open spec fn view(&self) -> ChoiceView {
        ChoiceView {
            codec: self.codec@,
            device: crate::text::view_of(self.device),
            description: self.description@,
        }
    }
}

impl ChoiceView {
    /// Encoding on the CPU.
    pub open spec fn software() -> ChoiceView {
        ChoiceView { codec: "libx264"@, device: None, description: "software x264"@ }
    }
}

impl GpuDevice {
    /// The encoder that the device may have. One by AMD is reached through its render node.
    pub open spec fn candidate(&self) -> Option<ChoiceView> {
        match (self.vendor, self.render_node) {
            (GpuVendor::Nvidia, _) => Some(
                ChoiceView { codec: "h264_nvenc"@, device: None, description: "NVIDIA NVENC"@ },
            ),
            (GpuVendor::Amd, Some(node)) => Some(
                ChoiceView {
                    codec: "h264_vaapi"@,
                    device: Some(node@),
                    description: "AMD VA-API"@,
                },
            ),
            (GpuVendor::Amd, None) => None,
        }
    }
}

/// The encoders of the devices that are primary or not, as `primary` says, in order.
pub open spec fn candidates_of(devices: Seq<GpuDevice>, primary: bool) -> Seq<ChoiceView>
    decreases devices.len(),
{
    if devices.len() == 0 {
        Seq::empty()
    } else {
        let before = candidates_of(devices.drop_last(), primary);
        match devices.last().candidate() {
            Some(candidate) if devices.last().primary == primary => before.push(candidate),
            _ => before,
        }
    }
}

/// The encoders to try, those of the primary devices first.
pub open spec fn candidates(devices: Seq<GpuDevice>) -> Seq<ChoiceView> {
    candidates_of(devices, true) + candidates_of(devices, false)
}

/// The views of choices, in order.
pub open spec fn choice_views(choices: Seq<EncoderChoice>) -> Seq<ChoiceView> {
    Seq::new(choices.len(), |i: int| choices[i]@)
}

/// The encoder that the device may have.
fn candidate(device: &GpuDevice) -> (r: Option<EncoderChoice>)
    ensures
        device.candidate() == (match r {
            Some(choice) => Some(choice@),
            None => None,
        }),
{
    match device.vendor {
        GpuVendor::Nvidia => Some(
            EncoderChoice {
                codec: "h264_nvenc".to_owned(),
                device: None,
                description: "NVIDIA NVENC",
            },
        ),
        GpuVendor::Amd => match &device.render_node {
            Some(node) => Some(
                EncoderChoice {
                    codec: "h264_vaapi".to_owned(),
                    device: Some(node.clone()),
                    description: "AMD VA-API",
                },
            ),
            None => None,
        },
    }
}

/// Appends the encoders of the devices that are primary or not to `found`.
fn push_candidates(found: &mut Vec<EncoderChoice>, devices: &Vec<GpuDevice>, primary: bool)
    ensures
        choice_views(final(found)@) == choice_views(old(found)@) + candidates_of(devices@, primary),
{
    let ghost before = choice_views(found@);
    let mut i: usize = 0;
    proof {
        assert(before + Seq::<ChoiceView>::empty() =~= before);
    }
    while i < devices.len()
        invariant
            i <= devices.len(),
            choice_views(found@) == before + candidates_of(devices@.take(i as int), primary),
        decreases devices.len() - i,
    {
        proof {
            assert(devices@.take(i + 1).drop_last() =~= devices@.take(i as int));
            assert(devices@.take(i + 1).last() == devices@[i as int]);
        }
        let ghost so_far = choice_views(found@);
        if devices[i].primary == primary {
            if let Some(choice) = candidate(&devices[i]) {
                found.push(choice);
                proof {
                    assert(choice_views(found@) =~= so_far.push(choice@));
                    assert(before + candidates_of(devices@.take(i as int), primary).push(choice@)
                        =~= so_far.push(choice@));
                }
            }
        }
        i = i + 1;
    }
    proof {
        assert(devices@.take(i as int) =~= devices@);
    }
}

/// The encoders to try, those of the primary devices first.
pub fn encoder_candidates(devices: &Vec<GpuDevice>) -> (r: Vec<EncoderChoice>)
    ensures
        choice_views(r@) == candidates(devices@),
{
    let mut found: Vec<EncoderChoice> = Vec::new();
    push_candidates(&mut found, devices, true);
    push_candidates(&mut found, devices, false);
    proof {
        assert(choice_views(found@) =~= candidates(devices@));
    }
    found
}

/// A trial of `candidate` with `supported` can come out as `outcome`.
pub open spec fn tried<F: Fn(&EncoderChoice) -> bool>(
    supported: F,
    candidate: ChoiceView,
    outcome: bool,
) -> bool {
    exists|choice: &EncoderChoice|
        choice@ == candidate && #[trigger] call_ensures(supported, (choice,), outcome)
}

/// The trials of the candidates before the one at `k` fail; that one is chosen when its trial
/// succeeds, and the CPU when there is none left.
pub open spec fn selected<F: Fn(&EncoderChoice) -> bool>(
    supported: F,
    candidates: Seq<ChoiceView>,
    k: int,
    choice: ChoiceView,
) -> bool {
    &&& 0 <= k <= candidates.len()
    &&& forall|j: int| 0 <= j < k ==> tried(supported, #[trigger] candidates[j], false)
    &&& if k < candidates.len() {
        tried(supported, candidates[k], true) && choice == candidates[k]
    } else {
        choice == ChoiceView::software()
    }
}

/// The first encoder that works, those of the primary devices first, or else the CPU.
///
/// `supported` tries an encoder out. An encoder is chosen when its trial succeeds and the trials of
/// all before it fail; the CPU is chosen when every trial fails.
pub fn select_encoder<F: Fn(&EncoderChoice) -> bool>(devices: &Vec<GpuDevice>, supported: F) -> (r:
    EncoderChoice)
    requires
        forall|choice: &EncoderChoice| #[trigger] call_requires(supported, (choice,)),
    ensures
        exists|k: int| #[trigger] selected(supported, candidates(devices@), k, r@),
{
    let mut found = encoder_candidates(devices);
    let ghost all = candidates(devices@);
    let ghost mut k: int = 0;
    while found.len() > 0
        invariant
            0 <= k <= all.len(),
            all == candidates(devices@),
            choice_views(found@) == all.skip(k),
            forall|choice: &EncoderChoice| #[trigger] call_requires(supported, (choice,)),
            forall|j: int| 0 <= j < k ==> tried(supported, #[trigger] all[j], false),
        decreases found.len(),
    {
        let ghost rest = choice_views(found@);
        let choice = found.remove(0);
        proof {
            assert(rest.len() == all.len() - k);
            assert(rest[0] == all.skip(k)[0]);
            assert(all[k] == choice@);
            assert(choice_views(found@) =~= rest.skip(1));
            assert(rest.skip(1) =~= all.skip(k + 1));
        }
        let works: bool = supported(&choice);
        if works {
            assert(tried(supported, all[k], true));
            assert(selected(supported, candidates(devices@), k, choice@));
            return choice;
        }
        proof {
            assert(tried(supported, all[k], false));
            k = k + 1;
        }
    }
    proof {
        assert(choice_views(found@).len() == 0);
        assert(k == all.len());
    }
    let choice = EncoderChoice {
        codec: "libx264".to_owned(),
        device: None,
        description: "software x264",
    };
    assert(selected(supported, candidates(devices@), k, choice@));
    choice
}

/// What is known of an entry of the system's list of graphics devices.
pub struct RenderEntry {
    pub name: String,
    /// The text that names the vendor.
    pub vendor: Option<String>,
    /// The text that says whether the device drives the screen from the start.
    pub boot_vga: Option<String>,
}

impl RenderEntry {
    /// The device that the entry stands for; `dev_dri` is where render nodes are.
    pub open spec fn device(&self, dev_dri: Seq<char>) -> Option<(GpuVendor, Seq<char>, bool)> {
        if crate::text::without_prefix(self.name@, "renderD"@) is None {
            None
        } else {
            match self.vendor {
                None => None,
                Some(text) => {
                    let id = crate::text::lowered(crate::text::trimmed(text@));
                    let node = crate::paths::joined(dev_dri, self.name@);
                    let primary = match self.boot_vga {
                        Some(value) => crate::text::trimmed(value@) == "1"@,
                        None => false,
                    };
                    if id == "0x1002"@ {
                        Some((GpuVendor::Amd, node, primary))
                    } else if id == "0x10de"@ {
                        Some((GpuVendor::Nvidia, node, primary))
                    } else {
                        None
                    }
                },
            }
        }
    }
}

impl GpuDevice {
    /// What the device is.
    pub open spec fn view(&self) -> (GpuVendor, Option<Seq<char>>, bool) {
        (self.vendor, crate::text::view_of(self.render_node), self.primary)
    }
}

/// The views of devices, in order.
pub open spec fn device_views(devices: Seq<GpuDevice>) -> Seq<(GpuVendor, Option<Seq<char>>, bool)> {
    Seq::new(devices.len(), |i: int| devices[i]@)
}

/// The devices that the entries stand for, in order.
pub open spec fn listed_devices(entries: Seq<RenderEntry>, dev_dri: Seq<char>) -> Seq<
    (GpuVendor, Option<Seq<char>>, bool),
>
    decreases entries.len(),
{
    if entries.len() == 0 {
        Seq::empty()
    } else {
        let before = listed_devices(entries.drop_last(), dev_dri);
        match entries.last().device(dev_dri) {
            Some((vendor, node, primary)) => before.push((vendor, Some(node), primary)),
            None => before,
        }
    }
}

/// One of the devices is NVIDIA's.
pub open spec fn has_nvidia(devices: Seq<(GpuVendor, Option<Seq<char>>, bool)>) -> bool {
    exists|i: int| 0 <= i < devices.len() && (#[trigger] devices[i]).0 == GpuVendor::Nvidia
}

/// The graphics devices: those of the list, and one by NVIDIA that is there all the same.
pub open spec fn found_devices(
    entries: Seq<RenderEntry>,
    dev_dri: Seq<char>,
    nvidia_exists: bool,
) -> Seq<(GpuVendor, Option<Seq<char>>, bool)> {
    let listed = listed_devices(entries, dev_dri);
    if nvidia_exists && !has_nvidia(listed) {
        listed.push((GpuVendor::Nvidia, None, false))
    } else {
        listed
    }
}

/// The device that the entry stands for.
fn device_of(entry: &RenderEntry, dev_dri: &str) -> (r: Option<GpuDevice>)
    ensures
        match (entry.device(dev_dri@), r) {
            (None, None) => true,
            (Some((vendor, node, primary)), Some(device)) => device@ == (
                vendor,
                Some(node),
                primary,
            ),
            _ => false,
        },
{
    if strip_prefix(entry.name.as_str(), "renderD").is_none() {
        return None;
    }
    let id = match &entry.vendor {
        None => {
            return None;
        },
        Some(text) => ascii_lowercase(trim(text.as_str()).as_str()),
    };
    let vendor = if same(id.as_str(), "0x1002") {
        GpuVendor::Amd
    } else if same(id.as_str(), "0x10de") {
        GpuVendor::Nvidia
    } else {
        return None;
    };
    let primary: bool = match &entry.boot_vga {
        Some(value) => same(trim(value.as_str()).as_str(), "1"),
        None => false,
    };
    Some(GpuDevice { vendor, render_node: Some(join(dev_dri, entry.name.as_str())), primary })
}

/// The graphics devices: those of the list, and one by NVIDIA where `nvidia_exists` says that there
/// is one and the list does not have it.
pub fn discover_gpu_devices(entries: &Vec<RenderEntry>, dev_dri: &str, nvidia_exists: bool) -> (r: Vec<
    GpuDevice,
>)
    ensures
        device_views(r@) == found_devices(entries@, dev_dri@, nvidia_exists),
{
    let mut devices: Vec<GpuDevice> = Vec::new();
    let mut nvidia: bool = false;
    let mut i: usize = 0;
    proof {
        assert(device_views(devices@) =~= listed_devices(entries@.take(0), dev_dri@));
    }
    while i < entries.len()
        invariant
            i <= entries.len(),
            device_views(devices@) == listed_devices(entries@.take(i as int), dev_dri@),
            nvidia == has_nvidia(device_views(devices@)),
        decreases entries.len() - i,
    {
        proof {
            assert(entries@.take(i + 1).drop_last() =~= entries@.take(i as int));
            assert(entries@.take(i + 1).last() == entries@[i as int]);
        }
        let ghost before = device_views(devices@);
        if let Some(device) = device_of(&entries[i], dev_dri) {
            let ghost seen = nvidia;
            match device.vendor {
                GpuVendor::Nvidia => {
                    nvidia = true;
                },
                GpuVendor::Amd => {},
            }
            devices.push(device);
            proof {
                let after = device_views(devices@);
                assert(after =~= before.push(device@));
                if nvidia {
                    if seen {
                        let k = choose|k: int|
                            0 <= k < before.len() && (#[trigger] before[k]).0 == GpuVendor::Nvidia;
                        assert(after[k].0 == GpuVendor::Nvidia);
                    } else {
                        assert(after[before.len() as int].0 == GpuVendor::Nvidia);
                    }
                } else {
                    assert forall|k: int| 0 <= k < after.len() implies (#[trigger] after[k]).0
                        != GpuVendor::Nvidia by {
                        if k < before.len() {
                            assert(after[k] == before[k]);
                        }
                    }
                }
            }
        }
        i = i + 1;
    }
    proof {
        assert(entries@.take(i as int) =~= entries@);
    }
    let ghost listed = device_views(devices@);
    if nvidia_exists && !nvidia {
        devices.push(
            GpuDevice { vendor: GpuVendor::Nvidia, render_node: None, primary: false },
        );
        proof {
            assert(device_views(devices@) =~= listed.push((GpuVendor::Nvidia, None, false)));
        }
    }
    devices
}

/// The first device by AMD, as `primary` says.
pub open spec fn first_amd(devices: Seq<GpuDevice>, primary: bool) -> Option<GpuDevice>
    decreases devices.len(),
{
    if devices.len() == 0 {
        None
    } else if devices[0].vendor == GpuVendor::Amd && devices[0].primary == primary {
        Some(devices[0])
    } else {
        first_amd(devices.skip(1), primary)
    }
}

/// The first device by AMD, as `primary` says.
fn find_amd(devices: &Vec<GpuDevice>, primary: bool) -> (r: Option<&GpuDevice>)
    ensures
        first_amd(devices@, primary) == (match r {
            Some(device) => Some(*device),
            None => None,
        }),
{
    let mut i: usize = 0;
    proof {
        assert(devices@.skip(0) =~= devices@);
    }
    while i < devices.len()
        invariant
            i <= devices.len(),
            first_amd(devices@, primary) == first_amd(devices@.skip(i as int), primary),
        decreases devices.len() - i,
    {
        proof {
            assert(devices@.skip(i as int).skip(1) =~= devices@.skip(i + 1));
        }
        match devices[i].vendor {
            GpuVendor::Amd => if devices[i].primary == primary {
                return Some(&devices[i]);
            },
            GpuVendor::Nvidia => {},
        }
        i = i + 1;
    }
    None
}

/// The render node for `codec`, which only a VA-API encoder has: the one of the encoder that was
/// chosen, where it is that one, or else that of the first device by AMD, a primary one first.
pub fn device_for_codec(codec: &str, detected: &EncoderChoice, devices: &Vec<GpuDevice>) -> (r:
    Option<String>)
    ensures
        crate::text::view_of(r) == (if !crate::text::has_suffix(codec@, "_vaapi"@) {
            None
        } else if detected@.codec == codec@ {
            detected@.device
        } else {
            match (first_amd(devices@, true), first_amd(devices@, false)) {
                (Some(device), _) => crate::text::view_of(device.render_node),
                (None, Some(device)) => crate::text::view_of(device.render_node),
                (None, None) => None,
            }
        }),
{
    if !ends_with(codec, "_vaapi") {
        return None;
    }
    if same(detected.codec.as_str(), codec) {
        return detected.device.clone();
    }
    match find_amd(devices, true) {
        Some(device) => device.render_node.clone(),
        None => match find_amd(devices, false) {
            Some(device) => device.render_node.clone(),
            None => None,
        },
    }
}

/// The words with which FFmpeg tries an encoder out on one frame.
pub open spec fn probe_words(codec: Seq<char>, device: Option<Seq<char>>) -> Option<Seq<Seq<char>>> {
    let head = seq![
        "-hide_banner"@,
        "-loglevel"@,
        "error"@,
        "-f"@,
        "lavfi"@,
        "-i"@,
        "color=c=black:s=128x128:r=1"@,
    ];
    let tail = seq!["-frames:v"@, "1"@, "-c:v"@, codec, "-f"@, "null"@, "-"@];
    if !crate::text::has_suffix(codec, "_vaapi"@) {
        Some(head + tail)
    } else {
        match device {
            Some(device) => Some(
                head + seq!["-vaapi_device"@, device, "-vf"@, "format=nv12,hwupload"@] + tail,
            ),
            None => None,
        }
    }
}

/// How FFmpeg tries an encoder out on one frame. A VA-API encoder without a device is not tried.
pub fn probe_args(codec: &str, device: Option<&str>) -> (r: Option<Vec<String>>)
    ensures
        probe_words(
            codec@,
            match device {
                Some(device) => Some(device@),
                None => None,
            },
        ) == (match r {
            Some(words) => Some(crate::text::views(words@)),
            None => None,
        }),
{
    let mut words: Vec<String> = Vec::new();
    push_word(&mut words, "-hide_banner");
    push_word(&mut words, "-loglevel");
    push_word(&mut words, "error");
    push_word(&mut words, "-f");
    push_word(&mut words, "lavfi");
    push_word(&mut words, "-i");
    push_word(&mut words, "color=c=black:s=128x128:r=1");
    if ends_with(codec, "_vaapi") {
        match device {
            None => {
                return None;
            },
            Some(device) => {
                push_word(&mut words, "-vaapi_device");
                push_word(&mut words, device);
                push_word(&mut words, "-vf");
                push_word(&mut words, "format=nv12,hwupload");
            },
        }
    }
    push_word(&mut words, "-frames:v");
    push_word(&mut words, "1");
    push_word(&mut words, "-c:v");
    push_word(&mut words, codec);
    push_word(&mut words, "-f");
    push_word(&mut words, "null");
    push_word(&mut words, "-");
    proof {
        assert(crate::text::views(words@) =~= probe_words(
            codec@,
            match device {
                Some(device) => Some(device@),
                None => None,
            },
        )->0);
    }
    Some(words)
}

/// The encoder of this machine, tried out by `supported`.
pub fn auto_encoder<F: Fn(&EncoderChoice) -> bool>(
    entries: &Vec<RenderEntry>,
    nvidia_exists: bool,
    supported: F,
) -> (r: EncoderChoice)
    requires
        forall|choice: &EncoderChoice| #[trigger] call_requires(supported, (choice,)),
    ensures
        exists|devices: Seq<GpuDevice>, k: int|
            device_views(devices) == found_devices(entries@, "/dev/dri"@, nvidia_exists)
                && #[trigger] selected(supported, candidates(devices), k, r@),
{
    let devices = discover_gpu_devices(entries, "/dev/dri", nvidia_exists);
    let choice = select_encoder(&devices, supported);
    choice
}

/// The encoder that recordings use unless another one is asked for.
pub fn default_record_codec(detected: &EncoderChoice) -> (r: String)
    ensures
        r@ == detected@.codec,
{
    detected.codec.clone()
}

/// What the devices of two lists offer is what each list offers.
proof fn lemma_candidates_parts(first: Seq<GpuDevice>, second: Seq<GpuDevice>, primary: bool)
    ensures
        candidates_of(first + second, primary) == candidates_of(first, primary) + candidates_of(
            second,
            primary,
        ),
    decreases second.len(),
{
    if second.len() == 0 {
        assert(first + second =~= first);
        assert(candidates_of(first, primary) + candidates_of(second, primary) =~= candidates_of(
            first,
            primary,
        ));
    } else {
        assert((first + second).drop_last() =~= first + second.drop_last());
        lemma_candidates_parts(first, second.drop_last(), primary);
        assert(candidates_of(first + second, primary) =~= candidates_of(first, primary)
            + candidates_of(second, primary));
    }
}

proof fn lemma_candidates_none(devices: Seq<GpuDevice>, primary: bool)
    requires
        forall|i: int| 0 <= i < devices.len() ==> (#[trigger] devices[i]).primary != primary,
    ensures
        candidates_of(devices, primary) == Seq::<ChoiceView>::empty(),
    decreases devices.len(),
{
    if devices.len() > 0 {
        let shorter = devices.drop_last();
        assert forall|i: int| 0 <= i < shorter.len() implies (#[trigger] shorter[i]).primary
            != primary by {
            assert(shorter[i] == devices[i]);
        }
        assert(devices[devices.len() - 1].primary != primary);
        lemma_candidates_none(shorter, primary);
    }
}

/// The devices that drive the screen are tried before the others, and devices of one kind in their
/// order.
pub proof fn lemma_primary_first(others: Seq<GpuDevice>, primaries: Seq<GpuDevice>)
    requires
        forall|i: int| 0 <= i < others.len() ==> !(#[trigger] others[i]).primary,
        forall|i: int| 0 <= i < primaries.len() ==> (#[trigger] primaries[i]).primary,
    ensures
        candidates(others + primaries) == candidates(primaries) + candidates(others),
        candidates(primaries + others) == candidates(primaries) + candidates(others),
{
    lemma_candidates_parts(others, primaries, true);
    lemma_candidates_parts(others, primaries, false);
    lemma_candidates_parts(primaries, others, true);
    lemma_candidates_parts(primaries, others, false);
    lemma_candidates_none(others, true);
    lemma_candidates_none(primaries, false);
    assert(candidates(others + primaries) =~= candidates(primaries) + candidates(others));
    assert(candidates(primaries + others) =~= candidates(primaries) + candidates(others));
}

/// What one device offers: NVENC on NVIDIA's, and VA-API on AMD's where its node is known, at that
/// node.
pub proof fn lemma_offered(device: GpuDevice)
    ensures
        candidates(seq![device]).len() <= 1,
        candidates(seq![device]).len() == 1 <==> device.vendor == GpuVendor::Nvidia
            || device.render_node is Some,
        device.vendor == GpuVendor::Nvidia ==> candidates(seq![device])[0].codec == "h264_nvenc"@
            && candidates(seq![device])[0].device is None,
        device.vendor == GpuVendor::Amd ==> (device.render_node matches Some(node) ==> candidates(
            seq![device],
        )[0].codec == "h264_vaapi"@ && candidates(seq![device])[0].device == Some(node@)),
{
    reveal_with_fuel(candidates_of, 2);
    assert(seq![device].drop_last() =~= Seq::empty());
}

/// A render node is a device of its vendor, by the number that it tells in either case; other files
/// and other vendors are none.
pub proof fn lemma_listed(entry: RenderEntry, dev_dri: Seq<char>)
    ensures
        entry.device(dev_dri) is Some <==> {
            &&& crate::text::without_prefix(entry.name@, "renderD"@) is Some
            &&& entry.vendor matches Some(vendor) && (crate::text::lowered(
                crate::text::trimmed(vendor@),
            ) == "0x1002"@ || crate::text::lowered(crate::text::trimmed(vendor@)) == "0x10de"@)
        },
        entry.device(dev_dri) matches Some((vendor, node, primary)) ==> {
            &&& vendor == GpuVendor::Nvidia <==> crate::text::lowered(
                crate::text::trimmed(entry.vendor->Some_0@),
            ) == "0x10de"@
            &&& vendor == GpuVendor::Amd <==> crate::text::lowered(
                crate::text::trimmed(entry.vendor->Some_0@),
            ) == "0x1002"@
            &&& node == crate::paths::joined(dev_dri, entry.name@)
            &&& primary <==> (entry.boot_vga matches Some(value) && crate::text::trimmed(value@)
                == "1"@)
        },
{
    reveal_strlit("0x1002");
    reveal_strlit("0x10de");
    assert("0x1002"@.len() == 6);
    assert("0x10de"@.len() == 6);
    assert("0x1002"@[4] != "0x10de"@[4]);
}

/// NVIDIA's device is added where it is there and no entry told of one, behind the others.
pub proof fn lemma_nvidia_added(entries: Seq<RenderEntry>, dev_dri: Seq<char>)
    ensures
        has_nvidia(found_devices(entries, dev_dri, true)),
        has_nvidia(listed_devices(entries, dev_dri)) ==> found_devices(entries, dev_dri, true)
            == found_devices(entries, dev_dri, false),
        !has_nvidia(listed_devices(entries, dev_dri)) ==> found_devices(
            entries,
            dev_dri,
            true,
        ).drop_last() == found_devices(entries, dev_dri, false),
        found_devices(entries, dev_dri, false) == listed_devices(entries, dev_dri),
        !has_nvidia(listed_devices(entries, dev_dri)) ==> found_devices(
            entries,
            dev_dri,
            true,
        ).last() == (GpuVendor::Nvidia, None::<Seq<char>>, false),
{
    let listed = listed_devices(entries, dev_dri);
    if !has_nvidia(listed) {
        let all = found_devices(entries, dev_dri, true);
        assert(all.last().0 == GpuVendor::Nvidia);
        assert(all[all.len() - 1] == all.last());
        assert(all.drop_last() =~= listed);
    }
}

/// Entries are listed in their order.
pub proof fn lemma_listed_in_order(first: Seq<RenderEntry>, second: Seq<RenderEntry>, dev_dri: Seq<char>)
    ensures
        listed_devices(first + second, dev_dri) == listed_devices(first, dev_dri) + listed_devices(
            second,
            dev_dri,
        ),
    decreases second.len(),
{
    if second.len() == 0 {
        assert(first + second =~= first);
        assert(listed_devices(first, dev_dri) + listed_devices(second, dev_dri) =~= listed_devices(
            first,
            dev_dri,
        ));
    } else {
        assert((first + second).drop_last() =~= first + second.drop_last());
        lemma_listed_in_order(first, second.drop_last(), dev_dri);
        assert(listed_devices(first + second, dev_dri) =~= listed_devices(first, dev_dri)
            + listed_devices(second, dev_dri));
    }
}

/// The first of AMD's devices of a kind.
proof fn lemma_first_amd(devices: Seq<GpuDevice>, primary: bool)
    ensures
        first_amd(devices, primary) is None <==> forall|i: int|
            0 <= i < devices.len() ==> !((#[trigger] devices[i]).vendor == GpuVendor::Amd
                && devices[i].primary == primary),
        first_amd(devices, primary) matches Some(device) ==> device.vendor == GpuVendor::Amd
            && device.primary == primary && devices.contains(device),
    decreases devices.len(),
{
    if devices.len() > 0 {
        let rest = devices.skip(1);
        lemma_first_amd(rest, primary);
        assert forall|i: int| 0 <= i < rest.len() implies #[trigger] rest[i] == devices[i + 1] by {}
        assert forall|i: int| 1 <= i < devices.len() implies #[trigger] devices[i] == rest[i - 1] by {}
        if let Some(device) = first_amd(rest, primary) {
            let i = choose|i: int| 0 <= i < rest.len() && rest[i] == device;
            assert(devices[i + 1] == device);
        }
        assert(devices.contains(devices[0]));
        if forall|i: int|
            0 <= i < rest.len() ==> !((#[trigger] rest[i]).vendor == GpuVendor::Amd && rest[i].primary
                == primary) {
            assert forall|i: int| 1 <= i < devices.len() implies !((#[trigger] devices[i]).vendor
                == GpuVendor::Amd && devices[i].primary == primary) by {
                assert(rest[i - 1] == devices[i]);
            }
        }
    }
}

/// Only VA-API needs a device: the one that was found for it, or else one of AMD's, one that drives
/// the screen before any other.
pub proof fn lemma_device_for(
    codec: &str,
    detected: &EncoderChoice,
    devices: &Vec<GpuDevice>,
    device: Option<String>,
)
    requires
        call_ensures(device_for_codec, (codec, detected, devices), device),
    ensures
        device is Some ==> crate::text::has_suffix(codec@, "_vaapi"@),
        crate::text::has_suffix(codec@, "_vaapi"@) && detected@.codec == codec@
            ==> crate::text::view_of(device) == detected@.device,
        crate::text::has_suffix(codec@, "_vaapi"@) && detected@.codec != codec@ ==> {
            &&& device matches Some(node) ==> (exists|i: int|
                0 <= i < devices@.len() && (#[trigger] devices@[i]).vendor == GpuVendor::Amd
                    && crate::text::view_of(devices@[i].render_node) == Some(node@) && (
                devices@[i].primary || !(exists|k: int|
                    0 <= k < devices@.len() && (#[trigger] devices@[k]).vendor == GpuVendor::Amd
                        && devices@[k].primary)))
            &&& (forall|i: int|
                0 <= i < devices@.len() ==> (#[trigger] devices@[i]).vendor != GpuVendor::Amd)
                ==> device is None
        },
{
    lemma_first_amd(devices@, true);
    lemma_first_amd(devices@, false);
    if let Some(found) = first_amd(devices@, true) {
        let i = choose|i: int| 0 <= i < devices@.len() && devices@[i] == found;
        assert(devices@[i].vendor == GpuVendor::Amd);
    } else if let Some(found) = first_amd(devices@, false) {
        let i = choose|i: int| 0 <= i < devices@.len() && devices@[i] == found;
        assert(devices@[i].vendor == GpuVendor::Amd);
    }
}

/// An encoder is tried on one black frame that goes nowhere; for VA-API the frame goes to its device,
/// and without one there is nothing to try.
pub proof fn lemma_probe_words(codec: &str, device: Option<&str>, words: Option<Vec<String>>)
    requires
        call_ensures(probe_args, (codec, device), words),
    ensures
        words is None <==> crate::text::has_suffix(codec@, "_vaapi"@) && device is None,
        words matches Some(words) ==> {
            let told = crate::text::views(words@);
            &&& crate::text::stands_behind(told, "-c:v"@, codec@)
            &&& crate::text::stands_behind(told, "-i"@, "color=c=black:s=128x128:r=1"@)
            &&& crate::text::stands_behind(told, "-f"@, "lavfi"@)
            &&& crate::text::stands_behind(told, "-f"@, "null"@)
            &&& crate::text::stands_behind(told, "-frames:v"@, "1"@)
            &&& told.last() == "-"@
            &&& crate::text::has_suffix(codec@, "_vaapi"@) ==> crate::text::stands_behind(
                told,
                "-vaapi_device"@,
                device->Some_0@,
            ) && crate::text::stands_behind(told, "-vf"@, "format=nv12,hwupload"@) && told.len()
                == 18
            &&& !crate::text::has_suffix(codec@, "_vaapi"@) ==> told.len() == 14
        },
{
    if let Some(words) = words {
        let told = crate::text::views(words@);
        let n: int = if crate::text::has_suffix(codec@, "_vaapi"@) {
            4
        } else {
            0
        };
        assert(told[3] == "-f"@ && told[4] == "lavfi"@);
        assert(told[5] == "-i"@);
        assert(told[7 + n] == "-frames:v"@ && told[8 + n] == "1"@);
        assert(told[9 + n] == "-c:v"@ && told[10 + n] == codec@);
        assert(told[11 + n] == "-f"@ && told[12 + n] == "null"@);
        if n > 0 {
            assert(told[7] == "-vaapi_device"@);
            assert(told[9] == "-vf"@);
        }
    }
}

/// Without a device that offers an encoder the processor encodes.
pub proof fn lemma_software_last<F: Fn(&EncoderChoice) -> bool>(
    devices: &Vec<GpuDevice>,
    supported: F,
    choice: EncoderChoice,
)
    requires
        call_ensures(select_encoder::<F>, (devices, supported), choice),
    ensures
        candidates(devices@).len() == 0 ==> choice@.codec == "libx264"@ && choice@.device is None,
        choice@.codec == "libx264"@ || candidates(devices@).contains(choice@),
{
    let k = choose|k: int| #[trigger] selected(supported, candidates(devices@), k, choice@);
    if k < candidates(devices@).len() {
        assert(candidates(devices@)[k] == choice@);
    }
}

/// The encoder that is selected is the first that is supported: each one before it was tried in vain.
pub proof fn lemma_first_supported<F: Fn(&EncoderChoice) -> bool>(
    devices: &Vec<GpuDevice>,
    supported: F,
    choice: EncoderChoice,
)
    requires
        call_ensures(select_encoder::<F>, (devices, supported), choice),
    ensures
        exists|k: int|
            0 <= k <= candidates(devices@).len() && (forall|j: int|
                0 <= j < k ==> tried(supported, #[trigger] candidates(devices@)[j], false)) && (k
                < candidates(devices@).len() ==> choice@ == #[trigger] candidates(devices@)[k]
                && tried(supported, candidates(devices@)[k], true)) && (k == candidates(
                devices@,
            ).len() ==> choice@.codec == "libx264"@ && choice@.device is None),
{
    let k = choose|k: int| #[trigger] selected(supported, candidates(devices@), k, choice@);
    let found = candidates(devices@)[k];
}

/// The codec that recordings use is the one that was found.
pub proof fn lemma_default_codec(detected: &EncoderChoice, codec: String)
    requires
        call_ensures(default_record_codec, (detected,), codec),
    ensures
        codec@ == detected@.codec,
{
}

} // verus!
