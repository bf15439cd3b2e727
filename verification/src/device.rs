//! Device announcements, the platform registry, and device records.

use vstd::prelude::*;

verus! {

/// A supported target platform, one per architecture string that the
/// detection utility may announce.  The registry of recognized
/// architectures is the closed set accepted by [`Target::for_arch`].
#[derive(Clone, Copy, Debug, PartialEq, Eq, Structural)]
pub enum Target {
    /// 64-bit ARM devices, announced as `arm64`.
    Aarch64,
    /// 64-bit x86 simulators, announced as `x86_64`.
    X86_64,
}

/// The platform that a raw architecture string resolves to, if any.
pub open spec fn arch_target(arch: Seq<char>) -> Option<Target> {
    if arch == "arm64"@ {
        Some(Target::Aarch64)
    } else if arch == "x86_64"@ {
        Some(Target::X86_64)
    } else {
        None
    }
}

impl Target {
    /// Looks an architecture string up in the platform registry.
    pub fn for_arch(arch: &str) -> (r: Option<Target>)
        ensures
            r == arch_target(arch@),
    {
        if str_eq(arch, "arm64") {
            Some(Target::Aarch64)
        } else if str_eq(arch, "x86_64") {
            Some(Target::X86_64)
        } else {
            None
        }
    }
}

/// String slice equality, decided by comparing owned copies.
fn str_eq(a: &str, b: &str) -> (r: bool)
    ensures
        r == (a@ == b@),
{
    let a_owned: String = a.to_owned();
    let b_owned: String = b.to_owned();
    a_owned == b_owned
}

/// One device announcement, as emitted by the detection utility.
pub struct DeviceInfo {
    pub device_identifier: String,
    pub device_name: String,
    pub model_arch: String,
    pub model_name: String,
}

/// The mathematical content of an announcement: its four fields as
/// character sequences.
#[verifier::ext_equal]
pub struct DeviceInfoView {
    pub device_identifier: Seq<char>,
    pub device_name: Seq<char>,
    pub model_arch: Seq<char>,
    pub model_name: Seq<char>,
}

impl View for DeviceInfo {
    type V = DeviceInfoView;

    open spec fn view(&self) -> DeviceInfoView {
        DeviceInfoView {
            device_identifier: self.device_identifier@,
            device_name: self.device_name@,
            model_arch: self.model_arch@,
            model_name: self.model_name@,
        }
    }
}

/// One structured event from the utility's output.  Only device
/// announcements matter here; every other event kind is opaque.
pub enum Event {
    DeviceDetected(DeviceInfo),
    Other,
}

/// The mathematical content of an event.
#[verifier::ext_equal]
pub enum EventView {
    DeviceDetected(DeviceInfoView),
    Other,
}

impl View for Event {
    type V = EventView;

    open spec fn view(&self) -> EventView {
        match self {
            Event::DeviceDetected(info) => EventView::DeviceDetected(info@),
            Event::Other => EventView::Other,
        }
    }
}

impl Event {
    /// The announcement this event carries, if it is one.
    pub fn device_info(&self) -> (r: Option<&DeviceInfo>)
        ensures
            match self {
                Event::DeviceDetected(info) => r matches Some(i) && i@ == info@,
                Event::Other => r is None,
            },
    {
        match self {
            Event::DeviceDetected(info) => Some(info),
            Event::Other => None,
        }
    }
}

/// A connected device with its validated platform.
pub struct Device {
    pub identifier: String,
    pub name: String,
    pub model_name: String,
    pub target: Target,
}

/// The mathematical content of a device record.
#[verifier::ext_equal]
pub struct DeviceView {
    pub identifier: Seq<char>,
    pub name: Seq<char>,
    pub model_name: Seq<char>,
    pub target: Target,
}

impl View for Device {
    type V = DeviceView;

    open spec fn view(&self) -> DeviceView {
        DeviceView {
            identifier: self.identifier@,
            name: self.name@,
            model_name: self.model_name@,
            target: self.target,
        }
    }
}

impl PartialEq for Device {
    fn eq(&self, other: &Device) -> (r: bool) {
        let r = self.identifier == other.identifier && self.name == other.name
            && self.model_name == other.model_name && self.target == other.target;
        proof {
            if r {
                assert(self@ =~= other@);
            }
        }
        r
    }
}

impl vstd::std_specs::cmp::PartialEqSpecImpl for Device {
    open spec fn obeys_eq_spec() -> bool {
        true
    }

    open spec fn eq_spec(&self, other: &Device) -> bool {
        self@ == other@
    }
}

/// The record that an announcement yields once its architecture resolves,
/// or `None` when the registry does not recognize the architecture.
pub open spec fn device_of(info: DeviceInfoView) -> Option<DeviceView> {
    match arch_target(info.model_arch) {
        Some(target) => Some(
            DeviceView {
                identifier: info.device_identifier,
                name: info.device_name,
                model_name: info.model_name,
                target,
            },
        ),
        None => None,
    }
}

/// Two announcements that resolve to the same device record are the same
/// announcement: the registry maps each platform to exactly one
/// architecture string.
pub proof fn lemma_device_of_injective(a: DeviceInfoView, b: DeviceInfoView)
    requires
        device_of(a) is Some,
        device_of(a) == device_of(b),
    ensures
        a == b,
{
    assert(a.model_arch == b.model_arch);
    assert(a =~= b);
}

} // verus!
