use vstd::prelude::*;

use crate::queue_family::{select_queue_families, QueueFamilyDescriptor, QueueFamilyIndices};

verus! {

/// Which selected families a device needs before it is accepted.
#[derive(Clone, Copy, Debug, PartialEq, Eq, Structural)]
pub enum SuitabilityPolicy {
    /// A graphics-capable family is enough.
    GraphicsOnly,
    /// A graphics-capable and a presentation-capable family are both needed.
    GraphicsAndPresentation,
}

/// Why no device could be picked.
#[derive(Clone, Copy, Debug, PartialEq, Eq, Structural)]
pub enum DeviceSelectionError {
    /// The runtime reported no device at all.
    NoDevicesEnumerated,
    /// Devices exist, but none meets the policy.
    NoSuitableDevice,
}

/// A device that the runtime enumerated, with what was learnt of it: its raw
/// handle, its queue families, and whether each family can present to the
/// target surface.
#[derive(Debug)]
pub struct DeviceCandidate {
    pub handle: u64,
    pub queue_families: Vec<QueueFamilyDescriptor>,
    pub presentation_support: Vec<bool>,
}

/// Whether selected indices meet a policy.
pub open spec fn meets_policy(indices: QueueFamilyIndices, policy: SuitabilityPolicy) -> bool {
    match policy {
        SuitabilityPolicy::GraphicsOnly => indices.graphics_family.is_some(),
        SuitabilityPolicy::GraphicsAndPresentation => indices.spec_is_complete(),
    }
}

impl DeviceCandidate {
    /// One presentation answer per family, and a family count that fits the
    /// runtime's 32-bit indices.
    pub open spec fn wf(&self) -> bool {
        &&& self.presentation_support@.len() == self.queue_families@.len()
        &&& self.queue_families@.len() <= u32::MAX
    }

    /// The device has a graphics-capable family, and, where the policy asks
    /// for it, a presentation-capable one.
    pub open spec fn spec_is_suitable(&self, policy: SuitabilityPolicy) -> bool {
        &&& exists|i: int| 0 <= i < self.queue_families@.len()
            && #[trigger] self.queue_families@[i].spec_supports_graphics()
        &&& policy == SuitabilityPolicy::GraphicsAndPresentation ==> exists|i: int|
            0 <= i < self.presentation_support@.len() && #[trigger] self.presentation_support@[i]
    }

    pub fn new(
        handle: u64,
        queue_families: Vec<QueueFamilyDescriptor>,
        presentation_support: Vec<bool>,
    ) -> (r: Self)
        ensures
            r.handle == handle,
            r.queue_families@ == queue_families@,
            r.presentation_support@ == presentation_support@,
    {
        DeviceCandidate { handle, queue_families, presentation_support }
    }

    /// Selects the device's queue families and tells whether they meet the policy.
    pub fn is_device_suitable(&self, policy: SuitabilityPolicy) -> (r: bool)
        requires
            self.wf(),
        ensures
            r == self.spec_is_suitable(policy),
    {
        let indices = select_queue_families(&self.queue_families, &self.presentation_support);
        proof {
            if let Some(g) = indices.graphics_family {
                assert(crate::queue_family::graphics_support(self.queue_families@)[g as int]);
            } else {
                assert forall|i: int| 0 <= i < self.queue_families@.len() implies
                    !#[trigger] self.queue_families@[i].spec_supports_graphics() by {
                    assert(!crate::queue_family::graphics_support(self.queue_families@)[i]);
                }
            }
            if let Some(p) = indices.present_family {
                assert(self.presentation_support@[p as int]);
            }
        }
        match policy {
            SuitabilityPolicy::GraphicsOnly => indices.graphics_family.is_some(),
            SuitabilityPolicy::GraphicsAndPresentation => indices.is_complete(),
        }
    }
}

/// `k` is the first suitable candidate.
pub open spec fn is_first_suitable(
    devices: Seq<DeviceCandidate>,
    policy: SuitabilityPolicy,
    k: int,
) -> bool {
    &&& 0 <= k < devices.len()
    &&& devices[k].spec_is_suitable(policy)
    &&& forall|j: int| 0 <= j < k ==> !(#[trigger] devices[j]).spec_is_suitable(policy)
}

/// Picks, in enumeration order, the first device that meets the policy, and
/// returns its handle. No ranking: an earlier suitable device always wins.
pub fn pick_device(devices: &Vec<DeviceCandidate>, policy: SuitabilityPolicy) -> (r: Result<
    u64,
    DeviceSelectionError,
>)
    requires
        forall|i: int| 0 <= i < devices@.len() ==> (#[trigger] devices@[i]).wf(),
    ensures
        match r {
            Ok(h) => exists|k: int| is_first_suitable(devices@, policy, k) && #[trigger] devices@[k].handle == h,
            Err(DeviceSelectionError::NoDevicesEnumerated) => devices@.len() == 0,
            Err(DeviceSelectionError::NoSuitableDevice) => devices@.len() > 0 && forall|i: int|
                0 <= i < devices@.len() ==> !(#[trigger] devices@[i]).spec_is_suitable(policy),
        },
{
    if devices.len() == 0 {
        return Err(DeviceSelectionError::NoDevicesEnumerated);
    }
    let mut i: usize = 0;
    while i < devices.len()
        invariant
            0 < devices@.len(),
            i <= devices@.len(),
            forall|k: int| 0 <= k < devices@.len() ==> (#[trigger] devices@[k]).wf(),
            forall|j: int| 0 <= j < i ==> !(#[trigger] devices@[j]).spec_is_suitable(policy),
        decreases devices@.len() - i,
    {
        if devices[i].is_device_suitable(policy) {
            assert(is_first_suitable(devices@, policy, i as int));
            return Ok(devices[i].handle);
        }
        i = i + 1;
    }
    Err(DeviceSelectionError::NoSuitableDevice)
}

} // verus!
