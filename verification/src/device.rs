//! Choosing the physical device to render on.

use vstd::prelude::*;

verus! {

/// What kind of hardware a physical device is.
#[derive(Clone, Copy, Debug, PartialEq, Eq, Structural)]
pub enum PhysicalDeviceType {
    DiscreteGpu,
    IntegratedGpu,
    VirtualGpu,
    Cpu,
    Other,
    Unknown,
}

/// What one queue family of a device can do.
#[derive(Clone, Copy, Debug, PartialEq, Eq, Structural)]
pub struct QueueFamily {
    /// The family takes graphics commands.
    pub graphics: bool,
    /// The family can present to the surface.
    pub surface_support: bool,
}

/// What is known of a physical device.
#[derive(Clone, Debug)]
pub struct PhysicalDevice {
    /// The device supports swapchains.
    pub swapchain: bool,
    pub device_type: PhysicalDeviceType,
    pub queue_families: Vec<QueueFamily>,
}

/// The order of preference among kinds of device: the lower the better.
pub open spec fn rank(device_type: PhysicalDeviceType) -> nat {
    match device_type {
        PhysicalDeviceType::DiscreteGpu => 0,
        PhysicalDeviceType::IntegratedGpu => 1,
        PhysicalDeviceType::VirtualGpu => 2,
        PhysicalDeviceType::Cpu => 3,
        PhysicalDeviceType::Other => 4,
        PhysicalDeviceType::Unknown => 5,
    }
}

impl PhysicalDevice {
    /// Family `f` exists, takes graphics commands and can present.
    pub open spec fn suits(self, f: int) -> bool {
        &&& 0 <= f < self.queue_families@.len()
        &&& self.queue_families@[f].graphics
        &&& self.queue_families@[f].surface_support
    }

    /// Family `f` is the first that suits.
    pub open spec fn first_suited(self, f: int) -> bool {
        &&& self.suits(f)
        &&& forall|g: int| 0 <= g < f ==> !self.suits(g)
    }

    /// The device supports swapchains and has a family that suits.
    pub open spec fn eligible(self) -> bool {
        &&& self.swapchain
        &&& exists|f: int| self.suits(f)
    }

    /// The first queue family that takes graphics commands and can present
    /// to the surface, if there is one.
    pub fn presenting_family(&self) -> (family: Option<usize>)
        ensures
            match family {
                Some(f) => self.first_suited(f as int),
                None => forall|g: int| !self.suits(g),
            },
    {
        let mut f: usize = 0;
        while f < self.queue_families.len()
            invariant
                f <= self.queue_families.len(),
                forall|g: int| 0 <= g < f ==> !self.suits(g),
            decreases self.queue_families.len() - f,
        {
            if self.queue_families[f].graphics && self.queue_families[f].surface_support {
                return Some(f);
            }
            f += 1;
        }
        None
    }
}

/// The number that `rank` gives.
pub fn rank_of(device_type: PhysicalDeviceType) -> (r: u8)
    ensures
        r == rank(device_type),
{
    match device_type {
        PhysicalDeviceType::DiscreteGpu => 0,
        PhysicalDeviceType::IntegratedGpu => 1,
        PhysicalDeviceType::VirtualGpu => 2,
        PhysicalDeviceType::Cpu => 3,
        PhysicalDeviceType::Other => 4,
        PhysicalDeviceType::Unknown => 5,
    }
}

/// Device `d` with family `f` is the choice among `devices`: it is eligible,
/// `f` is its first suited family, no eligible device is of a better kind,
/// and none before it is of as good a kind.
pub open spec fn is_choice(devices: Seq<PhysicalDevice>, d: int, f: int) -> bool {
    &&& 0 <= d < devices.len()
    &&& devices[d].swapchain
    &&& devices[d].first_suited(f)
    &&& forall|e: int|
        0 <= e < devices.len() && (#[trigger] devices[e]).eligible() ==> rank(
            devices[d].device_type,
        ) <= rank(devices[e].device_type)
    &&& forall|e: int|
        0 <= e < d && (#[trigger] devices[e]).eligible() ==> rank(devices[d].device_type) < rank(
            devices[e].device_type,
        )
}

/// The device to render on and the queue family to use on it: among the
/// devices that support swapchains and have a family that takes graphics
/// commands and can present, the first of the most preferred kind, with its
/// first such family. `None` if and only if no device is eligible.
pub fn select_physical_device(devices: &[PhysicalDevice]) -> (choice: Option<(usize, usize)>)
    ensures
        match choice {
            Some((d, f)) => is_choice(devices@, d as int, f as int),
            None => forall|e: int| 0 <= e < devices@.len() ==> !(#[trigger] devices@[e]).eligible(),
        },
{
    let mut choice: Option<(usize, usize)> = None;
    let mut e: usize = 0;
    while e < devices.len()
        invariant
            e <= devices.len(),
            match choice {
                Some((d, f)) => d < e && is_choice(devices@.take(e as int), d as int, f as int),
                None => forall|k: int| 0 <= k < e ==> !(#[trigger] devices@[k]).eligible(),
            },
        decreases devices.len() - e,
    {
        if devices[e].swapchain {
            match devices[e].presenting_family() {
                Some(f) => {
                    let better = match choice {
                        Some((d, _)) => rank_of(devices[e].device_type) < rank_of(
                            devices[d].device_type,
                        ),
                        None => true,
                    };
                    if better {
                        choice = Some((e, f));
                    }
                },
                None => {},
            }
        }
        e += 1;
    }
    assert(devices@.take(e as int) =~= devices@);
    choice
}

} // verus!
