use render_scene::device::{
    rank_of, select_physical_device, PhysicalDevice, PhysicalDeviceType, QueueFamily,
};

fn family(graphics: bool, surface_support: bool) -> QueueFamily {
    QueueFamily { graphics, surface_support }
}

fn device(swapchain: bool, device_type: PhysicalDeviceType, queue_families: Vec<QueueFamily>) -> PhysicalDevice {
    PhysicalDevice { swapchain, device_type, queue_families }
}

#[test]
fn kinds_are_ranked_discrete_first() {
    assert_eq!(rank_of(PhysicalDeviceType::DiscreteGpu), 0);
    assert_eq!(rank_of(PhysicalDeviceType::IntegratedGpu), 1);
    assert_eq!(rank_of(PhysicalDeviceType::VirtualGpu), 2);
    assert_eq!(rank_of(PhysicalDeviceType::Cpu), 3);
    assert_eq!(rank_of(PhysicalDeviceType::Other), 4);
    assert_eq!(rank_of(PhysicalDeviceType::Unknown), 5);
}

#[test]
fn first_family_that_draws_and_presents() {
    let d = device(
        true,
        PhysicalDeviceType::Cpu,
        vec![family(true, false), family(false, true), family(true, true), family(true, true)],
    );
    assert_eq!(d.presenting_family(), Some(2));
    assert_eq!(device(true, PhysicalDeviceType::Cpu, vec![family(true, false)]).presenting_family(), None);
    assert_eq!(device(true, PhysicalDeviceType::Cpu, vec![]).presenting_family(), None);
}

#[test]
fn best_kind_wins_and_ties_go_to_the_first() {
    let devices = vec![
        device(true, PhysicalDeviceType::Cpu, vec![family(true, true)]),
        device(true, PhysicalDeviceType::IntegratedGpu, vec![family(false, false), family(true, true)]),
        device(false, PhysicalDeviceType::DiscreteGpu, vec![family(true, true)]),
        device(true, PhysicalDeviceType::DiscreteGpu, vec![family(true, false)]),
        device(true, PhysicalDeviceType::IntegratedGpu, vec![family(true, true)]),
    ];
    assert_eq!(select_physical_device(&devices), Some((1, 1)));
    assert_eq!(select_physical_device(&devices[2..4]), None);
    assert_eq!(select_physical_device(&devices[..1]), Some((0, 0)));
    assert_eq!(select_physical_device(&[]), None);
}
