use gpu_select::{
    has_required_capabilities, pick_device, select_queue_families, DeviceCandidate,
    DeviceSelectionError, QueueFamilyDescriptor, QueueFamilyIndices, SuitabilityPolicy,
};

const GRAPHICS: u32 = 0b1;
const COMPUTE: u32 = 0b10;
const TRANSFER: u32 = 0b100;

fn names(list: &[&str]) -> Vec<String> {
    list.iter().map(|s| s.to_string()).collect()
}

fn families(flags: &[u32]) -> Vec<QueueFamilyDescriptor> {
    flags.iter().map(|f| QueueFamilyDescriptor::new(*f)).collect()
}

fn candidate(handle: u64, flags: &[u32], present: &[bool]) -> DeviceCandidate {
    DeviceCandidate::new(handle, families(flags), present.to_vec())
}

#[test]
fn layers_subset_is_accepted() {
    assert!(has_required_capabilities(&names(&["A", "B"]), &names(&["A", "B", "C"])));
}

#[test]
fn layers_missing_name_is_rejected() {
    assert!(!has_required_capabilities(&names(&["A", "D"]), &names(&["A", "B", "C"])));
}

#[test]
fn layers_empty_request_is_satisfied() {
    assert!(has_required_capabilities(&names(&[]), &names(&[])));
    assert!(has_required_capabilities(&names(&[]), &names(&["X"])));
}

#[test]
fn layers_compare_whole_names_with_case() {
    let available = names(&["VK_LAYER_KHRONOS_validation"]);
    assert!(has_required_capabilities(&names(&["VK_LAYER_KHRONOS_validation"]), &available));
    assert!(!has_required_capabilities(&names(&["VK_LAYER_KHRONOS"]), &available));
    assert!(!has_required_capabilities(&names(&["vk_layer_khronos_validation"]), &available));
    assert!(!has_required_capabilities(&names(&["VK_LAYER_KHRONOS_validation_x"]), &available));
}

#[test]
fn layers_nonempty_request_against_nothing_fails() {
    assert!(!has_required_capabilities(&names(&["A"]), &names(&[])));
}

#[test]
fn layers_repeated_request_names() {
    assert!(has_required_capabilities(&names(&["B", "B"]), &names(&["A", "B"])));
}

#[test]
fn descriptor_reads_graphics_bit() {
    assert!(QueueFamilyDescriptor::new(GRAPHICS).supports_graphics());
    assert!(QueueFamilyDescriptor::new(GRAPHICS | COMPUTE | TRANSFER).supports_graphics());
    assert!(!QueueFamilyDescriptor::new(COMPUTE | TRANSFER).supports_graphics());
    assert!(!QueueFamilyDescriptor::new(0).supports_graphics());
    assert!(!QueueFamilyDescriptor::new(0xFFFF_FFFE).supports_graphics());
}

#[test]
fn first_graphics_match_is_never_overwritten() {
    let r = select_queue_families(&families(&[COMPUTE, GRAPHICS, GRAPHICS]), &vec![false, false, true]);
    assert_eq!(r.graphics_family, Some(1));
    assert_eq!(r.present_family, Some(2));
    assert!(r.is_complete());
}

#[test]
fn one_family_serves_both_purposes() {
    let r = select_queue_families(&families(&[GRAPHICS, GRAPHICS]), &vec![true, true]);
    assert_eq!(r, QueueFamilyIndices { graphics_family: Some(0), present_family: Some(0) });
    assert_eq!(r.get_unique_family_indices(), vec![0]);
}

#[test]
fn selection_is_complete_with_indices_in_range() {
    let fams = families(&[TRANSFER, COMPUTE, GRAPHICS | COMPUTE, TRANSFER]);
    let present = vec![false, false, false, true];
    let r = select_queue_families(&fams, &present);
    assert!(r.is_complete());
    assert_eq!(r.graphics_family, Some(2));
    assert_eq!(r.present_family, Some(3));
    assert!((r.graphics_family.unwrap() as usize) < fams.len());
    assert!((r.present_family.unwrap() as usize) < fams.len());
}

#[test]
fn no_graphics_family_stays_absent() {
    let r = select_queue_families(&families(&[COMPUTE, TRANSFER]), &vec![true, true]);
    assert_eq!(r.graphics_family, None);
    assert_eq!(r.present_family, Some(0));
    assert!(!r.is_complete());
}

#[test]
fn no_presentation_family_stays_absent() {
    let r = select_queue_families(&families(&[COMPUTE, GRAPHICS]), &vec![false, false]);
    assert_eq!(r.graphics_family, Some(1));
    assert_eq!(r.present_family, None);
    assert!(!r.is_complete());
}

#[test]
fn empty_family_list_selects_nothing() {
    let r = select_queue_families(&families(&[]), &vec![]);
    assert_eq!(r, QueueFamilyIndices::new());
    assert_eq!(r, QueueFamilyIndices::default());
    assert!(r.get_unique_family_indices().is_empty());
}

#[test]
fn unique_indices_collapse_equal_fields() {
    let r = QueueFamilyIndices { graphics_family: Some(3), present_family: Some(3) };
    assert_eq!(r.get_unique_family_indices(), vec![3]);
}

#[test]
fn unique_indices_keep_distinct_fields() {
    let r = QueueFamilyIndices { graphics_family: Some(0), present_family: Some(2) };
    let mut v = r.get_unique_family_indices();
    v.sort();
    assert_eq!(v, vec![0, 2]);
}

#[test]
fn unique_indices_of_partial_results() {
    let g = QueueFamilyIndices { graphics_family: Some(4), present_family: None };
    assert_eq!(g.get_unique_family_indices(), vec![4]);
    let p = QueueFamilyIndices { graphics_family: None, present_family: Some(5) };
    assert_eq!(p.get_unique_family_indices(), vec![5]);
}

#[test]
fn pick_from_no_devices_fails() {
    assert_eq!(
        pick_device(&vec![], SuitabilityPolicy::GraphicsAndPresentation),
        Err(DeviceSelectionError::NoDevicesEnumerated)
    );
    assert_eq!(pick_device(&vec![], SuitabilityPolicy::GraphicsOnly), Err(DeviceSelectionError::NoDevicesEnumerated));
}

#[test]
fn pick_skips_unsuitable_first_device() {
    let devices = vec![candidate(11, &[COMPUTE], &[true]), candidate(22, &[GRAPHICS], &[true])];
    assert_eq!(pick_device(&devices, SuitabilityPolicy::GraphicsAndPresentation), Ok(22));
}

#[test]
fn pick_prefers_first_suitable_device() {
    let devices = vec![candidate(11, &[GRAPHICS], &[true]), candidate(22, &[GRAPHICS], &[true])];
    assert_eq!(pick_device(&devices, SuitabilityPolicy::GraphicsAndPresentation), Ok(11));
}

#[test]
fn pick_with_no_suitable_device_fails() {
    let devices = vec![candidate(11, &[COMPUTE], &[true]), candidate(22, &[TRANSFER, COMPUTE], &[false, true])];
    assert_eq!(
        pick_device(&devices, SuitabilityPolicy::GraphicsAndPresentation),
        Err(DeviceSelectionError::NoSuitableDevice)
    );
    assert_eq!(pick_device(&devices, SuitabilityPolicy::GraphicsOnly), Err(DeviceSelectionError::NoSuitableDevice));
}

#[test]
fn policy_decides_whether_presentation_is_needed() {
    let devices = vec![candidate(11, &[GRAPHICS], &[false]), candidate(22, &[COMPUTE, GRAPHICS], &[true, false])];
    assert_eq!(pick_device(&devices, SuitabilityPolicy::GraphicsOnly), Ok(11));
    assert_eq!(pick_device(&devices, SuitabilityPolicy::GraphicsAndPresentation), Ok(22));
    assert!(devices[0].is_device_suitable(SuitabilityPolicy::GraphicsOnly));
    assert!(!devices[0].is_device_suitable(SuitabilityPolicy::GraphicsAndPresentation));
}
