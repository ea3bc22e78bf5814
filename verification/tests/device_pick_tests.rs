//! Device selection: fuzzy name matching and class preference.

use vk_suballoc::phys_device::{pick_physical_device, PhysicalDeviceKind};

fn names(list: &[&str]) -> Vec<String> {
    list.iter().map(|s| s.to_string()).collect()
}

#[test]
fn wanted_name_picks_the_fuzzy_match() {
    let names = names(&["AMD Radeon RX 6800", "NVIDIA GeForce RTX 3060", "llvmpipe"]);
    let kinds = vec![
        PhysicalDeviceKind::Discrete,
        PhysicalDeviceKind::Discrete,
        PhysicalDeviceKind::Other,
    ];
    // only the GeForce name contains the letters r, t, x in order
    assert_eq!(pick_physical_device(&names, &kinds, Some("rtx")), Some(1));
    // an exact substring beats a scattered match
    assert_eq!(pick_physical_device(&names, &kinds, Some("radeon")), Some(0));
}

#[test]
fn unmatched_name_picks_nothing() {
    let names = names(&["AMD Radeon RX 6800", "llvmpipe"]);
    let kinds = vec![PhysicalDeviceKind::Discrete, PhysicalDeviceKind::Other];
    assert_eq!(pick_physical_device(&names, &kinds, Some("zzqy")), None);
}

#[test]
fn without_a_name_the_best_class_wins() {
    let names = names(&["llvmpipe", "Intel UHD 620", "NVIDIA GeForce RTX 3060"]);
    let kinds = vec![
        PhysicalDeviceKind::Other,
        PhysicalDeviceKind::Integrated,
        PhysicalDeviceKind::Discrete,
    ];
    assert_eq!(pick_physical_device(&names, &kinds, None), Some(2));

    // integrated beats software when no discrete card is there
    let kinds = vec![PhysicalDeviceKind::Other, PhysicalDeviceKind::Integrated];
    let two = vec![String::from("llvmpipe"), String::from("Intel UHD 620")];
    assert_eq!(pick_physical_device(&two, &kinds, None), Some(1));

    // an empty list picks nothing
    assert_eq!(pick_physical_device(&Vec::new(), &Vec::new(), None), None);
}

#[test]
fn equal_classes_tie_to_the_last_device() {
    let names = names(&["card0", "card1"]);
    let kinds = vec![PhysicalDeviceKind::Discrete, PhysicalDeviceKind::Discrete];
    assert_eq!(pick_physical_device(&names, &kinds, None), Some(1));
}
