use library::role::application::packages::{
    breakdown_from, choco_count, count_with_extension, package_manager_name, steam_count_from_libraries,
    steam_count_from_registry, PACKAGE_MANAGER_COUNT,
};

fn names(v: &[&str]) -> Vec<String> {
    v.iter().map(|s| s.to_string()).collect()
}

#[test]
fn test_packages_breakdown() {
    let entries: Vec<(&str, usize)> = (0..PACKAGE_MANAGER_COUNT).map(|i| (package_manager_name(i), 0)).collect();
    let breakdown = breakdown_from(&entries);
    assert!(breakdown.contains("apps") || breakdown.contains("native"));
}

#[test]
fn breakdown_lists_managers_with_packages() {
    assert_eq!(breakdown_from(&vec![("native", 0), ("dpkg", 1532), ("flatpak", 12)]), "1532 dpkg, 12 flatpak");
    assert_eq!(breakdown_from(&vec![("native", 0)]), "0 apps");
    assert_eq!(breakdown_from(&vec![]), "0 apps");
    assert_eq!(package_manager_name(0), "native");
    assert_eq!(package_manager_name(10), "snap");
}

#[test]
fn counting_rules() {
    assert_eq!(choco_count(0), 0);
    assert_eq!(choco_count(5), 4);
    let lib = vec![
        None,
        Some(names(&["libraryfolders.vdf"])),
        Some(names(&["appmanifest_10.acf", "appmanifest_20.acf", "appmanifest_x.txt"])),
        Some(names(&["appmanifest_30.acf"])),
    ];
    assert_eq!(steam_count_from_libraries(&lib), 2);
    assert_eq!(steam_count_from_libraries(&vec![]), 0);
    assert_eq!(steam_count_from_registry(&vec![Some(1), Some(0), None, Some(1)]), 2);
    assert_eq!(count_with_extension(&names(&["a.list", ".list", "b.list.bak", "c.md5sums", "d.list"]), "list"), 2);
    assert_eq!(count_with_extension(&names(&["core_1.snap", "snap"]), "snap"), 1);
}
