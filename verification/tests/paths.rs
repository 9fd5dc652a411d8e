use scanner_core::paths::{normalize, starts_with_component};

#[test]
fn normalize_lowercases_and_uses_forward_slashes() {
    assert_eq!(normalize("C:\\Users\\Richa\\AppData"), "c:/users/richa/appdata");
    assert_eq!(normalize("D:/Mixed\\Case"), "d:/mixed/case");
    assert_eq!(normalize("\u{C9}COLE"), "\u{e9}cole");
}

#[test]
fn component_prefix_matches_whole_components() {
    assert!(starts_with_component("c:/windows", "c:/windows"));
    assert!(starts_with_component("c:/windows/system32", "c:/windows"));
    assert!(!starts_with_component("c:/windowsapps", "c:/windows"));
    assert!(!starts_with_component("c:/win", "c:/windows"));
}

#[test]
fn normalizing_twice_changes_nothing() {
    let once = normalize(r"C:\Users\Me\AppData\Local\Temp");
    assert!(!once.contains('\\'));
    assert_eq!(normalize(&once), once);
}
