use scanner_core::ownership::{
    installed_apps_from_entries, is_generic_appdata_name, package_display_name, InstalledApp,
    UninstallEntry,
};

#[test]
fn prefix_ownership_requires_separator() {
    let app = InstalledApp {
        name: "Blender".into(),
        location: "c:/program files/blender foundation/blender 4.1".into(),
    };
    assert!(app.owns("c:/program files/blender foundation/blender 4.1/datafiles"));
    assert!(!app.owns("c:/program files/blender foundation/blender 4.10"));
}

#[test]
fn package_name_parses() {
    assert_eq!(
        package_display_name("microsoft.windowsterminal_1.18_x64__8wekyb3d8bbwe"),
        "microsoft.windowsterminal"
    );
}

#[test]
fn package_name_without_underscore_is_whole() {
    assert_eq!(package_display_name("contoso.app"), "contoso.app");
    assert_eq!(package_display_name("_leading"), "");
    assert_eq!(package_display_name(""), "");
}

#[test]
fn owns_its_own_location_exactly() {
    let app = InstalledApp { name: "Tool".into(), location: "d:/tools/x".into() };
    assert!(app.owns("d:/tools/x"));
    assert!(!app.owns("d:/tools"));
    assert!(!app.owns("d:/tools/xy/z"));
}

#[test]
fn generic_appdata_names() {
    assert!(is_generic_appdata_name("microsoft"));
    assert!(is_generic_appdata_name("packages"));
    assert!(is_generic_appdata_name("local"));
    assert!(is_generic_appdata_name("abc"));
    assert!(!is_generic_appdata_name("adobe"));
    // Length is counted in UTF-8 bytes: two 2-byte characters make four.
    assert!(is_generic_appdata_name("\u{e9}"));
    assert!(!is_generic_appdata_name("\u{e9}\u{e9}"));
}

fn entry(name: Option<&str>, location: Option<&str>) -> UninstallEntry {
    UninstallEntry {
        display_name: name.map(|s| s.to_string()),
        install_location: location.map(|s| s.to_string()),
    }
}

#[test]
fn installed_apps_are_cleaned_sorted_and_deduplicated() {
    let entries = vec![
        entry(Some("Short"), Some("C:\\Apps\\A")),
        entry(None, Some("C:\\Apps\\Nameless")),
        entry(Some("NoLocation"), None),
        entry(Some("Blank"), Some("   ")),
        entry(Some("Long"), Some("  C:\\Program Files\\Long App\\\\ ")),
        entry(Some("Dup"), Some("c:/apps/a/")),
        entry(Some("Mid"), Some("C:\\Apps\\Middle")),
    ];
    let apps = installed_apps_from_entries(&entries);
    let got: Vec<(String, String)> =
        apps.iter().map(|a| (a.name.clone(), a.location.clone())).collect();
    assert_eq!(
        got,
        vec![
            ("Long".to_string(), "c:/program files/long app".to_string()),
            ("Mid".to_string(), "c:/apps/middle".to_string()),
            ("Short".to_string(), "c:/apps/a".to_string()),
        ]
    );
}

#[test]
fn installed_apps_keep_equal_lengths_in_entry_order() {
    let entries = vec![
        entry(Some("One"), Some("c:/aa")),
        entry(Some("Two"), Some("c:/bb")),
        entry(Some("Three"), Some("c:/aa")),
    ];
    let apps = installed_apps_from_entries(&entries);
    let names: Vec<String> = apps.iter().map(|a| a.name.clone()).collect();
    // Only adjacent duplicates collapse.
    assert_eq!(names, vec!["One", "Two", "Three"]);
}
