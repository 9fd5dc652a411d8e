use scanner_core::classify::{Classifier, Tier};
use scanner_core::ownership::InstalledApp;
use scanner_core::rules::{Rule, RuleAction, RuleSet};

fn rule(id: &str, description: &str, patterns: &[&str], action: RuleAction) -> Rule {
    Rule {
        id: id.to_string(),
        name: id.to_string(),
        description: description.to_string(),
        patterns: patterns.iter().map(|p| p.to_string()).collect(),
        action,
    }
}

// The shipped rules database is not part of this crate; these stand-ins
// carry the rule ids the scenarios below refer to.
fn precise_rules() -> RuleSet {
    RuleSet::from_rules(vec![
        rule("node-modules", "npm packages", &["**/node_modules"], RuleAction::Safe),
        rule("user-temp", "Temporary files", &["c:/users/*/appdata/local/temp"], RuleAction::Safe),
        rule(
            "crash-dumps",
            "Crash dumps",
            &["c:/users/*/appdata/local/crashdumps"],
            RuleAction::Review,
        ),
        rule(
            "windows-update-cache",
            "Windows Update downloads",
            &["c:/windows/softwaredistribution/download"],
            RuleAction::SystemTool,
        ),
        rule("rust-target", "Cargo build output", &["**/target/debug", "**/target/release"], RuleAction::Safe),
    ])
    .unwrap()
}

fn fallback_rules() -> RuleSet {
    RuleSet::from_rules(vec![rule("named-cache", "folder named like a cache", &["**/cache"], RuleAction::Review)])
        .unwrap()
}

fn classifier() -> Classifier {
    Classifier::new(precise_rules(), fallback_rules(), None, Vec::new())
}

#[test]
fn windows_dir_is_os_critical() {
    let c = classifier();
    assert_eq!(c.classify(r"C:\Windows\System32").tier, Tier::OsCritical);
}

#[test]
fn node_modules_is_reclaimable() {
    let c = classifier();
    let result = c.classify(r"D:\code\my-app\node_modules");
    assert_eq!(result.tier, Tier::KnownReclaimable);
    assert_eq!(result.rule_id.as_deref(), Some("node-modules"));
    assert!(result.note.is_some());
}

#[test]
fn store_package_is_app_owned() {
    let c = classifier();
    let result =
        c.classify(r"C:\Users\richa\AppData\Local\Packages\Microsoft.WindowsTerminal_8wekyb3d8bbwe");
    assert_eq!(result.tier, Tier::AppInstalled);
    assert_eq!(result.owner.as_deref(), Some("microsoft.windowsterminal"));
}

#[test]
fn documents_is_user_content() {
    let c = classifier();
    assert_eq!(c.classify(r"C:\Users\richa\Documents\taxes").tier, Tier::UserContent);
}

#[test]
fn random_dir_is_unknown() {
    let c = classifier();
    assert_eq!(c.classify(r"D:\photos\2024").tier, Tier::Unknown);
}

#[test]
fn cache_named_dir_hits_fallback() {
    let c = classifier();
    let result = c.classify(r"D:\tools\some-utility\Cache");
    assert_eq!(result.tier, Tier::KnownReclaimable);
    assert_eq!(result.rule_id.as_deref(), Some("named-cache"));
}

#[test]
fn fallback_does_not_override_os_or_user_content() {
    let c = classifier();
    assert_eq!(c.classify(r"C:\Windows\System32\config").tier, Tier::OsCritical);
    assert_eq!(c.classify(r"C:\Users\richa\Documents\project\cache").tier, Tier::UserContent);
}

#[test]
fn new_rules_match() {
    let c = classifier();
    let dumps = c.classify(r"C:\Users\richa\AppData\Local\CrashDumps");
    assert_eq!(dumps.rule_id.as_deref(), Some("crash-dumps"));
    let wu = c.classify(r"C:\Windows\SoftwareDistribution\Download");
    assert_eq!(wu.rule_id.as_deref(), Some("windows-update-cache"));
    let target = c.classify(r"D:\code\my-app\target\debug");
    assert_eq!(target.rule_id.as_deref(), Some("rust-target"));
}

#[test]
fn notes_spell_out_each_verdict() {
    let c = classifier();
    let r = c.classify(r"D:\code\my-app\node_modules");
    assert_eq!(r.note.as_deref(), Some("Safe to delete: npm packages"));
    let r = c.classify(r"C:\Windows\SoftwareDistribution\Download");
    assert_eq!(r.note.as_deref(), Some("Reclaim via the tool that manages it: Windows Update downloads"));
    let r = c.classify(r"C:\Users\richa\AppData\Local\CrashDumps");
    assert_eq!(r.note.as_deref(), Some("Reclaimable after review: Crash dumps"));
    let r = c.classify(r"D:\x\cache");
    assert_eq!(r.note.as_deref(), Some("Reclaimable after review: folder named like a cache"));
    let r = c.classify(r"C:\Program Files\WindowsApps\Contoso.Tool_1.0_x64__abc");
    assert_eq!(r.tier, Tier::AppInstalled);
    assert_eq!(r.owner.as_deref(), Some("contoso.tool"));
    assert_eq!(
        r.note.as_deref(),
        Some("Microsoft Store app 'contoso.tool' \u{2014} uninstall from Settings > Apps to reclaim")
    );
    let r = c.classify(r"C:\$Recycle.Bin\S-1-5");
    assert_eq!(r.tier, Tier::OsCritical);
    assert_eq!(
        r.note.as_deref(),
        Some("Part of Windows \u{2014} manage with Storage Sense or Disk Cleanup, never delete manually")
    );
    let r = c.classify(r"D:\photos");
    assert_eq!((r.rule_id, r.owner, r.note), (None, None, None));
}

#[test]
fn system_root_sets_the_windows_prefix() {
    let c = Classifier::new(precise_rules(), fallback_rules(), Some(r"E:\WinNT".to_string()), Vec::new());
    assert_eq!(c.classify(r"E:\WinNT\System32").tier, Tier::OsCritical);
    assert_eq!(c.classify(r"C:\Windows\System32").tier, Tier::Unknown);
}

fn apps() -> Vec<InstalledApp> {
    vec![
        InstalledApp { name: "Blender Studio".into(), location: "c:/program files/blender foundation/blender".into() },
        InstalledApp { name: "Blender".into(), location: "c:/program files/blender foundation".into() },
        InstalledApp { name: "Adobe Acrobat".into(), location: "c:/program files/adobe".into() },
    ]
}

#[test]
fn install_folder_belongs_to_first_owner() {
    let c = Classifier::new(precise_rules(), fallback_rules(), None, apps());
    let r = c.classify(r"C:\Program Files\Blender Foundation\Blender\datafiles");
    assert_eq!(r.tier, Tier::AppInstalled);
    assert_eq!(r.owner.as_deref(), Some("Blender Studio"));
    assert_eq!(
        r.note.as_deref(),
        Some("Install folder of 'Blender Studio' \u{2014} uninstalling the app reclaims it")
    );
    let r = c.classify(r"C:\Program Files\Blender Foundation\other");
    assert_eq!(r.owner.as_deref(), Some("Blender"));
}

#[test]
fn appdata_folder_matched_by_app_name() {
    let c = Classifier::new(precise_rules(), fallback_rules(), None, apps());
    let r = c.classify(r"C:\Users\richa\AppData\Roaming\Adobe\Acrobat");
    assert_eq!(r.tier, Tier::AppInstalled);
    assert_eq!(r.owner.as_deref(), Some("Adobe Acrobat"));
    assert_eq!(r.note.as_deref(), Some("App data likely belonging to 'Adobe Acrobat' (name match)"));
    // Generic vendor names are never attributed.
    let r = c.classify(r"C:\Users\richa\AppData\Local\Microsoft\Blender");
    assert_eq!(r.tier, Tier::Unknown);
}
