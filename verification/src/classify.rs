//! Safety-tier classification.
//!
//! Order of checks (first hit wins):
//! 1. Known-reclaimable rules database (most specific, includes paths under
//!    C:\Windows like the Delivery Optimization cache)
//! 2. Store package folders (WindowsApps, %LOCALAPPDATA%\Packages)
//! 3. OS-critical path prefixes
//! 4. Classic-app install locations from the uninstall registry
//! 5. User content folders (Documents, Pictures, ...)
//! 6. AppData folder-name match against installed app names (heuristic)
//! 7. Name-based fallback rules (folders named like caches, temp, logs)

use vstd::prelude::*;
use crate::ownership::{
    generic_appdata_names, is_generic_appdata_name, location_bytes, longest_location_first,
    package_display_name, spec_package_display_name, AppView, InstalledApp,
};
use crate::paths::{component_prefix, component_prefix_chars, normalize, spec_normalize};
use crate::rules::{first_matching_rule, Rule, RuleAction, RuleSet};
use crate::text::{
    char_views, chars_eq_str, chars_of, contains_chars, has_infix, lowercase, split_chars, split_on,
    str_lowercase, string_of,
};
use vstd::utf8::encode_utf8;

verus! {

broadcast use vstd::string::group_string_axioms;

/// Safety tier of a folder.
#[derive(Clone, Copy, PartialEq, Eq, Debug, Structural)]
pub enum Tier {
    /// Under an OS-managed path. Never offer deletion; point at Storage
    /// Sense / DISM instead.
    OsCritical,
    /// Owned by an installed application (Store or classic).
    AppInstalled,
    /// Owned by an app that ran recently.
    AppActive,
    /// Owned by an app with no recorded use in the staleness window.
    AppStale,
    /// Matched the reclaimable rules database (caches, temp, shader caches...).
    KnownReclaimable,
    /// Personal files (Documents, Pictures, ...): yours to judge.
    UserContent,
    /// Big and unclassified: surfaced for the human to decide.
    Unknown,
}

/// The verdict for one path.
#[derive(Debug)]
pub struct Classification {
    pub tier: Tier,
    /// Which known-reclaimable rule matched, if any.
    pub rule_id: Option<String>,
    /// Owning app's display name, when one was identified.
    pub owner: Option<String>,
    /// One-line human explanation for the UI.
    pub note: Option<String>,
}

/// A classification as plain values: tier, rule id, owner, note.
pub type ClassificationView = (Tier, Option<Seq<char>>, Option<Seq<char>>, Option<Seq<char>>);

/// The characters of an optional string.
pub open spec fn opt_view(s: Option<String>) -> Option<Seq<char>> {
    match s {
        Some(t) => Some(t@),
        None => None,
    }
}

impl View for Classification {
    type V = ClassificationView;

    open spec fn view(&self) -> ClassificationView {
        (self.tier, opt_view(self.rule_id), opt_view(self.owner), opt_view(self.note))
    }
}

impl Classification {
    /// A classification with only a tier and a note.
    fn plain(tier: Tier, note: Option<String>) -> (out: Self)
        ensures
            out@ == (tier, None::<Seq<char>>, None::<Seq<char>>, opt_view(note)),
    {
        Self { tier, rule_id: None, owner: None, note }
    }
}

/// Folder names directly under a user profile that hold personal files.
pub open spec fn user_content_dirs() -> Seq<Seq<char>> {
    seq![
        "documents"@,
        "pictures"@,
        "videos"@,
        "music"@,
        "downloads"@,
        "desktop"@,
        "onedrive"@,
    ]
}

/// The segment at position `i`, if there is one.
pub open spec fn seg_at(segs: Seq<Seq<char>>, i: int) -> Option<Seq<char>> {
    if 0 <= i < segs.len() {
        Some(segs[i])
    } else {
        None
    }
}

/// The package folder of a Store app path:
/// `c:/program files/windowsapps/<pkg>` or
/// `c:/users/<u>/appdata/local/packages/<pkg>`.
pub open spec fn spec_store_package_segment(segs: Seq<Seq<char>>) -> Option<Seq<char>> {
    if seg_at(segs, 0) == Some("c:"@) && seg_at(segs, 1) == Some("program files"@) && seg_at(
        segs,
        2,
    ) == Some("windowsapps"@) {
        seg_at(segs, 3)
    } else if seg_at(segs, 0) == Some("c:"@) && seg_at(segs, 1) == Some("users"@) && seg_at(segs, 3)
        == Some("appdata"@) && seg_at(segs, 4) == Some("local"@) && seg_at(segs, 5) == Some(
        "packages"@,
    ) {
        seg_at(segs, 6)
    } else {
        None
    }
}

/// The first app whose install location contains `path`.
pub open spec fn first_owning_app(apps: Seq<AppView>, path: Seq<char>) -> Option<int>
    decreases apps.len(),
{
    if apps.len() == 0 {
        None
    } else {
        match first_owning_app(apps.drop_last(), path) {
            Some(i) => Some(i),
            None => if component_prefix(path, apps.last().1) {
                Some(apps.len() - 1)
            } else {
                None
            },
        }
    }
}

/// Whether an app's lowercased name and an AppData folder name contain one
/// another.
pub open spec fn names_overlap(app_name: Seq<char>, vendor: Seq<char>) -> bool {
    has_infix(str_lowercase(app_name), vendor) || has_infix(vendor, str_lowercase(app_name))
}

/// The first app whose name overlaps the AppData folder name `vendor`.
pub open spec fn first_name_match(apps: Seq<AppView>, vendor: Seq<char>) -> Option<int>
    decreases apps.len(),
{
    if apps.len() == 0 {
        None
    } else {
        match first_name_match(apps.drop_last(), vendor) {
            Some(i) => Some(i),
            None => if names_overlap(apps.last().0, vendor) {
                Some(apps.len() - 1)
            } else {
                None
            },
        }
    }
}

/// The verb phrase for a rule action.
pub open spec fn action_text(a: RuleAction) -> Seq<char> {
    match a {
        RuleAction::Safe => "Safe to delete"@,
        RuleAction::Review => "Reclaimable after review"@,
        RuleAction::SystemTool => "Reclaim via the tool that manages it"@,
    }
}

/// Whether an AppData folder name is too generic to attribute by name.
pub open spec fn generic_name(v: Seq<char>) -> bool {
    generic_appdata_names().contains(v) || encode_utf8(v).len() < 4
}

/// Paths under `c:/users/<name>/`: personal folders, then AppData folders
/// whose vendor name matches an installed app.
pub open spec fn user_area_verdict(apps: Seq<AppView>, segs: Seq<Seq<char>>) -> Option<
    ClassificationView,
> {
    if segs.len() >= 3 && segs[0] == "c:"@ && segs[1] == "users"@ {
        if segs.len() > 3 && user_content_dirs().contains(segs[3]) {
            Some(
                (
                    Tier::UserContent,
                    None,
                    None,
                    Some("Your personal files \u{2014} only you can judge these"@),
                ),
            )
        } else if segs.len() > 5 && segs[3] == "appdata"@ && !generic_name(segs[5]) {
            match first_name_match(apps, segs[5]) {
                Some(i) => Some(
                    (
                        Tier::AppInstalled,
                        None,
                        Some(apps[i].0),
                        Some("App data likely belonging to '"@ + apps[i].0 + "' (name match)"@),
                    ),
                ),
                None => None,
            }
        } else {
            None
        }
    } else {
        None
    }
}

/// The verdict for the folder at `path`, checks in the order listed at the top.
pub open spec fn spec_classify(
    rules: Seq<Rule>,
    fallback: Seq<Rule>,
    os_prefixes: Seq<Seq<char>>,
    apps: Seq<AppView>,
    path: Seq<char>,
) -> ClassificationView {
    let n = spec_normalize(path);
    let segs = split_on(n, '/');
    match first_matching_rule(rules, n) {
        Some(i) => (
            Tier::KnownReclaimable,
            Some(rules[i].id@),
            None,
            Some(action_text(rules[i].action) + ": "@ + rules[i].description@),
        ),
        None => match spec_store_package_segment(segs) {
            Some(pkg) => (
                Tier::AppInstalled,
                None,
                Some(spec_package_display_name(pkg)),
                Some(
                    "Microsoft Store app '"@ + spec_package_display_name(pkg)
                        + "' \u{2014} uninstall from Settings > Apps to reclaim"@,
                ),
            ),
            None => if exists|k: int|
                0 <= k < os_prefixes.len() && component_prefix(n, #[trigger] os_prefixes[k]) {
                (
                    Tier::OsCritical,
                    None,
                    None,
                    Some(
                        "Part of Windows \u{2014} manage with Storage Sense or Disk Cleanup, never delete manually"@,
                    ),
                )
            } else {
                match first_owning_app(apps, n) {
                    Some(i) => (
                        Tier::AppInstalled,
                        None,
                        Some(apps[i].0),
                        Some(
                            "Install folder of '"@ + apps[i].0
                                + "' \u{2014} uninstalling the app reclaims it"@,
                        ),
                    ),
                    None => match user_area_verdict(apps, segs) {
                        Some(v) => v,
                        None => match first_matching_rule(fallback, n) {
                            Some(i) => (
                                Tier::KnownReclaimable,
                                Some(fallback[i].id@),
                                None,
                                Some("Reclaimable after review: "@ + fallback[i].description@),
                            ),
                            None => (Tier::Unknown, None, None, None),
                        },
                    },
                }
            },
        },
    }
}

/// `a`, `b` and `c` joined.
fn join3(a: &str, b: &str, c: &str) -> (out: String)
    ensures
        out@ == a@ + b@ + c@,
{
    let mut out = String::from_str(a);
    out.append(b);
    out.append(c);
    out
}

/// `a` and `b` joined.
fn join2(a: &str, b: &str) -> (out: String)
    ensures
        out@ == a@ + b@,
{
    let mut out = String::from_str(a);
    out.append(b);
    out
}

/// An owned copy of a string literal.
fn owned(s: &str) -> (out: String)
    ensures
        out@ == s@,
{
    String::from_str(s)
}

/// Whether segment `i` exists and spells `lit`.
fn seg_is(segs: &Vec<Vec<char>>, i: usize, lit: &str) -> (r: bool)
    ensures
        r == (seg_at(char_views(segs@), i as int) == Some(lit@)),
{
    if i < segs.len() {
        chars_eq_str(&segs[i], lit)
    } else {
        false
    }
}

/// Whether a segment names one of the personal-files folders.
fn is_user_content_dir(seg: &Vec<char>) -> (r: bool)
    ensures
        r == user_content_dirs().contains(seg@),
{
    let r = chars_eq_str(seg, "documents") || chars_eq_str(seg, "pictures") || chars_eq_str(
        seg,
        "videos",
    ) || chars_eq_str(seg, "music") || chars_eq_str(seg, "downloads") || chars_eq_str(
        seg,
        "desktop",
    ) || chars_eq_str(seg, "onedrive");
    proof {
        let names = user_content_dirs();
        if names.contains(seg@) {
            let k = choose|k: int| 0 <= k < names.len() && names[k] == seg@;
            assert(k == 0 || k == 1 || k == 2 || k == 3 || k == 4 || k == 5 || k == 6);
        }
        if r {
            if seg@ == "documents"@ { assert(names[0] == seg@); }
            else if seg@ == "pictures"@ { assert(names[1] == seg@); }
            else if seg@ == "videos"@ { assert(names[2] == seg@); }
            else if seg@ == "music"@ { assert(names[3] == seg@); }
            else if seg@ == "downloads"@ { assert(names[4] == seg@); }
            else if seg@ == "desktop"@ { assert(names[5] == seg@); }
            else { assert(names[6] == seg@); }
        }
    }
    r
}

/// The package folder segment of a Store app path, if the path is one.
pub fn store_package_segment(segments: &Vec<Vec<char>>) -> (r: Option<Vec<char>>)
    ensures
        match r {
            Some(v) => spec_store_package_segment(char_views(segments@)) == Some(v@),
            None => spec_store_package_segment(char_views(segments@)) is None,
        },
{
    let ghost segs = char_views(segments@);
    if seg_is(segments, 0, "c:") && seg_is(segments, 1, "program files") && seg_is(
        segments,
        2,
        "windowsapps",
    ) {
        if segments.len() > 3 {
            return Some(segments[3].clone());
        }
        return None;
    }
    if seg_is(segments, 0, "c:") && seg_is(segments, 1, "users") && seg_is(segments, 3, "appdata")
        && seg_is(segments, 4, "local") && seg_is(segments, 5, "packages") {
        if segments.len() > 6 {
            return Some(segments[6].clone());
        }
    }
    None
}

/// Position of the first app whose install location contains `path`.
fn find_owning_app(apps: &Vec<InstalledApp>, path: &Vec<char>) -> (r: Option<usize>)
    ensures
        match r {
            Some(i) => first_owning_app(apps@.map_values(|a: InstalledApp| a@), path@) == Some(
                i as int,
            ) && i < apps.len(),
            None => first_owning_app(apps@.map_values(|a: InstalledApp| a@), path@) is None,
        },
{
    let ghost views = apps@.map_values(|a: InstalledApp| a@);
    let mut i: usize = 0;
    while i < apps.len()
        invariant
            i <= apps.len(),
            views == apps@.map_values(|a: InstalledApp| a@),
            first_owning_app(views.take(i as int), path@) is None,
        decreases apps.len() - i,
    {
        proof {
            assert(views.take(i + 1).drop_last() =~= views.take(i as int));
        }
        let loc = chars_of(apps[i].location.as_str());
        if component_prefix_chars(path, &loc) {
            proof {
                lemma_first_owning_prefix(views, path@, i as int);
            }
            return Some(i);
        }
        i = i + 1;
    }
    proof {
        assert(views.take(apps.len() as int) =~= views);
    }
    None
}

/// A first hit within a prefix is the first hit overall.
proof fn lemma_first_owning_prefix(apps: Seq<AppView>, path: Seq<char>, i: int)
    requires
        0 <= i < apps.len(),
        first_owning_app(apps.take(i + 1), path) == Some(i),
    ensures
        first_owning_app(apps, path) == Some(i),
    decreases apps.len(),
{
    if apps.len() > i + 1 {
        assert(apps.drop_last().take(i + 1) =~= apps.take(i + 1));
        lemma_first_owning_prefix(apps.drop_last(), path, i);
    } else {
        assert(apps.take(i + 1) =~= apps);
    }
}

/// A first hit within a prefix is the first hit overall.
proof fn lemma_first_name_prefix(apps: Seq<AppView>, vendor: Seq<char>, i: int)
    requires
        0 <= i < apps.len(),
        first_name_match(apps.take(i + 1), vendor) == Some(i),
    ensures
        first_name_match(apps, vendor) == Some(i),
    decreases apps.len(),
{
    if apps.len() > i + 1 {
        assert(apps.drop_last().take(i + 1) =~= apps.take(i + 1));
        lemma_first_name_prefix(apps.drop_last(), vendor, i);
    } else {
        assert(apps.take(i + 1) =~= apps);
    }
}

/// Position of the first app whose lowercased name and `vendor` contain one another.
fn find_name_match(apps: &Vec<InstalledApp>, vendor: &Vec<char>) -> (r: Option<usize>)
    ensures
        match r {
            Some(i) => first_name_match(apps@.map_values(|a: InstalledApp| a@), vendor@) == Some(
                i as int,
            ) && i < apps.len(),
            None => first_name_match(apps@.map_values(|a: InstalledApp| a@), vendor@) is None,
        },
{
    let ghost views = apps@.map_values(|a: InstalledApp| a@);
    let mut i: usize = 0;
    while i < apps.len()
        invariant
            i <= apps.len(),
            views == apps@.map_values(|a: InstalledApp| a@),
            first_name_match(views.take(i as int), vendor@) is None,
        decreases apps.len() - i,
    {
        proof {
            assert(views.take(i + 1).drop_last() =~= views.take(i as int));
        }
        let lower = lowercase(apps[i].name.as_str());
        let name = chars_of(lower.as_str());
        if contains_chars(&name, vendor) || contains_chars(vendor, &name) {
            proof {
                lemma_first_name_prefix(views, vendor@, i as int);
            }
            return Some(i);
        }
        i = i + 1;
    }
    proof {
        assert(views.take(apps.len() as int) =~= views);
    }
    None
}

/// Assigns safety tiers to paths.
pub struct Classifier {
    rules: RuleSet,
    /// Name-based heuristics, consulted only when nothing precise matched.
    fallback_rules: RuleSet,
    os_prefixes: Vec<String>,
    apps: Vec<InstalledApp>,
}

/// The OS-managed prefixes for a Windows directory: the Windows directory
/// itself, System Volume Information, the recycle bin and ProgramData\Microsoft,
/// all normalized.
pub open spec fn os_prefixes_for(windir: Seq<char>) -> Seq<Seq<char>> {
    seq![
        spec_normalize(windir),
        spec_normalize("C:\\System Volume Information"@),
        spec_normalize("C:\\$Recycle.Bin"@),
        spec_normalize("C:\\ProgramData\\Microsoft"@),
    ]
}

impl Classifier {
    /// The precise rules database.
    pub closed spec fn rule_list(&self) -> Seq<Rule> {
        self.rules.rule_list()
    }

    /// The name-based fallback rules.
    pub closed spec fn fallback_list(&self) -> Seq<Rule> {
        self.fallback_rules.rule_list()
    }

    /// The normalized OS-managed path prefixes.
    pub closed spec fn os_prefix_list(&self) -> Seq<Seq<char>> {
        self.os_prefixes@.map_values(|s: String| s@)
    }

    /// The installed apps, most specific location first.
    pub closed spec fn app_list(&self) -> Seq<AppView> {
        self.apps@.map_values(|a: InstalledApp| a@)
    }

    /// A classifier over the given rules databases and installed apps.
    /// `system_root` is the value of `SystemRoot` in the environment, if
    /// set; `C:\Windows` is used when it is not.
    pub fn new(
        rules: RuleSet,
        fallback_rules: RuleSet,
        system_root: Option<String>,
        apps: Vec<InstalledApp>,
    ) -> (c: Self)
        ensures
            c.rule_list() == rules.rule_list(),
            c.fallback_list() == fallback_rules.rule_list(),
            c.app_list() == apps@.map_values(|a: InstalledApp| a@),
            c.os_prefix_list() == os_prefixes_for(
                match system_root {
                    Some(s) => s@,
                    None => "C:\\Windows"@,
                },
            ),
    {
        let windir = match system_root {
            Some(s) => s,
            None => owned("C:\\Windows"),
        };
        let mut os_prefixes: Vec<String> = Vec::new();
        os_prefixes.push(normalize(windir.as_str()));
        os_prefixes.push(normalize("C:\\System Volume Information"));
        os_prefixes.push(normalize("C:\\$Recycle.Bin"));
        os_prefixes.push(normalize("C:\\ProgramData\\Microsoft"));
        let c = Self { rules, fallback_rules, os_prefixes, apps };
        proof {
            assert(c.os_prefix_list() =~= os_prefixes_for(windir@));
        }
        c
    }

    /// The safety verdict for the folder at `path` (its displayed form).
    pub fn classify(&self, path: &str) -> (c: Classification)
        ensures
            c@ == spec_classify(
                self.rule_list(),
                self.fallback_list(),
                self.os_prefix_list(),
                self.app_list(),
                path@,
            ),
    {
        let ghost apps = self.app_list();
        let ghost prefixes = self.os_prefix_list();
        let normalized = normalize(path);
        let nchars = chars_of(normalized.as_str());
        let segments = split_chars(&nchars, '/');
        let ghost segs = char_views(segments@);

        if let Some(rule) = self.rules.match_path(normalized.as_str()) {
            let action = match rule.action {
                RuleAction::Safe => "Safe to delete",
                RuleAction::Review => "Reclaimable after review",
                RuleAction::SystemTool => "Reclaim via the tool that manages it",
            };
            return Classification {
                tier: Tier::KnownReclaimable,
                rule_id: Some(rule.id.clone()),
                owner: None,
                note: Some(join3(action, ": ", rule.description.as_str())),
            };
        }
        // Store apps: c:/program files/windowsapps/<pkg> and
        // c:/users/<u>/appdata/local/packages/<pkg>
        if let Some(pkg) = store_package_segment(&segments) {
            let pkg_name = string_of(&pkg);
            let name = package_display_name(pkg_name.as_str());
            let note = join3(
                "Microsoft Store app '",
                name.as_str(),
                "' \u{2014} uninstall from Settings > Apps to reclaim",
            );
            return Classification {
                tier: Tier::AppInstalled,
                rule_id: None,
                owner: Some(name),
                note: Some(note),
            };
        }
        let mut k: usize = 0;
        while k < self.os_prefixes.len()
            invariant
                k <= self.os_prefixes.len(),
                prefixes == self.os_prefix_list(),
                nchars@ == spec_normalize(path@),
                first_matching_rule(self.rule_list(), nchars@) is None,
                spec_store_package_segment(split_on(nchars@, '/')) is None,
                forall|j: int| 0 <= j < k ==> !component_prefix(nchars@, #[trigger] prefixes[j]),
            decreases self.os_prefixes.len() - k,
        {
            let prefix = chars_of(self.os_prefixes[k].as_str());
            if component_prefix_chars(&nchars, &prefix) {
                proof {
                    assert(prefixes[k as int] == prefix@);
                }
                return Classification::plain(
                    Tier::OsCritical,
                    Some(
                        owned(
                            "Part of Windows \u{2014} manage with Storage Sense or Disk Cleanup, never delete manually",
                        ),
                    ),
                );
            }
            k = k + 1;
        }
        if let Some(i) = find_owning_app(&self.apps, &nchars) {
            let app = &self.apps[i];
            return Classification {
                tier: Tier::AppInstalled,
                rule_id: None,
                owner: Some(app.name.clone()),
                note: Some(
                    join3(
                        "Install folder of '",
                        app.name.as_str(),
                        "' \u{2014} uninstalling the app reclaims it",
                    ),
                ),
            };
        }
        // c:/users/<name>/<content dir>/...
        if segments.len() >= 3 && seg_is(&segments, 0, "c:") && seg_is(&segments, 1, "users") {
            if segments.len() > 3 && is_user_content_dir(&segments[3]) {
                return Classification::plain(
                    Tier::UserContent,
                    Some(owned("Your personal files \u{2014} only you can judge these")),
                );
            }
            // c:/users/<name>/appdata/{local,roaming,locallow}/<vendor>/...
            if segments.len() > 5 && seg_is(&segments, 3, "appdata") {
                let vendor = &segments[5];
                let vendor_name = string_of(vendor);
                if !is_generic_appdata_name(vendor_name.as_str()) {
                    if let Some(i) = find_name_match(&self.apps, vendor) {
                        let app = &self.apps[i];
                        return Classification {
                            tier: Tier::AppInstalled,
                            rule_id: None,
                            owner: Some(app.name.clone()),
                            note: Some(
                                join3(
                                    "App data likely belonging to '",
                                    app.name.as_str(),
                                    "' (name match)",
                                ),
                            ),
                        };
                    }
                }
            }
        }
        // Last resort before Unknown: the folder's own name says cache/temp/log.
        if let Some(rule) = self.fallback_rules.match_path(normalized.as_str()) {
            return Classification {
                tier: Tier::KnownReclaimable,
                rule_id: Some(rule.id.clone()),
                owner: None,
                note: Some(join2("Reclaimable after review: ", rule.description.as_str())),
            };
        }
        Classification::plain(Tier::Unknown, None)
    }
}

/// The first owner of a path owns it, and no app before it does.
proof fn lemma_first_owning_app(apps: Seq<AppView>, path: Seq<char>)
    ensures
        match first_owning_app(apps, path) {
            Some(i) => 0 <= i < apps.len() && component_prefix(path, apps[i].1) && forall|j: int|
                0 <= j < i ==> !component_prefix(path, (#[trigger] apps[j]).1),
            None => forall|j: int|
                0 <= j < apps.len() ==> !component_prefix(path, (#[trigger] apps[j]).1),
        },
    decreases apps.len(),
{
    if apps.len() > 0 {
        let dl = apps.drop_last();
        lemma_first_owning_app(dl, path);
        assert forall|j: int| 0 <= j < dl.len() implies #[trigger] apps[j] == dl[j] by {}
    }
}

/// Most specific install location wins: with apps ordered longest location
/// first (as `installed_apps_from_entries` orders them), the app a path is
/// attributed to has a location at least as long as that of any other app
/// whose install folder contains the path.
pub proof fn law_most_specific_owner(apps: Seq<AppView>, path: Seq<char>, j: int)
    requires
        longest_location_first(apps),
        0 <= j < apps.len(),
        component_prefix(path, apps[j].1),
    ensures
        first_owning_app(apps, path) matches Some(i) && location_bytes(apps[i]) >= location_bytes(
            apps[j],
        ),
{
    lemma_first_owning_app(apps, path);
    let i = first_owning_app(apps, path)->0;
    if i != j {
        assert(i < j);
        assert(location_bytes(apps[i]) >= location_bytes(apps[j]));
    }
}

/// Name-based fallback rules are a last resort: they never change a verdict
/// that any earlier check reached; only a path that would otherwise be
/// `Unknown` can get a fallback verdict.
pub proof fn law_fallback_is_last_resort(
    rules: Seq<Rule>,
    fallback: Seq<Rule>,
    os_prefixes: Seq<Seq<char>>,
    apps: Seq<AppView>,
    path: Seq<char>,
)
    ensures
        spec_classify(rules, Seq::empty(), os_prefixes, apps, path).0 != Tier::Unknown
            ==> spec_classify(rules, fallback, os_prefixes, apps, path) == spec_classify(
            rules,
            Seq::empty(),
            os_prefixes,
            apps,
            path,
        ),
        spec_classify(rules, Seq::empty(), os_prefixes, apps, path).0 == Tier::Unknown
            ==> spec_classify(rules, fallback, os_prefixes, apps, path).0 == Tier::Unknown
            || spec_classify(rules, fallback, os_prefixes, apps, path).0 == Tier::KnownReclaimable,
{
    assert(first_matching_rule(Seq::<Rule>::empty(), spec_normalize(path)) is None);
}

/// A match in the precise rules database decides, whatever the path: even
/// under an OS-managed folder or a Store package folder.
pub proof fn law_rule_match_decides(
    rules: Seq<Rule>,
    fallback: Seq<Rule>,
    os_prefixes: Seq<Seq<char>>,
    apps: Seq<AppView>,
    path: Seq<char>,
)
    requires
        first_matching_rule(rules, spec_normalize(path)) is Some,
    ensures
        ({
            let i = first_matching_rule(rules, spec_normalize(path))->0;
            spec_classify(rules, fallback, os_prefixes, apps, path) == (
                Tier::KnownReclaimable,
                Some(rules[i].id@),
                None::<Seq<char>>,
                Some(action_text(rules[i].action) + ": "@ + rules[i].description@),
            )
        }),
{
}


/// Every OS-managed prefix counts, the last one included: a path at or
/// below any of them that no precise rule matches and that is not inside a
/// Store package folder is OS-critical.
pub proof fn law_os_prefixes_are_critical(
    rules: Seq<Rule>,
    fallback: Seq<Rule>,
    os_prefixes: Seq<Seq<char>>,
    apps: Seq<AppView>,
    path: Seq<char>,
    k: int,
)
    requires
        first_matching_rule(rules, spec_normalize(path)) is None,
        spec_store_package_segment(split_on(spec_normalize(path), '/')) is None,
        0 <= k < os_prefixes.len(),
        component_prefix(spec_normalize(path), os_prefixes[k]),
    ensures
        spec_classify(rules, fallback, os_prefixes, apps, path) == (
            Tier::OsCritical,
            None::<Seq<char>>,
            None::<Seq<char>>,
            Some(
                "Part of Windows \u{2014} manage with Storage Sense or Disk Cleanup, never delete manually"@,
            ),
        ),
{
    assert(component_prefix(spec_normalize(path), os_prefixes[k]));
}

/// A classifier made by `Classifier::new` treats the Windows directory,
/// System Volume Information, the recycle bin and ProgramData\Microsoft
/// (and everything below them) as OS-critical, unless a precise rule
/// matches or the path is inside a Store package folder.
pub proof fn law_windows_folders_are_critical(
    rules: Seq<Rule>,
    fallback: Seq<Rule>,
    windir: Seq<char>,
    apps: Seq<AppView>,
    path: Seq<char>,
)
    requires
        first_matching_rule(rules, spec_normalize(path)) is None,
        spec_store_package_segment(split_on(spec_normalize(path), '/')) is None,
        ({
            let n = spec_normalize(path);
            ||| component_prefix(n, spec_normalize(windir))
            ||| component_prefix(n, spec_normalize("C:\\System Volume Information"@))
            ||| component_prefix(n, spec_normalize("C:\\$Recycle.Bin"@))
            ||| component_prefix(n, spec_normalize("C:\\ProgramData\\Microsoft"@))
        }),
    ensures
        spec_classify(rules, fallback, os_prefixes_for(windir), apps, path).0 == Tier::OsCritical,
{
    let n = spec_normalize(path);
    let pre = os_prefixes_for(windir);
    if component_prefix(n, spec_normalize(windir)) {
        law_os_prefixes_are_critical(rules, fallback, pre, apps, path, 0);
    } else if component_prefix(n, spec_normalize("C:\\System Volume Information"@)) {
        law_os_prefixes_are_critical(rules, fallback, pre, apps, path, 1);
    } else if component_prefix(n, spec_normalize("C:\\$Recycle.Bin"@)) {
        law_os_prefixes_are_critical(rules, fallback, pre, apps, path, 2);
    } else {
        law_os_prefixes_are_critical(rules, fallback, pre, apps, path, 3);
    }
}

/// A generic AppData vendor folder (microsoft, packages, programs, temp,
/// cache, roaming, local, or a name under four bytes in UTF-8) is never
/// attributed to an app by name: unless an install location owns the
/// path, the verdict is the one given with no installed apps at all.
pub proof fn law_generic_vendor_not_attributed(
    rules: Seq<Rule>,
    fallback: Seq<Rule>,
    os_prefixes: Seq<Seq<char>>,
    apps: Seq<AppView>,
    path: Seq<char>,
)
    requires
        ({
            let segs = split_on(spec_normalize(path), '/');
            &&& segs.len() > 5
            &&& {
                ||| segs[5] == "microsoft"@
                ||| segs[5] == "packages"@
                ||| segs[5] == "programs"@
                ||| segs[5] == "temp"@
                ||| segs[5] == "cache"@
                ||| segs[5] == "roaming"@
                ||| segs[5] == "local"@
                ||| encode_utf8(segs[5]).len() < 4
            }
        }),
        first_owning_app(apps, spec_normalize(path)) is None,
    ensures
        spec_classify(rules, fallback, os_prefixes, apps, path) == spec_classify(
            rules,
            fallback,
            os_prefixes,
            Seq::<AppView>::empty(),
            path,
        ),
{
    let segs = split_on(spec_normalize(path), '/');
    let names = generic_appdata_names();
    let v = segs[5];
    if v == "microsoft"@ { assert(names[0] == v); }
    else if v == "packages"@ { assert(names[1] == v); }
    else if v == "programs"@ { assert(names[2] == v); }
    else if v == "temp"@ { assert(names[3] == v); }
    else if v == "cache"@ { assert(names[4] == v); }
    else if v == "roaming"@ { assert(names[5] == v); }
    else if v == "local"@ { assert(names[6] == v); }
    assert(generic_name(v));
    assert(first_owning_app(Seq::<AppView>::empty(), spec_normalize(path)) is None);
    assert(first_name_match(Seq::<AppView>::empty(), v) is None);
}

/// Everything at or below a Store package folder belongs to that package:
/// for `c:/program files/windowsapps/<pkg>/...` and
/// `c:/users/<u>/appdata/local/packages/<pkg>/...`, with any number of
/// further segments, the package segment is `<pkg>`.
pub proof fn law_store_package_below(segs: Seq<Seq<char>>)
    ensures
        segs.len() >= 4 && segs[0] == "c:"@ && segs[1] == "program files"@ && segs[2]
            == "windowsapps"@ ==> spec_store_package_segment(segs) == Some(segs[3]),
        segs.len() >= 7 && segs[0] == "c:"@ && segs[1] == "users"@ && segs[3] == "appdata"@
            && segs[4] == "local"@ && segs[5] == "packages"@ ==> spec_store_package_segment(segs)
            == Some(segs[6]),
{
    reveal_strlit("users");
    reveal_strlit("program files");
    assert("users"@ != "program files"@) by {
        assert("users"@[0] != "program files"@[0]);
    }
}

/// A path at or below a Store package folder, when no precise rule
/// matches, is an installed app's data, owned by the package's name.
pub proof fn law_store_package_owns_contents(
    rules: Seq<Rule>,
    fallback: Seq<Rule>,
    os_prefixes: Seq<Seq<char>>,
    apps: Seq<AppView>,
    path: Seq<char>,
    pkg_at: int,
)
    requires
        first_matching_rule(rules, spec_normalize(path)) is None,
        ({
            let segs = split_on(spec_normalize(path), '/');
            ||| pkg_at == 3 && segs.len() >= 4 && segs[0] == "c:"@ && segs[1] == "program files"@
                && segs[2] == "windowsapps"@
            ||| pkg_at == 6 && segs.len() >= 7 && segs[0] == "c:"@ && segs[1] == "users"@ && segs[3]
                == "appdata"@ && segs[4] == "local"@ && segs[5] == "packages"@
        }),
    ensures
        ({
            let segs = split_on(spec_normalize(path), '/');
            let v = spec_classify(rules, fallback, os_prefixes, apps, path);
            &&& v.0 == Tier::AppInstalled
            &&& v.1 is None
            &&& v.2 == Some(spec_package_display_name(segs[pkg_at]))
        }),
{
    law_store_package_below(split_on(spec_normalize(path), '/'));
}
} // verus!
