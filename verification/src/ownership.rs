//! Mapping paths to the installed application that owns them.
//!
//! Sources, most to least reliable:
//! 1. Store package folders: the folder name is the package identity.
//! 2. Classic-app uninstall entries: `InstallLocation` prefix match.
//! 3. AppData vendor/app folder names matched against installed app names.

use vstd::prelude::*;
use crate::paths::{component_prefix, component_prefix_chars, normalize, spec_normalize};
use crate::text::{chars_of, chars_eq_str, spec_trim, string_of, trim_chars};
use vstd::utf8::encode_utf8;
use crate::order::stable_desc_order;

verus! {

broadcast use vstd::string::group_string_axioms;

/// An application registered in the uninstall registry.
pub struct InstalledApp {
    pub name: String,
    /// Normalized (lowercase, forward-slash) install location, no trailing slash.
    pub location: String,
}

impl Clone for InstalledApp {
    fn clone(&self) -> (out: Self)
        ensures
            out.name@ == self.name@,
            out.location@ == self.location@,
    {
        InstalledApp { name: self.name.clone(), location: self.location.clone() }
    }
}

impl InstalledApp {
    /// Whether `normalized_path` is the install location or lies below it.
    pub fn owns(&self, normalized_path: &str) -> (r: bool)
        ensures
            r == component_prefix(normalized_path@, self.location@),
    {
        let p = chars_of(normalized_path);
        let l = chars_of(self.location.as_str());
        component_prefix_chars(&p, &l)
    }
}

/// The part of a Store package folder name before its first `_`
/// (the whole name when it has none).
pub open spec fn spec_package_display_name(folder: Seq<char>) -> Seq<char>
    decreases folder.len(),
{
    if folder.len() == 0 {
        folder
    } else if folder[0] == '_' {
        Seq::<char>::empty()
    } else {
        seq![folder[0]] + spec_package_display_name(folder.drop_first())
    }
}

/// Extract a Store package's friendly name from its folder name, e.g.
/// `microsoft.windowsterminal_1.18_x64__8wekyb3d8bbwe` -> `microsoft.windowsterminal`.
pub fn package_display_name(folder_name: &str) -> (out: String)
    ensures
        out@ == spec_package_display_name(folder_name@),
        folder_name@.take(out@.len() as int) == out@,
        !out@.contains('_'),
        out@.len() < folder_name@.len() ==> folder_name@[out@.len() as int] == '_',
{
    let cs = chars_of(folder_name);
    let n = cs.len();
    let mut i: usize = 0;
    while i < n && cs[i] != '_'
        invariant
            cs@ == folder_name@,
            n == cs.len(),
            i <= n,
            forall|k: int| 0 <= k < i ==> cs@[k] != '_',
        decreases n - i,
    {
        i = i + 1;
    }
    let mut head: Vec<char> = Vec::new();
    for k in 0..i
        invariant
            i <= n,
            n == cs.len(),
            head@ == cs@.take(k as int),
    {
        head.push(cs[k]);
        proof {
            assert(cs@.take(k + 1) =~= cs@.take(k as int).push(cs@[k as int]));
        }
    }
    proof {
        lemma_package_display_name(folder_name@, i as int);
    }
    string_of(&head)
}

/// `spec_package_display_name` is the run of characters before the first `_`.
proof fn lemma_package_display_name(s: Seq<char>, i: int)
    requires
        0 <= i <= s.len(),
        forall|k: int| 0 <= k < i ==> s[k] != '_',
        i < s.len() ==> s[i] == '_',
    ensures
        spec_package_display_name(s) == s.take(i),
    decreases s.len(),
{
    if s.len() == 0 {
        assert(s.take(i) =~= s);
    } else if s[0] == '_' {
        assert(s.take(i) =~= Seq::<char>::empty());
    } else {
        lemma_package_display_name(s.drop_first(), i - 1);
        assert(s.take(i) =~= seq![s[0]] + s.drop_first().take(i - 1));
    }
}

/// AppData folder names too generic to attribute to an app by name.
pub open spec fn generic_appdata_names() -> Seq<Seq<char>> {
    seq![
        "microsoft"@,
        "packages"@,
        "programs"@,
        "temp"@,
        "cache"@,
        "roaming"@,
        "local"@,
    ]
}

/// Folder names under AppData too generic to attribute to an app by name:
/// one of a fixed list, or shorter than four bytes in UTF-8.
pub fn is_generic_appdata_name(segment: &str) -> (r: bool)
    ensures
        r == (generic_appdata_names().contains(segment@) || encode_utf8(segment@).len() < 4),
{
    let cs = chars_of(segment);
    let listed = chars_eq_str(&cs, "microsoft") || chars_eq_str(&cs, "packages") || chars_eq_str(
        &cs,
        "programs",
    ) || chars_eq_str(&cs, "temp") || chars_eq_str(&cs, "cache") || chars_eq_str(&cs, "roaming")
        || chars_eq_str(&cs, "local");
    proof {
        let names = generic_appdata_names();
        if names.contains(segment@) {
            let k = choose|k: int| 0 <= k < names.len() && names[k] == segment@;
            assert(k == 0 || k == 1 || k == 2 || k == 3 || k == 4 || k == 5 || k == 6);
        }
        if listed {
            if cs@ == "microsoft"@ { assert(names[0] == segment@); }
            else if cs@ == "packages"@ { assert(names[1] == segment@); }
            else if cs@ == "programs"@ { assert(names[2] == segment@); }
            else if cs@ == "temp"@ { assert(names[3] == segment@); }
            else if cs@ == "cache"@ { assert(names[4] == segment@); }
            else if cs@ == "roaming"@ { assert(names[5] == segment@); }
            else { assert(names[6] == segment@); }
        }
    }
    listed || segment.as_bytes().len() < 4
}

/// One subkey of an uninstall registry root, as read: its `DisplayName`
/// and `InstallLocation` values, `None` where the value could not be read.
pub struct UninstallEntry {
    pub display_name: Option<String>,
    pub install_location: Option<String>,
}

/// An installed app as a pair of character sequences: name, location.
pub type AppView = (Seq<char>, Seq<char>);

impl View for InstalledApp {
    type V = AppView;

    open spec fn view(&self) -> AppView {
        (self.name@, self.location@)
    }
}

/// `s` without trailing `\` and `/` characters.
pub open spec fn trim_end_separators(s: Seq<char>) -> Seq<char>
    decreases s.len(),
{
    if s.len() > 0 && (s.last() == '\\' || s.last() == '/') {
        trim_end_separators(s.drop_last())
    } else {
        s
    }
}

/// The app an uninstall entry describes: entries without a display name, or
/// whose trimmed location is empty, describe none.
pub open spec fn entry_app(e: UninstallEntry) -> Option<AppView> {
    match e.display_name {
        None => None,
        Some(name) => {
            let raw = match e.install_location {
                Some(l) => l@,
                None => Seq::<char>::empty(),
            };
            let loc = trim_end_separators(spec_trim(raw));
            if loc.len() == 0 {
                None
            } else {
                Some((name@, spec_normalize(loc)))
            }
        },
    }
}

/// The apps of the entries, in entry order.
pub open spec fn entry_apps(es: Seq<UninstallEntry>) -> Seq<AppView>
    decreases es.len(),
{
    if es.len() == 0 {
        Seq::<AppView>::empty()
    } else {
        let prev = entry_apps(es.drop_last());
        match entry_app(es.last()) {
            Some(a) => prev.push(a),
            None => prev,
        }
    }
}

/// Sort key: the UTF-8 length of an app's location.
pub open spec fn location_bytes(a: AppView) -> nat {
    encode_utf8(a.1).len()
}

/// `perm` lists the positions of `c` longest location first, ties in their
/// original order: a stable sort by location length, descending.
pub open spec fn longest_first(c: Seq<AppView>, perm: Seq<int>) -> bool {
    &&& perm.len() == c.len()
    &&& forall|j: int| 0 <= j < perm.len() ==> 0 <= #[trigger] perm[j] < c.len()
    &&& forall|k: int| 0 <= k < c.len() ==> #[trigger] perm.contains(k)
    &&& forall|j1: int, j2: int|
        0 <= j1 < j2 < perm.len() ==> {
            ||| location_bytes(c[#[trigger] perm[j1]]) > location_bytes(c[#[trigger] perm[j2]])
            ||| (location_bytes(c[perm[j1]]) == location_bytes(c[perm[j2]]) && perm[j1] < perm[j2])
        }
}

/// `c` rearranged in the order `perm` gives.
pub open spec fn permuted(c: Seq<AppView>, perm: Seq<int>) -> Seq<AppView> {
    Seq::new(perm.len(), |j: int| c[perm[j]])
}

/// `s` with each app dropped whose location equals that of the app before it.
pub open spec fn dedup_locations(s: Seq<AppView>) -> Seq<AppView>
    decreases s.len(),
{
    if s.len() <= 1 {
        s
    } else {
        let prev = dedup_locations(s.drop_last());
        if s.last().1 == s[s.len() - 2].1 {
            prev
        } else {
            prev.push(s.last())
        }
    }
}

proof fn lemma_dedup_last(s: Seq<AppView>)
    requires
        s.len() >= 1,
    ensures
        dedup_locations(s).len() >= 1,
        dedup_locations(s).last().1 == s.last().1,
    decreases s.len(),
{
    if s.len() > 1 {
        lemma_dedup_last(s.drop_last());
    }
}

/// Strips trailing `\` and `/` characters.
fn trim_end_separators_exec(cs: &Vec<char>) -> (out: Vec<char>)
    ensures
        out@ == trim_end_separators(cs@),
{
    let ghost s = cs@;
    let mut end = cs.len();
    proof {
        assert(s.take(end as int) =~= s);
    }
    while end > 0 && (cs[end - 1] == '\\' || cs[end - 1] == '/')
        invariant
            cs@ == s,
            end <= cs.len(),
            trim_end_separators(s) == trim_end_separators(s.take(end as int)),
        decreases end,
    {
        proof {
            assert(s.take(end as int).drop_last() =~= s.take(end - 1));
        }
        end = end - 1;
    }
    let mut out: Vec<char> = Vec::new();
    for k in 0..end
        invariant
            end <= cs.len(),
            out@ == cs@.take(k as int),
    {
        out.push(cs[k]);
        proof {
            assert(cs@.take(k + 1) =~= cs@.take(k as int).push(cs@[k as int]));
        }
    }
    proof {
        assert(s.take(0) =~= Seq::<char>::empty());
        if end > 0 {
            assert(s.take(end as int).last() == s[end - 1]);
        }
        assert(s.take(s.len() as int) =~= s);
    }
    out
}

/// The app an entry describes, if any.
fn app_of_entry(e: &UninstallEntry) -> (out: Option<InstalledApp>)
    ensures
        match out {
            Some(a) => entry_app(*e) == Some(a@),
            None => entry_app(*e) is None,
        },
{
    let name = match &e.display_name {
        Some(n) => n.clone(),
        None => return None,
    };
    let raw: String = match &e.install_location {
        Some(l) => l.clone(),
        None => String::new(),
    };
    let raw_chars = chars_of(raw.as_str());
    let trimmed = trim_chars(&raw_chars);
    let loc = trim_end_separators_exec(&trimmed);
    if loc.len() == 0 {
        return None;
    }
    let loc_str = string_of(&loc);
    let location = normalize(loc_str.as_str());
    Some(InstalledApp { name, location })
}

/// Classic (non-Store) apps from uninstall entries, read in hive order.
/// Entries without a display name or an install location are dropped;
/// locations are trimmed of white space and trailing separators and
/// normalized; the apps come longest location first (stable), and an app
/// whose location equals that of the app before it is dropped.
pub fn installed_apps_from_entries(entries: &Vec<UninstallEntry>) -> (out: Vec<InstalledApp>)
    ensures
        exists|perm: Seq<int>|
            longest_first(entry_apps(entries@), perm) && out@.map_values(|a: InstalledApp| a@)
                == dedup_locations(permuted(entry_apps(entries@), perm)),
{
    // Candidates in entry order.
    let mut cands: Vec<InstalledApp> = Vec::new();
    let n = entries.len();
    for i in 0..n
        invariant
            n == entries.len(),
            cands@.map_values(|a: InstalledApp| a@) == entry_apps(entries@.take(i as int)),
    {
        let ghost before = cands@.map_values(|a: InstalledApp| a@);
        proof {
            assert(entries@.take(i + 1).drop_last() =~= entries@.take(i as int));
            assert(entries@.take(i + 1).last() == entries@[i as int]);
        }
        match app_of_entry(&entries[i]) {
            Some(a) => {
                cands.push(a);
                proof {
                    assert(cands@.map_values(|a: InstalledApp| a@) =~= before.push(a@));
                }
            },
            None => {},
        }
    }
    proof {
        assert(entries@.take(n as int) =~= entries@);
    }
    let ghost c = cands@.map_values(|a: InstalledApp| a@);
    // Stable sort of positions, longest location first.
    let m = cands.len();
    let mut keys: Vec<u64> = Vec::new();
    for i in 0..m
        invariant
            m == cands.len(),
            c == cands@.map_values(|a: InstalledApp| a@),
            keys.len() == i,
            forall|k: int| 0 <= k < i ==> keys@[k] == location_bytes(#[trigger] c[k]),
    {
        let key = cands[i].location.as_str().as_bytes().len() as u64;
        keys.push(key);
    }
    let order = stable_desc_order(&keys);
    // Drop apps whose location repeats that of the app before.
    let ghost perm = order@.map_values(|x: usize| x as int);
    let ghost sorted = permuted(c, perm);
    let mut out: Vec<InstalledApp> = Vec::new();
    for j in 0..m
        invariant
            m == cands.len(),
            m == order.len(),
            c == cands@.map_values(|a: InstalledApp| a@),
            perm == order@.map_values(|x: usize| x as int),
            sorted == permuted(c, perm),
            forall|q: int| 0 <= q < order.len() ==> #[trigger] order@[q] < m,
            out@.map_values(|a: InstalledApp| a@) == dedup_locations(sorted.take(j as int)),
            j > 0 ==> out.len() > 0 && out@.last().location@ == sorted[j - 1].1,
    {
        let idx = order[j];
        let a = cands[idx].clone();
        let ghost before = out@.map_values(|a: InstalledApp| a@);
        proof {
            assert(sorted.take(j + 1).drop_last() =~= sorted.take(j as int));
            assert(sorted[j as int] == c[idx as int]);
            assert(sorted.take(j + 1).last() == c[idx as int]);
        }
        if j == 0 {
            out.push(a);
            proof {
                assert(sorted.take(1) =~= seq![c[idx as int]]);
                assert(out@.map_values(|a: InstalledApp| a@) =~= seq![c[idx as int]]);
            }
        } else {
            let same = out[out.len() - 1].location == a.location;
            proof {
                assert(sorted.take(j + 1)[j - 1] == sorted[j - 1]);
            }
            if !same {
                out.push(a);
                proof {
                    assert(out@.map_values(|a: InstalledApp| a@) =~= before.push(c[idx as int]));
                }
            }
        }
    }
    proof {
        assert(sorted.take(m as int) =~= sorted);
        assert forall|jj: int| 0 <= jj < perm.len() implies 0 <= #[trigger] perm[jj] < c.len() by {}
        assert forall|k: int| 0 <= k < c.len() implies #[trigger] perm.contains(k) by {
            assert(order@.contains(k as usize));
            let q = choose|q: int| 0 <= q < order@.len() && order@[q] == k as usize;
            assert(perm[q] == k);
        }
        assert forall|j1: int, j2: int| 0 <= j1 < j2 < perm.len() implies {
            ||| location_bytes(c[#[trigger] perm[j1]]) > location_bytes(c[#[trigger] perm[j2]])
            ||| (location_bytes(c[perm[j1]]) == location_bytes(c[perm[j2]]) && perm[j1] < perm[j2])
        } by {
            assert(keys@[order@[j1] as int] == location_bytes(c[perm[j1]]));
            assert(keys@[order@[j2] as int] == location_bytes(c[perm[j2]]));
        }
        assert(longest_first(c, perm));
    }
    out
}

/// Apps ordered longest location (in bytes) first.
pub open spec fn longest_location_first(apps: Seq<AppView>) -> bool {
    forall|j1: int, j2: int|
        0 <= j1 < j2 < apps.len() ==> location_bytes(#[trigger] apps[j1]) >= location_bytes(
            #[trigger] apps[j2],
        )
}

/// No app has the same location as the app right before it.
pub open spec fn no_adjacent_duplicates(apps: Seq<AppView>) -> bool {
    forall|j: int| 0 < j < apps.len() ==> (#[trigger] apps[j]).1 != apps[j - 1].1
}

proof fn lemma_dedup_members(s: Seq<AppView>)
    ensures
        forall|k: int|
            0 <= k < dedup_locations(s).len() ==> s.contains(#[trigger] dedup_locations(s)[k]),
    decreases s.len(),
{
    if s.len() > 1 {
        let dl = s.drop_last();
        lemma_dedup_members(dl);
        let prev = dedup_locations(dl);
        let d = dedup_locations(s);
        assert forall|k: int| 0 <= k < d.len() implies s.contains(#[trigger] d[k]) by {
            if k < prev.len() {
                assert(d[k] == prev[k]);
                assert(dl.contains(prev[k]));
                let m = choose|m: int| 0 <= m < dl.len() && dl[m] == prev[k];
                assert(s[m] == d[k]);
            } else {
                assert(s[s.len() - 1] == d[k]);
            }
        }
    } else {
        assert forall|k: int| 0 <= k < dedup_locations(s).len() implies s.contains(
            #[trigger] dedup_locations(s)[k],
        ) by {
            assert(s[k] == dedup_locations(s)[k]);
        }
    }
}

proof fn lemma_dedup_sorted(s: Seq<AppView>)
    requires
        longest_location_first(s),
    ensures
        longest_location_first(dedup_locations(s)),
        no_adjacent_duplicates(dedup_locations(s)),
    decreases s.len(),
{
    if s.len() > 1 {
        let dl = s.drop_last();
        assert forall|j1: int, j2: int| 0 <= j1 < j2 < dl.len() implies location_bytes(
            #[trigger] dl[j1],
        ) >= location_bytes(#[trigger] dl[j2]) by {
            assert(dl[j1] == s[j1] && dl[j2] == s[j2]);
        }
        lemma_dedup_sorted(dl);
        lemma_dedup_members(dl);
        lemma_dedup_last(dl);
        let prev = dedup_locations(dl);
        let d = dedup_locations(s);
        if s.last().1 != s[s.len() - 2].1 {
            assert(d == prev.push(s.last()));
            assert forall|j1: int, j2: int| 0 <= j1 < j2 < d.len() implies location_bytes(
                #[trigger] d[j1],
            ) >= location_bytes(#[trigger] d[j2]) by {
                if j2 == d.len() - 1 {
                    assert(dl.contains(prev[j1]));
                    let m = choose|m: int| 0 <= m < dl.len() && dl[m] == prev[j1];
                    assert(s[m] == d[j1]);
                    assert(location_bytes(s[m]) >= location_bytes(s[s.len() - 1]));
                } else {
                    assert(d[j1] == prev[j1] && d[j2] == prev[j2]);
                }
            }
            assert forall|j: int| 0 < j < d.len() implies (#[trigger] d[j]).1 != d[j - 1].1 by {
                if j == d.len() - 1 {
                    assert(d[j - 1] == prev.last());
                } else {
                    assert(d[j] == prev[j] && d[j - 1] == prev[j - 1]);
                }
            }
        }
    }
}

/// The installed apps come longest location first, so the most specific
/// install location is met first, and no app repeats the location of the
/// app before it.
pub proof fn law_installed_apps_order(c: Seq<AppView>, perm: Seq<int>)
    requires
        longest_first(c, perm),
    ensures
        longest_location_first(dedup_locations(permuted(c, perm))),
        no_adjacent_duplicates(dedup_locations(permuted(c, perm))),
{
    let p = permuted(c, perm);
    assert forall|j1: int, j2: int| 0 <= j1 < j2 < p.len() implies location_bytes(
        #[trigger] p[j1],
    ) >= location_bytes(#[trigger] p[j2]) by {
        assert(p[j1] == c[perm[j1]] && p[j2] == c[perm[j2]]);
    }
    lemma_dedup_sorted(p);
}

} // verus!
