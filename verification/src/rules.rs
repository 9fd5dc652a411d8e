//! Known-reclaimable rules database.
//!
//! Rules are glob patterns over lowercased, forward-slash paths (see
//! `paths::normalize`). Patterns are compiled with `globset`; a path matches
//! a rule when any of the rule's patterns matches it, and the first rule in
//! database order that matches wins.

use vstd::prelude::*;
use globset::{Glob, GlobBuilder, GlobSet, GlobSetBuilder};

verus! {

#[verifier::external_type_specification]
#[verifier::external_body]
pub struct ExGlob(Glob);

#[verifier::external_type_specification]
#[verifier::external_body]
pub struct ExGlobSet(GlobSet);

#[verifier::external_type_specification]
#[verifier::external_body]
pub struct ExGlobSetBuilder(GlobSetBuilder);

#[verifier::external_type_specification]
#[verifier::external_body]
pub struct ExGlobError(globset::Error);

/// Whether `GlobBuilder::build` accepts the pattern, compiled with
/// `literal_separator(false)` and `backslash_escape(false)` for the target
/// platform.
pub uninterp spec fn glob_pattern_valid(pattern: Seq<char>) -> bool;

/// The pattern text a compiled `Glob` holds.
pub uninterp spec fn glob_text(g: Glob) -> Seq<char>;

/// The pattern texts added to a `GlobSetBuilder`, in order.
pub uninterp spec fn builder_patterns(b: GlobSetBuilder) -> Seq<Seq<char>>;

/// The pattern texts a `GlobSet` was built from, in order.
pub uninterp spec fn set_patterns(s: GlobSet) -> Seq<Seq<char>>;

/// Whether `GlobSetBuilder::build` succeeds for these patterns (it can
/// fail when the combined matcher exceeds globset's size limits).
pub uninterp spec fn globset_builds(patterns: Seq<Seq<char>>) -> bool;

/// Whether the glob `pattern` (compiled as for `glob_pattern_valid`)
/// matches `path`. Both depend on the target platform only through whether
/// `\` is a path separator there, fixed when the crate is built.
pub uninterp spec fn glob_matches(pattern: Seq<char>, path: Seq<char>) -> bool;

/// Calls `GlobBuilder::new(pattern).literal_separator(false)
/// .backslash_escape(false).build()`. Claimed: it succeeds exactly for valid
/// patterns, and the glob it returns holds the pattern text.
#[verifier::external_body]
fn compile_glob(pattern: &str) -> (r: Result<Glob, globset::Error>)
    ensures
        r is Ok <==> glob_pattern_valid(pattern@),
        r matches Ok(g) ==> glob_text(g) == pattern@,
{
    GlobBuilder::new(pattern).literal_separator(false).backslash_escape(false).build()
}

/// Calls `GlobSetBuilder::new`. Claimed: the builder holds no pattern.
#[verifier::external_body]
fn new_glob_set_builder() -> (b: GlobSetBuilder)
    ensures
        builder_patterns(b) == Seq::<Seq<char>>::empty(),
{
    GlobSetBuilder::new()
}

/// Calls `GlobSetBuilder::add`. Claimed: the glob's pattern is appended.
#[verifier::external_body]
fn add_glob(b: &mut GlobSetBuilder, g: Glob)
    ensures
        builder_patterns(*final(b)) == builder_patterns(*old(b)).push(glob_text(g)),
{
    b.add(g);
}

/// Calls `GlobSetBuilder::build`. Claimed: success depends on the patterns
/// alone, a builder with no pattern always builds, and the set holds the
/// builder's patterns in order.
#[verifier::external_body]
fn build_glob_set(b: &GlobSetBuilder) -> (r: Result<GlobSet, globset::Error>)
    ensures
        r is Ok <==> globset_builds(builder_patterns(*b)),
        builder_patterns(*b).len() == 0 ==> r is Ok,
        r matches Ok(s) ==> set_patterns(s) == builder_patterns(*b),
{
    b.build()
}

/// Calls `GlobSet::matches`. Claimed, as its source shows: the sequence
/// numbers of all patterns that match `path`, ascending, each once.
#[verifier::external_body]
fn glob_set_matches(s: &GlobSet, path: &str) -> (r: Vec<usize>)
    ensures
        forall|i: int, j: int| 0 <= i < j < r.len() ==> r@[i] < r@[j],
        forall|i: int| 0 <= i < r.len() ==> (#[trigger] r@[i]) < set_patterns(*s).len(),
        forall|k: int|
            0 <= k < set_patterns(*s).len() ==> (r@.contains(k as usize) <==> glob_matches(
                #[trigger] set_patterns(*s)[k],
                path@,
            )),
{
    s.matches(path)
}

/// What to do about a folder that a rule matched.
#[derive(Clone, Copy, PartialEq, Eq, Debug, Structural)]
pub enum RuleAction {
    /// Contents can be deleted outright; the owner regenerates them.
    Safe,
    /// Reclaimable, but a human should confirm (project caches, VM disks).
    Review,
    /// Don't touch directly: use the built-in tool that manages it.
    SystemTool,
}

/// One entry of the rules database.
#[derive(Debug)]
pub struct Rule {
    pub id: String,
    pub name: String,
    pub description: String,
    /// Globs matched against normalized paths. `**` spans separators.
    pub patterns: Vec<String>,
    pub action: RuleAction,
}

impl Clone for Rule {
    fn clone(&self) -> (out: Self)
        ensures
            out.id@ == self.id@,
            out.name@ == self.name@,
            out.description@ == self.description@,
            out.patterns@ == self.patterns@,
            out.action == self.action,
    {
        Rule {
            id: self.id.clone(),
            name: self.name.clone(),
            description: self.description.clone(),
            patterns: clone_strings(&self.patterns),
            action: self.action,
        }
    }
}

/// A copy of a vector of strings.
fn clone_strings(v: &Vec<String>) -> (out: Vec<String>)
    ensures
        out@ == v@,
{
    let mut out: Vec<String> = Vec::new();
    for i in 0..v.len()
        invariant
            out@ == v@.take(i as int),
    {
        out.push(v[i].clone());
        proof {
            assert(v@.take(i + 1) =~= v@.take(i as int).push(v@[i as int]));
        }
    }
    proof {
        assert(v@.take(v.len() as int) =~= v@);
    }
    out
}

/// The pattern texts of one rule.
pub open spec fn rule_patterns(r: Rule) -> Seq<Seq<char>> {
    r.patterns@.map_values(|p: String| p@)
}

/// Whether any pattern of the rule matches `path`.
pub open spec fn rule_matches(r: Rule, path: Seq<char>) -> bool {
    exists|k: int| 0 <= k < r.patterns@.len() && glob_matches(#[trigger] rule_patterns(r)[k], path)
}

/// The position of the first rule that matches `path`, if any.
pub open spec fn first_matching_rule(rules: Seq<Rule>, path: Seq<char>) -> Option<int>
    decreases rules.len(),
{
    if rules.len() == 0 {
        None
    } else {
        match first_matching_rule(rules.drop_last(), path) {
            Some(i) => Some(i),
            None => if rule_matches(rules.last(), path) {
                Some(rules.len() - 1)
            } else {
                None
            },
        }
    }
}

/// All patterns of all rules, rule by rule.
pub open spec fn all_patterns(rules: Seq<Rule>) -> Seq<Seq<char>>
    decreases rules.len(),
{
    if rules.len() == 0 {
        Seq::<Seq<char>>::empty()
    } else {
        all_patterns(rules.drop_last()) + rule_patterns(rules.last())
    }
}

/// For each entry of `all_patterns`, the position of the rule it came from.
pub open spec fn pattern_owners(rules: Seq<Rule>) -> Seq<int>
    decreases rules.len(),
{
    if rules.len() == 0 {
        Seq::<int>::empty()
    } else {
        pattern_owners(rules.drop_last()) + Seq::new(
            rules.last().patterns@.len(),
            |k: int| rules.len() - 1,
        )
    }
}

/// Whether every pattern of every rule compiles.
pub open spec fn all_patterns_valid(rules: Seq<Rule>) -> bool {
    forall|p: int|
        0 <= p < all_patterns(rules).len() ==> glob_pattern_valid(#[trigger] all_patterns(rules)[p])
}

/// A compiled rules database.
pub struct RuleSet {
    rules: Vec<Rule>,
    globs: GlobSet,
    /// glob index -> rule index
    glob_to_rule: Vec<usize>,
}

/// Why a rules database could not be compiled.
#[derive(Debug)]
pub enum RulesError {
    /// A pattern was not a valid glob, or the combined matcher could not be built.
    Glob(globset::Error),
}

proof fn lemma_owners_len(rules: Seq<Rule>)
    ensures
        pattern_owners(rules).len() == all_patterns(rules).len(),
    decreases rules.len(),
{
    if rules.len() > 0 {
        lemma_owners_len(rules.drop_last());
    }
}

/// The patterns of the first `j` rules come first among all patterns.
proof fn lemma_patterns_prefix(rules: Seq<Rule>, j: int)
    requires
        0 <= j <= rules.len(),
    ensures
        all_patterns(rules.take(j)).len() <= all_patterns(rules).len(),
        all_patterns(rules).take(all_patterns(rules.take(j)).len() as int) == all_patterns(
            rules.take(j),
        ),
    decreases rules.len(),
{
    if j == rules.len() {
        assert(rules.take(j) =~= rules);
        assert(all_patterns(rules).take(all_patterns(rules).len() as int) =~= all_patterns(rules));
    } else {
        lemma_patterns_prefix(rules.drop_last(), j);
        assert(rules.drop_last().take(j) =~= rules.take(j));
        let a = all_patterns(rules.drop_last());
        let t = all_patterns(rules.take(j));
        assert((a + rule_patterns(rules.last())).take(t.len() as int) =~= a.take(t.len() as int));
    }
}

/// No pattern matches `path`: no rule does.
proof fn lemma_no_rule_matches(rules: Seq<Rule>, path: Seq<char>)
    requires
        forall|p: int|
            0 <= p < all_patterns(rules).len() ==> !glob_matches(
                #[trigger] all_patterns(rules)[p],
                path,
            ),
    ensures
        first_matching_rule(rules, path) is None,
    decreases rules.len(),
{
    if rules.len() > 0 {
        let dl = rules.drop_last();
        let a = all_patterns(dl);
        let whole = all_patterns(rules);
        assert forall|p: int| 0 <= p < a.len() implies !glob_matches(#[trigger] a[p], path) by {
            assert(whole[p] == a[p]);
        }
        lemma_no_rule_matches(dl, path);
        if rule_matches(rules.last(), path) {
            let k = choose|k: int|
                0 <= k < rules.last().patterns@.len() && glob_matches(
                    #[trigger] rule_patterns(rules.last())[k],
                    path,
                );
            assert(whole[a.len() + k] == rule_patterns(rules.last())[k]);
        }
    }
}

/// The first pattern (in order) that matches belongs to the first rule that matches.
proof fn lemma_first_rule_matches(rules: Seq<Rule>, path: Seq<char>, m: int)
    requires
        0 <= m < all_patterns(rules).len(),
        glob_matches(all_patterns(rules)[m], path),
        forall|p: int| 0 <= p < m ==> !glob_matches(#[trigger] all_patterns(rules)[p], path),
    ensures
        m < pattern_owners(rules).len(),
        first_matching_rule(rules, path) == Some(pattern_owners(rules)[m]),
        0 <= pattern_owners(rules)[m] < rules.len(),
    decreases rules.len(),
{
    lemma_owners_len(rules);
    let dl = rules.drop_last();
    let a = all_patterns(dl);
    let whole = all_patterns(rules);
    lemma_owners_len(dl);
    if m < a.len() {
        assert(whole[m] == a[m]);
        assert forall|p: int| 0 <= p < m implies !glob_matches(#[trigger] a[p], path) by {
            assert(whole[p] == a[p]);
        }
        lemma_first_rule_matches(dl, path, m);
        assert(pattern_owners(rules)[m] == pattern_owners(dl)[m]);
    } else {
        assert forall|p: int| 0 <= p < a.len() implies !glob_matches(#[trigger] a[p], path) by {
            assert(whole[p] == a[p]);
        }
        lemma_no_rule_matches(dl, path);
        let k = m - a.len();
        assert(whole[m] == rule_patterns(rules.last())[k]);
        assert(rule_matches(rules.last(), path));
        assert(pattern_owners(rules)[m] == rules.len() - 1);
    }
}

impl RuleSet {
    #[verifier::type_invariant]
    spec fn compiled(self) -> bool {
        &&& set_patterns(self.globs) == all_patterns(self.rules@)
        &&& self.glob_to_rule@.len() == all_patterns(self.rules@).len()
        &&& forall|p: int|
            0 <= p < self.glob_to_rule@.len() ==> #[trigger] self.glob_to_rule@[p]
                == pattern_owners(self.rules@)[p]
    }

    /// The rules, in database order.
    pub closed spec fn rule_list(self) -> Seq<Rule> {
        self.rules@
    }

    /// Compiles the rules' patterns into one matcher. Fails exactly when a
    /// pattern is not a valid glob or globset cannot build the combined
    /// matcher.
    pub fn from_rules(rules: Vec<Rule>) -> (r: Result<RuleSet, RulesError>)
        ensures
            r is Ok <==> (all_patterns_valid(rules@) && globset_builds(all_patterns(rules@))),
            all_patterns(rules@).len() == 0 ==> r is Ok,
            r matches Ok(set) ==> set.rule_list() == rules@,
    {
        let mut builder = new_glob_set_builder();
        let mut glob_to_rule: Vec<usize> = Vec::new();
        let n = rules.len();
        let mut i: usize = 0;
        while i < n
            invariant
                i <= n,
                n == rules.len(),
                builder_patterns(builder) == all_patterns(rules@.take(i as int)),
                glob_to_rule@.map_values(|x: usize| x as int) == pattern_owners(
                    rules@.take(i as int),
                ),
                forall|p: int|
                    0 <= p < all_patterns(rules@.take(i as int)).len() ==> glob_pattern_valid(
                        #[trigger] all_patterns(rules@.take(i as int))[p],
                    ),
            decreases n - i,
        {
            let rule = &rules[i];
            let m = rule.patterns.len();
            let ghost done = all_patterns(rules@.take(i as int));
            let ghost owners = pattern_owners(rules@.take(i as int));
            proof {
                assert(rules@.take(i + 1).drop_last() =~= rules@.take(i as int));
                assert(rules@.take(i + 1).last() == rules@[i as int]);
                assert forall|p: int| 0 <= p < done.len() implies glob_pattern_valid(
                    #[trigger] done[p],
                ) by {
                    assert(0 <= p < all_patterns(rules@.take(i as int)).len());
                    assert(glob_pattern_valid(all_patterns(rules@.take(i as int))[p]));
                    assert(all_patterns(rules@.take(i as int))[p] == done[p]);
                }
            }
            for k in 0..m
                invariant
                    n == rules.len(),
                    i < n,
                    rule == &rules@[i as int],
                    m == rule.patterns@.len(),
                    builder_patterns(builder) == done + rule_patterns(*rule).take(k as int),
                    glob_to_rule@.map_values(|x: usize| x as int) == owners + Seq::new(
                        k as nat,
                        |q: int| i as int,
                    ),
                    forall|p: int|
                        0 <= p < done.len() ==> glob_pattern_valid(#[trigger] done[p]),
                    forall|q: int|
                        0 <= q < k ==> glob_pattern_valid(#[trigger] rule_patterns(*rule)[q]),
                    done == all_patterns(rules@.take(i as int)),
                    all_patterns(rules@.take(i + 1)) == done + rule_patterns(*rule),
            {
                let pattern = rule.patterns[k].as_str();
                match compile_glob(pattern) {
                    Ok(g) => {
                        add_glob(&mut builder, g);
                        let ghost old_map = glob_to_rule@.map_values(|x: usize| x as int);
                        glob_to_rule.push(i);
                        proof {
                            assert(rule_patterns(*rule).take(k + 1) =~= rule_patterns(*rule).take(
                                k as int,
                            ).push(pattern@));
                            assert(glob_to_rule@.map_values(|x: usize| x as int) =~= old_map.push(
                                i as int,
                            ));
                            assert(owners + Seq::new((k + 1) as nat, |q: int| i as int) =~= (owners
                                + Seq::new(k as nat, |q: int| i as int)).push(i as int));
                        }
                    },
                    Err(e) => {
                        proof {
                            lemma_patterns_prefix(rules@, i + 1);
                            let whole = all_patterns(rules@);
                            let upto = all_patterns(rules@.take(i + 1));
                            let pos = done.len() + k;
                            assert(upto[pos] == rule_patterns(*rule)[k as int]);
                            assert(pattern@ == rule_patterns(*rule)[k as int]);
                            assert(pos < upto.len());
                            assert(whole.take(upto.len() as int)[pos] == whole[pos]);
                            assert(whole[pos] == upto[pos]);
                            assert(!glob_pattern_valid(whole[pos]));
                            assert(!all_patterns_valid(rules@));
                        }
                        return Err(RulesError::Glob(e));
                    },
                }
            }
            proof {
                assert(rule_patterns(*rule).take(m as int) =~= rule_patterns(*rule));
                assert(pattern_owners(rules@.take(i + 1)) =~= owners + Seq::new(
                    m as nat,
                    |q: int| i as int,
                ));
                assert forall|p: int|
                    0 <= p < all_patterns(rules@.take(i + 1)).len() implies glob_pattern_valid(
                    #[trigger] all_patterns(rules@.take(i + 1))[p],
                ) by {
                    if p >= done.len() {
                        assert(all_patterns(rules@.take(i + 1))[p] == rule_patterns(*rule)[p
                            - done.len()]);
                    } else {
                        assert(all_patterns(rules@.take(i + 1))[p] == done[p]);
                    }
                }
            }
            i = i + 1;
        }
        proof {
            assert(rules@.take(n as int) =~= rules@);
            assert(all_patterns_valid(rules@));
        }
        match build_glob_set(&builder) {
            Ok(globs) => {
                proof {
                    lemma_owners_len(rules@);
                    assert forall|p: int| 0 <= p < glob_to_rule@.len() implies #[trigger] glob_to_rule@[p]
                        == pattern_owners(rules@)[p] by {
                        assert(glob_to_rule@.map_values(|x: usize| x as int)[p] == glob_to_rule@[p] as int);
                    }
                }
                Ok(RuleSet { rules, globs, glob_to_rule })
            },
            Err(e) => Err(RulesError::Glob(e)),
        }
    }

    /// The first rule, in database order, with a pattern that matches
    /// `normalized` (which must already be lowercased with forward slashes).
    pub fn match_path(&self, normalized: &str) -> (r: Option<&Rule>)
        ensures
            match first_matching_rule(self.rule_list(), normalized@) {
                Some(i) => r == Some(&self.rule_list()[i]),
                None => r is None,
            },
    {
        proof {
            use_type_invariant(self);
            lemma_owners_len(self.rules@);
        }
        let matches = glob_set_matches(&self.globs, normalized);
        if matches.len() == 0 {
            proof {
                assert forall|p: int| 0 <= p < all_patterns(self.rules@).len() implies !glob_matches(
                    #[trigger] all_patterns(self.rules@)[p],
                    normalized@,
                ) by {
                    assert(set_patterns(self.globs)[p] == all_patterns(self.rules@)[p]);
                }
                lemma_no_rule_matches(self.rules@, normalized@);
            }
            return None;
        }
        let g = matches[0];
        proof {
            let pats = set_patterns(self.globs);
            assert(matches@.contains(g));
            assert(glob_matches(pats[g as int], normalized@));
            assert forall|p: int| 0 <= p < g implies !glob_matches(
                #[trigger] all_patterns(self.rules@)[p],
                normalized@,
            ) by {
                if glob_matches(all_patterns(self.rules@)[p], normalized@) {
                    assert(pats[p] == all_patterns(self.rules@)[p]);
                    assert(matches@.contains(p as usize));
                    let q = choose|q: int| 0 <= q < matches.len() && matches@[q] == p as usize;
                    assert(q > 0 ==> matches@[0] < matches@[q]);
                }
            }
            lemma_first_rule_matches(self.rules@, normalized@, g as int);
        }
        let ri = self.glob_to_rule[g];
        Some(&self.rules[ri])
    }

    /// The rules, in database order.
    pub fn rules(&self) -> (r: &[Rule])
        ensures
            r@ == self.rule_list(),
    {
        self.rules.as_slice()
    }
}

/// First match wins: the rule `match_path` picks matches the path, and no
/// rule before it in the database does; when none is picked, no rule matches.
pub proof fn law_first_matching_rule(rules: Seq<Rule>, path: Seq<char>)
    ensures
        match first_matching_rule(rules, path) {
            Some(i) => 0 <= i < rules.len() && rule_matches(rules[i], path) && forall|j: int|
                0 <= j < i ==> !rule_matches(#[trigger] rules[j], path),
            None => forall|j: int| 0 <= j < rules.len() ==> !rule_matches(#[trigger] rules[j], path),
        },
    decreases rules.len(),
{
    if rules.len() > 0 {
        let dl = rules.drop_last();
        law_first_matching_rule(dl, path);
        assert forall|j: int| 0 <= j < dl.len() implies #[trigger] rules[j] == dl[j] by {}
    }
}

} // verus!
