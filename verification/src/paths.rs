//! Path normalization, whole-component prefix matching, and the order of
//! paths.

use vstd::prelude::*;
use crate::text::{chars_of, lowercase, string_of, forward_slashes, str_lowercase};

verus! {

/// The normalized form used for all matching: backslashes become forward
/// slashes, then the whole string is lowercased.
pub open spec fn spec_normalize(path: Seq<char>) -> Seq<char> {
    str_lowercase(forward_slashes(path))
}

/// `prefix` is `path` itself, or `path` continues right after `prefix`
/// with a `/`: a prefix that ends on a whole path component.
pub open spec fn component_prefix(path: Seq<char>, prefix: Seq<char>) -> bool {
    ||| path == prefix
    ||| {
        &&& prefix.len() < path.len()
        &&& path.take(prefix.len() as int) == prefix
        &&& path[prefix.len() as int] == '/'
    }
}

/// Lowercased, forward-slash form used for all matching.
pub fn normalize(path: &str) -> (out: String)
    ensures
        out@ == spec_normalize(path@),
{
    let cs = chars_of(path);
    let mut slashed: Vec<char> = Vec::new();
    let n = cs.len();
    for i in 0..n
        invariant
            n == cs.len(),
            cs@ == path@,
            slashed@ == forward_slashes(path@.take(i as int)),
    {
        let c = cs[i];
        let d = if c == '\\' {
            '/'
        } else {
            c
        };
        slashed.push(d);
        proof {
            assert(forward_slashes(path@.take(i + 1)) =~= forward_slashes(path@.take(i as int)).push(d));
        }
    }
    proof {
        assert(path@.take(n as int) =~= path@);
    }
    let s = string_of(&slashed);
    lowercase(s.as_str())
}

/// Whole-component prefix test on character vectors.
pub fn component_prefix_chars(path: &Vec<char>, prefix: &Vec<char>) -> (r: bool)
    ensures
        r == component_prefix(path@, prefix@),
{
    let n = prefix.len();
    if path.len() < n {
        return false;
    }
    let mut i: usize = 0;
    while i < n
        invariant
            n == prefix.len(),
            n <= path.len(),
            i <= n,
            forall|k: int| 0 <= k < i ==> path@[k] == prefix@[k],
        decreases n - i,
    {
        if path[i] != prefix[i] {
            proof {
                assert(path@.take(n as int)[i as int] != prefix@[i as int]);
            }
            return false;
        }
        i = i + 1;
    }
    proof {
        assert(path@.take(n as int) =~= prefix@);
    }
    if path.len() == n {
        proof {
            assert(path@ =~= prefix@);
        }
        return true;
    }
    path[n] == '/'
}

/// Prefix match that only matches whole path components.
pub fn starts_with_component(path: &str, prefix: &str) -> (r: bool)
    ensures
        r == component_prefix(path@, prefix@),
{
    let p = chars_of(path);
    let q = chars_of(prefix);
    component_prefix_chars(&p, &q)
}

/// Nesting: a path inside a folder that is itself inside another folder
/// lies inside that other folder too.
pub proof fn law_component_prefix_nests(a: Seq<char>, b: Seq<char>, c: Seq<char>)
    requires
        component_prefix(a, b),
        component_prefix(b, c),
    ensures
        component_prefix(a, c),
{
    if a != b && b != c {
        assert(a.take(c.len() as int) =~= b.take(c.len() as int));
        assert(a[c.len() as int] == b[c.len() as int]);
    } else if a == b {
    } else {
        assert(a.take(c.len() as int) =~= a.take(b.len() as int));
    }
}

/// A folder is never longer than a path inside it.
pub proof fn law_component_prefix_shorter(a: Seq<char>, b: Seq<char>)
    requires
        component_prefix(a, b),
    ensures
        b.len() <= a.len(),
{
}


/// Turning backslashes into forward slashes leaves no backslash, and doing
/// it again changes nothing: the first step of normalizing settles at once.
pub proof fn law_forward_slashes_settle(p: Seq<char>)
    ensures
        !forward_slashes(p).contains('\\'),
        forward_slashes(forward_slashes(p)) == forward_slashes(p),
{
    assert(forward_slashes(forward_slashes(p)) =~= forward_slashes(p));
}

/// How a path character sorts when paths are compared: a separator (`/` or
/// `\`, as on Windows) sorts before every other character, so that paths
/// compare component by component, as std orders the paths of one walk.
pub open spec fn path_key(c: char) -> int {
    if c == '/' || c == '\\' {
        -1
    } else {
        c as int
    }
}

/// The sort keys of a path's characters.
pub open spec fn path_keys(p: Seq<char>) -> Seq<int> {
    p.map_values(|c: char| path_key(c))
}

/// Lexicographic order on key sequences: the first differing key decides,
/// and a sequence sorts after each of its proper prefixes.
pub open spec fn keys_after(a: Seq<int>, b: Seq<int>) -> bool
    decreases a.len(),
{
    if a.len() == 0 {
        false
    } else if b.len() == 0 {
        true
    } else if a[0] != b[0] {
        a[0] > b[0]
    } else {
        keys_after(a.drop_first(), b.drop_first())
    }
}

/// Path `a` sorts after path `b`.
pub open spec fn path_after(a: Seq<char>, b: Seq<char>) -> bool {
    keys_after(path_keys(a), path_keys(b))
}

/// No key sequence sorts after itself.
pub proof fn lemma_keys_after_irreflexive(a: Seq<int>)
    ensures
        !keys_after(a, a),
    decreases a.len(),
{
    if a.len() > 0 {
        lemma_keys_after_irreflexive(a.drop_first());
    }
}

/// The order is transitive.
pub proof fn lemma_keys_after_transitive(a: Seq<int>, b: Seq<int>, c: Seq<int>)
    requires
        keys_after(a, b),
        keys_after(b, c),
    ensures
        keys_after(a, c),
    decreases a.len(),
{
    if c.len() > 0 && a[0] == b[0] && b[0] == c[0] {
        lemma_keys_after_transitive(a.drop_first(), b.drop_first(), c.drop_first());
    }
}

/// Any two key sequences are equal or ordered one way.
pub proof fn lemma_keys_after_total(a: Seq<int>, b: Seq<int>)
    ensures
        keys_after(a, b) || keys_after(b, a) || a == b,
    decreases a.len(),
{
    if a.len() == 0 && b.len() == 0 {
        assert(a =~= b);
    } else if a.len() > 0 && b.len() > 0 && a[0] == b[0] {
        lemma_keys_after_total(a.drop_first(), b.drop_first());
        if a.drop_first() == b.drop_first() {
            assert(a.len() == a.drop_first().len() + 1);
            assert(b.len() == b.drop_first().len() + 1);
            assert forall|i: int| 0 <= i < a.len() implies a[i] == b[i] by {
                if i > 0 {
                    assert(a[i] == a.drop_first()[i - 1]);
                    assert(b[i] == b.drop_first()[i - 1]);
                }
            }
            assert(a =~= b);
        }
    }
}

/// The key of a path character.
pub fn path_key_of(c: char) -> (k: i64)
    ensures
        k == path_key(c),
{
    if c == '/' || c == '\\' {
        -1
    } else {
        c as u32 as i64
    }
}

/// Whether path `a` sorts after path `b`.
pub fn path_after_exec(a: &Vec<char>, b: &Vec<char>) -> (r: bool)
    ensures
        r == path_after(a@, b@),
{
    let ghost ka = path_keys(a@);
    let ghost kb = path_keys(b@);
    let mut i: usize = 0;
    proof {
        assert(ka.skip(0) =~= ka);
        assert(kb.skip(0) =~= kb);
    }
    while i < a.len() && i < b.len()
        invariant
            i <= a.len(),
            i <= b.len(),
            ka == path_keys(a@),
            kb == path_keys(b@),
            keys_after(ka, kb) == keys_after(ka.skip(i as int), kb.skip(i as int)),
        decreases a.len() - i,
    {
        let x = path_key_of(a[i]);
        let y = path_key_of(b[i]);
        proof {
            assert(ka.skip(i as int)[0] == x);
            assert(kb.skip(i as int)[0] == y);
        }
        if x != y {
            return x > y;
        }
        proof {
            assert(ka.skip(i as int).drop_first() =~= ka.skip(i + 1));
            assert(kb.skip(i as int).drop_first() =~= kb.skip(i + 1));
        }
        i = i + 1;
    }
    proof {
        assert(ka.skip(i as int).len() == a.len() - i);
        assert(kb.skip(i as int).len() == b.len() - i);
    }
    i < a.len()
}

} // verus!
