//! Character-level helpers shared by path classification, app ownership and
//! rule matching. Paths are handled as sequences of `char`s.

use vstd::prelude::*;

verus! {

broadcast use vstd::string::group_string_axioms;

/// What `str::to_lowercase` returns for a string with the given characters
/// (Unicode lowercase mapping, including its context-dependent cases).
pub uninterp spec fn str_lowercase(s: Seq<char>) -> Seq<char>;

/// Calls `str::to_lowercase`. Claimed: the result depends on the characters
/// of `s` alone, and is named `str_lowercase(s@)`.
#[verifier::external_body]
pub(crate) fn lowercase(s: &str) -> (out: String)
    ensures
        out@ == str_lowercase(s@),
{
    s.to_lowercase()
}

/// Calls `String::push`. Claimed: `c` is appended to the characters of `s`.
#[verifier::external_body]
pub(crate) fn push_char(s: &mut String, c: char)
    ensures
        final(s)@ == old(s)@.push(c),
{
    s.push(c);
}

/// The characters of `s`, in order.
pub fn chars_of(s: &str) -> (out: Vec<char>)
    ensures
        out@ == s@,
{
    let mut out: Vec<char> = Vec::new();
    for c in it: s.chars()
        invariant
            it.seq() == s@,
            out@ == s@.take(it.index() as int),
    {
        out.push(c);
    }
    proof {
        assert(s@.take(s@.len() as int) =~= s@);
    }
    out
}

/// A `String` holding exactly the characters of `v`.
pub fn string_of(v: &Vec<char>) -> (out: String)
    ensures
        out@ == v@,
{
    let mut out = String::new();
    let n = v.len();
    for i in 0..n
        invariant
            n == v.len(),
            out@ == v@.take(i as int),
    {
        push_char(&mut out, v[i]);
        proof {
            assert(v@.take(i + 1) =~= v@.take(i as int).push(v@[i as int]));
        }
    }
    proof {
        assert(v@.take(n as int) =~= v@);
    }
    out
}

/// Whether the characters in `a` are exactly those of `b`.
pub fn chars_eq(a: &Vec<char>, b: &Vec<char>) -> (r: bool)
    ensures
        r == (a@ == b@),
{
    if a.len() != b.len() {
        return false;
    }
    let n = a.len();
    for i in 0..n
        invariant
            n == a.len(),
            n == b.len(),
            forall|j: int| 0 <= j < i ==> a@[j] == b@[j],
    {
        if a[i] != b[i] {
            return false;
        }
    }
    proof {
        assert(a@ =~= b@);
    }
    true
}

/// Whether the characters in `a` spell the string `lit`.
pub fn chars_eq_str(a: &Vec<char>, lit: &str) -> (r: bool)
    ensures
        r == (a@ == lit@),
{
    let b = chars_of(lit);
    chars_eq(a, &b)
}

/// `s` with every backslash replaced by a forward slash.
pub open spec fn forward_slashes(s: Seq<char>) -> Seq<char> {
    s.map_values(|c: char| if c == '\\' { '/' } else { c })
}

/// Whether `needle` occurs as a contiguous run inside `hay`.
pub open spec fn has_infix(hay: Seq<char>, needle: Seq<char>) -> bool {
    exists|i: int|
        0 <= i && i + needle.len() <= hay.len() && #[trigger] hay.subrange(i, i + needle.len())
            == needle
}

/// Whether `needle` occurs inside `hay` (the empty needle always does).
pub fn contains_chars(hay: &Vec<char>, needle: &Vec<char>) -> (r: bool)
    ensures
        r == has_infix(hay@, needle@),
{
    let n = needle.len();
    let h = hay.len();
    if n == 0 {
        proof {
            assert(hay@.subrange(0int, 0int + needle@.len()) =~= needle@);
        }
        return true;
    }
    if n > h {
        proof {
            assert forall|i: int|
                0 <= i && i + needle@.len() <= hay@.len() implies #[trigger] hay@.subrange(
                i,
                i + needle@.len(),
            ) != needle@ by {}
        }
        return false;
    }
    let stop = h - n + 1;
    let mut i: usize = 0;
    while i < stop
        invariant
            n == needle.len(),
            h == hay.len(),
            0 < n <= h,
            stop == h - n + 1,
            i <= stop,
            forall|k: int| 0 <= k < i ==> #[trigger] hay@.subrange(k, k + n) != needle@,
        decreases stop - i,
    {
        let mut j: usize = 0;
        let mut same = true;
        while j < n
            invariant
                n == needle.len(),
                h == hay.len(),
                i < stop,
                stop == h - n + 1,
                j <= n,
                same == (forall|m: int| 0 <= m < j ==> hay@[i + m] == needle@[m]),
            decreases n - j,
        {
            if hay[i + j] != needle[j] {
                same = false;
            }
            j = j + 1;
        }
        if same {
            proof {
                assert(hay@.subrange(i as int, i + n) =~= needle@);
            }
            return true;
        }
        proof {
            let k = choose|m: int| 0 <= m < n && hay@[i + m] != needle@[m];
            assert(hay@.subrange(i as int, i + n)[k] != needle@[k]);
        }
        i = i + 1;
    }
    proof {
        assert forall|k: int|
            0 <= k && k + needle@.len() <= hay@.len() implies #[trigger] hay@.subrange(
            k,
            k + needle@.len(),
        ) != needle@ by {
            assert(k < stop);
        }
    }
    false
}

/// The character sequences held by a vector of character vectors.
pub open spec fn char_views(v: Seq<Vec<char>>) -> Seq<Seq<char>> {
    v.map_values(|x: Vec<char>| x@)
}

/// Splitting `s` at every `sep`, as `str::split` does: `k` separators give
/// `k + 1` pieces, empty pieces included.
pub open spec fn split_on(s: Seq<char>, sep: char) -> Seq<Seq<char>>
    decreases s.len(),
{
    if s.len() == 0 {
        seq![Seq::<char>::empty()]
    } else {
        let prev = split_on(s.drop_last(), sep);
        if s.last() == sep {
            prev.push(Seq::<char>::empty())
        } else {
            prev.update(prev.len() - 1, prev.last().push(s.last()))
        }
    }
}

/// A split always yields at least one piece.
pub proof fn lemma_split_on_nonempty(s: Seq<char>, sep: char)
    ensures
        split_on(s, sep).len() >= 1,
    decreases s.len(),
{
    if s.len() > 0 {
        lemma_split_on_nonempty(s.drop_last(), sep);
    }
}

/// The pieces of `s` between occurrences of `sep`.
pub fn split_chars(s: &Vec<char>, sep: char) -> (out: Vec<Vec<char>>)
    ensures
        char_views(out@) == split_on(s@, sep),
{
    let mut done: Vec<Vec<char>> = Vec::new();
    let mut cur: Vec<char> = Vec::new();
    let n = s.len();
    for i in 0..n
        invariant
            n == s.len(),
            char_views(done@).push(cur@) == split_on(s@.take(i as int), sep),
    {
        let c = s[i];
        proof {
            let t = s@.take(i + 1);
            assert(t.drop_last() =~= s@.take(i as int));
            assert(t.last() == c);
            lemma_split_on_nonempty(s@.take(i as int), sep);
        }
        if c == sep {
            let ghost before = char_views(done@);
            let finished = cur;
            done.push(finished);
            cur = Vec::new();
            proof {
                assert(char_views(done@) =~= before.push(finished@));
                assert(char_views(done@).push(cur@) =~= split_on(s@.take(i + 1), sep));
            }
        } else {
            let ghost before = char_views(done@);
            let ghost old_cur = cur@;
            cur.push(c);
            proof {
                assert(char_views(done@) == before);
                assert(char_views(done@).push(cur@) =~= before.push(old_cur).update(
                    before.len() as int,
                    old_cur.push(c),
                ));
            }
        }
    }
    proof {
        assert(s@.take(n as int) =~= s@);
    }
    let ghost before = char_views(done@);
    let ghost last = cur@;
    done.push(cur);
    proof {
        assert(char_views(done@) =~= before.push(last));
    }
    done
}

/// The Unicode `White_Space` property.
pub open spec fn is_white_space(c: char) -> bool {
    let v = c as u32;
    ||| 0x9 <= v <= 0xD
    ||| v == 0x20
    ||| v == 0x85
    ||| v == 0xA0
    ||| v == 0x1680
    ||| 0x2000 <= v <= 0x200A
    ||| v == 0x2028
    ||| v == 0x2029
    ||| v == 0x202F
    ||| v == 0x205F
    ||| v == 0x3000
}

/// `s` without its leading white space.
pub open spec fn trim_start_ws(s: Seq<char>) -> Seq<char>
    decreases s.len(),
{
    if s.len() > 0 && is_white_space(s[0]) {
        trim_start_ws(s.drop_first())
    } else {
        s
    }
}

/// `s` without its trailing white space.
pub open spec fn trim_end_ws(s: Seq<char>) -> Seq<char>
    decreases s.len(),
{
    if s.len() > 0 && is_white_space(s.last()) {
        trim_end_ws(s.drop_last())
    } else {
        s
    }
}

/// `s` without leading and trailing white space.
pub open spec fn spec_trim(s: Seq<char>) -> Seq<char> {
    trim_end_ws(trim_start_ws(s))
}

/// Whether `c` has the Unicode `White_Space` property.
pub fn is_white_space_char(c: char) -> (r: bool)
    ensures
        r == is_white_space(c),
{
    let v = c as u32;
    (0x9 <= v && v <= 0xD) || v == 0x20 || v == 0x85 || v == 0xA0 || v == 0x1680 || (0x2000 <= v
        && v <= 0x200A) || v == 0x2028 || v == 0x2029 || v == 0x202F || v == 0x205F || v == 0x3000
}

/// `s` without leading and trailing white space, as `str::trim` leaves it.
pub fn trim_chars(s: &Vec<char>) -> (out: Vec<char>)
    ensures
        out@ == spec_trim(s@),
{
    let n = s.len();
    let mut start: usize = 0;
    proof {
        assert(s@.skip(0) =~= s@);
    }
    while start < n && is_white_space_char(s[start])
        invariant
            n == s.len(),
            start <= n,
            trim_start_ws(s@) == trim_start_ws(s@.skip(start as int)),
        decreases n - start,
    {
        proof {
            assert(s@.skip(start as int)[0] == s@[start as int]);
            assert(s@.skip(start as int).drop_first() =~= s@.skip(start + 1));
        }
        start = start + 1;
    }
    let ghost front = s@.skip(start as int);
    proof {
        if start < n {
            assert(front[0] == s@[start as int]);
        }
        assert(trim_start_ws(front) == front);
        assert(s@.subrange(start as int, n as int) =~= front);
    }
    let mut end: usize = n;
    while end > start && is_white_space_char(s[end - 1])
        invariant
            n == s.len(),
            start <= end <= n,
            front == s@.skip(start as int),
            trim_end_ws(front) == trim_end_ws(s@.subrange(start as int, end as int)),
        decreases end - start,
    {
        proof {
            let sub = s@.subrange(start as int, end as int);
            assert(sub.last() == s@[end - 1]);
            assert(sub.drop_last() =~= s@.subrange(start as int, end - 1));
        }
        end = end - 1;
    }
    proof {
        let sub = s@.subrange(start as int, end as int);
        if end > start {
            assert(sub.last() == s@[end - 1]);
        }
        assert(trim_end_ws(sub) == sub);
    }
    let mut out: Vec<char> = Vec::new();
    let mut k: usize = start;
    while k < end
        invariant
            n == s.len(),
            start <= k <= end <= n,
            out@ == s@.subrange(start as int, k as int),
        decreases end - k,
    {
        out.push(s[k]);
        proof {
            assert(s@.subrange(start as int, k + 1) =~= s@.subrange(start as int, k as int).push(
                s@[k as int],
            ));
        }
        k = k + 1;
    }
    out
}

} // verus!
