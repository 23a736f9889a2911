//! Verified helpers for the character-level string manipulation that the
//! library's metadata derivations are built on: substring search, separator
//! normalization, path joining, component extraction and pattern removal.

use vstd::prelude::*;

verus! {

/// `pat` occurs in `s` starting at index `i`.
pub open spec fn contains_at(s: Seq<char>, pat: Seq<char>, i: int) -> bool {
    &&& 0 <= i
    &&& i + pat.len() <= s.len()
    &&& s.subrange(i, i + pat.len()) == pat
}

/// `pat` occurs somewhere in `s`.
pub open spec fn contains_sub(s: Seq<char>, pat: Seq<char>) -> bool {
    exists|i: int| contains_at(s, pat, i)
}

/// Does `pat` occur in `s` at position `i`?
fn match_at(s: &str, pat: &str, i: usize) -> (r: bool)
    requires
        i + pat@.len() <= s@.len(),
        s@.len() <= usize::MAX,
    ensures
        r == contains_at(s@, pat@, i as int),
{
    let pat_len = pat.unicode_len();
    let mut j: usize = 0;
    while j < pat_len
        invariant
            pat_len == pat@.len(),
            i + pat_len <= s@.len(),
            s@.len() <= usize::MAX,
            0 <= j <= pat_len,
            forall|k: int| 0 <= k < j ==> s@[i + k] == pat@[k],
        decreases pat_len - j,
    {
        if s.get_char(i + j) != pat.get_char(j) {
            proof {
                assert(s@.subrange(i as int, i + pat@.len())[j as int] == s@[i + j]);
            }
            return false;
        }
        j += 1;
    }
    proof {
        assert(s@.subrange(i as int, i + pat@.len()) =~= pat@);
    }
    true
}

/// Index of the first occurrence of `pat` in `s`, if any. The empty pattern
/// occurs at the start of every string.
pub fn find_sub(s: &str, pat: &str) -> (r: Option<usize>)
    ensures
        match r {
            Some(i) => contains_at(s@, pat@, i as int) && forall|k: int|
                0 <= k < i ==> !contains_at(s@, pat@, k),
            None => forall|k: int| !contains_at(s@, pat@, k),
        },
{
    let s_len = s.unicode_len();
    let pat_len = pat.unicode_len();
    if pat_len == 0 {
        proof {
            assert(s@.subrange(0, 0) =~= pat@);
            assert(contains_at(s@, pat@, 0));
        }
        return Some(0);
    }
    if pat_len > s_len {
        return None;
    }
    let mut i: usize = 0;
    while i <= s_len - pat_len
        invariant
            s_len == s@.len(),
            pat_len == pat@.len(),
            1 <= pat_len <= s_len,
            0 <= i <= s_len - pat_len + 1,
            forall|k: int| 0 <= k < i ==> !contains_at(s@, pat@, k),
        decreases s_len - i,
    {
        if match_at(s, pat, i) {
            return Some(i);
        }
        i += 1;
    }
    None
}

/// `s` with every occurrence of `from` turned into `to`.
pub open spec fn spec_replace_char(s: Seq<char>, from: char, to: char) -> Seq<char> {
    s.map_values(
        |c: char|
            if c == from {
                to
            } else {
                c
            },
    )
}

/// Replaces every occurrence of the character `from` in `s` with the single
/// character held by `to`.
pub fn replace_char(s: &str, from: char, to: &str) -> (r: String)
    requires
        to@.len() == 1,
    ensures
        r@ == spec_replace_char(s@, from, to@[0]),
{
    let n = s.unicode_len();
    let mut r = String::new();
    let mut i: usize = 0;
    while i < n
        invariant
            n == s@.len(),
            to@.len() == 1,
            0 <= i <= n,
            r@ == spec_replace_char(s@.subrange(0, i as int), from, to@[0]),
        decreases n - i,
    {
        let c = s.get_char(i);
        if c == from {
            r.append(to);
        } else {
            let piece = s.substring_char(i, i + 1);
            r.append(piece);
        }
        i += 1;
        proof {
            assert(to@ =~= seq![to@[0]]);
            assert(r@ =~= spec_replace_char(s@.subrange(0, i as int), from, to@[0]));
        }
    }
    proof {
        assert(s@.subrange(0, n as int) =~= s@);
    }
    r
}

/// `s` with every backslash separator turned into a forward slash.
pub open spec fn spec_normalize_separators(s: Seq<char>) -> Seq<char> {
    spec_replace_char(s, '\\', '/')
}

/// Turns every backslash in `s` into a forward slash, so that paths recorded
/// on either platform use one separator.
pub fn normalize_separators(s: &str) -> (r: String)
    ensures
        r@ == spec_normalize_separators(s@),
{
    proof {
        reveal_strlit("/");
    }
    replace_char(s, '\\', "/")
}

/// `a` and `b` joined with a forward slash; an empty `a` yields `b` alone.
pub open spec fn spec_join_path(a: Seq<char>, b: Seq<char>) -> Seq<char> {
    if a.len() == 0 {
        b
    } else {
        a + seq!['/'] + b
    }
}

/// Joins a directory path and a child name with a forward slash.
pub fn join_path(a: &str, b: &str) -> (r: String)
    ensures
        r@ == spec_join_path(a@, b@),
{
    if a.unicode_len() == 0 {
        proof {
            assert(a@ =~= Seq::<char>::empty());
        }
        String::from_str(b)
    } else {
        let mut r = String::from_str(a);
        r.append("/");
        r.append(b);
        proof {
            reveal_strlit("/");
            assert(r@ =~= spec_join_path(a@, b@));
        }
        r
    }
}

/// Index of the last occurrence of `c` in `s`, or `-1` when `c` is absent.
pub open spec fn spec_last_index_of(s: Seq<char>, c: char) -> int
    decreases s.len(),
{
    if s.len() == 0 {
        -1
    } else if s[s.len() - 1] == c {
        s.len() - 1
    } else {
        spec_last_index_of(s.drop_last(), c)
    }
}

pub proof fn lemma_last_index_of_found(s: Seq<char>, c: char, i: int)
    requires
        0 <= i < s.len(),
        s[i] == c,
        forall|k: int| i < k < s.len() ==> s[k] != c,
    ensures
        spec_last_index_of(s, c) == i,
    decreases s.len(),
{
    if i == s.len() - 1 {
    } else {
        assert(s.drop_last() =~= s.subrange(0, s.len() - 1));
        lemma_last_index_of_found(s.drop_last(), c, i);
    }
}

pub proof fn lemma_last_index_of_absent(s: Seq<char>, c: char)
    requires
        forall|k: int| 0 <= k < s.len() ==> s[k] != c,
    ensures
        spec_last_index_of(s, c) == -1,
    decreases s.len(),
{
    if s.len() > 0 {
        lemma_last_index_of_absent(s.drop_last(), c);
    }
}

pub proof fn lemma_last_index_of_in_range(s: Seq<char>, c: char)
    ensures
        -1 <= spec_last_index_of(s, c) < s.len(),
        spec_last_index_of(s, c) >= 0 ==> s[spec_last_index_of(s, c)] == c,
    decreases s.len(),
{
    if s.len() > 0 && s[s.len() - 1] != c {
        lemma_last_index_of_in_range(s.drop_last(), c);
    }
}

/// Index of the last occurrence of `c` in `s`, if any.
pub fn rfind_char(s: &str, c: char) -> (r: Option<usize>)
    ensures
        match r {
            Some(i) => i == spec_last_index_of(s@, c),
            None => spec_last_index_of(s@, c) == -1,
        },
{
    let n = s.unicode_len();
    let mut i: usize = n;
    while i > 0
        invariant
            n == s@.len(),
            0 <= i <= n,
            forall|k: int| i <= k < n ==> s@[k] != c,
        decreases i,
    {
        i -= 1;
        if s.get_char(i) == c {
            proof {
                lemma_last_index_of_found(s@, c, i as int);
            }
            return Some(i);
        }
    }
    proof {
        lemma_last_index_of_absent(s@, c);
    }
    None
}

/// The component of `s` between its last two forward slashes (or between the
/// start of `s` and its only slash): the name of the folder that contains the
/// path's final component.
pub open spec fn spec_parent_folder_name(s: Seq<char>) -> Seq<char> {
    let j = spec_last_index_of(s, '/');
    let i = spec_last_index_of(s.subrange(0, j), '/');
    s.subrange(i + 1, j)
}

/// Extracts the name of the folder containing the path's final component.
/// The path must use forward-slash separators and contain at least one.
pub fn parent_folder_name(s: &str) -> (r: String)
    requires
        spec_last_index_of(s@, '/') >= 0,
    ensures
        r@ == spec_parent_folder_name(s@),
{
    proof {
        lemma_last_index_of_in_range(s@, '/');
    }
    let j = match rfind_char(s, '/') {
        Some(j) => j,
        None => unreached(),
    };
    let prefix = s.substring_char(0, j);
    proof {
        lemma_last_index_of_in_range(prefix@, '/');
    }
    let r = match rfind_char(prefix, '/') {
        Some(i) => s.substring_char(i + 1, j),
        None => s.substring_char(0, j),
    };
    String::from_str(r)
}

/// The component of `s` after its last forward slash, or all of `s` when it
/// has none.
pub open spec fn spec_last_component(s: Seq<char>) -> Seq<char> {
    s.subrange(spec_last_index_of(s, '/') + 1, s.len() as int)
}

/// Extracts the component after the last forward slash of `s`.
pub fn last_component(s: &str) -> (r: String)
    ensures
        r@ == spec_last_component(s@),
{
    proof {
        lemma_last_index_of_in_range(s@, '/');
    }
    let n = s.unicode_len();
    let r = match rfind_char(s, '/') {
        Some(i) => s.substring_char(i + 1, n),
        None => s.substring_char(0, n),
    };
    proof {
        assert(r@ =~= spec_last_component(s@));
    }
    String::from_str(r)
}

/// Does `pat` occur somewhere in `s`? The empty pattern occurs everywhere.
pub fn str_contains(s: &str, pat: &str) -> (r: bool)
    ensures
        r == contains_sub(s@, pat@),
{
    match find_sub(s, pat) {
        Some(_) => true,
        None => false,
    }
}

/// `s` with every non-overlapping occurrence of `pat` removed, scanning left
/// to right: on a match the scan skips past it, otherwise it keeps one
/// character and moves on.
pub open spec fn spec_remove_all(s: Seq<char>, pat: Seq<char>) -> Seq<char>
    decreases s.len(),
{
    if pat.len() < 1 || s.len() < pat.len() {
        s
    } else if s.subrange(0, pat.len() as int) == pat {
        spec_remove_all(s.subrange(pat.len() as int, s.len() as int), pat)
    } else {
        seq![s[0]] + spec_remove_all(s.subrange(1, s.len() as int), pat)
    }
}

/// Removes every occurrence of `pat` from `s`, scanning left to right; the
/// empty pattern removes nothing.
pub fn remove_all(s: &str, pat: &str) -> (r: String)
    ensures
        r@ == spec_remove_all(s@, pat@),
{
    let n = s.unicode_len();
    let pat_len = pat.unicode_len();
    if pat_len == 0 {
        return String::from_str(s);
    }
    let mut r = String::new();
    let mut i: usize = 0;
    proof {
        assert(s@.subrange(0, n as int) =~= s@);
        assert(Seq::<char>::empty() + spec_remove_all(s@, pat@) =~= spec_remove_all(s@, pat@));
    }
    while i < n
        invariant
            n == s@.len(),
            pat_len == pat@.len(),
            pat_len >= 1,
            0 <= i <= n,
            spec_remove_all(s@, pat@) == r@ + spec_remove_all(
                s@.subrange(i as int, n as int),
                pat@,
            ),
        decreases n - i,
    {
        let ghost suffix = s@.subrange(i as int, n as int);
        if pat_len <= n - i && match_at(s, pat, i) {
            proof {
                assert(suffix.subrange(0, pat@.len() as int) =~= s@.subrange(
                    i as int,
                    i + pat@.len(),
                ));
                assert(suffix.subrange(pat@.len() as int, suffix.len() as int) =~= s@.subrange(
                    i + pat@.len(),
                    n as int,
                ));
            }
            i += pat_len;
        } else {
            let piece = s.substring_char(i, i + 1);
            r.append(piece);
            proof {
                if suffix.len() >= pat@.len() {
                    assert(suffix.subrange(0, pat@.len() as int) =~= s@.subrange(
                        i as int,
                        i + pat@.len(),
                    ));
                }
                assert(suffix.subrange(1, suffix.len() as int) =~= s@.subrange(
                    i + 1,
                    n as int,
                ));
                assert(suffix =~= seq![s@[i as int]] + s@.subrange(i + 1, n as int));
                assert(piece@ =~= seq![s@[i as int]]);
            }
            i += 1;
        }
    }
    proof {
        assert(s@.subrange(i as int, n as int) =~= Seq::<char>::empty());
        assert(s@.subrange(0, n as int) =~= s@);
        assert(r@ =~= r@ + Seq::<char>::empty());
    }
    r
}

/// A character the release-asset version tag is built from: a digit or a
/// dot.
pub open spec fn is_version_char(c: char) -> bool {
    c == '.' || ('0' as u32 <= c as u32 && c as u32 <= '9' as u32)
}

/// Length of the run of version characters in `s` starting at `i`.
pub open spec fn spec_version_run_len(s: Seq<char>, i: int) -> int
    decreases s.len() - i,
{
    if i < 0 || i >= s.len() || !is_version_char(s[i]) {
        0
    } else {
        1 + spec_version_run_len(s, i + 1)
    }
}

pub proof fn lemma_version_run_len(s: Seq<char>, i: int, j: int)
    requires
        0 <= i <= j <= s.len(),
        forall|k: int| i <= k < j ==> is_version_char(s[k]),
        j == s.len() || !is_version_char(s[j]),
    ensures
        spec_version_run_len(s, i) == j - i,
    decreases j - i,
{
    if i < j {
        lemma_version_run_len(s, i + 1, j);
    }
}

/// A version tag `v<run>-` starts at index `i` of `s`: a `v`, then a maximal
/// nonempty run of version characters, then a dash.
pub open spec fn version_tag_at(s: Seq<char>, i: int) -> bool {
    let run = spec_version_run_len(s, i + 1);
    &&& 0 <= i < s.len()
    &&& s[i] == 'v'
    &&& run >= 1
    &&& i + 1 + run < s.len()
    &&& s[i + 1 + run] == '-'
}

/// Index of the first version tag of `s` at or after `i`, or `s.len()` when
/// there is none.
pub open spec fn spec_find_version_tag(s: Seq<char>, i: int) -> int
    decreases s.len() - i,
{
    if i < 0 || i >= s.len() {
        s.len() as int
    } else if version_tag_at(s, i) {
        i
    } else {
        spec_find_version_tag(s, i + 1)
    }
}

pub proof fn lemma_find_version_tag(s: Seq<char>, a: int, i: int)
    requires
        0 <= a <= i <= s.len(),
        forall|k: int| a <= k < i ==> !version_tag_at(s, k),
        i == s.len() || version_tag_at(s, i),
    ensures
        spec_find_version_tag(s, a) == i,
    decreases i - a,
{
    if a < i {
        lemma_find_version_tag(s, a + 1, i);
    }
}

/// The version number carried by a release-asset name: the run of digits,
/// dots inside the first `v<run>-` tag, or the whole name when
/// no such tag occurs.
pub open spec fn spec_version_core(s: Seq<char>) -> Seq<char> {
    let i = spec_find_version_tag(s, 0);
    if i == s.len() {
        s
    } else {
        s.subrange(i + 1, i + 1 + spec_version_run_len(s, i + 1))
    }
}

/// Is `c` a digit or a dot?
fn version_char(c: char) -> (r: bool)
    ensures
        r == is_version_char(c),
{
    c == '.' || (c as u32 >= '0' as u32 && c as u32 <= '9' as u32)
}

/// Extracts the characters of the first `v<digits-and-dots>-` tag
/// of a release-asset name, or answers that no tag occurs.
pub fn extract_version_tag(s: &str) -> (r: Option<String>)
    ensures
        match r {
            Some(v) => spec_find_version_tag(s@, 0) < s@.len() && v@ == spec_version_core(s@),
            None => spec_find_version_tag(s@, 0) == s@.len(),
        },
{
    let n = s.unicode_len();
    let mut i: usize = 0;
    while i < n
        invariant
            n == s@.len(),
            0 <= i <= n,
            forall|k: int| 0 <= k < i ==> !version_tag_at(s@, k),
        decreases n - i,
    {
        if s.get_char(i) == 'v' {
            let mut j = i + 1;
            while j < n && version_char(s.get_char(j))
                invariant
                    n == s@.len(),
                    i + 1 <= j <= n,
                    forall|k: int| i + 1 <= k < j ==> is_version_char(s@[k]),
                decreases n - j,
            {
                j += 1;
            }
            proof {
                lemma_version_run_len(s@, i + 1, j as int);
            }
            if j > i + 1 && j < n && s.get_char(j) == '-' {
                proof {
                    lemma_find_version_tag(s@, 0, i as int);
                }
                let run = s.substring_char(i + 1, j);
                return Some(String::from_str(run));
            }
        }
        i += 1;
    }
    proof {
        lemma_find_version_tag(s@, 0, n as int);
    }
    None
}

} // verus!
