//! Character-level operations on texts, with their specifications.

use vstd::prelude::*;

verus! {

/// `suffix` ends `s`.
pub open spec fn has_suffix(s: Seq<char>, suffix: Seq<char>) -> bool {
    suffix.len() <= s.len() && s.subrange(s.len() - suffix.len(), s.len() as int) == suffix
}

/// `prefix` begins `s`.
pub open spec fn has_prefix(s: Seq<char>, prefix: Seq<char>) -> bool {
    prefix.len() <= s.len() && s.subrange(0, prefix.len() as int) == prefix
}

/// `needle` occurs in `s` as a contiguous run of characters.
pub open spec fn has_substring(s: Seq<char>, needle: Seq<char>) -> bool {
    exists|i: int| 0 <= i && i + needle.len() <= s.len() && #[trigger] s.subrange(i, i + needle.len()) == needle
}

/// Whether the characters of `s` from position `start` on begin with `needle`.
fn matches_at(s: &str, s_len: usize, start: usize, needle: &str, n_len: usize) -> (r: bool)
    requires
        s_len == s@.len(),
        n_len == needle@.len(),
        start + n_len <= s_len,
    ensures
        r == (s@.subrange(start as int, start + n_len) == needle@),
{
    let mut k: usize = 0;
    while k < n_len
        invariant
            s_len == s@.len(),
            n_len == needle@.len(),
            start + n_len <= s_len,
            k <= n_len,
            forall|j: int| 0 <= j < k ==> s@[start + j] == needle@[j],
        decreases n_len - k,
    {
        if s.get_char(start + k) != needle.get_char(k) {
            assert(s@.subrange(start as int, start + n_len)[k as int] != needle@[k as int]);
            return false;
        }
        k = k + 1;
    }
    assert(s@.subrange(start as int, start + n_len) =~= needle@);
    true
}

/// Whether `s` ends with `suffix` (character-wise).
pub fn ends_with(s: &str, suffix: &str) -> (r: bool)
    ensures
        r == has_suffix(s@, suffix@),
{
    let s_len: usize = s.unicode_len();
    let n_len: usize = suffix.unicode_len();
    if n_len > s_len {
        return false;
    }
    matches_at(s, s_len, s_len - n_len, suffix, n_len)
}

/// Whether `s` begins with `prefix` (character-wise).
pub fn starts_with(s: &str, prefix: &str) -> (r: bool)
    ensures
        r == has_prefix(s@, prefix@),
{
    let s_len: usize = s.unicode_len();
    let n_len: usize = prefix.unicode_len();
    if n_len > s_len {
        return false;
    }
    matches_at(s, s_len, 0, prefix, n_len)
}

/// Whether `needle` occurs somewhere in `s`.
pub fn contains_text(s: &str, needle: &str) -> (r: bool)
    ensures
        r == has_substring(s@, needle@),
{
    let s_len: usize = s.unicode_len();
    let n_len: usize = needle.unicode_len();
    if n_len > s_len {
        assert forall|i: int| 0 <= i && i + needle@.len() <= s@.len() implies #[trigger] s@.subrange(i, i + needle@.len()) != needle@ by {}
        return false;
    }
    let mut i: usize = 0;
    loop
        invariant
            s_len == s@.len(),
            n_len == needle@.len(),
            n_len <= s_len,
            i <= s_len - n_len,
            forall|j: int| 0 <= j < i ==> #[trigger] s@.subrange(j, j + n_len) != needle@,
        decreases s_len - n_len - i,
    {
        if matches_at(s, s_len, i, needle, n_len) {
            return true;
        }
        if i == s_len - n_len {
            return false;
        }
        i = i + 1;
    }
}

/// Whether two texts hold the same characters.
pub fn same_text(a: &str, b: &str) -> (r: bool)
    ensures
        r == (a@ == b@),
{
    let x: String = a.to_owned();
    let y: String = b.to_owned();
    x == y
}

/// A fresh `String` holding the characters of `s`.
pub fn owned(s: &str) -> (r: String)
    ensures
        r@ == s@,
{
    s.to_owned()
}

/// The concatenation of `a` and `b`.
pub fn concat2(a: &str, b: &str) -> (r: String)
    ensures
        r@ == a@ + b@,
{
    let mut r: String = a.to_owned();
    r.append(b);
    r
}

/// `s` with every backslash turned into a forward slash.
pub open spec fn forward_slashes(s: Seq<char>) -> Seq<char> {
    s.map_values(|c: char| if c == '\\' { '/' } else { c })
}

/// `s` with every backslash turned into a forward slash, so that a path written with either
/// separator reads the same.
pub fn with_forward_slashes(s: &str) -> (r: String)
    ensures
        r@ == forward_slashes(s@),
{
    let n: usize = s.unicode_len();
    let mut r: String = String::new();
    let mut i: usize = 0;
    while i < n
        invariant
            n == s@.len(),
            i <= n,
            r@ == forward_slashes(s@.subrange(0, i as int)),
        decreases n - i,
    {
        let ghost before = r@;
        if s.get_char(i) == '\\' {
            r.append("/");
            proof {
                reveal_strlit("/");
            }
        } else {
            r.append(s.substring_char(i, i + 1));
        }
        assert(forward_slashes(s@.subrange(0, i + 1)) =~= forward_slashes(s@.subrange(0, i as int)).push(
            if s@[i as int] == '\\' { '/' } else { s@[i as int] },
        ));
        assert(r@ =~= before.push(if s@[i as int] == '\\' { '/' } else { s@[i as int] }));
        i = i + 1;
    }
    assert(s@.subrange(0, n as int) =~= s@);
    r
}

} // verus!
