//! Small verified helpers over strings.

use vstd::prelude::*;
use vstd::string::StrSliceExecFns;

verus! {

/// The characters that count as whitespace when values are trimmed
/// (the Unicode `White_Space` set).
pub open spec fn is_space(c: char) -> bool {
    c == ' ' || c == '\t' || c == '\n' || c == '\r' || c == '\u{b}' || c == '\u{c}'
        || c == '\u{85}' || c == '\u{a0}' || c == '\u{1680}' || c == '\u{2000}' || c == '\u{2001}'
        || c == '\u{2002}' || c == '\u{2003}' || c == '\u{2004}' || c == '\u{2005}'
        || c == '\u{2006}' || c == '\u{2007}' || c == '\u{2008}' || c == '\u{2009}'
        || c == '\u{200a}' || c == '\u{2028}' || c == '\u{2029}' || c == '\u{202f}'
        || c == '\u{205f}' || c == '\u{3000}'
}

/// Executable test for [`is_space`].
pub fn space_char(c: char) -> (r: bool)
    ensures
        r == is_space(c),
{
    c == ' ' || c == '\t' || c == '\n' || c == '\r' || c == '\u{b}' || c == '\u{c}'
        || c == '\u{85}' || c == '\u{a0}' || c == '\u{1680}' || c == '\u{2000}' || c == '\u{2001}'
        || c == '\u{2002}' || c == '\u{2003}' || c == '\u{2004}' || c == '\u{2005}'
        || c == '\u{2006}' || c == '\u{2007}' || c == '\u{2008}' || c == '\u{2009}'
        || c == '\u{200a}' || c == '\u{2028}' || c == '\u{2029}' || c == '\u{202f}'
        || c == '\u{205f}' || c == '\u{3000}'
}

/// Character-for-character equality of two string slices.
pub fn str_eq(a: &str, b: &str) -> (r: bool)
    ensures
        r == (a@ == b@),
{
    let an = a.unicode_len();
    let bn = b.unicode_len();
    if an != bn {
        assert(a@ != b@);
        return false;
    }
    let mut i: usize = 0;
    while i < an
        invariant
            an == a@.len(),
            bn == b@.len(),
            an == bn,
            i <= an,
            forall|j: int| 0 <= j < i ==> a@[j] == b@[j],
        decreases an - i,
    {
        if a.get_char(i) != b.get_char(i) {
            assert(a@ != b@);
            return false;
        }
        i = i + 1;
    }
    proof {
        assert(a@ =~= b@);
    }
    true
}

/// The length of `s` without its trailing whitespace.
pub open spec fn trimmed_end_len(s: Seq<char>) -> int
    decreases s.len(),
{
    if s.len() == 0 {
        0
    } else if is_space(s.last()) {
        trimmed_end_len(s.drop_last())
    } else {
        s.len() as int
    }
}

/// The length of the leading whitespace run of `s`.
pub open spec fn leading_space_len(s: Seq<char>) -> int
    decreases s.len(),
{
    if s.len() == 0 {
        0
    } else if is_space(s.first()) {
        1 + leading_space_len(s.drop_first())
    } else {
        0
    }
}

/// `s` with trailing whitespace removed.
pub open spec fn trim_end_spec(s: Seq<char>) -> Seq<char> {
    s.subrange(0, trimmed_end_len(s))
}

/// `s` with leading and trailing whitespace removed.
pub open spec fn trim_spec(s: Seq<char>) -> Seq<char> {
    let t = trim_end_spec(s);
    t.subrange(if leading_space_len(t) <= t.len() { leading_space_len(t) } else { t.len() as int }, t.len() as int)
}

proof fn lemma_trimmed_end_len_bounds(s: Seq<char>)
    ensures
        0 <= trimmed_end_len(s) <= s.len(),
        trimmed_end_len(s) > 0 ==> !is_space(s[trimmed_end_len(s) - 1]),
        forall|j: int| trimmed_end_len(s) <= j < s.len() ==> is_space(s[j]),
    decreases s.len(),
{
    if s.len() == 0 {
    } else if is_space(s.last()) {
        let d = s.drop_last();
        lemma_trimmed_end_len_bounds(d);
        assert forall|j: int| trimmed_end_len(s) <= j < s.len() implies is_space(s[j]) by {
            if j < s.len() - 1 {
                assert(s[j] == d[j]);
            } else {
                assert(s[j] == s.last());
            }
        }
    }
}

proof fn lemma_leading_space_len_bounds(s: Seq<char>)
    ensures
        0 <= leading_space_len(s) <= s.len(),
        forall|j: int| 0 <= j < leading_space_len(s) ==> is_space(s[j]),
        leading_space_len(s) < s.len() ==> !is_space(s[leading_space_len(s)]),
    decreases s.len(),
{
    if s.len() == 0 {
    } else if is_space(s.first()) {
        lemma_leading_space_len_bounds(s.drop_first());
        assert forall|j: int| 0 <= j < leading_space_len(s) implies is_space(s[j]) by {
            if j > 0 {
                assert(s.drop_first()[j - 1] == s[j]);
            }
        }
    }
}

/// The index one past the last non-whitespace character of `s`.
fn find_trim_end(s: &str) -> (r: usize)
    ensures
        r == trimmed_end_len(s@),
{
    let n = s.unicode_len();
    let mut i: usize = n;
    proof {
        lemma_trimmed_end_len_bounds(s@);
    }
    while i > 0
        invariant
            i <= n,
            n == s@.len(),
            trimmed_end_len(s@) <= i,
            forall|j: int| i <= j < n ==> is_space(s@[j]),
        decreases i,
    {
        proof {
            lemma_trimmed_end_len_bounds(s@);
        }
        let c = s.get_char(i - 1);
        if !space_char(c) {
            proof {
                if trimmed_end_len(s@) < i {
                    assert(is_space(s@[i - 1]));
                }
            }
            return i;
        }
        proof {
            if trimmed_end_len(s@) == i {
                assert(!is_space(s@[i - 1]));
            }
        }
        i = i - 1;
    }
    0
}

/// The index of the first non-whitespace character of `s` (or its length).
fn find_trim_start(s: &str) -> (r: usize)
    ensures
        r == leading_space_len(s@) || (r == s@.len() && leading_space_len(s@) >= s@.len()),
        r == if leading_space_len(s@) <= s@.len() { leading_space_len(s@) } else { s@.len() as int },
{
    let n = s.unicode_len();
    let mut i: usize = 0;
    proof {
        lemma_leading_space_len_bounds(s@);
    }
    while i < n
        invariant
            i <= n,
            n == s@.len(),
            i <= leading_space_len(s@),
            forall|j: int| 0 <= j < i ==> is_space(s@[j]),
        decreases n - i,
    {
        let c = s.get_char(i);
        if !space_char(c) {
            proof {
                lemma_leading_space_len_bounds(s@);
                if i < leading_space_len(s@) {
                    assert(is_space(s@[i as int]));
                }
            }
            return i;
        }
        proof {
            lemma_space_prefix(s@, i + 1);
        }
        i = i + 1;
    }
    proof {
        lemma_space_prefix(s@, n as int);
    }
    n
}

proof fn lemma_space_prefix(s: Seq<char>, k: int)
    requires
        0 <= k <= s.len(),
        forall|j: int| 0 <= j < k ==> is_space(s[j]),
    ensures
        leading_space_len(s) >= k,
    decreases k,
{
    if k > 0 {
        let d = s.drop_first();
        assert(s.first() == s[0]);
        assert(is_space(s.first()));
        assert forall|j: int| 0 <= j < k - 1 implies is_space(d[j]) by {
            assert(d[j] == s[j + 1]);
        }
        lemma_space_prefix(d, k - 1);
        assert(leading_space_len(s) == 1 + leading_space_len(d));
    } else {
        lemma_leading_space_len_bounds(s);
    }
}

/// `value` with trailing whitespace (a final newline included) removed.
pub fn remove_trailing_newline(value: String) -> (r: String)
    ensures
        r@ == trim_end_spec(value@),
{
    let s = value.as_str();
    let k = find_trim_end(s);
    proof {
        lemma_trimmed_end_len_bounds(s@);
    }
    s.substring_char(0, k).to_owned()
}

/// `s` with leading and trailing whitespace removed.
pub fn trim(s: &str) -> (r: String)
    ensures
        r@ == trim_spec(s@),
{
    let k = find_trim_end(s);
    proof {
        lemma_trimmed_end_len_bounds(s@);
    }
    let t = s.substring_char(0, k);
    let a = find_trim_start(t);
    proof {
        lemma_leading_space_len_bounds(t@);
    }
    t.substring_char(a, t.unicode_len()).to_owned()
}

} // verus!
