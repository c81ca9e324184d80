use vstd::prelude::*;

verus! {

/// `needle` occurs in `haystack` starting at index `i`.
pub open spec fn occurs_at(haystack: Seq<char>, needle: Seq<char>, i: int) -> bool {
    &&& 0 <= i
    &&& i + needle.len() <= haystack.len()
    &&& haystack.subrange(i, i + needle.len()) == needle
}

/// `needle` occurs somewhere in `haystack` (the empty text occurs everywhere).
pub open spec fn contains_text(haystack: Seq<char>, needle: Seq<char>) -> bool {
    exists|i: int| occurs_at(haystack, needle, i)
}

/// `haystack` begins with `prefix`.
pub open spec fn starts_with_text(haystack: Seq<char>, prefix: Seq<char>) -> bool {
    occurs_at(haystack, prefix, 0)
}

/// What `str::to_lowercase` makes of a text (Unicode lowercase mapping).
pub uninterp spec fn lowercase_of(text: Seq<char>) -> Seq<char>;

/// Calls `str::to_lowercase`. Claims: the result is `lowercase_of(s)`.
#[verifier::external_body]
fn str_to_lowercase(s: &str) -> (r: String)
    ensures
        r@ == lowercase_of(s@),
{
    s.to_lowercase()
}

/// The lowercase form of a text, as `str::to_lowercase` gives it.
pub fn to_lowercase(s: &str) -> (r: String)
    ensures
        r@ == lowercase_of(s@),
{
    str_to_lowercase(s)
}

/// The characters of a text, in order.
pub fn chars_of(s: &str) -> (v: Vec<char>)
    ensures
        v@ == s@,
{
    let n = s.unicode_len();
    let mut v: Vec<char> = Vec::new();
    let mut i: usize = 0;
    while i < n
        invariant
            n == s@.len(),
            i <= n,
            v@ == s@.take(i as int),
        decreases n - i,
    {
        let c = s.get_char(i);
        v.push(c);
        assert(s@.take(i as int + 1) =~= s@.take(i as int).push(c));
        i += 1;
    }
    assert(s@.take(n as int) =~= s@);
    v
}

/// Whether `needle` occurs at index `i` of `haystack`.
fn occurs_at_index(haystack: &Vec<char>, needle: &Vec<char>, i: usize) -> (r: bool)
    ensures
        r == occurs_at(haystack@, needle@, i as int),
{
    let n = haystack.len();
    let m = needle.len();
    if m > n || i > n - m {
        return false;
    }
    let mut j: usize = 0;
    while j < m
        invariant
            n == haystack.len(),
            m == needle.len(),
            i + m <= n,
            j <= m,
            forall|k: int| 0 <= k < j ==> haystack@[i + k] == #[trigger] needle@[k],
        decreases m - j,
    {
        if haystack[i + j] != needle[j] {
            assert(haystack@.subrange(i as int, i + m)[j as int] != needle@[j as int]);
            return false;
        }
        j += 1;
    }
    assert(haystack@.subrange(i as int, i + m) =~= needle@);
    true
}

/// Whether `needle` occurs in `haystack`.
pub fn text_contains(haystack: &str, needle: &str) -> (r: bool)
    ensures
        r == contains_text(haystack@, needle@),
{
    let h = chars_of(haystack);
    let nd = chars_of(needle);
    let n = h.len();
    let mut i: usize = 0;
    loop
        invariant
            n == h.len(),
            h@ == haystack@,
            nd@ == needle@,
            i <= n,
            forall|k: int| 0 <= k < i ==> !#[trigger] occurs_at(haystack@, needle@, k),
        decreases n - i,
    {
        if occurs_at_index(&h, &nd, i) {
            return true;
        }
        if i == n {
            assert forall|k: int| !#[trigger] occurs_at(haystack@, needle@, k) by {
                if 0 <= k && k < i {
                }
            }
            return false;
        }
        i += 1;
    }
}

/// Whether `haystack` begins with `prefix`.
pub fn text_starts_with(haystack: &str, prefix: &str) -> (r: bool)
    ensures
        r == starts_with_text(haystack@, prefix@),
{
    let h = chars_of(haystack);
    let p = chars_of(prefix);
    occurs_at_index(&h, &p, 0)
}

} // verus!
