use vstd::prelude::*;

verus! {

/// `seg` stands in `t` starting at index `i`.
pub open spec fn occurs_at(t: Seq<char>, i: int, seg: Seq<char>) -> bool {
    &&& 0 <= i
    &&& i + seg.len() <= t.len()
    &&& t.subrange(i, i + seg.len()) == seg
}

/// `seg` stands somewhere in `t`.
pub open spec fn contains_seq(t: Seq<char>, seg: Seq<char>) -> bool {
    exists|i: int| occurs_at(t, i, seg)
}

/// `t` ends with `suffix`.
pub open spec fn ends_with(t: Seq<char>, suffix: Seq<char>) -> bool {
    &&& suffix.len() <= t.len()
    &&& t.skip(t.len() - suffix.len()) == suffix
}

/// What `str::to_lowercase` makes of a string, by Unicode's full case mapping.
pub uninterp spec fn lowercase(s: Seq<char>) -> Seq<char>;

/// Every character of `s` is ASCII.
pub open spec fn ascii_only(s: Seq<char>) -> bool {
    forall|i: int| 0 <= i < s.len() ==> (#[trigger] s[i] as u32) < 128
}

/// An ASCII upper-case letter turned into its lower-case one; any other character
/// left as it is.
pub open spec fn ascii_lower(c: char) -> char {
    if 'A' <= c && c <= 'Z' {
        ((c as u32) + 32) as char
    } else {
        c
    }
}

/// Every ASCII upper-case letter of `s` turned into its lower-case one.
pub open spec fn ascii_lowercase(s: Seq<char>) -> Seq<char> {
    s.map_values(|c: char| ascii_lower(c))
}

/// Calls `str::to_lowercase`. Claimed: the result is a function of the characters
/// of `s` alone, named `lowercase`; on an ASCII string it turns `A`..`Z` into
/// `a`..`z` and leaves every other character as it is, as Unicode's case mapping
/// does for ASCII. What it does to other characters is left unsaid.
#[verifier::external_body]
pub(crate) fn to_lowercase(s: &str) -> (r: String)
    ensures
        r@ == lowercase(s@),
        ascii_only(s@) ==> r@ == ascii_lowercase(s@),
{
    s.to_lowercase()
}

/// Calls `String::push`. Claimed: the character is appended at the end.
#[verifier::external_body]
fn push_char(s: &mut String, c: char)
    ensures
        final(s)@ == old(s)@.push(c),
{
    s.push(c);
}

/// The characters of `s`, in order.
pub fn chars_of(s: &str) -> (r: Vec<char>)
    ensures
        r@ == s@,
{
    let mut r: Vec<char> = Vec::new();
    for c in it: s.chars()
        invariant
            it.seq() == s@,
            r@ == it.seq().take(it.index() as int),
    {
        r.push(c);
    }
    r
}

/// A string made of the characters of `v`, in order.
pub fn string_of(v: &Vec<char>) -> (r: String)
    ensures
        r@ == v@,
{
    let mut r = String::new();
    let mut i: usize = 0;
    while i < v.len()
        invariant
            i <= v.len(),
            r@ == v@.take(i as int),
        decreases v.len() - i,
    {
        push_char(&mut r, v[i]);
        i = i + 1;
        assert(r@ =~= v@.take(i as int));
    }
    assert(v@.take(v.len() as int) =~= v@);
    r
}

/// Whether `p[lo..hi]` stands in `t` starting at index `at`.
pub fn segment_at(t: &Vec<char>, at: usize, p: &Vec<char>, lo: usize, hi: usize) -> (r: bool)
    requires
        lo <= hi <= p.len(),
    ensures
        r == occurs_at(t@, at as int, p@.subrange(lo as int, hi as int)),
{
    let n = hi - lo;
    if at > t.len() || n > t.len() - at {
        return false;
    }
    let mut k: usize = 0;
    while k < n
        invariant
            lo <= hi <= p.len(),
            n == hi - lo,
            at + n <= t.len(),
            k <= n,
            t@.subrange(at as int, at + k) =~= p@.subrange(lo as int, lo + k),
        decreases n - k,
    {
        if t[at + k] != p[lo + k] {
            assert(t@.subrange(at as int, at + n)[k as int] != p@.subrange(lo as int, hi as int)[k as int]);
            return false;
        }
        assert(t@.subrange(at as int, at + k + 1) =~= t@.subrange(at as int, at + k).push(t@[at + k]));
        assert(p@.subrange(lo as int, lo + k + 1) =~= p@.subrange(lo as int, lo + k).push(p@[lo + k]));
        k = k + 1;
    }
    true
}

/// The first index, not below `from`, at which `p[lo..hi]` stands in `t`.
pub fn find_segment(t: &Vec<char>, from: usize, p: &Vec<char>, lo: usize, hi: usize) -> (r: Option<usize>)
    requires
        lo <= hi <= p.len(),
    ensures
        match r {
            Some(f) => {
                &&& from <= f
                &&& occurs_at(t@, f as int, p@.subrange(lo as int, hi as int))
                &&& forall|i: int| from <= i < f ==> !occurs_at(t@, i, p@.subrange(lo as int, hi as int))
            },
            None => forall|i: int| from <= i ==> !occurs_at(t@, i, p@.subrange(lo as int, hi as int)),
        },
{
    let ghost seg = p@.subrange(lo as int, hi as int);
    if from > t.len() {
        return None;
    }
    let mut i: usize = from;
    loop
        invariant
            lo <= hi <= p.len(),
            seg == p@.subrange(lo as int, hi as int),
            from <= i <= t.len(),
            forall|j: int| from <= j < i ==> !occurs_at(t@, j, seg),
        decreases t.len() - i,
    {
        if segment_at(t, i, p, lo, hi) {
            return Some(i);
        }
        if i == t.len() {
            return None;
        }
        i = i + 1;
    }
}

/// Whether `t` ends with `suffix`.
pub fn ends_with_chars(t: &Vec<char>, suffix: &Vec<char>) -> (r: bool)
    ensures
        r == ends_with(t@, suffix@),
{
    if suffix.len() > t.len() {
        return false;
    }
    let at = t.len() - suffix.len();
    let r = segment_at(t, at, suffix, 0, suffix.len());
    assert(suffix@.subrange(0, suffix@.len() as int) =~= suffix@);
    assert(t@.skip(at as int) =~= t@.subrange(at as int, at + suffix@.len()));
    r
}

} // verus!
