use vstd::prelude::*;

use crate::text::{chars_of, contains_seq, ends_with, find_segment, occurs_at, segment_at};

verus! {

/// Whether text `t` matches pattern `p`, where `*` in the pattern stands for any
/// run of characters (the empty one too) and every other character for itself.
pub open spec fn wild_match(p: Seq<char>, t: Seq<char>) -> bool
    decreases p.len() + t.len(),
{
    if p.len() == 0 {
        t.len() == 0
    } else if p[0] == '*' {
        wild_match(p.drop_first(), t) || (t.len() > 0 && wild_match(p, t.drop_first()))
    } else {
        t.len() > 0 && t[0] == p[0] && wild_match(p.drop_first(), t.drop_first())
    }
}

/// No character of `s` is `*`.
pub open spec fn star_free(s: Seq<char>) -> bool {
    forall|i: int| 0 <= i < s.len() ==> s[i] != '*'
}

/// A pattern that starts with `*` matches `t.skip(j)` with its tail, so it matches `t`.
proof fn lemma_star_intro(p: Seq<char>, t: Seq<char>, j: int)
    requires
        p.len() > 0,
        p[0] == '*',
        0 <= j <= t.len(),
        wild_match(p.drop_first(), t.skip(j)),
    ensures
        wild_match(p, t),
    decreases j,
{
    if j == 0 {
        assert(t.skip(0) =~= t);
    } else {
        assert(t.drop_first().skip(j - 1) =~= t.skip(j));
        lemma_star_intro(p, t.drop_first(), j - 1);
    }
}

/// A pattern that starts with `*` and matches `t` matches, with its tail, some suffix of `t`.
proof fn lemma_star_elim(p: Seq<char>, t: Seq<char>) -> (j: int)
    requires
        p.len() > 0,
        p[0] == '*',
        wild_match(p, t),
    ensures
        0 <= j <= t.len(),
        wild_match(p.drop_first(), t.skip(j)),
    decreases t.len(),
{
    if wild_match(p.drop_first(), t) {
        assert(t.skip(0) =~= t);
        0
    } else {
        let j1 = lemma_star_elim(p, t.drop_first());
        assert(t.drop_first().skip(j1) =~= t.skip(j1 + 1));
        j1 + 1
    }
}

/// A star-free prefix of the pattern must stand, character for character, at the
/// start of the text.
proof fn lemma_literal_prefix(p: Seq<char>, t: Seq<char>, n: int)
    requires
        0 <= n <= p.len(),
        star_free(p.take(n)),
    ensures
        wild_match(p, t) == (n <= t.len() && t.take(n) == p.take(n) && wild_match(p.skip(n), t.skip(n))),
    decreases n,
{
    if n == 0 {
        assert(p.skip(0) =~= p);
        assert(t.skip(0) =~= t);
        assert(t.take(0) =~= p.take(0));
    } else {
        assert(p.take(n)[0] == p[0]);
        assert(p[0] != '*');
        let p1 = p.drop_first();
        assert(p1.take(n - 1) =~= p.take(n).drop_first());
        assert(star_free(p1.take(n - 1))) by {
            assert forall|i: int| 0 <= i < p1.take(n - 1).len() implies #[trigger] p1.take(n - 1)[i] != '*' by {
                assert(p1.take(n - 1)[i] == p.take(n)[i + 1]);
            }
        }
        assert(p1.skip(n - 1) =~= p.skip(n));
        if t.len() > 0 {
            let t1 = t.drop_first();
            lemma_literal_prefix(p1, t1, n - 1);
            if n <= t.len() {
                assert(t1.skip(n - 1) =~= t.skip(n));
                assert(t1.take(n - 1) =~= t.take(n).drop_first());
                if t.take(n) == p.take(n) {
                    assert(t[0] == t.take(n)[0]);
                    assert(t1.take(n - 1) == p1.take(n - 1));
                }
                if t[0] == p[0] && t1.take(n - 1) == p1.take(n - 1) {
                    assert(t.take(n) =~= p.take(n)) by {
                        assert forall|i: int| 0 <= i < n implies #[trigger] t.take(n)[i] == p.take(n)[i] by {
                            if i > 0 {
                                assert(t.take(n)[i] == t1.take(n - 1)[i - 1]);
                                assert(p.take(n)[i] == p1.take(n - 1)[i - 1]);
                            }
                        }
                    }
                }
            }
        }
    }
}

/// A star-free pattern matches exactly the text equal to it.
pub proof fn lemma_star_free_matches_itself_only(p: Seq<char>, t: Seq<char>)
    requires
        star_free(p),
    ensures
        wild_match(p, t) == (p == t),
{
    assert(p.take(p.len() as int) =~= p);
    lemma_literal_prefix(p, t, p.len() as int);
    let e = p.skip(p.len() as int);
    assert(e.len() == 0);
    if p.len() <= t.len() {
        let r = t.skip(p.len() as int);
        if r.len() == 0 {
            assert(t.take(p.len() as int) =~= t);
        }
        assert(wild_match(e, r) == (r.len() == 0));
    }
}

/// A pattern that starts with `*` keeps matching when text is put in front.
proof fn lemma_star_extends_left(p: Seq<char>, u: Seq<char>, d: int)
    requires
        p.len() > 0,
        p[0] == '*',
        0 <= d <= u.len(),
        wild_match(p, u.skip(d)),
    ensures
        wild_match(p, u),
{
    let j = lemma_star_elim(p, u.skip(d));
    assert(u.skip(d).skip(j) =~= u.skip(d + j));
    lemma_star_intro(p, u, d + j);
}

/// The segment between two stars, at the first place in the text where it stands:
/// matching from there on decides the match.
proof fn lemma_middle_segment(p: Seq<char>, star: int, next: int, t: Seq<char>, pos: int, f: int)
    requires
        0 <= star < next < p.len(),
        p[star] == '*',
        p[next] == '*',
        star_free(p.subrange(star + 1, next)),
        0 <= pos <= f,
        occurs_at(t, f, p.subrange(star + 1, next)),
        forall|i: int| pos <= i < f ==> !#[trigger] occurs_at(t, i, p.subrange(star + 1, next)),
    ensures
        wild_match(p.skip(star), t.skip(pos)) == wild_match(p.skip(next), t.skip(f + (next - star - 1))),
{
    let seg = p.subrange(star + 1, next);
    let n = next - star - 1;
    let q = p.skip(star);
    let q1 = p.skip(star + 1);
    assert(q.drop_first() =~= q1);
    assert(q1.take(n) =~= seg);
    assert(q1.skip(n) =~= p.skip(next));
    assert(p.skip(next)[0] == '*');
    if wild_match(q, t.skip(pos)) {
        let j = lemma_star_elim(q, t.skip(pos));
        assert(t.skip(pos).skip(j) =~= t.skip(pos + j));
        lemma_literal_prefix(q1, t.skip(pos + j), n);
        assert(t.skip(pos + j).take(n) =~= t.subrange(pos + j, pos + j + n));
        assert(occurs_at(t, pos + j, seg));
        assert(f <= pos + j);
        assert(t.skip(pos + j).skip(n) =~= t.skip(pos + j + n));
        assert(t.skip(f + n).skip(pos + j - f) =~= t.skip(pos + j + n));
        lemma_star_extends_left(p.skip(next), t.skip(f + n), pos + j - f);
    }
    if wild_match(p.skip(next), t.skip(f + n)) {
        lemma_literal_prefix(q1, t.skip(f), n);
        assert(t.skip(f).take(n) =~= t.subrange(f, f + n));
        assert(t.skip(f).skip(n) =~= t.skip(f + n));
        assert(t.skip(pos).skip(f - pos) =~= t.skip(f));
        lemma_star_intro(q, t.skip(pos), f - pos);
    }
}

/// The segment between two stars stands nowhere from `pos` on: no match.
proof fn lemma_middle_segment_missing(p: Seq<char>, star: int, next: int, t: Seq<char>, pos: int)
    requires
        0 <= star < next < p.len(),
        p[star] == '*',
        star_free(p.subrange(star + 1, next)),
        0 <= pos <= t.len(),
        forall|i: int| pos <= i ==> !#[trigger] occurs_at(t, i, p.subrange(star + 1, next)),
    ensures
        !wild_match(p.skip(star), t.skip(pos)),
{
    let seg = p.subrange(star + 1, next);
    let n = next - star - 1;
    let q = p.skip(star);
    let q1 = p.skip(star + 1);
    assert(q.drop_first() =~= q1);
    assert(q1.take(n) =~= seg);
    if wild_match(q, t.skip(pos)) {
        let j = lemma_star_elim(q, t.skip(pos));
        assert(t.skip(pos).skip(j) =~= t.skip(pos + j));
        lemma_literal_prefix(q1, t.skip(pos + j), n);
        assert(t.skip(pos + j).take(n) =~= t.subrange(pos + j, pos + j + n));
        assert(occurs_at(t, pos + j, seg));
    }
}

/// After the last star, the rest of the pattern must end the text.
proof fn lemma_last_segment(p: Seq<char>, star: int, t: Seq<char>, pos: int)
    requires
        0 <= star < p.len(),
        p[star] == '*',
        star_free(p.skip(star + 1)),
        0 <= pos <= t.len(),
    ensures
        wild_match(p.skip(star), t.skip(pos)) == ((p.len() - star - 1) <= t.len() - pos
            && occurs_at(t, t.len() - (p.len() - star - 1), p.subrange(star + 1, p.len() as int))),
{
    let n = p.len() - star - 1;
    let seg = p.subrange(star + 1, p.len() as int);
    let q = p.skip(star);
    let q1 = p.skip(star + 1);
    assert(q.drop_first() =~= q1);
    assert(q1 =~= seg);
    if wild_match(q, t.skip(pos)) {
        let j = lemma_star_elim(q, t.skip(pos));
        assert(t.skip(pos).skip(j) =~= t.skip(pos + j));
        lemma_star_free_matches_itself_only(q1, t.skip(pos + j));
        assert(t.subrange(t.len() - n, t.len() as int) =~= t.skip(pos + j));
    }
    if n <= t.len() - pos && occurs_at(t, t.len() - n, seg) {
        let j = t.len() - pos - n;
        assert(t.skip(pos).skip(j) =~= t.subrange(t.len() - n, t.len() as int));
        lemma_star_free_matches_itself_only(q1, t.skip(pos).skip(j));
        lemma_star_intro(q, t.skip(pos), j);
    }
}

/// The first index, not below `from`, that holds a `*` in `p`; `p.len()` where none does.
fn find_star(p: &Vec<char>, from: usize) -> (r: usize)
    requires
        from <= p.len(),
    ensures
        from <= r <= p.len(),
        star_free(p@.subrange(from as int, r as int)),
        r < p.len() ==> p@[r as int] == '*',
{
    let mut i = from;
    while i < p.len()
        invariant
            from <= i <= p.len(),
            star_free(p@.subrange(from as int, i as int)),
        decreases p.len() - i,
    {
        if p[i] == '*' {
            return i;
        }
        assert(star_free(p@.subrange(from as int, i + 1))) by {
            assert forall|k: int| 0 <= k < i + 1 - from implies #[trigger] p@.subrange(from as int, i + 1)[k] != '*' by {
                if k < i - from {
                    assert(p@.subrange(from as int, i + 1)[k] == p@.subrange(from as int, i as int)[k]);
                }
            }
        }
        i = i + 1;
    }
    i
}

/// Whether `t` matches `p`, `*` standing for any run of characters: each segment
/// between stars is taken at the first place it stands.
pub fn glob_match_chars(p: &Vec<char>, t: &Vec<char>) -> (r: bool)
    ensures
        r == wild_match(p@, t@),
{
    let s0 = find_star(p, 0);
    assert(p@.subrange(0, s0 as int) =~= p@.take(s0 as int));
    if s0 == p.len() {
        proof {
            assert(p@.take(s0 as int) =~= p@);
            lemma_star_free_matches_itself_only(p@, t@);
        }
        if p.len() != t.len() {
            return false;
        }
        let r = segment_at(t, 0, p, 0, p.len());
        assert(p@.subrange(0, p.len() as int) =~= p@);
        assert(t@.subrange(0, t.len() as int) =~= t@);
        return r;
    }
    proof {
        lemma_literal_prefix(p@, t@, s0 as int);
    }
    if !segment_at(t, 0, p, 0, s0) {
        proof {
            if s0 <= t.len() && t@.take(s0 as int) == p@.take(s0 as int) {
                assert(t@.take(s0 as int) =~= t@.subrange(0, s0 as int));
            }
        }
        return false;
    }
    assert(t@.take(s0 as int) =~= t@.subrange(0, s0 as int));
    let mut pos: usize = s0;
    let mut star: usize = s0;
    loop
        invariant
            star < p.len(),
            p@[star as int] == '*',
            pos <= t.len(),
            wild_match(p@, t@) == wild_match(p@.skip(star as int), t@.skip(pos as int)),
        decreases p.len() - star,
    {
        let lo = star + 1;
        let next = find_star(p, lo);
        if next == p.len() {
            let n = p.len() - lo;
            proof {
                assert(p@.skip(lo as int) =~= p@.subrange(lo as int, next as int));
                lemma_last_segment(p@, star as int, t@, pos as int);
            }
            if n > t.len() - pos {
                return false;
            }
            return segment_at(t, t.len() - n, p, lo, p.len());
        }
        match find_segment(t, pos, p, lo, next) {
            None => {
                proof {
                    lemma_middle_segment_missing(p@, star as int, next as int, t@, pos as int);
                }
                return false;
            },
            Some(f) => {
                proof {
                    lemma_middle_segment(p@, star as int, next as int, t@, pos as int, f as int);
                }
                pos = f + (next - lo);
                star = next;
            },
        }
    }
}

/// Whether `text` matches `pattern`, where `*` stands for any run of characters
/// and every other character for itself.
pub fn simple_glob(pattern: &str, text: &str) -> (r: bool)
    ensures
        r == wild_match(pattern@, text@),
{
    let p = chars_of(pattern);
    let t = chars_of(text);
    glob_match_chars(&p, &t)
}

/// Whether one exclusion pattern leaves `path` out: a non-empty pattern does when
/// the path matches it as a glob or holds it as a substring.
pub open spec fn excluded_by(pattern: Seq<char>, path: Seq<char>) -> bool {
    &&& pattern.len() > 0
    &&& (wild_match(pattern, path) || contains_seq(path, pattern))
}

/// Some pattern of `patterns` leaves `path` out.
pub open spec fn excluded_by_any(patterns: Seq<String>, path: Seq<char>) -> bool {
    exists|i: int| 0 <= i < patterns.len() && #[trigger] excluded_by(patterns[i]@, path)
}

/// Whether some pattern of `patterns` leaves `path` out of an archive. Empty
/// patterns are ignored; any other pattern leaves out the paths that match it as a
/// glob (`*` standing for any run of characters) and the paths that hold it as a
/// substring.
pub fn matches_exclude(path: &str, patterns: &[String]) -> (r: bool)
    ensures
        r == excluded_by_any(patterns@, path@),
{
    let t = chars_of(path);
    let mut i: usize = 0;
    while i < patterns.len()
        invariant
            i <= patterns@.len(),
            t@ == path@,
            forall|k: int| 0 <= k < i ==> !#[trigger] excluded_by(patterns@[k]@, path@),
        decreases patterns.len() - i,
    {
        let pattern: &str = patterns[i].as_str();
        if !pattern.is_empty() {
            if simple_glob(pattern, path) {
                assert(excluded_by(patterns@[i as int]@, path@));
                return true;
            }
            let p = chars_of(pattern);
            match find_segment(&t, 0, &p, 0, p.len()) {
                Some(f) => {
                    assert(p@.subrange(0, p.len() as int) =~= p@);
                    assert(excluded_by(patterns@[i as int]@, path@));
                    return true;
                },
                None => {
                    assert(p@.subrange(0, p.len() as int) =~= p@);
                },
            }
        }
        i = i + 1;
    }
    false
}

/// Exclusion by a list of patterns: no pattern leaves nothing out, and a pattern
/// added to the list leaves out what it excludes on its own besides what the list
/// already did. An empty pattern leaves out nothing.
pub proof fn lemma_exclusion_by_list(patterns: Seq<String>, p: String, path: Seq<char>)
    ensures
        !excluded_by_any(Seq::<String>::empty(), path),
        excluded_by_any(patterns.push(p), path) == (excluded_by_any(patterns, path) || excluded_by(p@, path)),
        p@.len() == 0 ==> !excluded_by(p@, path),
{
    let q = patterns.push(p);
    if excluded_by_any(q, path) {
        let i = choose|i: int| 0 <= i < q.len() && #[trigger] excluded_by(q[i]@, path);
        if i < patterns.len() {
            assert(q[i] == patterns[i]);
        }
    }
    if excluded_by_any(patterns, path) {
        let i = choose|i: int| 0 <= i < patterns.len() && #[trigger] excluded_by(patterns[i]@, path);
        assert(q[i] == patterns[i]);
    }
    if excluded_by(p@, path) {
        assert(q[patterns.len() as int] == p);
    }
}

/// A glob starts where the path starts: when a path is left out by a pattern that
/// does not start with `*`, and the path does not hold the pattern as a substring,
/// the path starts with the pattern's first character.
pub proof fn lemma_exclusion_anchored_at_start(pattern: Seq<char>, path: Seq<char>)
    requires
        pattern.len() > 0,
        pattern[0] != '*',
        excluded_by(pattern, path),
        !contains_seq(path, pattern),
    ensures
        path.len() > 0,
        path[0] == pattern[0],
{
}

/// A glob ends where the path ends: when a path is left out by a pattern that
/// does not end with `*`, and the path does not hold the pattern as a substring,
/// the path ends with the pattern's last character.
pub proof fn lemma_exclusion_anchored_at_end(pattern: Seq<char>, path: Seq<char>)
    requires
        pattern.len() > 0,
        pattern[pattern.len() - 1] != '*',
        excluded_by(pattern, path),
        !contains_seq(path, pattern),
    ensures
        path.len() > 0,
        path[path.len() - 1] == pattern[pattern.len() - 1],
{
    lemma_match_ends_alike(pattern, path);
}

/// A pattern whose last character is not `*` matches only texts that end with
/// that same character.
pub proof fn lemma_match_ends_alike(p: Seq<char>, t: Seq<char>)
    requires
        p.len() > 0,
        p[p.len() - 1] != '*',
        wild_match(p, t),
    ensures
        t.len() > 0,
        t[t.len() - 1] == p[p.len() - 1],
    decreases p.len() + t.len(),
{
    if p[0] == '*' {
        if wild_match(p.drop_first(), t) {
            lemma_match_ends_alike(p.drop_first(), t);
        } else {
            lemma_match_ends_alike(p, t.drop_first());
        }
    } else if p.len() > 1 {
        if t.len() == 1 {
            assert(wild_match(p.drop_first(), t.drop_first()));
            lemma_match_ends_alike(p.drop_first(), t.drop_first());
        } else {
            lemma_match_ends_alike(p.drop_first(), t.drop_first());
        }
    } else {
        let p1 = p.drop_first();
        assert(p1.len() == 0);
        assert(t.drop_first().len() == 0);
    }
}

/// A `*` followed by a star-free literal (such as `*.log`) leaves out exactly the
/// paths that end with the literal or hold the pattern itself as a substring.
pub proof fn lemma_star_literal_exclusion(literal: Seq<char>, path: Seq<char>)
    requires
        star_free(literal),
    ensures
        excluded_by(seq!['*'] + literal, path) == ((literal.len() <= path.len() && path.subrange(
            path.len() - literal.len(),
            path.len() as int,
        ) == literal) || exists|i: int|
            0 <= i && i + literal.len() + 1 <= path.len() && #[trigger] path.subrange(
                i,
                i + literal.len() + 1,
            ) == seq!['*'] + literal),
{
    let p = seq!['*'] + literal;
    lemma_star_then_literal_is_suffix(literal, path);
    if literal.len() <= path.len() {
        assert(path.skip(path.len() - literal.len()) =~= path.subrange(
            path.len() - literal.len(),
            path.len() as int,
        ));
    }
    assert(p.len() == literal.len() + 1);
    if contains_seq(path, p) {
        let i = choose|i: int| occurs_at(path, i, p);
        assert(path.subrange(i, i + literal.len() + 1) == p);
    }
    if exists|i: int|
        0 <= i && i + literal.len() + 1 <= path.len() && #[trigger] path.subrange(i, i + literal.len() + 1) == p {
        let i = choose|i: int|
            0 <= i && i + literal.len() + 1 <= path.len() && #[trigger] path.subrange(i, i + literal.len() + 1) == p;
        assert(occurs_at(path, i, p));
    }
}

/// A pattern without `*` leaves out exactly the paths that hold it as a substring.
pub proof fn lemma_plain_pattern_is_substring(pattern: Seq<char>, path: Seq<char>)
    requires
        pattern.len() > 0,
        star_free(pattern),
    ensures
        excluded_by(pattern, path) == contains_seq(path, pattern),
{
    lemma_star_free_matches_itself_only(pattern, path);
    if pattern == path {
        assert(path.subrange(0, path.len() as int) =~= path);
        assert(occurs_at(path, 0, pattern));
    }
}

/// A lone `*` matches every text.
pub proof fn lemma_lone_star_matches_all(t: Seq<char>)
    ensures
        wild_match(seq!['*'], t),
{
    let p = seq!['*'];
    assert(p.drop_first() =~= Seq::<char>::empty());
    assert(t.skip(t.len() as int).len() == 0);
    lemma_star_intro(p, t, t.len() as int);
}

/// A `*` followed by a star-free literal (such as `*.log`) matches exactly the texts
/// that end with the literal.
pub proof fn lemma_star_then_literal_is_suffix(literal: Seq<char>, t: Seq<char>)
    requires
        star_free(literal),
    ensures
        wild_match(seq!['*'] + literal, t) == ends_with(t, literal),
{
    let p = seq!['*'] + literal;
    assert(p.skip(1) =~= literal);
    assert(p.skip(0) =~= p);
    assert(t.skip(0) =~= t);
    assert(p.subrange(1, p.len() as int) =~= literal);
    lemma_last_segment(p, 0, t, 0);
    if literal.len() <= t.len() {
        assert(t.skip(t.len() - literal.len()) =~= t.subrange(t.len() - literal.len(), t.len() as int));
    }
}

/// A star-free literal followed by a `*` (such as `target/*`) matches exactly the
/// texts that start with the literal.
pub proof fn lemma_literal_then_star_is_prefix(literal: Seq<char>, t: Seq<char>)
    requires
        star_free(literal),
    ensures
        wild_match(literal + seq!['*'], t) == (literal.len() <= t.len() && t.take(literal.len() as int) == literal),
{
    let p = literal + seq!['*'];
    let n = literal.len() as int;
    assert(p.take(n) =~= literal);
    assert(p.skip(n) =~= seq!['*']);
    lemma_literal_prefix(p, t, n);
    if n <= t.len() {
        lemma_lone_star_matches_all(t.skip(n));
    }
}

} // verus!
