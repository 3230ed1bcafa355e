//! Wildcard patterns for file selection.
//!
//! A pattern is literal text with `*` wildcards; `*` stands for any sequence
//! of characters and every other character matches only itself,
//! case-sensitively.  A pattern is applied to a path unanchored: it matches
//! when some stretch of the path's string form matches it.

use vstd::prelude::*;
use crate::text::chars_of;

verus! {

/// Anchored wildcard matching: `*` matches any sequence of characters, every
/// other character only itself.
pub open spec fn glob_match(p: Seq<char>, s: Seq<char>) -> bool
    decreases p.len(), s.len(),
{
    if p.len() == 0 {
        s.len() == 0
    } else if p[0] == '*' {
        glob_match(p.skip(1), s) || (s.len() > 0 && glob_match(p, s.skip(1)))
    } else {
        s.len() > 0 && p[0] == s[0] && glob_match(p.skip(1), s.skip(1))
    }
}

/// Unanchored matching, the way the selector applies a pattern to a path:
/// the pattern has to match some stretch of the path.
pub open spec fn pattern_matches(p: Seq<char>, s: Seq<char>) -> bool {
    glob_match(seq!['*'] + p + seq!['*'], s)
}

/// Decides `glob_match` with a table of subproblem answers: entry `k` of a
/// row for pattern position `i` answers the match of `p[i..]` against
/// `s[m - k..]`.
fn glob_match_exec(q: &Vec<char>, t: &Vec<char>) -> (r: bool)
    ensures
        r == glob_match(q@, t@),
{
    let n = q.len();
    let m = t.len();
    let mut row: Vec<bool> = Vec::new();
    row.push(true);
    proof {
        assert(q@.skip(n as int).len() == 0);
        assert(t@.skip(m as int).len() == 0);
    }
    while row.len() <= m
        invariant
            1 <= row@.len() <= m + 1,
            m == t@.len(),
            n == q@.len(),
            forall|x: int| 0 <= x < row@.len() ==> row@[x] == glob_match(
                q@.skip(n as int),
                t@.skip(m - x),
            ),
        decreases m + 1 - row.len(),
    {
        let k = row.len();
        proof {
            assert(q@.skip(n as int).len() == 0);
            assert(t@.skip(m - k).len() == k);
        }
        row.push(false);
    }
    let mut i: usize = n;
    while i > 0
        invariant
            i <= n,
            m == t@.len(),
            n == q@.len(),
            row@.len() == m + 1,
            forall|x: int| 0 <= x <= m ==> row@[x] == glob_match(q@.skip(i as int), t@.skip(m - x)),
        decreases i,
    {
        i = i - 1;
        let qc = q[i];
        let mut cur: Vec<bool> = Vec::new();
        let mut k2: usize = 0;
        while k2 < row.len()
            invariant
                k2 <= m + 1,
                i < n,
                m == t@.len(),
                n == q@.len(),
                qc == q@[i as int],
                row@.len() == m + 1,
                forall|x: int| 0 <= x <= m ==> row@[x] == glob_match(
                    q@.skip(i + 1 as int),
                    t@.skip(m - x),
                ),
                cur@.len() == k2,
                forall|x: int| 0 <= x < k2 ==> cur@[x] == glob_match(
                    q@.skip(i as int),
                    t@.skip(m - x),
                ),
            decreases m + 1 - k2,
        {
            let j = m - k2;
            let val: bool = if qc == '*' {
                row[k2] || (k2 > 0 && cur[k2 - 1])
            } else {
                k2 > 0 && qc == t[j] && row[k2 - 1]
            };
            proof {
                let gi = i as int;
                let gj = j as int;
                assert(q@.skip(gi).len() == n - gi);
                assert(q@.skip(gi)[0] == q@[gi]);
                assert(q@.skip(gi).skip(1) =~= q@.skip(gi + 1));
                assert(t@.skip(gj).len() == m - gj);
                if gj < m {
                    assert(t@.skip(gj)[0] == t@[gj]);
                    assert(t@.skip(gj).skip(1) =~= t@.skip(gj + 1));
                }
                assert(val == glob_match(q@.skip(gi), t@.skip(gj)));
            }
            cur.push(val);
            k2 = k2 + 1;
        }
        row = cur;
        proof {
            assert(row@.len() == m + 1);
        }
    }
    proof {
        assert(q@.skip(0) =~= q@);
        assert(t@.skip(0) =~= t@);
    }
    row[m]
}

/// Decides whether the wildcard pattern matches some stretch of the text.
pub fn wildcard_match(pattern: &str, text: &str) -> (r: bool)
    ensures
        r == pattern_matches(pattern@, text@),
{
    let p = chars_of(pattern);
    let t = chars_of(text);
    let mut q: Vec<char> = Vec::new();
    q.push('*');
    let mut i: usize = 0;
    while i < p.len()
        invariant
            i <= p.len(),
            p@ == pattern@,
            q@ == seq!['*'] + pattern@.take(i as int),
        decreases p.len() - i,
    {
        q.push(p[i]);
        proof {
            assert((seq!['*'] + pattern@.take(i as int)).push(pattern@[i as int]) =~= seq!['*']
                + pattern@.take(i + 1 as int));
        }
        i = i + 1;
    }
    q.push('*');
    proof {
        assert(q@ =~= seq!['*'] + pattern@ + seq!['*']);
    }
    glob_match_exec(&q, &t)
}

/// The characters a selection pattern may not hold.
pub open spec fn forbidden_pattern_char(c: char) -> bool {
    c == '/' || c == '\\' || c == ':' || c == '?' || c == '"' || c == '<' || c == '>' || c == '|'
}

/// A well-formed selection pattern: non-empty literal text and `*` wildcards,
/// free of path separators and the other characters the pattern grammar
/// rejects.
pub open spec fn spec_valid_pattern(p: Seq<char>) -> bool {
    p.len() > 0 && (forall|i: int| 0 <= i < p.len() ==> !forbidden_pattern_char(p[i]))
}

/// A compiled set of selection patterns.
///
/// When every pattern of the set is well-formed, a path matches the set as
/// soon as it matches one pattern.  A degenerate set — one holding any
/// malformed pattern — matches nothing at all rather than failing the run.
pub struct PatternSet {
    pub patterns: Vec<String>,
    pub usable: bool,
}

/// Whether a path matches a pattern set.
pub open spec fn pattern_set_matches(ps: PatternSet, s: Seq<char>) -> bool {
    ps.usable && (exists|i: int|
        0 <= i < ps.patterns@.len() && pattern_matches(ps.patterns@[i]@, s))
}

impl PatternSet {
    /// Compiles a list of patterns; the set is usable exactly when every
    /// pattern is well-formed.
    pub fn new(patterns: Vec<String>) -> (r: PatternSet)
        ensures
            r.patterns == patterns,
            r.usable == (forall|i: int|
                0 <= i < patterns@.len() ==> spec_valid_pattern(patterns@[i]@)),
    {
        let mut usable = true;
        let mut i: usize = 0;
        while i < patterns.len()
            invariant
                i <= patterns@.len(),
                usable == (forall|k: int| 0 <= k < i ==> spec_valid_pattern(patterns@[k]@)),
            decreases patterns.len() - i,
        {
            if !crate::config::is_valid_pattern(patterns[i].as_str()) {
                usable = false;
            }
            i = i + 1;
        }
        PatternSet { patterns, usable }
    }

    /// Whether the given text matches any pattern of a usable set.
    pub fn matches(&self, text: &str) -> (r: bool)
        ensures
            r == pattern_set_matches(*self, text@),
    {
        if !self.usable {
            return false;
        }
        let mut i: usize = 0;
        while i < self.patterns.len()
            invariant
                self.usable,
                i <= self.patterns@.len(),
                forall|k: int| 0 <= k < i ==> !pattern_matches(self.patterns@[k]@, text@),
            decreases self.patterns.len() - i,
        {
            if wildcard_match(self.patterns[i].as_str(), text) {
                proof {
                    assert(pattern_matches(self.patterns@[i as int]@, text@));
                    assert(exists|k: int|
                        0 <= k < self.patterns@.len() && pattern_matches(
                            self.patterns@[k]@,
                            text@,
                        )) by {
                        assert((i as int) < self.patterns@.len() && pattern_matches(
                            self.patterns@[i as int]@,
                            text@,
                        ));
                    }
                }
                return true;
            }
            i = i + 1;
        }
        false
    }
}


/// Compiles the include and exclude pattern lists into their matchers in
/// one step; each list holding a malformed pattern degrades to a set that
/// matches nothing rather than failing the run.
pub fn create_pattern_sets(includes: Vec<String>, excludes: Vec<String>) -> (r: (
    PatternSet,
    PatternSet,
))
    ensures
        r.0.patterns == includes,
        r.0.usable == (forall|i: int|
            0 <= i < includes@.len() ==> spec_valid_pattern(includes@[i]@)),
        r.1.patterns == excludes,
        r.1.usable == (forall|i: int|
            0 <= i < excludes@.len() ==> spec_valid_pattern(excludes@[i]@)),
{
    let include_set = PatternSet::new(includes);
    let exclude_set = PatternSet::new(excludes);
    (include_set, exclude_set)
}

} // verus!
