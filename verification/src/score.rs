//! Fuzzy scoring of list entries against the query, with nucleo's matcher
//! configured for paths, and the ranking of the entries that match.
use vstd::prelude::*;

use nucleo_matcher::pattern::{CaseMatching, Normalization, Pattern};
use nucleo_matcher::{Config, Matcher, Utf32Str};

use crate::text::utf8_of;
use crate::walker::DirEntryItem;

verus! {

/// `nucleo_matcher::Matcher`, carried through opaque.
#[verifier::external_type_specification]
#[verifier::external_body]
pub struct ExMatcher(Matcher);

/// `nucleo_matcher::pattern::Pattern`, carried through opaque.
#[verifier::external_type_specification]
#[verifier::external_body]
pub struct ExPattern(Pattern);

/// What nucleo scores `haystack` with for the pattern that
/// `Pattern::parse(query, CaseMatching::Ignore, Normalization::Smart)`
/// makes, under the matcher configuration for paths: `None` when it does not
/// match.
pub uninterp spec fn spec_fuzzy_score(query: Seq<char>, haystack: Seq<char>) -> Option<u32>;

/// A nucleo matcher configured for paths (`Config::DEFAULT.match_paths()`).
pub struct FuzzyMatcher {
    inner: Matcher,
    for_paths: Ghost<bool>,
}

/// A parsed query, with the text it was parsed from.
pub struct QueryPattern {
    inner: Pattern,
    source: Ghost<Seq<char>>,
}

impl FuzzyMatcher {
    /// Whether the matcher is configured for paths, the configuration under
    /// which `spec_fuzzy_score` scores.
    pub closed spec fn is_path_matcher(&self) -> bool {
        self.for_paths@
    }

    /// A matcher for paths.
    pub fn new() -> (r: FuzzyMatcher)
        ensures
            r.is_path_matcher(),
    {
        new_path_matcher()
    }
}

impl QueryPattern {
    /// The text the pattern was parsed from.
    pub closed spec fn query(&self) -> Seq<char> {
        self.source@
    }
}

/// `Matcher::new(Config::DEFAULT.match_paths())`. Trusted: the matcher is
/// the one configured for paths; it holds that configuration and scratch
/// space only.
#[verifier::external_body]
pub(crate) fn new_path_matcher() -> (r: FuzzyMatcher)
    ensures
        r.is_path_matcher(),
{
    FuzzyMatcher { inner: Matcher::new(Config::DEFAULT.match_paths()), for_paths: Ghost(true) }
}

/// `Pattern::parse(query, CaseMatching::Ignore, Normalization::Smart)`.
/// Trusted: the pattern is the parse of `query`.
#[verifier::external_body]
pub(crate) fn parse_pattern(query: &str) -> (p: QueryPattern)
    ensures
        p.query() == query@,
{
    QueryPattern {
        inner: Pattern::parse(query, CaseMatching::Ignore, Normalization::Smart),
        source: Ghost(query@),
    }
}

/// Whether the matcher can score a query: at most 1024 characters. Each
/// character a word matches adds at most 42 to the word's `u16` score (16,
/// twice a bonus of at most 9 under the paths configuration, and a prefix
/// bonus of at most 8), and the words' scores are added in a `u32`; a word
/// long enough to match past 65535 overflows, and nucleo panics.
pub open spec fn query_fits(query: Seq<char>) -> bool {
    query.len() <= 1024
}

/// Whether the matcher can take a name: nucleo asserts that a name has at
/// most `u32::MAX` units, counted in bytes when its graphemes are ASCII.
#[verifier::opaque]
pub open spec fn name_fits(name: Seq<char>) -> bool {
    utf8_of(name).len() <= u32::MAX
}

/// `Pattern::score` of `haystack`. Trusted: the score is a function of the
/// query and the haystack under the matcher configured for paths; a pattern
/// with no words scores every haystack 0. The call sets the matcher's
/// `ignore_case` and `normalize` from each word of the pattern and leaves
/// the settings for paths as they are. `requires` leaves out the inputs on
/// which nucleo panics: a haystack of more than `u32::MAX` bytes, and
/// queries long enough for a word's score to overflow.
#[verifier::external_body]
pub(crate) fn pattern_score(p: &QueryPattern, haystack: &str, m: &mut FuzzyMatcher) -> (r: Option<u32>)
    requires
        query_fits(p.query()),
        name_fits(haystack@),
        old(m).is_path_matcher(),
    ensures
        final(m).is_path_matcher(),
        r == spec_fuzzy_score(p.query(), haystack@),
        p.query().len() == 0 ==> r == Some(0u32),
{
    let mut buf: Vec<char> = Vec::new();
    p.inner.score(Utf32Str::new(haystack, &mut buf), &mut m.inner)
}

/// The order of the ranking: higher score first, and among equal scores the
/// entry that comes first in the list.
pub open spec fn ranks_before(a: (usize, u32), b: (usize, u32)) -> bool {
    a.1 > b.1 || (a.1 == b.1 && a.0 < b.0)
}

/// Whether the pairs `(index, score)` are the entries that match `query`,
/// each with its score, ranked.
pub open spec fn is_ranking(r: Seq<(usize, u32)>, query: Seq<char>, items: Seq<DirEntryItem>) -> bool {
    &&& forall|j: int| 0 <= j < r.len() - 1 ==> ranks_before(#[trigger] r[j], r[j + 1])
    &&& forall|j: int|
        0 <= j < r.len() ==> #[trigger] r[j].0 < items.len() && spec_fuzzy_score(
            query,
            items[r[j].0 as int].display@,
        ) == Some(r[j].1)
    &&& forall|k: int|
        0 <= k < items.len() && (#[trigger] spec_fuzzy_score(query, items[k].display@)) is Some
            ==> exists|j: int| 0 <= j < r.len() && r[j] == (k as usize, spec_fuzzy_score(query, items[k].display@)->0)
}

/// The entries that match `query`, as pairs of their index and score, best
/// first; entries that score the same keep their order. The query and the
/// names must be ones the matcher can take (`query_fits`, `name_fits`).
pub fn score_items(query: &str, items: &Vec<DirEntryItem>, matcher: &mut FuzzyMatcher) -> (r: Vec<
    (usize, u32),
>)
    requires
        query_fits(query@),
        forall|k: int| 0 <= k < items@.len() ==> name_fits((#[trigger] items@[k]).display@),
        old(matcher).is_path_matcher(),
    ensures
        final(matcher).is_path_matcher(),
        is_ranking(r@, query@, items@),
{
    let pattern = parse_pattern(query);
    let mut out: Vec<(usize, u32)> = Vec::new();
    let mut i: usize = 0;
    while i < items.len()
        invariant
            i <= items@.len(),
            pattern.query() == query@,
            matcher.is_path_matcher(),
            query_fits(query@),
            forall|k: int| 0 <= k < items@.len() ==> name_fits((#[trigger] items@[k]).display@),
            forall|j: int| 0 <= j < out@.len() - 1 ==> ranks_before(#[trigger] out@[j], out@[j + 1]),
            forall|j: int|
                0 <= j < out@.len() ==> #[trigger] out@[j].0 < i && spec_fuzzy_score(
                    query@,
                    items@[out@[j].0 as int].display@,
                ) == Some(out@[j].1),
            forall|k: int|
                0 <= k < i && (#[trigger] spec_fuzzy_score(query@, items@[k].display@)) is Some
                    ==> exists|j: int| 0 <= j < out@.len() && out@[j] == (k as usize, spec_fuzzy_score(query@, items@[k].display@)->0),
        decreases items.len() - i,
    {
        let sc = pattern_score(&pattern, items[i].display.as_str(), matcher);
        match sc {
            Some(s) => {
                let x: (usize, u32) = (i, s);
                let mut p = out.len();
                while p > 0 && out[p - 1].1 < s
                    invariant
                        p <= out@.len(),
                        forall|k: int| p <= k < out@.len() ==> (#[trigger] out@[k]).1 < s,
                    decreases p,
                {
                    p = p - 1;
                }
                proof {
                    let o = out@;
                    let t = o.insert(p as int, x);
                    assert forall|j: int| 0 <= j < t.len() - 1 implies ranks_before(
                        #[trigger] t[j],
                        t[j + 1],
                    ) by {
                        if j < p - 1 {
                            assert(t[j] == o[j] && t[j + 1] == o[j + 1]);
                        } else if j == p - 1 {
                            assert(t[j] == o[j] && t[j + 1] == x);
                            assert(o[j].0 < i);
                        } else if j == p {
                            assert(t[j] == x && t[j + 1] == o[j]);
                        } else {
                            assert(t[j] == o[j - 1] && t[j + 1] == o[j]);
                        }
                    }
                    assert forall|j: int| 0 <= j < t.len() implies #[trigger] t[j].0 < i + 1
                        && spec_fuzzy_score(query@, items@[t[j].0 as int].display@) == Some(t[j].1) by {
                        if j < p {
                            assert(t[j] == o[j]);
                        } else if j > p {
                            assert(t[j] == o[j - 1]);
                        }
                    }
                    assert forall|k: int|
                        0 <= k < i + 1 && (#[trigger] spec_fuzzy_score(query@, items@[k].display@)) is Some
                            implies exists|j: int| 0 <= j < t.len() && t[j] == (k as usize, spec_fuzzy_score(query@, items@[k].display@)->0) by {
                        if k < i {
                            let s2 = spec_fuzzy_score(query@, items@[k].display@)->0;
                            let j0 = choose|j: int| 0 <= j < o.len() && o[j] == (k as usize, s2);
                            if j0 < p {
                                assert(t[j0] == o[j0]);
                            } else {
                                assert(t[j0 + 1] == o[j0]);
                            }
                        } else {
                            assert(t[p as int] == x);
                        }
                    }
                }
                out.insert(p, x);
            },
            None => {
                proof {
                    assert forall|k: int|
                        0 <= k < i + 1 && (#[trigger] spec_fuzzy_score(query@, items@[k].display@)) is Some
                            implies exists|j: int| 0 <= j < out@.len() && out@[j] == (k as usize, spec_fuzzy_score(query@, items@[k].display@)->0) by {
                        assert(k < i);
                    }
                }
            },
        }
        i = i + 1;
    }
    out
}

} // verus!
