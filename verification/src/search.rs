//! How a symbol name is held against a query.

use vstd::prelude::*;
use crate::text::{chars_of, str_eq};

verus! {

/// How to search symbols.
#[derive(Debug, Copy, Clone, PartialEq, Eq, Structural)]
pub enum SearchMode {
    /// Entry should strictly match the query string.
    Exact,
    /// Entry should contain all letters from the query string,
    /// in the same order, but not necessary adjacent.
    Fuzzy,
}

impl Default for SearchMode {
    fn default() -> (res: Self)
        ensures
            res == SearchMode::Exact,
    {
        SearchMode::Exact
    }
}

/// `at` places every character of `query` on an equal character of `candidate`,
/// at strictly increasing positions.
pub open spec fn is_embedding(query: Seq<char>, candidate: Seq<char>, at: Seq<int>) -> bool {
    &&& at.len() == query.len()
    &&& forall|i: int|
        0 <= i < at.len() ==> 0 <= #[trigger] at[i] < candidate.len() && candidate[at[i]]
            == query[i]
    &&& forall|i: int, j: int| 0 <= i < j < at.len() ==> at[i] < at[j]
}

/// The characters of `query` occur in `candidate` in the same order, with any gaps.
pub open spec fn is_subsequence(query: Seq<char>, candidate: Seq<char>) -> bool {
    exists|at: Seq<int>| is_embedding(query, candidate, at)
}

proof fn lemma_embedding_prefix(query: Seq<char>, candidate: Seq<char>, at: Seq<int>, k: int)
    requires
        is_embedding(query, candidate, at),
        0 <= k <= query.len(),
    ensures
        is_embedding(query.take(k), candidate, at.take(k)),
{
    let a = at.take(k);
    assert forall|i: int| 0 <= i < a.len() implies 0 <= #[trigger] a[i] < candidate.len()
        && candidate[a[i]] == query.take(k)[i] by {
        assert(a[i] == at[i]);
    }
}

impl SearchMode {
    /// What it means for `candidate` to answer `query` under this mode.
    pub open spec fn matches(self, query: Seq<char>, candidate: Seq<char>) -> bool {
        match self {
            SearchMode::Exact => candidate == query,
            SearchMode::Fuzzy => is_subsequence(query, candidate),
        }
    }

    /// Holds `candidate` against `query`.
    ///
    /// The fuzzy scan walks `candidate` once: for each query character it moves to the
    /// position right behind that character's next occurrence.
    pub fn check(self, query: &str, candidate: &str) -> (res: bool)
        ensures
            res == self.matches(query@, candidate@),
    {
        match self {
            SearchMode::Exact => str_eq(candidate, query),
            SearchMode::Fuzzy => {
                let q = chars_of(query);
                let c = chars_of(candidate);
                let mut k: usize = 0;
                let mut p: usize = 0;
                let ghost mut at: Seq<int> = Seq::empty();
                while k < q.len()
                    invariant
                        k <= q.len(),
                        p <= c.len(),
                        self == SearchMode::Fuzzy,
                        q@ == query@,
                        c@ == candidate@,
                        is_embedding(q@.take(k as int), c@, at),
                        k > 0 ==> at[k - 1] == p - 1,
                        k == 0 ==> p == 0,
                        forall|g: Seq<int>|
                            k > 0 && #[trigger] is_embedding(q@.take(k as int), c@, g) ==> g[k - 1]
                                >= p - 1,
                    decreases q.len() - k,
                {
                    let wanted = q[k];
                    let mut j: usize = p;
                    while j < c.len() && c[j] != wanted
                        invariant
                            p <= j <= c.len(),
                            forall|t: int| p <= t < j ==> c@[t] != wanted,
                        decreases c.len() - j,
                    {
                        j += 1;
                    }
                    if j >= c.len() {
                        proof {
                            if is_subsequence(q@, c@) {
                                let g = choose|g: Seq<int>| is_embedding(q@, c@, g);
                                lemma_embedding_prefix(q@, c@, g, k as int);
                                assert(g.take(k as int).len() == k);
                                if k > 0 {
                                    assert(g.take(k as int)[k - 1] == g[k - 1]);
                                    assert(g[k - 1] < g[k as int]);
                                }
                                assert(p <= g[k as int] < c@.len());
                                assert(c@[g[k as int]] == q@[k as int]);
                            }
                        }
                        return false;
                    }
                    proof {
                        let ghost next = at.push(j as int);
                        let ghost head = q@.take(k + 1);
                        assert forall|i: int| 0 <= i < next.len() implies 0 <= #[trigger] next[i]
                            < c@.len() && c@[next[i]] == head[i] by {
                            if i < k {
                                assert(next[i] == at[i]);
                                assert(head[i] == q@.take(k as int)[i]);
                            }
                        }
                        assert forall|i: int, l: int| 0 <= i < l < next.len() implies next[i]
                            < next[l] by {
                            if l == k {
                                assert(next[i] == at[i]);
                                if i < k - 1 {
                                    assert(at[i] < at[k - 1]);
                                }
                            }
                        }
                        assert forall|g: Seq<int>| #[trigger] is_embedding(head, c@, g) implies g[k
                            as int] >= j by {
                            lemma_embedding_prefix(head, c@, g, k as int);
                            assert(head.take(k as int) =~= q@.take(k as int));
                            assert(is_embedding(q@.take(k as int), c@, g.take(k as int)));
                            assert(g.take(k as int).len() == k);
                            if k > 0 {
                                assert(g.take(k as int)[k - 1] == g[k - 1]);
                                assert(g[k - 1] < g[k as int]);
                            }
                            assert(c@[g[k as int]] == head[k as int]);
                        }
                        at = next;
                    }
                    p = j + 1;
                    k += 1;
                }
                proof {
                    assert(q@.take(k as int) =~= q@);
                }
                true
            },
        }
    }
}

/// Position of the first `wanted` in `text`, or the length of `text` where there is none.
pub open spec fn first_position(text: Seq<char>, wanted: char) -> int
    decreases text.len(),
{
    if text.len() == 0 {
        0
    } else if text[0] == wanted {
        0
    } else {
        1 + first_position(text.drop_first(), wanted)
    }
}

/// The fuzzy scan, step by step: the first character of the query is looked for in the
/// candidate, and the rest of the query is looked for behind the place where it was found.
pub open spec fn scans_through(query: Seq<char>, candidate: Seq<char>) -> bool
    decreases query.len(),
{
    if query.len() == 0 {
        true
    } else {
        let at = first_position(candidate, query[0]);
        at < candidate.len() && scans_through(query.drop_first(), candidate.skip(at + 1))
    }
}

proof fn lemma_first_position(text: Seq<char>, wanted: char)
    ensures
        0 <= first_position(text, wanted) <= text.len(),
        first_position(text, wanted) < text.len() ==> text[first_position(text, wanted)]
            == wanted,
        forall|i: int| 0 <= i < first_position(text, wanted) ==> text[i] != wanted,
    decreases text.len(),
{
    if text.len() > 0 && text[0] != wanted {
        lemma_first_position(text.drop_first(), wanted);
        let rest = first_position(text.drop_first(), wanted);
        assert forall|i: int| 0 <= i < 1 + rest implies text[i] != wanted by {
            if i > 0 {
                assert(text.drop_first()[i - 1] == text[i]);
            }
        }
    }
}

/// The fuzzy scan finds the query exactly where the characters of the query occur in the
/// candidate in the same order: to step behind the first place where a character is found
/// loses no match.
pub proof fn lemma_scan_finds_subsequences(query: Seq<char>, candidate: Seq<char>)
    ensures
        scans_through(query, candidate) <==> is_subsequence(query, candidate),
    decreases query.len(),
{
    if query.len() == 0 {
        assert(is_embedding(query, candidate, Seq::<int>::empty()));
    } else {
        let at = first_position(candidate, query[0]);
        let rest = candidate.skip(at + 1);
        let tail = query.drop_first();
        lemma_first_position(candidate, query[0]);
        lemma_scan_finds_subsequences(tail, rest);
        if scans_through(query, candidate) {
            let inner = choose|g: Seq<int>| is_embedding(tail, rest, g);
            let outer = Seq::new(query.len(), |i: int| if i == 0 { at } else { inner[i - 1] + at + 1 });
            assert forall|i: int| 0 <= i < outer.len() implies 0 <= #[trigger] outer[i]
                < candidate.len() && candidate[outer[i]] == query[i] by {
                if i > 0 {
                    assert(0 <= inner[i - 1] < rest.len());
                    assert(rest[inner[i - 1]] == tail[i - 1]);
                }
            }
            assert forall|i: int, j: int| 0 <= i < j < outer.len() implies outer[i]
                < outer[j] by {
                assert(0 <= inner[j - 1]);
                if i > 0 {
                    assert(inner[i - 1] < inner[j - 1]);
                }
            }
            assert(is_embedding(query, candidate, outer));
        }
        if is_subsequence(query, candidate) {
            let outer = choose|g: Seq<int>| is_embedding(query, candidate, g);
            assert(0 <= outer[0] < candidate.len() && candidate[outer[0]] == query[0]);
            assert(at <= outer[0]);
            let inner = Seq::new(tail.len(), |i: int| outer[i + 1] - at - 1);
            assert forall|i: int| 0 <= i < inner.len() implies 0 <= #[trigger] inner[i]
                < rest.len() && rest[inner[i]] == tail[i] by {
                assert(outer[0] < outer[i + 1]);
                assert(0 <= outer[i + 1] < candidate.len());
                assert(candidate[outer[i + 1]] == query[i + 1]);
            }
            assert forall|i: int, j: int| 0 <= i < j < inner.len() implies inner[i]
                < inner[j] by {
                assert(outer[i + 1] < outer[j + 1]);
            }
            assert(is_embedding(tail, rest, inner));
            assert(scans_through(query, candidate));
        }
    }
}

/// An exact match is always a fuzzy match too.
pub proof fn lemma_exact_implies_fuzzy(query: Seq<char>, candidate: Seq<char>)
    ensures
        SearchMode::Exact.matches(query, candidate) ==> SearchMode::Fuzzy.matches(
            query,
            candidate,
        ),
{
    if candidate == query {
        let at = Seq::new(query.len(), |i: int| i);
        assert(is_embedding(query, candidate, at));
    }
}

} // verus!
