//! The bounded selector: consumes the candidate stream while keeping at most
//! `limit` descriptors, replacing the first member that scores the tracked
//! minimum whenever a better-scoring candidate arrives.
//!
//! The working set uses memory proportional to `limit` alone, however long
//! the stream is. The replacement step swaps only the first member whose
//! score equals the tracked minimum and recomputes the minimum over the
//! updated set; when several members tie at the minimum, the others stay.
//! This is a deliberate single-pass approximation, not an exact top-K.

use vstd::prelude::*;
use crate::errors::TriageError;
use crate::video::Video;

verus! {

/// The scores of a run of descriptors.
pub open spec fn scores(s: Seq<Video>) -> Seq<int> {
    s.map_values(|v: Video| v.spec_score())
}

/// Every descriptor of the run has a positive duration, so it has a score.
pub open spec fn all_scored(s: Seq<Video>) -> bool {
    forall|i: int| 0 <= i < s.len() ==> (#[trigger] s[i]).has_score()
}

/// `i` is the first position of `s` scoring exactly `m`.
pub open spec fn is_first_min(s: Seq<Video>, m: int, i: int) -> bool {
    &&& 0 <= i < s.len()
    &&& s[i].spec_score() == m
    &&& forall|j: int| 0 <= j < i ==> (#[trigger] s[j]).spec_score() != m
}

/// A value that is a member of `s` and a lower bound of `s` is its minimum.
proof fn lemma_min_unique(s: Seq<int>, m: int)
    requires
        s.len() > 0,
        exists|i: int| 0 <= i < s.len() && s[i] == m,
        forall|i: int| 0 <= i < s.len() ==> m <= #[trigger] s[i],
    ensures
        s.min() == m,
{
    s.min_ensures();
    let i = choose|i: int| 0 <= i < s.len() && s[i] == m;
    assert(s.min() <= s[i]);
    assert(s.contains(s.min()));
    let j = choose|j: int| 0 <= j < s.len() && s[j] == s.min();
    assert(m <= s[j]);
}

/// The bounded working set: at most `limit` candidates, the minimum score
/// among them, and a count of every candidate seen.
pub struct Selector {
    pub limit: usize,
    pub list: Vec<Video>,
    pub min_score: u64,
    pub total: u64,
    /// The whole candidate stream seen so far, for specification only.
    pub offered: Ghost<Seq<Video>>,
    /// Every value the tracked minimum has held since the set first
    /// filled, one entry per candidate seen from then on; for
    /// specification only.
    pub min_history: Ghost<Seq<int>>,
}

impl Selector {
    pub open spec fn wf(&self) -> bool {
        &&& self.limit >= 1
        &&& all_scored(self.list@)
        &&& all_scored(self.offered@)
        &&& self.total == self.offered@.len()
        &&& self.list@.len() == if self.offered@.len() <= self.limit {
            self.offered@.len() as int
        } else {
            self.limit as int
        }
        &&& (self.offered@.len() <= self.limit ==> self.list@ == self.offered@)
        &&& (self.list@.len() > 0 ==> self.min_score as int == scores(self.list@).min())
        &&& (forall|i: int|
            0 <= i < self.list@.len() ==> self.offered@.contains(#[trigger] self.list@[i]))
        &&& (self.list@.len() < self.limit ==> self.min_history@.len() == 0)
        &&& (forall|k: int|
            0 <= k < self.min_history@.len() ==> #[trigger] self.min_history@[k]
                <= self.min_score)
    }

    /// An empty working set with the given capacity.
    pub fn new(limit: usize) -> (r: Selector)
        requires
            limit >= 1,
        ensures
            r.wf(),
            r.limit == limit,
            r.total == 0,
            r.list@ == Seq::<Video>::empty(),
            r.offered@ == Seq::<Video>::empty(),
            r.min_history@ == Seq::<int>::empty(),
    {
        Selector {
            limit,
            list: Vec::new(),
            min_score: 0,
            total: 0,
            offered: Ghost(Seq::empty()),
            min_history: Ghost(Seq::empty()),
        }
    }

    /// Feeds the next candidate of the stream to the working set.
    ///
    /// While the set is not full the candidate is appended. Once full, a
    /// candidate scoring no more than the tracked minimum is dropped; a
    /// better-scoring one replaces the first member that scores the minimum,
    /// and the minimum is recomputed over the updated set — it never
    /// decreases from then on.
    pub fn offer(&mut self, v: Video)
        requires
            old(self).wf(),
            v.has_score(),
            old(self).total < u64::MAX,
        ensures
            final(self).wf(),
            final(self).limit == old(self).limit,
            final(self).total == old(self).total + 1,
            final(self).offered@ == old(self).offered@.push(v),
            old(self).list@.len() < old(self).limit ==> final(self).list@ == old(self).list@.push(
                v,
            ),
            old(self).list@.len() == old(self).limit && v.spec_score() <= old(self).min_score
                ==> final(self).list@ == old(self).list@,
            old(self).list@.len() == old(self).limit && v.spec_score() > old(self).min_score
                ==> exists|i: int|
                #![trigger old(self).list@.update(i, v)]
                {
                    &&& is_first_min(old(self).list@, old(self).min_score as int, i)
                    &&& final(self).list@ == old(self).list@.update(i, v)
                },
            old(self).list@.len() == old(self).limit ==> final(self).min_score >= old(
                self,
            ).min_score,
            final(self).list@.len() == final(self).limit ==> final(self).min_history@ == old(
                self,
            ).min_history@.push(final(self).min_score as int),
            final(self).list@.len() < final(self).limit ==> final(self).min_history@ == old(
                self,
            ).min_history@,
    {
        self.offered = Ghost(self.offered@.push(v));
        self.total = self.total + 1;
        let score = v.size_per_second();
        let ghost l = self.list@;
        let ghost m = self.min_score as int;
        let n = self.list.len();
        if n < self.limit {
            if n == 0 || score < self.min_score {
                self.min_score = score;
            }
            self.list.push(v);
            if self.list.len() == self.limit {
                self.min_history = Ghost(self.min_history@.push(self.min_score as int));
            }
            proof {
                let l2 = self.list@;
                assert(scores(l2) =~= scores(l).push(v.spec_score()));
                if l.len() == 0 {
                    assert(scores(l2)[0] == v.spec_score());
                    lemma_min_unique(scores(l2), v.spec_score());
                } else {
                    scores(l).min_ensures();
                    if v.spec_score() < m {
                        assert(scores(l2)[l.len() as int] == v.spec_score());
                        assert forall|i: int| 0 <= i < scores(l2).len() implies v.spec_score()
                            <= scores(l2)[i] by {
                            if i < l.len() {
                                assert(scores(l2)[i] == scores(l)[i]);
                            }
                        }
                        lemma_min_unique(scores(l2), v.spec_score());
                    } else {
                        assert(scores(l).contains(m));
                        let j = choose|j: int| 0 <= j < scores(l).len() && scores(l)[j] == m;
                        assert(scores(l2)[j] == m);
                        assert forall|i: int| 0 <= i < scores(l2).len() implies m <= scores(
                            l2,
                        )[i] by {
                            if i < l.len() {
                                assert(scores(l2)[i] == scores(l)[i]);
                            }
                        }
                        lemma_min_unique(scores(l2), m);
                    }
                }
                assert(all_scored(l2)) by {
                    assert(forall|i: int| 0 <= i < l.len() ==> l2[i] == l[i]);
                }
                assert(all_scored(self.offered@)) by {
                    assert(forall|i: int|
                        0 <= i < old(self).offered@.len() ==> self.offered@[i] == old(
                            self,
                        ).offered@[i]);
                }
                assert forall|i: int| 0 <= i < l2.len() implies self.offered@.contains(
                    #[trigger] l2[i],
                ) by {
                    assert(self.offered@[i] == l2[i]);
                }
            }
        } else {
            if score <= self.min_score {
                self.min_history = Ghost(self.min_history@.push(self.min_score as int));
                proof {
                    assert(self.offered@.len() > self.limit);
                    assert(all_scored(self.offered@)) by {
                        assert(forall|i: int|
                            0 <= i < old(self).offered@.len() ==> self.offered@[i] == old(
                                self,
                            ).offered@[i]);
                    }
                    assert forall|i: int| 0 <= i < l.len() implies self.offered@.contains(
                        #[trigger] l[i],
                    ) by {
                        let j = choose|j: int|
                            0 <= j < old(self).offered@.len() && old(self).offered@[j] == l[i];
                        assert(self.offered@[j] == l[i]);
                    }
                }
                return ;
            }
            let mut new_min: u64 = score;
            let mut found: Option<usize> = None;
            let mut k: usize = 0;
            while k < n
                invariant
                    n == self.list@.len(),
                    self.list@ == l,
                    all_scored(l),
                    0 < n,
                    k <= n,
                    m == self.min_score as int,
                    score == v.spec_score(),
                    score > self.min_score,
                    new_min <= score,
                    found is None ==> forall|j: int|
                        0 <= j < k ==> (#[trigger] l[j]).spec_score() != m,
                    found is None ==> forall|j: int|
                        0 <= j < k ==> new_min as int <= (#[trigger] l[j]).spec_score(),
                    found is None ==> (new_min == score || exists|j: int|
                        0 <= j < k && new_min as int == (#[trigger] l[j]).spec_score()),
                    found matches Some(fi) ==> {
                        &&& 0 <= fi < k
                        &&& l[fi as int].spec_score() == m
                        &&& forall|j: int| 0 <= j < fi ==> (#[trigger] l[j]).spec_score() != m
                        &&& forall|j: int|
                            0 <= j < k && j != fi ==> new_min as int <= (
                            #[trigger] l[j]).spec_score()
                        &&& (new_min == score || exists|j: int|
                            0 <= j < k && j != fi && new_min as int == (
                            #[trigger] l[j]).spec_score())
                    },
                decreases n - k,
            {
                let sk = self.list[k].size_per_second();
                if found.is_none() && sk == self.min_score {
                    found = Some(k);
                } else {
                    if sk < new_min {
                        new_min = sk;
                    }
                }
                k = k + 1;
            }
            proof {
                scores(l).min_ensures();
                assert(scores(l).contains(m));
                let j = choose|j: int| 0 <= j < scores(l).len() && scores(l)[j] == m;
                assert(l[j].spec_score() == m);
                if found is None {
                    assert(false);
                }
            }
            let fi: usize = match found {
                Some(x) => x,
                None => 0,
            };
            self.list[fi] = v;
            self.min_score = new_min;
            self.min_history = Ghost(self.min_history@.push(self.min_score as int));
            proof {
                let l2 = self.list@;
                assert(l2 == l.update(fi as int, v));
                assert(scores(l2) =~= scores(l).update(fi as int, v.spec_score()));
                scores(l).min_ensures();
                assert forall|i: int| 0 <= i < scores(l2).len() implies new_min as int <= scores(
                    l2,
                )[i] by {
                    if i == fi {
                        assert(scores(l2)[i] == v.spec_score());
                    } else {
                        assert(scores(l2)[i] == l[i].spec_score());
                    }
                }
                if new_min == score {
                    assert(scores(l2)[fi as int] == new_min as int);
                } else {
                    let w = choose|w: int|
                        0 <= w < n && w != fi && new_min as int == l[w].spec_score();
                    assert(scores(l2)[w] == new_min as int);
                }
                lemma_min_unique(scores(l2), new_min as int);
                // the recomputed minimum never drops below the old one
                assert(new_min as int >= m) by {
                    if new_min != score {
                        let w = choose|w: int|
                            0 <= w < n && w != fi && new_min as int == l[w].spec_score();
                        assert(scores(l)[w] == new_min as int);
                    }
                }
                assert(all_scored(l2)) by {
                    assert(forall|i: int| 0 <= i < l.len() && i != fi ==> l2[i] == l[i]);
                    assert(l2[fi as int] == v);
                }
                assert(all_scored(self.offered@)) by {
                    assert(forall|i: int|
                        0 <= i < old(self).offered@.len() ==> self.offered@[i] == old(
                            self,
                        ).offered@[i]);
                }
                assert(self.offered@.len() > self.limit);
                assert forall|i: int| 0 <= i < l2.len() implies self.offered@.contains(
                    #[trigger] l2[i],
                ) by {
                    if i == fi {
                        assert(self.offered@[self.offered@.len() - 1] == v);
                    } else {
                        let w = choose|w: int|
                            0 <= w < old(self).offered@.len() && old(self).offered@[w] == l[i];
                        assert(self.offered@[w] == l[i]);
                    }
                }
                assert(is_first_min(l, m, fi as int));
            }
        }
    }

    /// Hands the final working set and the total candidate count to the
    /// executor. A run that selected nothing is a run-level failure.
    pub fn finish(self) -> (r: Result<(Vec<Video>, u64), TriageError>)
        ensures
            self.list@.len() == 0 ==> (r matches Err(e) && e == TriageError::EmptyCorpus),
            self.list@.len() > 0 ==> (r matches Ok(p) && p.0@ == self.list@ && p.1 == self.total),
    {
        if self.list.len() == 0 {
            Err(TriageError::EmptyCorpus)
        } else {
            Ok((self.list, self.total))
        }
    }
}

/// Law: a candidate stream with fewer members than the capacity is kept
/// whole — the working set is exactly the stream seen so far.
pub proof fn lemma_short_stream_kept_whole(s: &Selector)
    requires
        s.wf(),
        s.offered@.len() <= s.limit,
    ensures
        s.list@ == s.offered@,
{
}

/// Law: every member of the working set scores at least the tracked
/// minimum. Together with `offer`'s guarantee that the tracked minimum
/// never decreases once the set is full, every member of the final set
/// scores at least any minimum the set ever had from that point on.
pub proof fn lemma_members_score_at_least_min(s: &Selector)
    requires
        s.wf(),
        s.list@.len() > 0,
    ensures
        forall|i: int|
            0 <= i < s.list@.len() ==> s.min_score as int <= (#[trigger] s.list@[i]).spec_score(),
{
    scores(s.list@).min_ensures();
    assert forall|i: int| 0 <= i < s.list@.len() implies s.min_score as int <= (
    #[trigger] s.list@[i]).spec_score() by {
        assert(scores(s.list@)[i] == s.list@[i].spec_score());
    }
}

/// Law, the stream-wide form of the last two: once the set first fills,
/// the tracked minimum never decreases, and every member of the working
/// set scores at least every value the minimum has held since — not only
/// the current one.
pub proof fn lemma_members_score_at_least_every_min(s: &Selector)
    requires
        s.wf(),
        s.list@.len() > 0,
    ensures
        forall|k: int, i: int|
            0 <= k < s.min_history@.len() && 0 <= i < s.list@.len()
                ==> (#[trigger] s.min_history@[k]) <= (#[trigger] s.list@[i]).spec_score(),
{
    lemma_members_score_at_least_min(s);
}

} // verus!
