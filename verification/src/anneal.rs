//! Simulated annealing over a single candidate layout, as a step machine:
//! the caller draws the two slots to swap and the Metropolis acceptance coin
//! (whose probability involves the temperature schedule) and hands them in;
//! the machine does everything else and guarantees the best-tracking law:
//! the best layout's score never drops, starts at the initial layout's
//! score, and the best layout is only ever replaced by a strictly better
//! candidate.

use vstd::prelude::*;

use crate::intuition::intuitions_wf;
use crate::intuition::Intuition;
use crate::keyboard::KeymapConfig;
use crate::keys::Key;
use crate::layout::lemma_wf_from_multiset;
use crate::layout::swapped;
use crate::layout::Layout;
use crate::score::layout_score;
use crate::score::spec_layout_score;
use crate::stats::Stats;

verus! {

/// Sequences with the same key multiset assign the same key set.
pub proof fn lemma_contains_from_multiset(s1: Seq<Key>, s2: Seq<Key>)
    requires
        s2.to_multiset() == s1.to_multiset(),
    ensures
        forall|k: Key| s1.contains(k) <==> s2.contains(k),
{
    broadcast use vstd::seq_lib::group_to_multiset_ensures;

    assert forall|k: Key| s1.contains(k) <==> s2.contains(k) by {
        if s1.contains(k) {
            assert(s1.to_multiset().count(k) > 0);
            assert(s2.to_multiset().count(k) > 0);
        }
        if s2.contains(k) {
            assert(s2.to_multiset().count(k) > 0);
            assert(s1.to_multiset().count(k) > 0);
        }
    }
}

/// A constraint whose keys a sequence assigns is satisfied by any
/// permutation of that sequence's keys, as far as well-formedness goes.
pub proof fn lemma_intuition_wf_from_multiset(
    ins: Intuition,
    s1: Seq<Key>,
    s2: Seq<Key>,
    config: KeymapConfig,
)
    requires
        ins.wf(s1, config),
        s2.to_multiset() == s1.to_multiset(),
        s2.len() == s1.len(),
    ensures
        ins.wf(s2, config),
    decreases ins,
{
    lemma_contains_from_multiset(s1, s2);
    match ins {
        Intuition::Or(a, b) => {
            lemma_intuition_wf_from_multiset(*a, s1, s2, config);
            lemma_intuition_wf_from_multiset(*b, s1, s2, config);
        },
        Intuition::And(a, b) => {
            lemma_intuition_wf_from_multiset(*a, s1, s2, config);
            lemma_intuition_wf_from_multiset(*b, s1, s2, config);
        },
        _ => {},
    }
}

/// Every constraint of a set stays well formed under a permutation of the
/// key assignment.
pub proof fn lemma_intuitions_wf_from_multiset(
    intuitions: Seq<Intuition>,
    s1: Seq<Key>,
    s2: Seq<Key>,
    config: KeymapConfig,
)
    requires
        intuitions_wf(intuitions, s1, config),
        s2.to_multiset() == s1.to_multiset(),
        s2.len() == s1.len(),
    ensures
        intuitions_wf(intuitions, s2, config),
{
    assert forall|i: int| 0 <= i < intuitions.len() implies (#[trigger] intuitions[i]).wf(
        s2,
        config,
    ) by {
        lemma_intuition_wf_from_multiset(intuitions[i], s1, s2, config);
    }
}

/// One annealing walk: the candidate under consideration, the best layout
/// seen so far, their scores, and (as ghost state) the score the walk
/// started from.
pub struct Annealer {
    pub current: Layout,
    pub current_score: u128,
    pub best: Layout,
    pub best_score: u128,
    pub initial: Ghost<Seq<Key>>,
    pub initial_score: Ghost<u128>,
}

impl Annealer {
    /// The walk's invariant: both layouts are permutations of the initial
    /// key assignment, both recorded scores are the true fitness of their
    /// layouts, and the best score never falls below the initial score.
    pub open spec fn wf(
        self,
        stats: Stats,
        config: KeymapConfig,
        intuitions: Seq<Intuition>,
    ) -> bool {
        &&& config.wf()
        &&& intuitions.len() <= 0xFFFF_FFFF
        &&& self.current.wf()
        &&& self.best.wf()
        &&& self.current@.len() == config.keys.0@.len()
        &&& self.best@.len() == config.keys.0@.len()
        &&& self.current@.to_multiset() == self.initial@.to_multiset()
        &&& self.best@.to_multiset() == self.initial@.to_multiset()
        &&& intuitions_wf(intuitions, self.current@, config)
        &&& intuitions_wf(intuitions, self.best@, config)
        &&& self.current_score as int == spec_layout_score(self.current@, stats, config, intuitions)
        &&& self.best_score as int == spec_layout_score(self.best@, stats, config, intuitions)
        &&& self.best_score >= self.initial_score@
    }

    /// Start a walk at `initial`: current and best are the initial layout,
    /// and the initial score is recorded.
    pub fn new(
        initial: Layout,
        stats: &Stats,
        config: &KeymapConfig,
        intuitions: &Vec<Intuition>,
    ) -> (walk: Annealer)
        requires
            config.wf(),
            initial.wf(),
            initial@.len() == config.keys.0@.len(),
            intuitions_wf(intuitions@, initial@, *config),
            intuitions@.len() <= 0xFFFF_FFFFusize,
        ensures
            walk.wf(*stats, *config, intuitions@),
            walk.initial@ == initial@,
            walk.initial_score@ as int == spec_layout_score(
                initial@,
                *stats,
                *config,
                intuitions@,
            ),
            walk.current@ == initial@,
            walk.best@ == initial@,
            walk.best_score == walk.initial_score@,
    {
        let score = layout_score(&initial, stats, config, intuitions);
        let best = initial.duplicate();
        Annealer {
            initial: Ghost(initial@),
            initial_score: Ghost(score),
            current: initial,
            current_score: score,
            best,
            best_score: score,
        }
    }

    /// The fitness the current layout would have after swapping slots `i`
    /// and `j` - the score of the next candidate, for the caller to turn
    /// into an acceptance probability.
    pub fn propose(
        &self,
        i: usize,
        j: usize,
        stats: &Stats,
        config: &KeymapConfig,
        intuitions: &Vec<Intuition>,
    ) -> (cand_score: u128)
        requires
            self.wf(*stats, *config, intuitions@),
            i < self.current@.len(),
            j < self.current@.len(),
        ensures
            cand_score as int == spec_layout_score(
                swapped(self.current@, i as int, j as int),
                *stats,
                *config,
                intuitions@,
            ),
    {
        let mut cand = self.current.duplicate();
        cand.swap(i, j);
        proof {
            lemma_wf_from_multiset(self.current@, cand@);
            lemma_intuitions_wf_from_multiset(intuitions@, self.current@, cand@, *config);
        }
        layout_score(&cand, stats, config, intuitions)
    }

    /// One annealing step: consider the layout with slots `i` and `j`
    /// swapped; record it as best when it strictly beats the best; move to
    /// it when it strictly beats the current layout or `accept_worse` says
    /// to take it anyway.  The best score never drops.
    pub fn step(
        &mut self,
        i: usize,
        j: usize,
        accept_worse: bool,
        stats: &Stats,
        config: &KeymapConfig,
        intuitions: &Vec<Intuition>,
    )
        requires
            old(self).wf(*stats, *config, intuitions@),
            i < old(self).current@.len(),
            j < old(self).current@.len(),
        ensures
            final(self).wf(*stats, *config, intuitions@),
            final(self).initial == old(self).initial,
            final(self).initial_score == old(self).initial_score,
            final(self).best_score >= old(self).best_score,
            ({
                let cand = swapped(old(self).current@, i as int, j as int);
                let cand_score = spec_layout_score(cand, *stats, *config, intuitions@);
                &&& final(self).best_score as int == (if cand_score > old(self).best_score as int {
                    cand_score
                } else {
                    old(self).best_score as int
                })
                &&& final(self).best@ == (if cand_score > old(self).best_score as int {
                    cand
                } else {
                    old(self).best@
                })
                &&& final(self).current@ == (if cand_score > old(self).current_score as int
                    || accept_worse {
                    cand
                } else {
                    old(self).current@
                })
                &&& final(self).current_score as int == (if cand_score > old(
                    self,
                ).current_score as int || accept_worse {
                    cand_score
                } else {
                    old(self).current_score as int
                })
            }),
    {
        let mut cand = self.current.duplicate();
        cand.swap(i, j);
        proof {
            lemma_wf_from_multiset(self.current@, cand@);
            lemma_intuitions_wf_from_multiset(intuitions@, self.current@, cand@, *config);
        }
        let cand_score = layout_score(&cand, stats, config, intuitions);
        if cand_score > self.best_score {
            self.best = cand.duplicate();
            self.best_score = cand_score;
        }
        if cand_score > self.current_score || accept_worse {
            self.current = cand;
            self.current_score = cand_score;
        }
    }
}

/// Law: across any annealing run, the best layout's score is the true
/// fitness of the best layout, and it never falls below the fitness the
/// walk's initial layout had.
pub proof fn lemma_annealing_best_tracking(
    walk: Annealer,
    stats: Stats,
    config: KeymapConfig,
    intuitions: Seq<Intuition>,
)
    requires
        walk.wf(stats, config, intuitions),
    ensures
        walk.best_score as int == spec_layout_score(walk.best@, stats, config, intuitions),
        walk.best_score >= walk.initial_score@,
{
}

} // verus!
