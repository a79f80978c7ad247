//! One generation of population evolution, and the best-layout grid for
//! persistence.  The generation policy: sort the population by fitness,
//! keep the top quarter unchanged, fill the next quarter with mutated
//! crossover children of the survivors, and replace the lower half with
//! freshly generated random layouts to escape local optima.  The returned
//! population leads with its fittest member.

use vstd::prelude::*;

use crate::anneal::lemma_intuitions_wf_from_multiset;
use crate::intuition::intuitions_wf;
use crate::intuition::Intuition;
use crate::keyboard::KeymapConfig;
use crate::keys::Key;
use crate::layout::seed_keys;
use crate::layout::sim_matches_from;
use crate::layout::Layout;
use crate::score::layout_score;
use crate::score::spec_layout_score;
use crate::stats::Stats;

verus! {

/// The largest population a generation step accepts: keeps the exact sum
/// of all fitness values inside 128 bits.
pub const MAX_POPULATION: usize = 65536;

/// A layout that may take part in evolution for `config`: well formed, one
/// key per slot, and a permutation of the seed key set.
pub open spec fn is_population_member(layout: Layout, config: KeymapConfig) -> bool {
    &&& layout.wf()
    &&& layout@.len() == config.keys.0@.len()
    &&& layout@.no_duplicates()
    &&& layout@.to_multiset() == seed_keys(config).to_multiset()
}

/// Per-generation observability: the fitness spread of the population that
/// went in, and how alike the returned population is to its best member.
pub struct GenStats {
    pub max: u128,
    pub min: u128,
    pub total: u128,
    pub diversity_matches: u64,
    pub diversity_total: u64,
}

/// The sum of the fitness of the members from index `i` on.
pub open spec fn sum_scores_from(
    population: Seq<Layout>,
    stats: Stats,
    config: KeymapConfig,
    intuitions: Seq<Intuition>,
    i: int,
) -> int
    decreases population.len() - i,
{
    if i < 0 || i >= population.len() {
        0
    } else {
        spec_layout_score(population[i]@, stats, config, intuitions) + sum_scores_from(
            population,
            stats,
            config,
            intuitions,
            i + 1,
        )
    }
}

/// The summed similarity matches of `best` against the members from index
/// `i` on.
pub open spec fn sum_sim_from(best: Seq<Key>, population: Seq<Layout>, i: int) -> int
    decreases population.len() - i,
{
    if i < 0 || i >= population.len() {
        0
    } else {
        sim_matches_from(best, population[i]@, 0) + sum_sim_from(best, population, i + 1)
    }
}

/// Run one generation: selection by fitness, crossover with mutation among
/// the survivors, and diversification by random layouts over the lower
/// half.  Every member of the result is a permutation of the seed key set,
/// and the member in front is a fittest member of the result.
pub fn evolve(
    population: &Vec<Layout>,
    stats: &Stats,
    config: &KeymapConfig,
    intuitions: &Vec<Intuition>,
    mutation_rate_num: u32,
    mutation_rate_den: u32,
) -> (result: (Vec<Layout>, GenStats))
    requires
        config.wf(),
        0 < population@.len() <= MAX_POPULATION,
        forall|k: int|
            0 <= k < population@.len() ==> is_population_member(
                #[trigger] population@[k],
                *config,
            ),
        intuitions_wf(intuitions@, seed_keys(*config), *config),
        intuitions@.len() <= 0xFFFF_FFFFusize,
        0 < mutation_rate_den,
        mutation_rate_num <= mutation_rate_den,
    ensures
        result.0@.len() == population@.len(),
        forall|k: int|
            0 <= k < result.0@.len() ==> is_population_member(#[trigger] result.0@[k], *config),
        forall|k: int|
            0 <= k < result.0@.len() ==> spec_layout_score(
                result.0@[0]@,
                *stats,
                *config,
                intuitions@,
            ) >= spec_layout_score((#[trigger] result.0@[k])@, *stats, *config, intuitions@),
        forall|k: int|
            0 <= k < population@.len() ==> result.1.max as int >= spec_layout_score(
                (#[trigger] population@[k])@,
                *stats,
                *config,
                intuitions@,
            ),
        exists|k: int|
            0 <= k < population@.len() && result.1.max as int == spec_layout_score(
                (#[trigger] population@[k])@,
                *stats,
                *config,
                intuitions@,
            ),
        forall|k: int|
            0 <= k < population@.len() ==> result.1.min as int <= spec_layout_score(
                (#[trigger] population@[k])@,
                *stats,
                *config,
                intuitions@,
            ),
        exists|k: int|
            0 <= k < population@.len() && result.1.min as int == spec_layout_score(
                (#[trigger] population@[k])@,
                *stats,
                *config,
                intuitions@,
            ),
        result.1.total as int == sum_scores_from(
            population@,
            *stats,
            *config,
            intuitions@,
            0,
        ),
        result.1.diversity_matches as int == sum_sim_from(result.0@[0]@, result.0@, 0),
        result.1.diversity_total as int == 2 * config.keys.0@.len() * population@.len(),
{
    let n = population.len();
    let ghost pop = population@;

    // fitness of every member
    let mut scores: Vec<u128> = Vec::new();
    let mut k: usize = 0;
    while k < n
        invariant
            0 <= k <= n,
            pop == population@,
            n == pop.len(),
            0 < n <= MAX_POPULATION,
            config.wf(),
            intuitions_wf(intuitions@, seed_keys(*config), *config),
            intuitions@.len() <= 0xFFFF_FFFFusize,
            forall|t: int| 0 <= t < n ==> is_population_member(#[trigger] pop[t], *config),
            scores@.len() == k,
            forall|t: int|
                0 <= t < k ==> (#[trigger] scores@[t]) as int == spec_layout_score(
                    pop[t]@,
                    *stats,
                    *config,
                    intuitions@,
                ),
            forall|t: int|
                0 <= t < k ==> (#[trigger] scores@[t]) as int
                    <= 3000000000000000000000000000000int,
        decreases n - k,
    {
        proof {
            lemma_intuitions_wf_from_multiset(
                intuitions@,
                seed_keys(*config),
                population@[k as int]@,
                *config,
            );
        }
        let s = layout_score(&population[k], stats, config, intuitions);
        scores.push(s);
        k = k + 1;
    }

    // fitness spread of the incoming population
    let mut max: u128 = scores[0];
    let mut min: u128 = scores[0];
    let mut total: u128 = 0;
    let mut k2: usize = 0;
    while k2 < n
        invariant
            0 <= k2 <= n,
            pop == population@,
            n == pop.len(),
            0 < n <= MAX_POPULATION,
            scores@.len() == n,
            forall|t: int|
                0 <= t < n ==> (#[trigger] scores@[t]) as int == spec_layout_score(
                    pop[t]@,
                    *stats,
                    *config,
                    intuitions@,
                ),
            forall|t: int|
                0 <= t < n ==> (#[trigger] scores@[t]) as int
                    <= 3000000000000000000000000000000int,
            forall|t: int| 0 <= t < k2 ==> max >= #[trigger] scores@[t],
            forall|t: int| 0 <= t < k2 ==> min <= #[trigger] scores@[t],
            exists|t: int| 0 <= t < n && max == scores@[t],
            exists|t: int| 0 <= t < n && min == scores@[t],
            total as int == sum_scores_from(pop, *stats, *config, intuitions@, 0)
                - sum_scores_from(pop, *stats, *config, intuitions@, k2 as int),
            total as int <= (k2 as int) * 3000000000000000000000000000000int,
        decreases n - k2,
    {
        if scores[k2] > max {
            max = scores[k2];
        }
        if scores[k2] < min {
            min = scores[k2];
        }
        total = total + scores[k2];
        k2 = k2 + 1;
    }

    // selection order: indices sorted by fitness, best first
    let mut order: Vec<usize> = Vec::new();
    let mut k3: usize = 0;
    while k3 < n
        invariant
            0 <= k3 <= n,
            order@.len() == k3,
            forall|t: int| 0 <= t < k3 ==> (#[trigger] order@[t]) == t,
        decreases n - k3,
    {
        order.push(k3);
        k3 = k3 + 1;
    }
    let mut s: usize = 0;
    while s < n
        invariant
            0 <= s <= n,
            pop == population@,
            n == pop.len(),
            0 < n <= MAX_POPULATION,
            scores@.len() == n,
            order@.len() == n,
            forall|t: int| 0 <= t < n ==> (#[trigger] order@[t]) < n,
            forall|p: int, q: int|
                0 <= p < s && p < q < n ==> scores@[order@[p] as int] >= scores@[order@[q] as int],
        decreases n - s,
    {
        let mut m: usize = s;
        let mut t: usize = s + 1;
        while t < n
            invariant
                s < t <= n,
                s <= m < n,
                s < n,
                scores@.len() == n,
                order@.len() == n,
                forall|u: int| 0 <= u < n ==> (#[trigger] order@[u]) < n,
                forall|u: int|
                    s <= u < t ==> scores@[order@[u] as int] <= scores@[order@[m as int] as int],
            decreases n - t,
        {
            if scores[order[t]] > scores[order[m]] {
                m = t;
            }
            t = t + 1;
        }
        let tmp = order[s];
        order[s] = order[m];
        order[m] = tmp;
        s = s + 1;
    }

    // survivors, crossover children, then random diversification
    let rand_count = n / 2;
    let remaining = n - rand_count;
    let s_count = (remaining + 1) / 2;
    let mut next: Vec<Layout> = Vec::new();
    let mut next_scores: Vec<u128> = Vec::new();
    let mut t2: usize = 0;
    while t2 < s_count
        invariant
            0 <= t2 <= s_count,
            s_count <= n,
            pop == population@,
            n == pop.len(),
            0 < n <= MAX_POPULATION,
            config.wf(),
            intuitions_wf(intuitions@, seed_keys(*config), *config),
            intuitions@.len() <= 0xFFFF_FFFFusize,
            scores@.len() == n,
            order@.len() == n,
            forall|u: int| 0 <= u < n ==> (#[trigger] order@[u]) < n,
            forall|u: int| 0 <= u < n ==> is_population_member(#[trigger] pop[u], *config),
            forall|u: int|
                0 <= u < n ==> (#[trigger] scores@[u]) as int == spec_layout_score(
                    pop[u]@,
                    *stats,
                    *config,
                    intuitions@,
                ),
            next@.len() == t2,
            next_scores@.len() == t2,
            forall|u: int|
                0 <= u < t2 ==> is_population_member(#[trigger] next@[u], *config),
            forall|u: int|
                0 <= u < t2 ==> (#[trigger] next_scores@[u]) as int == spec_layout_score(
                    next@[u]@,
                    *stats,
                    *config,
                    intuitions@,
                ),
        decreases s_count - t2,
    {
        let idx = order[t2];
        next.push(population[idx].duplicate());
        next_scores.push(scores[idx]);
        t2 = t2 + 1;
    }
    let fill_count = n - rand_count;
    while next.len() < fill_count
        invariant
            s_count <= next@.len() <= fill_count,
            fill_count <= n,
            0 < s_count,
            pop == population@,
            n == pop.len(),
            0 < n <= MAX_POPULATION,
            config.wf(),
            intuitions_wf(intuitions@, seed_keys(*config), *config),
            intuitions@.len() <= 0xFFFF_FFFFusize,
            0 < mutation_rate_den,
            mutation_rate_num <= mutation_rate_den,
            scores@.len() == n,
            order@.len() == n,
            forall|u: int| 0 <= u < n ==> (#[trigger] order@[u]) < n,
            forall|u: int| 0 <= u < n ==> is_population_member(#[trigger] pop[u], *config),
            next_scores@.len() == next@.len(),
            forall|u: int|
                0 <= u < next@.len() ==> is_population_member(#[trigger] next@[u], *config),
            forall|u: int|
                0 <= u < next@.len() ==> (#[trigger] next_scores@[u]) as int == spec_layout_score(
                    next@[u]@,
                    *stats,
                    *config,
                    intuitions@,
                ),
        decreases fill_count - next@.len(),
    {
        let pa = order[(next.len() - s_count) % s_count];
        let pb = order[(next.len() - s_count + 1) % s_count];
        let (mut first, mut second) = population[pa].crossover(&population[pb]);
        first.mutate(mutation_rate_num, mutation_rate_den);
        proof {
            lemma_intuitions_wf_from_multiset(intuitions@, seed_keys(*config), first@, *config);
        }
        let first_score = layout_score(&first, stats, config, intuitions);
        next.push(first);
        next_scores.push(first_score);
        if next.len() < fill_count {
            second.mutate(mutation_rate_num, mutation_rate_den);
            proof {
                lemma_intuitions_wf_from_multiset(
                    intuitions@,
                    seed_keys(*config),
                    second@,
                    *config,
                );
            }
            let second_score = layout_score(&second, stats, config, intuitions);
            next.push(second);
            next_scores.push(second_score);
        }
    }
    while next.len() < n
        invariant
            next_scores@.len() == next@.len() <= n,
            pop == population@,
            n == pop.len(),
            0 < n <= MAX_POPULATION,
            config.wf(),
            intuitions_wf(intuitions@, seed_keys(*config), *config),
            intuitions@.len() <= 0xFFFF_FFFFusize,
            forall|u: int|
                0 <= u < next@.len() ==> is_population_member(#[trigger] next@[u], *config),
            forall|u: int|
                0 <= u < next@.len() ==> (#[trigger] next_scores@[u]) as int == spec_layout_score(
                    next@[u]@,
                    *stats,
                    *config,
                    intuitions@,
                ),
        decreases n - next@.len(),
    {
        let fresh = Layout::gen(config);
        proof {
            lemma_intuitions_wf_from_multiset(intuitions@, seed_keys(*config), fresh@, *config);
        }
        let fresh_score = layout_score(&fresh, stats, config, intuitions);
        next.push(fresh);
        next_scores.push(fresh_score);
    }

    // move a fittest member of the new population to the front
    let mut m2: usize = 0;
    let mut t3: usize = 1;
    while t3 < n
        invariant
            1 <= t3 <= n,
            0 <= m2 < t3,
            next@.len() == n,
            next_scores@.len() == n,
            forall|u: int| 0 <= u < t3 ==> next_scores@[m2 as int] >= #[trigger] next_scores@[u],
        decreases n - t3,
    {
        if next_scores[t3] > next_scores[m2] {
            m2 = t3;
        }
        t3 = t3 + 1;
    }
    let ghost next0 = next@;
    let ghost next_scores0 = next_scores@;
    if m2 != 0 {
        let a = next[0].duplicate();
        let b = next[m2].duplicate();
        let sa = next_scores[0];
        let sb = next_scores[m2];
        next[0] = b;
        next[m2] = a;
        next_scores[0] = sb;
        next_scores[m2] = sa;
    }
    proof {
        assert forall|u: int| 0 <= u < n implies is_population_member(#[trigger] next@[u], *config)
            && (next_scores@[u]) as int == spec_layout_score(
            next@[u]@,
            *stats,
            *config,
            intuitions@,
        ) by {
            if m2 != 0 {
                if u == 0 {
                    assert(next@[u]@ == next0[m2 as int]@);
                    assert(next_scores@[u] == next_scores0[m2 as int]);
                } else if u == m2 {
                    assert(next@[u]@ == next0[0]@);
                    assert(next_scores@[u] == next_scores0[0]);
                } else {
                    assert(next@[u] == next0[u]);
                    assert(next_scores@[u] == next_scores0[u]);
                }
            }
        }
        assert forall|u: int| 0 <= u < n implies next_scores@[0] >= #[trigger] next_scores@[
            u
        ] by {
            if m2 != 0 {
                assert(next_scores@[0] == next_scores0[m2 as int]);
                if u == 0 {
                    assert(next_scores@[u] == next_scores0[m2 as int]);
                } else if u == m2 {
                    assert(next_scores@[u] == next_scores0[0]);
                } else {
                    assert(next_scores@[u] == next_scores0[u]);
                }
            }
        }
    }

    // how alike the new population is to its best member
    let mut dm: u64 = 0;
    let mut k4: usize = 0;
    while k4 < n
        invariant
            0 <= k4 <= n,
            next@.len() == n,
            0 < n <= MAX_POPULATION,
            config.wf(),
            forall|u: int|
                0 <= u < n ==> is_population_member(#[trigger] next@[u], *config),
            dm as int <= (k4 as int) * 2 * crate::keyboard::MAX_SLOTS,
            dm as int == sum_sim_from(next@[0]@, next@, 0) - sum_sim_from(
                next@[0]@,
                next@,
                k4 as int,
            ),
        decreases n - k4,
    {
        let matches = crate::layout::layout_similarity(&next[0], &next[k4]);
        dm = dm + matches;
        k4 = k4 + 1;
    }
    proof {
        assert(2int * (config.keys.0@.len() as int) * (n as int) <= 8_589_934_592int)
            by (nonlinear_arith)
            requires
                config.keys.0@.len() <= 65536,
                n <= 65536,
        ;
    }
    let dt: u64 = 2 * (config.keys.0.len() as u64) * (n as u64);

    let gen_stats = GenStats {
        max,
        min,
        total,
        diversity_matches: dm,
        diversity_total: dt,
    };
    proof {
        let tmax = choose|t: int| 0 <= t < n && max == scores@[t];
        assert(0 <= tmax < population@.len() && max as int == spec_layout_score(
            population@[tmax]@,
            *stats,
            *config,
            intuitions@,
        ));
        let tmin = choose|t: int| 0 <= t < n && min == scores@[t];
        assert(0 <= tmin < population@.len() && min as int == spec_layout_score(
            population@[tmin]@,
            *stats,
            *config,
            intuitions@,
        ));
        assert(sum_sim_from(next@[0]@, next@, n as int) == 0);
        assert forall|k: int| 0 <= k < population@.len() implies max as int >= spec_layout_score(
            (#[trigger] population@[k])@,
            *stats,
            *config,
            intuitions@,
        ) && min as int <= spec_layout_score(population@[k]@, *stats, *config, intuitions@) by {
            assert(max >= scores@[k]);
            assert(min <= scores@[k]);
            assert(scores@[k] as int == spec_layout_score(
                population@[k]@,
                *stats,
                *config,
                intuitions@,
            ));
        }
        assert forall|k: int| 0 <= k < next@.len() implies spec_layout_score(
            next@[0]@,
            *stats,
            *config,
            intuitions@,
        ) >= spec_layout_score((#[trigger] next@[k])@, *stats, *config, intuitions@) by {
            assert(next_scores@[0] >= next_scores@[k]);
            assert(next_scores@[k] as int == spec_layout_score(
                next@[k]@,
                *stats,
                *config,
                intuitions@,
            ));
            assert(next_scores@[0] as int == spec_layout_score(
                next@[0]@,
                *stats,
                *config,
                intuitions@,
            ));
        }
    }
    (next, gen_stats)
}

} // verus!
