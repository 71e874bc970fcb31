use vstd::prelude::*;

use crate::models::{CustomerId, ProductId};
use crate::graph::algorithms::{bfs_result, successors, within};
use crate::graph::laws::lemma_within_monotone;
use crate::graph::VertexKind;
use crate::recommendation::engine::{
    id_set, lists_product, recommendations, step_edge_type, step_weight,
};
use crate::recommendation::scoring::score_of;
use crate::recommendation::laws::{
    recommendations_are_distinct_and_allowed, recommendations_come_from_search,
    recommendations_miss_nothing_reachable,
};
use crate::recommendation::{RecommendationEngine, ScoredRecommendation};

use super::clock::{as_micros, elapsed, max_duration_micros, now};
use super::synthetic::{
    build_synthetic_store, synthetic_capacity, synthetic_graph, synthetic_products_are_chained,
};

verus! {

/// Default volumes (products in the synthetic catalogue).
pub const BENCHMARK_VOLUMES: [usize; 3] = [100, 1_000, 10_000];

/// Search depth used in the measurement (the same operation as recommending to a
/// customer).
pub const BENCHMARK_MAX_DEPTH: usize = 6;

/// Number of recommendations returned by each measured run.
pub const BENCHMARK_RECOMMENDATION_LIMIT: usize = 20;

/// Repetitions per volume, to steady the measurement.
pub const BENCHMARK_REPETITIONS: u32 = 10;

/// The timings measured for one volume, in microseconds.
#[derive(Debug, Clone, Copy)]
pub struct BenchmarkRow {
    pub volume: usize,
    pub repetitions: u32,
    pub avg_micros: u128,
    pub min_micros: u128,
    pub max_micros: u128,
    pub total_micros: u128,
}

/// What to measure.
pub struct BenchmarkConfig {
    pub volumes: Vec<usize>,
    pub repetitions: u32,
    pub max_depth: usize,
    pub limit: usize,
}

impl Default for BenchmarkConfig {
    fn default() -> (r: Self)
        ensures
            r.volumes@ == seq![100usize, 1_000, 10_000],
            r.repetitions == BENCHMARK_REPETITIONS,
            r.max_depth == BENCHMARK_MAX_DEPTH,
            r.limit == BENCHMARK_RECOMMENDATION_LIMIT,
    {
        let mut volumes: Vec<usize> = Vec::new();
        volumes.push(BENCHMARK_VOLUMES[0]);
        volumes.push(BENCHMARK_VOLUMES[1]);
        volumes.push(BENCHMARK_VOLUMES[2]);
        assert(volumes@ =~= seq![100usize, 1_000, 10_000]);
        BenchmarkConfig {
            volumes,
            repetitions: BENCHMARK_REPETITIONS,
            max_depth: BENCHMARK_MAX_DEPTH,
            limit: BENCHMARK_RECOMMENDATION_LIMIT,
        }
    }
}

pub open spec fn sample_sum(s: Seq<u128>) -> int
    decreases s.len(),
{
    if s.len() == 0 {
        0
    } else {
        sample_sum(s.drop_last()) + s.last()
    }
}

/// The smallest sample (of a non-empty sequence).
pub open spec fn sample_min(s: Seq<u128>) -> u128
    decreases s.len(),
{
    if s.len() <= 1 {
        s[0]
    } else if s.last() < sample_min(s.drop_last()) {
        s.last()
    } else {
        sample_min(s.drop_last())
    }
}

/// The largest sample (of a non-empty sequence).
pub open spec fn sample_max(s: Seq<u128>) -> u128
    decreases s.len(),
{
    if s.len() <= 1 {
        s[0]
    } else if s.last() > sample_max(s.drop_last()) {
        s.last()
    } else {
        sample_max(s.drop_last())
    }
}

/// The row that a volume and its samples give: the number of samples, their total,
/// the integer average, the smallest and the largest.
pub open spec fn summary_of(volume: usize, s: Seq<u128>) -> BenchmarkRow {
    BenchmarkRow {
        volume,
        repetitions: s.len() as u32,
        avg_micros: (sample_sum(s) / (s.len() as int)) as u128,
        min_micros: sample_min(s),
        max_micros: sample_max(s),
        total_micros: sample_sum(s) as u128,
    }
}

proof fn lemma_sample_bounds(s: Seq<u128>)
    requires
        s.len() > 0,
    ensures
        s.len() * sample_min(s) <= sample_sum(s) <= s.len() * sample_max(s),
        sample_min(s) <= sample_max(s),
        sample_max(s) <= sample_sum(s),
    decreases s.len(),
{
    if s.len() > 1 {
        let p = s.drop_last();
        lemma_sample_bounds(p);
        let n = p.len() as int;
        let (mn, mx, sm) = (sample_min(p) as int, sample_max(p) as int, sample_sum(p));
        let (nmn, nmx) = (sample_min(s) as int, sample_max(s) as int);
        let x = s.last() as int;
        assert(nmn <= mn && nmn <= x);
        assert(nmx >= mx && nmx >= x);
        assert((n + 1) * nmn <= sm + x) by (nonlinear_arith)
            requires
                n * mn <= sm,
                nmn <= mn,
                nmn <= x,
                n >= 1,
        ;
        assert(sm + x <= (n + 1) * nmx) by (nonlinear_arith)
            requires
                sm <= n * mx,
                mx <= nmx,
                x <= nmx,
                n >= 1,
        ;
        assert(sample_sum(s) == sm + x);
        assert(sm >= 0) by (nonlinear_arith)
            requires
                n * mn <= sm,
                n >= 1,
                mn >= 0,
        ;
    } else {
        assert(s.drop_last().len() == 0);
        assert(sample_sum(s) == sample_sum(s.drop_last()) + s.last());
        assert(sample_sum(s) == s[0]);
    }
}

/// A row is consistent: its smallest sample is at most its average, the average at
/// most its largest sample, and the largest sample at most the total.
pub proof fn summary_is_consistent(volume: usize, s: Seq<u128>)
    requires
        0 < s.len() <= u32::MAX,
        plausible_samples(s),
    ensures
        summary_of(volume, s).min_micros <= summary_of(volume, s).avg_micros <= summary_of(
            volume,
            s,
        ).max_micros,
        summary_of(volume, s).max_micros <= summary_of(volume, s).total_micros,
        summary_of(volume, s).repetitions == s.len(),
{
    lemma_sample_bounds(s);
    lemma_sum_bound(s);
    let n = s.len() as int;
    let (mn, mx, sm) = (sample_min(s) as int, sample_max(s) as int, sample_sum(s));
    assert(mn <= sm / n <= mx) by (nonlinear_arith)
        requires
            n > 0,
            n * mn <= sm,
            sm <= n * mx,
    {
        lemma_div_between(sm, n, mn, mx);
    }
}

proof fn lemma_div_between(sm: int, n: int, lo: int, hi: int)
    requires
        n > 0,
        n * lo <= sm,
        sm <= n * hi,
    ensures
        lo <= sm / n <= hi,
{
    vstd::arithmetic::div_mod::lemma_fundamental_div_mod(sm, n);
    let q = sm / n;
    let r = sm % n;
    assert(0 <= r < n);
    assert(lo <= q) by (nonlinear_arith)
        requires
            n > 0,
            n * lo <= n * q + r,
            0 <= r < n,
    ;
    assert(q <= hi) by (nonlinear_arith)
        requires
            n > 0,
            n * q + r <= n * hi,
            0 <= r < n,
    ;
}

proof fn lemma_sum_bound(s: Seq<u128>)
    requires
        plausible_samples(s),
    ensures
        0 <= sample_sum(s) <= s.len() * max_duration_micros(),
    decreases s.len(),
{
    if s.len() > 0 {
        let p = s.drop_last();
        assert(plausible_samples(p));
        lemma_sum_bound(p);
        assert(s.last() == s[s.len() - 1]);
    }
}

/// Each sample fits in a `Duration`.
pub open spec fn plausible_samples(s: Seq<u128>) -> bool {
    forall|i: int| 0 <= i < s.len() ==> #[trigger] s[i] <= max_duration_micros()
}

/// `row` summarises `repetitions` plausible timings of a catalogue of `volume`
/// products.
#[verifier::opaque]
pub open spec fn measured(row: BenchmarkRow, volume: usize, repetitions: u32) -> bool {
    exists|s: Seq<u128>|
        s.len() == repetitions && plausible_samples(s) && row == summary_of(volume, s)
}

/// Summarises the timings measured for one volume.
pub fn summarize_samples(volume: usize, samples: &Vec<u128>) -> (r: BenchmarkRow)
    requires
        0 < samples@.len() <= u32::MAX,
        plausible_samples(samples@),
    ensures
        r == summary_of(volume, samples@),
{
    let n = samples.len();
    let mut total: u128 = 0;
    let mut min = samples[0];
    let mut max = samples[0];
    let mut i: usize = 0;
    while i < n
        invariant
            n == samples@.len(),
            0 < n <= u32::MAX,
            plausible_samples(samples@),
            i <= n,
            total == sample_sum(samples@.take(i as int)),
            total <= i * max_duration_micros(),
            i > 0 ==> min == sample_min(samples@.take(i as int)),
            i > 0 ==> max == sample_max(samples@.take(i as int)),
            i == 0 ==> min == samples@[0] && max == samples@[0],
        decreases n - i,
    {
        let x = samples[i];
        proof {
            let t = samples@.take(i + 1);
            assert(t.drop_last() =~= samples@.take(i as int));
            assert(t.last() == x);
            assert(x <= max_duration_micros());
        }
        total = total + x;
        if i > 0 {
            if x < min {
                min = x;
            }
            if x > max {
                max = x;
            }
        }
        i = i + 1;
    }
    assert(samples@.take(n as int) =~= samples@);
    BenchmarkRow {
        volume,
        repetitions: n as u32,
        avg_micros: total / (n as u128),
        min_micros: min,
        max_micros: max,
        total_micros: total,
    }
}

/// The recommendations that the customer of the synthetic catalogue of `volume`
/// products (at least one) receives from a search to `max_depth`, cut to `limit`: the
/// catalogue's customer sits at vertex `n + 2` and has bought product 1.
pub open spec fn synthetic_recommendations(volume: nat, max_depth: usize, limit: usize) -> Seq<
    ScoredRecommendation,
> {
    let n: nat = if volume == 0 {
        1
    } else {
        volume
    };
    recommendations(synthetic_graph(n), (n + 2) as u64, max_depth, limit, id_set(seq![ProductId(1)]))
}

/// What a timed call answers: the recommendations, or `None` when there were none.
pub open spec fn expected_answer(recs: Seq<ScoredRecommendation>) -> Option<Seq<ScoredRecommendation>> {
    if recs.len() == 0 {
        None
    } else {
        Some(recs)
    }
}

proof fn lemma_one_product_recommends_nothing(max_depth: usize, limit: usize)
    ensures
        synthetic_recommendations(1, max_depth, limit).len() == 0,
{
    let g = synthetic_graph(1);
    let start = 3u64;
    let excluded = id_set(seq![ProductId(1)]);
    let recs = synthetic_recommendations(1, max_depth, limit);
    if recs.len() > 0 {
        recommendations_are_distinct_and_allowed(g, start, max_depth, limit, excluded);
        recommendations_come_from_search(g, start, max_depth, limit, excluded);
        let steps = bfs_result(g, start, max_depth);
        let rec = recs[0];
        let k = choose|k: int|
            #![trigger steps[k]]
            {
                &&& 0 <= k < steps.len()
                &&& g.has_vertex(steps[k].vertex.0)
                &&& g.vertices[steps[k].vertex.0].kind == VertexKind::Product(rec.product_id)
                &&& rec.depth == steps[k].depth
                &&& 1 <= rec.depth <= max_depth
                &&& within(g, start, rec.depth as nat).contains(steps[k].vertex.0)
                &&& !within(g, start, (rec.depth - 1) as nat).contains(steps[k].vertex.0)
                &&& rec.score == score_of(
                    step_weight(steps[k]),
                    step_edge_type(steps[k]),
                    steps[k].depth,
                )
            };
        let v = steps[k].vertex.0;
        assert(1 <= v <= 3);
        assert(rec.product_id == ProductId(1));
        assert(seq![ProductId(1)][0].0 == 1);
        assert(excluded.contains(1));
    }
}

proof fn lemma_chain_recommends_second(n: nat, max_depth: usize, limit: usize)
    requires
        2 <= n <= synthetic_capacity(),
        max_depth >= 2,
    ensures
        lists_product(synthetic_recommendations(n, max_depth, limit), ProductId(2))
            || synthetic_recommendations(n, max_depth, limit).len() == limit,
{
    let g = synthetic_graph(n);
    let start = (n + 2) as u64;
    let excluded = id_set(seq![ProductId(1)]);
    assert(g.edges_of(start).len() == 1 && g.edges_of(start)[0].to.0 == 2 && g.edges_of(2).len()
        >= 2 && g.edges_of(2)[1].to.0 == 3) by {
        synthetic_products_are_chained(n);
        assert(g.edges_of(((1nat) + 1) as u64) == g.edges_of(2));
    }
    assert(!excluded.contains(2)) by {
        if excluded.contains(2) {
            let i = choose|i: int| 0 <= i < 1 && #[trigger] seq![ProductId(1)][i].0 == 2;
            assert(seq![ProductId(1)][i] == ProductId(1));
        }
    }
    assert(within(g, start, 2).contains(3)) by {
        let w0 = within(g, start, 0);
        let w1 = within(g, start, 1);
        assert(w0.contains(start));
        assert(successors(g, w0).contains(2));
        assert(w1.contains(2));
        assert(w1.contains(2) && 0 <= 1 < g.edges_of(2).len() && g.edges_of(2)[1].to.0 == 3);
        assert(successors(g, w1).contains(3));
    }
    lemma_within_monotone(g, start, 2, max_depth as nat);
    assert(g.has_vertex(start));
    assert(g.has_vertex(3) && g.vertices[3].kind == VertexKind::Product(ProductId(2)));
    recommendations_miss_nothing_reachable(g, start, max_depth, limit, excluded);
}

/// The benchmark's recommendation follows the volume: with a single product (the one
/// the customer bought) there is nothing to recommend; with two or more products and
/// a search of depth at least 2, product 2, similar to the purchase, is recommended
/// unless the list is already full.
pub proof fn benchmark_recommendation_follows_the_volume(
    volume: nat,
    max_depth: usize,
    limit: usize,
)
    requires
        volume <= synthetic_capacity(),
    ensures
        volume <= 1 ==> synthetic_recommendations(volume, max_depth, limit).len() == 0,
        volume >= 2 && max_depth >= 2 ==> lists_product(
            synthetic_recommendations(volume, max_depth, limit),
            ProductId(2),
        ) || synthetic_recommendations(volume, max_depth, limit).len() == limit,
{
    if volume <= 1 {
        lemma_one_product_recommends_nothing(max_depth, limit);
        assert(synthetic_recommendations(volume, max_depth, limit) == synthetic_recommendations(
            1,
            max_depth,
            limit,
        ));
    }
    if volume >= 2 && max_depth >= 2 {
        lemma_chain_recommends_second(volume, max_depth, limit);
    }
}

/// Times `repetitions` recommendations for the first customer of a synthetic catalogue
/// of `volume` products. Besides the row, it gives (as a ghost record) the answer of
/// every timed call: each is the recommendation of the catalogue of `volume` products
/// with the given depth and limit.
fn measure_recommendation_micros(
    volume: usize,
    repetitions: u32,
    max_depth: usize,
    limit: usize,
) -> (r: (BenchmarkRow, Ghost<Seq<Option<Seq<ScoredRecommendation>>>>))
    requires
        repetitions > 0,
        volume <= synthetic_capacity(),
    ensures
        measured(r.0, volume, repetitions),
        r.1@.len() == repetitions,
        forall|j: int|
            0 <= j < r.1@.len() ==> #[trigger] r.1@[j] == expected_answer(
                synthetic_recommendations(volume as nat, max_depth, limit),
            ),
{
    let store = build_synthetic_store(volume);
    let customer = CustomerId(1);
    let ghost expected = expected_answer(synthetic_recommendations(volume as nat, max_depth, limit));
    let ghost mut answers: Seq<Option<Seq<ScoredRecommendation>>> = Seq::empty();
    proof {
        assert(store@.customer_vertices.contains_key(1));
        assert(store@.customers[1].purchased == seq![ProductId(1)]);
    }
    let mut samples: Vec<u128> = Vec::with_capacity(repetitions as usize);
    let mut k: u32 = 0;
    while k < repetitions
        invariant
            store.wf(),
            customer == CustomerId(1),
            store@.customer_vertices.contains_key(1),
            store@.customers.contains_key(1),
            recommendations(
                store@.graph,
                store@.customer_vertices[1].0,
                max_depth,
                limit,
                id_set(store@.customers[1].purchased),
            ) == synthetic_recommendations(volume as nat, max_depth, limit),
            expected == expected_answer(synthetic_recommendations(volume as nat, max_depth, limit)),
            k <= repetitions,
            samples@.len() == k,
            answers.len() == k,
            forall|j: int| 0 <= j < answers.len() ==> #[trigger] answers[j] == expected,
            plausible_samples(samples@),
        decreases repetitions - k,
    {
        let start = now();
        let answer = RecommendationEngine::for_customer(&store, customer, max_depth, limit);
        let micros = as_micros(&elapsed(&start));
        proof {
            let recs = synthetic_recommendations(volume as nat, max_depth, limit);
            let got = match answer {
                Ok(v) => Some(v@),
                Err(_) => None,
            };
            if recs.len() == 0 {
                assert(answer is Err);
            } else {
                assert(answer is Ok);
                assert(answer->Ok_0@ == recs);
            }
            assert(got == expected);
            answers = answers.push(got);
        }
        samples.push(micros);
        k = k + 1;
    }
    let row = summarize_samples(volume, &samples);
    proof {
        reveal(measured);
        assert(samples@.len() == repetitions && plausible_samples(samples@) && row == summary_of(
            volume,
            samples@,
        ));
    }
    (row, Ghost(answers))
}

/// Measures each of the given volumes with the default settings.
pub fn run_benchmark(volumes: &[usize]) -> (r: Vec<BenchmarkRow>)
    requires
        forall|i: int| 0 <= i < volumes@.len() ==> #[trigger] volumes@[i] <= synthetic_capacity(),
    ensures
        r@.len() == volumes@.len(),
        forall|i: int|
            #![trigger r@[i]]
            0 <= i < r@.len() ==> measured(r@[i], volumes@[i], BENCHMARK_REPETITIONS),
{
    let defaults = BenchmarkConfig::default();
    let mut list: Vec<usize> = Vec::new();
    let mut i: usize = 0;
    while i < volumes.len()
        invariant
            i <= volumes@.len(),
            list@ == volumes@.take(i as int),
        decreases volumes@.len() - i,
    {
        list.push(volumes[i]);
        i = i + 1;
        assert(list@ =~= volumes@.take(i as int));
    }
    assert(list@ =~= volumes@);
    let config = BenchmarkConfig { volumes: list, ..defaults };
    run_benchmark_with_config(&config)
}

/// Measures each volume of the configuration.
pub fn run_benchmark_with_config(config: &BenchmarkConfig) -> (r: Vec<BenchmarkRow>)
    requires
        config.volumes@.len() > 0 ==> config.repetitions > 0,
        forall|i: int|
            0 <= i < config.volumes@.len() ==> #[trigger] config.volumes@[i] <= synthetic_capacity(),
    ensures
        r@.len() == config.volumes@.len(),
        forall|i: int|
            #![trigger r@[i]]
            0 <= i < r@.len() ==> measured(r@[i], config.volumes@[i], config.repetitions),
{
    let mut rows: Vec<BenchmarkRow> = Vec::new();
    let mut i: usize = 0;
    while i < config.volumes.len()
        invariant
            config.volumes@.len() > 0 ==> config.repetitions > 0,
            forall|j: int|
                0 <= j < config.volumes@.len() ==> #[trigger] config.volumes@[j]
                    <= synthetic_capacity(),
            i <= config.volumes@.len(),
            rows@.len() == i,
            forall|j: int|
                #![trigger rows@[j]]
                0 <= j < i ==> measured(rows@[j], config.volumes@[j], config.repetitions),
        decreases config.volumes@.len() - i,
    {
        let (row, _answers) = measure_recommendation_micros(
            config.volumes[i],
            config.repetitions,
            config.max_depth,
            config.limit,
        );
        let ghost before = rows@;
        rows.push(row);
        assert forall|j: int| #![trigger rows@[j]] 0 <= j < i + 1 implies measured(rows@[j], config.volumes@[j], config.repetitions) by {
            if j < i {
                assert(rows@[j] == before[j]);
            }
        }
        i = i + 1;
    }
    rows
}

} // verus!
