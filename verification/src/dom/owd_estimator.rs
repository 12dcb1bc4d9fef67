//! Estimation of one-way delays (OWD) between replicas from sliding windows
//! of measured samples.

use vstd::prelude::*;
use vstd::relations::{sorted_by, total_ordering};
use vstd::std_specs::iter::IteratorSpec;
use std::collections::{HashMap, VecDeque};
use crate::arith::{clamp_i64, max_int, max_i64, saturating_add, saturating_mul};
use crate::errors::ConfigError;
use crate::util::NodeId;

verus! {

broadcast use vstd::std_specs::hash::group_hash_axioms;

/// The strategy used to estimate the one-way delay of a sender from its window.
#[derive(Clone, Debug)]
pub enum EstimatorStrategy {
    /// Estimate the one-way delay by a percentile of the observed delays.
    /// `ranks[n - 1]` is the position, among the `n` sorted delays of a window
    /// that holds `n` samples, of the delay that stands for the percentile.
    Percentile {
        /// The rank of the percentile for each window length.
        ranks: Vec<usize>,
    },
    /// Estimate the one-way delay by the mean of the observed delays.
    MovingAverage,
    /// Use the configured maximum one-way delay.
    Fixed,
}

/// Configuration for the one-way delay estimator.
#[derive(Clone, Debug)]
pub struct OwdEstimatorConfig {
    /// The size of the sliding window: the number of samples kept per sender.
    pub window_size: usize,
    /// The upper bound on the one-way delay.
    pub max_owd: i64,
    /// The factor by which the clock uncertainty of the latest sample widens the estimate.
    pub uncertainty_beta: i64,
    /// The strategy used to estimate the one-way delay.
    pub strategy: EstimatorStrategy,
}

impl OwdEstimatorConfig {
    /// A percentile strategy has a rank for every window length up to the
    /// window size, and each rank points into a window of that length.
    pub open spec fn ranks_cover_window(&self) -> bool {
        match self.strategy {
            EstimatorStrategy::Percentile { ranks } => {
                &&& ranks@.len() == self.window_size
                &&& forall|i: int| 0 <= i < ranks@.len() ==> #[trigger] ranks@[i] <= i
            },
            _ => true,
        }
    }

    /// The conditions that `validate` checks.
    pub open spec fn is_valid(&self) -> bool {
        &&& self.window_size > 0
        &&& self.max_owd >= 0
        &&& self.uncertainty_beta >= 0
        &&& self.ranks_cover_window()
    }

    /// Creates a new configuration used to configure an OWD estimator, or the
    /// error that `validate` gives for it.
    pub fn new(window_size: usize, max_owd: i64, uncertainty_beta: i64, strategy: EstimatorStrategy)
        -> (r: Result<Self, ConfigError>)
        ensures
            r is Ok <==> (OwdEstimatorConfig { window_size, max_owd, uncertainty_beta, strategy }).is_valid(),
            r matches Ok(c) ==> c == (OwdEstimatorConfig { window_size, max_owd, uncertainty_beta, strategy }),
            r matches Err(e) ==> (OwdEstimatorConfig { window_size, max_owd, uncertainty_beta, strategy }).validate_error(e),
    {
        let config = Self { window_size, max_owd, uncertainty_beta, strategy };
        match config.validate() {
            Ok(()) => Ok(config),
            Err(e) => Err(e),
        }
    }

    /// The error that `validate` returns for an invalid configuration: the
    /// message of the first rule that it breaks.
    pub open spec fn validate_error(&self, e: ConfigError) -> bool {
        let ConfigError::InvalidConfig(msg) = e;
        if !(self.window_size > 0) {
            msg@ == "window_size must be > 0"@
        } else if !(self.max_owd >= 0) {
            msg@ == "max_owd must be >= 0"@
        } else if !(self.uncertainty_beta >= 0) {
            msg@ == "uncertainty_beta must be >= 0"@
        } else {
            msg@ == "percentile ranks must cover the window"@
        }
    }

    /// Validates the OWD estimator configuration.
    pub fn validate(&self) -> (r: Result<(), ConfigError>)
        ensures
            r is Ok <==> self.is_valid(),
            r matches Err(e) ==> self.validate_error(e),
    {
        if !(self.window_size > 0) {
            return Err(ConfigError::InvalidConfig("window_size must be > 0".to_owned()));
        }
        if !(self.max_owd >= 0) {
            return Err(ConfigError::InvalidConfig("max_owd must be >= 0".to_owned()));
        }
        if !(self.uncertainty_beta >= 0) {
            return Err(ConfigError::InvalidConfig("uncertainty_beta must be >= 0".to_owned()));
        }
        if let EstimatorStrategy::Percentile { ranks } = &self.strategy {
            let ok = ranks.len() == self.window_size && ranks_point_into_windows(ranks);
            if !ok {
                return Err(
                    ConfigError::InvalidConfig("percentile ranks must cover the window".to_owned()),
                );
            }
        }
        Ok(())
    }

    /// The upper bound on the one-way delay.
    pub fn max_owd(&self) -> (r: i64)
        ensures
            r == self.max_owd,
    {
        self.max_owd
    }

    /// The default configuration: a window of 10 samples, a maximum of 10 000,
    /// an uncertainty factor of 3 and the median of the window.
    pub fn default() -> (c: Self)
        ensures
            c.window_size == 10,
            c.max_owd == 10_000,
            c.uncertainty_beta == 3,
            c.strategy matches EstimatorStrategy::Percentile { ranks } && ranks@ == seq![0usize, 1, 1, 2, 2, 3, 3, 4, 4, 5],
            c.is_valid(),
    {
        let ranks: Vec<usize> = vec![0, 1, 1, 2, 2, 3, 3, 4, 4, 5];
        let c = Self {
            window_size: 10,
            max_owd: 10_000,
            uncertainty_beta: 3,
            strategy: EstimatorStrategy::Percentile { ranks },
        };
        assert(c.ranks_cover_window());
        c
    }
}

/// Whether every rank points into a window of the length it stands for.
fn ranks_point_into_windows(ranks: &Vec<usize>) -> (r: bool)
    ensures
        r == forall|i: int| 0 <= i < ranks@.len() ==> #[trigger] ranks@[i] <= i,
{
    let mut i: usize = 0;
    while i < ranks.len()
        invariant
            i <= ranks@.len(),
            forall|j: int| 0 <= j < i ==> #[trigger] ranks@[j] <= j,
        decreases ranks@.len() - i,
    {
        if ranks[i] > i {
            return false;
        }
        i = i + 1;
    }
    true
}

/// One observation of the one-way delay of a message.
#[derive(Copy, Clone, Debug)]
pub struct OwdSample {
    /// Observed one-way delay, never negative.
    pub measured_owd: i64,
    /// Uncertainty of the sender's timestamp when the message was sent, never negative.
    pub sender_uncertainty: i64,
    /// Uncertainty of the receiver's timestamp when the message was received, never negative.
    pub receiver_uncertainty: i64,
}

impl OwdSample {
    /// A sample as `new` makes it: no field is negative and the two
    /// uncertainties add up within `i64`.
    pub open spec fn wf(&self) -> bool {
        &&& self.measured_owd >= 0
        &&& self.sender_uncertainty >= 0
        &&& self.receiver_uncertainty >= 0
        &&& self.sender_uncertainty + self.receiver_uncertainty <= i64::MAX
    }

    /// The inputs for which `new` computes within `i64`.
    pub open spec fn new_fits(
        sent_time: i64,
        received_time: i64,
        sender_uncertainty: i64,
        receiver_uncertainty: i64,
    ) -> bool {
        &&& i64::MIN <= received_time - sent_time <= i64::MAX
        &&& max_int(sender_uncertainty as int, 0) + max_int(receiver_uncertainty as int, 0) <= i64::MAX
    }

    /// Whether `new` computes within `i64` on these inputs.
    pub fn fits(sent_time: i64, received_time: i64, sender_uncertainty: i64, receiver_uncertainty: i64) -> (r: bool)
        ensures
            r == Self::new_fits(sent_time, received_time, sender_uncertainty, receiver_uncertainty),
    {
        let su = max_i64(sender_uncertainty, 0);
        let ru = max_i64(receiver_uncertainty, 0);
        received_time.checked_sub(sent_time).is_some() && su.checked_add(ru).is_some()
    }

    /// The sample of a message sent at `sent_time` and received at
    /// `received_time`; negative delays and uncertainties count as zero.
    pub fn new(sent_time: i64, received_time: i64, sender_uncertainty: i64, receiver_uncertainty: i64) -> (s: Self)
        requires
            Self::new_fits(sent_time, received_time, sender_uncertainty, receiver_uncertainty),
        ensures
            s.measured_owd == max_int(received_time - sent_time, 0),
            s.sender_uncertainty == max_int(sender_uncertainty as int, 0),
            s.receiver_uncertainty == max_int(receiver_uncertainty as int, 0),
            s.wf(),
    {
        Self {
            measured_owd: max_i64(received_time - sent_time, 0),
            sender_uncertainty: max_i64(sender_uncertainty, 0),
            receiver_uncertainty: max_i64(receiver_uncertainty, 0),
        }
    }

    /// The sum of the two uncertainties.
    pub fn uncertainty_sum(&self) -> (r: i64)
        requires
            self.wf(),
        ensures
            r == self.sender_uncertainty + self.receiver_uncertainty,
    {
        self.sender_uncertainty + self.receiver_uncertainty
    }
}

/// The order `<=` on `i64`.
pub open spec fn i64_le() -> spec_fn(i64, i64) -> bool {
    |a: i64, b: i64| a <= b
}

/// The measured delays of a window, in order.
pub open spec fn delays_of(w: Seq<OwdSample>) -> Seq<i64> {
    w.map_values(|s: OwdSample| s.measured_owd)
}

/// The sum of a sequence of integers.
pub open spec fn sum_of(s: Seq<i64>) -> int
    decreases s.len(),
{
    if s.len() == 0 {
        0
    } else {
        sum_of(s.drop_last()) + s.last()
    }
}

/// The delay at the percentile rank of a window: the delay at position
/// `ranks[len - 1]` of the window's delays in ascending order.
pub open spec fn percentile_of(w: Seq<OwdSample>, ranks: Seq<usize>) -> i64 {
    delays_of(w).sort_by(i64_le())[ranks[w.len() - 1] as int]
}

/// The test of a delay being at most `r`.
pub open spec fn at_most(r: i64) -> spec_fn(i64) -> bool {
    |x: i64| x <= r
}

/// The test of a delay being at least `r`.
pub open spec fn at_least(r: i64) -> spec_fn(i64) -> bool {
    |x: i64| x >= r
}

/// A sequence whose elements all pass `p` is its own filter.
proof fn lemma_filter_keeps_all(a: Seq<i64>, p: spec_fn(i64) -> bool)
    requires
        forall|i: int| 0 <= i < a.len() ==> p(#[trigger] a[i]),
    ensures
        a.filter(p) == a,
    decreases a.len(),
{
    reveal_with_fuel(Seq::<_>::filter, 1);
    if a.len() > 0 {
        lemma_filter_keeps_all(a.drop_last(), p);
        assert(a.drop_last().push(a.last()) =~= a);
    }
}

/// Two sequences with the same elements, counted with multiplicity, have
/// equally many elements that pass `p`.
proof fn lemma_filter_len_permutation(a: Seq<i64>, b: Seq<i64>, p: spec_fn(i64) -> bool)
    requires
        a.to_multiset() == b.to_multiset(),
    ensures
        a.filter(p).len() == b.filter(p).len(),
    decreases a.len(),
{
    broadcast use vstd::multiset::group_multiset_axioms;
    vstd::seq_lib::to_multiset_len(a);
    vstd::seq_lib::to_multiset_len(b);
    reveal_with_fuel(Seq::<_>::filter, 2);
    if a.len() == 0 {
        assert(b.len() == 0);
    } else {
        let x = a.last();
        let a1 = a.drop_last();
        assert(a1.push(x) =~= a);
        vstd::seq_lib::to_multiset_build(a1, x);
        vstd::seq_lib::to_multiset_contains(b, x);
        assert(b.to_multiset().count(x) > 0);
        let i = choose|i: int| 0 <= i < b.len() && b[i] == x;
        let b1 = b.remove(i);
        vstd::seq_lib::to_multiset_remove(b, i);
        assert(b1.to_multiset() =~= a1.to_multiset());
        lemma_filter_len_permutation(a1, b1, p);
        assert(b =~= b.take(i) + seq![x] + b.skip(i + 1));
        assert(b1 =~= b.take(i) + b.skip(i + 1));
        Seq::filter_distributes_over_add(b.take(i) + seq![x], b.skip(i + 1), p);
        Seq::filter_distributes_over_add(b.take(i), seq![x], p);
        Seq::filter_distributes_over_add(b.take(i), b.skip(i + 1), p);
        assert(seq![x].drop_last() =~= Seq::<i64>::empty());
    }
}

/// The percentile estimate of a window is one of its delays and has rank
/// `ranks[len - 1]` among them: at least `rank + 1` of the window's delays
/// are at or below it, and at least `len - rank` at or above it.
pub proof fn lemma_percentile_is_ranked(w: Seq<OwdSample>, ranks: Seq<usize>)
    requires
        w.len() > 0,
        w.len() <= ranks.len(),
        ranks[w.len() - 1] < w.len(),
    ensures
        delays_of(w).contains(percentile_of(w, ranks)),
        delays_of(w).filter(at_most(percentile_of(w, ranks))).len() >= ranks[w.len() - 1] + 1,
        delays_of(w).filter(at_least(percentile_of(w, ranks))).len() >= w.len() - ranks[w.len() - 1],
{
    let d = delays_of(w);
    let k = ranks[w.len() - 1] as int;
    lemma_i64_le_total();
    d.lemma_sort_by_ensures(i64_le());
    let srt = d.sort_by(i64_le());
    vstd::seq_lib::to_multiset_len(d);
    vstd::seq_lib::to_multiset_len(srt);
    let r = srt[k];
    assert(r == percentile_of(w, ranks));
    assert(srt.contains(r));
    let lo = srt.take(k + 1);
    let hi = srt.skip(k);
    assert forall|i: int| 0 <= i < lo.len() implies at_most(r)(#[trigger] lo[i]) by {
        assert(i64_le()(srt[i], srt[k]) || i == k);
    }
    assert forall|i: int| 0 <= i < hi.len() implies at_least(r)(#[trigger] hi[i]) by {
        assert(i64_le()(srt[k], srt[k + i]) || i == 0);
    }
    lemma_filter_keeps_all(lo, at_most(r));
    lemma_filter_keeps_all(hi, at_least(r));
    assert(srt =~= lo + srt.skip(k + 1));
    Seq::filter_distributes_over_add(lo, srt.skip(k + 1), at_most(r));
    assert(srt =~= srt.take(k) + hi);
    Seq::filter_distributes_over_add(srt.take(k), hi, at_least(r));
    lemma_filter_len_permutation(d, srt, at_most(r));
    lemma_filter_len_permutation(d, srt, at_least(r));
}

/// The mean of a window's delays, rounded down.
pub open spec fn moving_average_of(w: Seq<OwdSample>) -> i64 {
    (sum_of(delays_of(w)) / (w.len() as int)) as i64
}

/// The estimate that a window gives: the strategy's base value widened by
/// `beta` times the uncertainty of the latest sample (both saturating), or
/// the maximum where that is not positive or exceeds the maximum.
pub open spec fn window_estimate(w: Seq<OwdSample>, strategy: EstimatorStrategy, beta: i64, max_owd: i64) -> i64 {
    match strategy {
        EstimatorStrategy::Fixed => max_owd,
        _ => {
            let base = match strategy {
                EstimatorStrategy::Percentile { ranks } => percentile_of(w, ranks@),
                _ => moving_average_of(w),
            };
            let latest = w.last();
            let margin = clamp_i64(beta * (latest.sender_uncertainty + latest.receiver_uncertainty));
            let estimate = clamp_i64(base + margin);
            if estimate <= 0 || estimate > max_owd {
                max_owd
            } else {
                estimate
            }
        },
    }
}

/// An estimate never exceeds the maximum, and is positive where the
/// maximum is.
pub proof fn lemma_estimate_bounded(w: Seq<OwdSample>, strategy: EstimatorStrategy, beta: i64, max_owd: i64)
    ensures
        window_estimate(w, strategy, beta, max_owd) <= max_owd,
        max_owd > 0 ==> window_estimate(w, strategy, beta, max_owd) > 0,
{
}

/// The window after `sample` arrives: the oldest sample leaves a full window.
pub open spec fn next_window(w: Seq<OwdSample>, sample: OwdSample, window_size: usize) -> Seq<OwdSample> {
    if w.len() == window_size && w.len() > 0 {
        w.drop_first().push(sample)
    } else {
        w.push(sample)
    }
}

proof fn lemma_i64_le_total()
    ensures
        total_ordering(i64_le()),
{
}

proof fn lemma_sum_nonneg_prefix(s: Seq<i64>, k: int)
    requires
        0 <= k <= s.len(),
        forall|i: int| 0 <= i < s.len() ==> s[i] >= 0,
    ensures
        0 <= sum_of(s.take(k)) <= sum_of(s),
    decreases s.len(),
{
    if s.len() == 0 {
        assert(s.take(k) =~= s);
    } else if k == s.len() {
        assert(s.take(k) =~= s);
        lemma_sum_nonneg_prefix(s.drop_last(), s.drop_last().len() as int);
        assert(s.drop_last().take(s.drop_last().len() as int) =~= s.drop_last());
    } else {
        lemma_sum_nonneg_prefix(s.drop_last(), k);
        assert(s.drop_last().take(k) =~= s.take(k));
    }
}

/// The delays of the window in ascending order.
fn sorted_delays(samples: &VecDeque<OwdSample>) -> (v: Vec<i64>)
    ensures
        v@ == delays_of(samples@).sort_by(i64_le()),
{
    let ghost d = delays_of(samples@);
    let mut out: Vec<i64> = Vec::new();
    let n = samples.len();
    let mut i: usize = 0;
    proof {
        assert(out@ =~= d.take(0));
    }
    while i < n
        invariant
            n == samples@.len(),
            d == delays_of(samples@),
            i <= n,
            sorted_by(out@, i64_le()),
            out@.to_multiset() == d.take(i as int).to_multiset(),
        decreases n - i,
    {
        let x = samples[i].measured_owd;
        let mut p: usize = 0;
        while p < out.len() && out[p] <= x
            invariant
                p <= out@.len(),
                forall|j: int| 0 <= j < p ==> #[trigger] out@[j] <= x,
            decreases out@.len() - p,
        {
            p = p + 1;
        }
        let ghost before = out@;
        proof {
            assert forall|j: int| p <= j < before.len() implies x < #[trigger] before[j] by {
                assert(i64_le()(before[p as int], before[j]) || j == p);
            }
        }
        out.insert(p, x);
        proof {
            vstd::seq_lib::to_multiset_insert(before, p as int, x);
            assert(d.take(i + 1) =~= d.take(i as int).push(x));
            vstd::seq_lib::to_multiset_build(d.take(i as int), x);
            assert forall|a: int, b: int| 0 <= a < b < out@.len() implies #[trigger] i64_le()(
                out@[a],
                out@[b],
            ) by {
                if b < p {
                    assert(i64_le()(before[a], before[b]));
                } else if a > p {
                    assert(i64_le()(before[a - 1], before[b - 1]));
                } else if a == p {
                    assert(out@[b] == before[b - 1]);
                } else {
                    if b == p {
                    } else {
                        assert(out@[b] == before[b - 1]);
                    }
                }
            }
        }
        i = i + 1;
    }
    proof {
        assert(d.take(n as int) =~= d);
        lemma_i64_le_total();
        d.lemma_sort_by_ensures(i64_le());
        vstd::seq_lib::lemma_sorted_unique(out@, d.sort_by(i64_le()), i64_le());
    }
    out
}

/// The delay at the window's percentile rank.
fn percentile_delay(samples: &VecDeque<OwdSample>, ranks: &Vec<usize>) -> (r: i64)
    requires
        samples@.len() > 0,
        samples@.len() <= ranks@.len(),
        ranks@[samples@.len() - 1] < samples@.len(),
    ensures
        r == percentile_of(samples@, ranks@),
        delays_of(samples@).contains(r),
        delays_of(samples@).filter(at_most(r)).len() >= ranks@[samples@.len() - 1] + 1,
        delays_of(samples@).filter(at_least(r)).len() >= samples@.len() - ranks@[samples@.len() - 1],
{
    proof {
        lemma_percentile_is_ranked(samples@, ranks@);
    }
    let delays = sorted_delays(samples);
    proof {
        lemma_i64_le_total();
        delays_of(samples@).lemma_sort_by_ensures(i64_le());
        vstd::seq_lib::to_multiset_len(delays_of(samples@));
        vstd::seq_lib::to_multiset_len(delays_of(samples@).sort_by(i64_le()));
    }
    let index = ranks[samples.len() - 1];
    delays[index]
}

/// The mean of the window's delays, rounded down.
fn moving_average_delay(samples: &VecDeque<OwdSample>) -> (r: i64)
    requires
        0 < samples@.len() <= i64::MAX,
        forall|i: int| 0 <= i < samples@.len() ==> (#[trigger] samples@[i]).wf(),
        sum_of(delays_of(samples@)) <= i64::MAX,
    ensures
        r == moving_average_of(samples@),
{
    let ghost d = delays_of(samples@);
    let n = samples.len();
    let mut sum: i64 = 0;
    let mut i: usize = 0;
    while i < n
        invariant
            n == samples@.len(),
            d == delays_of(samples@),
            i <= n,
            sum == sum_of(d.take(i as int)),
            forall|j: int| 0 <= j < samples@.len() ==> (#[trigger] samples@[j]).wf(),
            sum_of(d) <= i64::MAX,
        decreases n - i,
    {
        proof {
            assert(d.take(i + 1).drop_last() =~= d.take(i as int));
            assert(d[i as int] == samples@[i as int].measured_owd);
            lemma_sum_nonneg_prefix(d, i + 1);
        }
        sum = sum + samples[i].measured_owd;
        i = i + 1;
    }
    proof {
        assert(d.take(n as int) =~= d);
        lemma_sum_nonneg_prefix(d, n as int);
    }
    sum / (n as i64)
}

/// Whether a window's delays add up within `i64` under the moving average.
pub open spec fn window_sum_fits(w: Seq<OwdSample>, strategy: EstimatorStrategy) -> bool {
    strategy is MovingAverage ==> w.len() <= i64::MAX && sum_of(delays_of(w)) <= i64::MAX
}

/// The estimate of the window under the given strategy.
pub fn estimate_from_window(
    samples: &VecDeque<OwdSample>,
    strategy: &EstimatorStrategy,
    beta: i64,
    max_owd: i64,
) -> (r: i64)
    requires
        samples@.len() > 0,
        forall|i: int| 0 <= i < samples@.len() ==> (#[trigger] samples@[i]).wf(),
        window_sum_fits(samples@, *strategy),
        strategy matches EstimatorStrategy::Percentile { ranks } ==> samples@.len() <= ranks@.len()
            && ranks@[samples@.len() - 1] < samples@.len(),
    ensures
        r == window_estimate(samples@, *strategy, beta, max_owd),
{
    let base_estimate = match strategy {
        EstimatorStrategy::Percentile { ranks } => percentile_delay(samples, ranks),
        EstimatorStrategy::MovingAverage => moving_average_delay(samples),
        EstimatorStrategy::Fixed => {
            return max_owd;
        },
    };
    let latest = &samples[samples.len() - 1];
    let uncertainty_margin = saturating_mul(beta, latest.uncertainty_sum());
    let estimate = saturating_add(base_estimate, uncertainty_margin);
    if estimate <= 0 || estimate > max_owd {
        max_owd
    } else {
        estimate
    }
}

/// Keeps a sliding window of samples per sender and the estimate it gives.
pub struct OwdEstimator {
    config: OwdEstimatorConfig,
    samples: HashMap<NodeId, VecDeque<OwdSample>>,
    estimates: HashMap<NodeId, i64>,
}

impl OwdEstimator {
    /// The configuration the estimator was made with.
    pub closed spec fn config(&self) -> OwdEstimatorConfig {
        self.config
    }

    /// The senders of which the estimator has samples.
    pub closed spec fn senders(&self) -> Set<NodeId> {
        self.samples@.dom()
    }

    /// The window of samples of sender `id`, oldest first; empty for a sender
    /// that sent nothing.
    pub closed spec fn window(&self, id: NodeId) -> Seq<OwdSample> {
        if self.samples@.contains_key(id) {
            self.samples@[id]@
        } else {
            Seq::empty()
        }
    }

    /// The current estimates, by sender.
    pub closed spec fn estimates(&self) -> Map<NodeId, i64> {
        self.estimates@
    }

    /// The estimator's invariant: its configuration is valid, every sender
    /// with samples has an estimate and no other does, every window holds
    /// between one and `window_size` well-formed samples, and every estimate
    /// is the one its window gives.
    pub closed spec fn wf(&self) -> bool {
        &&& self.config.is_valid()
        &&& self.estimates@.dom() == self.samples@.dom()
        &&& forall|id: NodeId| #[trigger] self.samples@.contains_key(id) ==> {
            &&& 0 < self.samples@[id]@.len() <= self.config.window_size
            &&& forall|i: int| 0 <= i < self.samples@[id]@.len() ==> (#[trigger] self.samples@[id]@[i]).wf()
            &&& self.estimates@[id] == window_estimate(
                self.samples@[id]@,
                self.config.strategy,
                self.config.uncertainty_beta,
                self.config.max_owd,
            )
        }
    }

    /// In a well-formed estimator every sender with samples has between one
    /// and `window_size` of them, and its estimate is the one its window
    /// gives; a sender without samples has no estimate.
    pub proof fn lemma_estimates_follow_windows(&self, id: NodeId)
        requires
            self.wf(),
        ensures
            self.estimates().dom() == self.senders(),
            self.senders().contains(id) ==> {
                &&& 0 < self.window(id).len() <= self.config().window_size
                &&& self.estimates()[id] == window_estimate(
                    self.window(id),
                    self.config().strategy,
                    self.config().uncertainty_beta,
                    self.config().max_owd,
                )
            },
            !self.senders().contains(id) ==> self.window(id).len() == 0,
    {
    }

    /// The conditions under which `update` computes within `i64`: the sample
    /// is well formed and, under the moving average, the delays of the new
    /// window add up within `i64`.
    pub open spec fn update_fits(&self, id: NodeId, sample: OwdSample) -> bool {
        &&& sample.wf()
        &&& window_sum_fits(
            next_window(self.window(id), sample, self.config().window_size),
            self.config().strategy,
        )
    }

    /// Creates a new OWD estimator with the given configuration.
    pub fn with_config(config: OwdEstimatorConfig) -> (e: Self)
        requires
            config.is_valid(),
        ensures
            e.wf(),
            e.config() == config,
            e.senders() == Set::<NodeId>::empty(),
            e.estimates() == Map::<NodeId, i64>::empty(),
    {
        let e = Self { config, samples: HashMap::new(), estimates: HashMap::new() };
        assert(e.samples@.dom() =~= Set::<NodeId>::empty());
        assert(e.estimates@.dom() =~= Set::<NodeId>::empty());
        e
    }

    /// Returns the current one-way delay estimate for the peer with id `id`,
    /// or the configured maximum for a peer without one.
    pub fn estimate_for(&self, id: NodeId) -> (r: i64)
        ensures
            r == (if self.estimates().contains_key(id) {
                self.estimates()[id]
            } else {
                self.config().max_owd
            }),
    {
        match self.estimates.get(&id) {
            Some(e) => *e,
            None => self.config.max_owd,
        }
    }

    /// A copy of the current estimates.
    pub fn estimates_snapshot(&self) -> (m: HashMap<NodeId, i64>)
        ensures
            m@ == self.estimates(),
    {
        self.estimates.clone()
    }

    /// Whether `update` computes within `i64` for this sender and sample.
    pub fn can_update(&self, id: NodeId, sample: &OwdSample) -> (r: bool)
        requires
            self.wf(),
        ensures
            r == self.update_fits(id, *sample),
    {
        let su = sample.sender_uncertainty;
        let ru = sample.receiver_uncertainty;
        if !(sample.measured_owd >= 0 && su >= 0 && ru >= 0 && su.checked_add(ru).is_some()) {
            return false;
        }
        match self.config.strategy {
            EstimatorStrategy::MovingAverage => {},
            _ => {
                return true;
            },
        }
        let ghost w = self.window(id);
        let ghost nw = next_window(w, *sample, self.config.window_size);
        let ghost d = delays_of(nw);
        let mut sum: i64 = 0;
        let ws = self.config.window_size;
        match self.samples.get(&id) {
            Some(window) => {
                let n = window.len();
                let start: usize = if n == ws && n > 0 { 1 } else { 0 };
                let mut i: usize = start;
                while i < n
                    invariant
                        start <= i <= n,
                        n == window@.len(),
                        window@ == w,
                        start == (if n == ws && n > 0 { 1usize } else { 0usize }),
                        nw == next_window(w, *sample, ws),
                        d == delays_of(nw),
                        nw =~= w.subrange(start as int, n as int).push(*sample),
                        sum == sum_of(d.take(i - start)),
                        forall|j: int| 0 <= j < w.len() ==> (#[trigger] w[j]).wf(),
                        sample.wf(),
                        w == self.window(id),
                        ws == self.config.window_size,
                        self.config.strategy is MovingAverage,
                    decreases n - i,
                {
                    proof {
                        assert(d.take(i - start + 1).drop_last() =~= d.take(i - start));
                        assert(d[i - start] == w[i as int].measured_owd);
                    }
                    match sum.checked_add(window[i].measured_owd) {
                        Some(s) => {
                            sum = s;
                        },
                        None => {
                            proof {
                                assert forall|j: int| 0 <= j < d.len() implies d[j] >= 0 by {
                                    assert(d[j] == nw[j].measured_owd);
                                    if j < d.len() - 1 {
                                        assert(nw[j] == w[j + start]);
                                        assert(w[j + start].wf());
                                    }
                                }
                                lemma_sum_nonneg_prefix(d, i - start + 1);
                                assert(d.take(i - start + 1).last() == d[i - start]);
                            }
                            return false;
                        },
                    }
                    i = i + 1;
                }
                proof {
                    assert(d.take(n - start) =~= d.drop_last());
                }
            },
            None => {
                proof {
                    assert(d.drop_last() =~= Seq::<i64>::empty());
                }
            },
        }
        proof {
            assert(d.last() == sample.measured_owd);
            assert(sum_of(d) == sum_of(d.drop_last()) + d.last());
        }
        let kept: usize = match self.samples.get(&id) {
            Some(window) => if window.len() == ws && window.len() > 0 {
                window.len() - 1
            } else {
                window.len()
            },
            None => 0,
        };
        if kept as u128 >= 9223372036854775807u128 {
            return false;
        }
        match sum.checked_add(sample.measured_owd) {
            Some(_) => true,
            None => false,
        }
    }

    /// Inserts a new OWD sample for the given sender and updates the
    /// sliding-window estimate of the one-way delay for that sender.
    pub fn update(&mut self, id: NodeId, sample: OwdSample)
        requires
            old(self).wf(),
            old(self).update_fits(id, sample),
        ensures
            final(self).wf(),
            final(self).config() == old(self).config(),
            final(self).senders() == old(self).senders().insert(id),
            forall|other: NodeId| other != id ==> #[trigger] final(self).window(other) == old(self).window(other),
            final(self).window(id) == next_window(old(self).window(id), sample, old(self).config().window_size),
            final(self).estimates() == old(self).estimates().insert(
                id,
                window_estimate(
                    final(self).window(id),
                    old(self).config().strategy,
                    old(self).config().uncertainty_beta,
                    old(self).config().max_owd,
                ),
            ),
    {
        let window_size = self.config.window_size;
        let mut samples = match self.samples.remove(&id) {
            Some(w) => w,
            None => VecDeque::with_capacity(window_size),
        };
        let ghost w0 = samples@;
        assert(w0 == old(self).window(id));
        if samples.len() == window_size {
            samples.pop_front();
        }
        samples.push_back(sample);
        assert(samples@ =~= next_window(w0, sample, window_size));
        let estimate = estimate_from_window(
            &samples,
            &self.config.strategy,
            self.config.uncertainty_beta,
            self.config.max_owd,
        );
        self.samples.insert(id, samples);
        self.estimates.insert(id, estimate);
        proof {
            assert(self.samples@.dom() =~= old(self).samples@.dom().insert(id));
            assert(self.estimates@.dom() =~= old(self).estimates@.dom().insert(id));
            assert forall|other: NodeId| other != id implies #[trigger] self.window(other) == old(self).window(other) by {
            }
        }
    }
}

/// A tracker of the one-way delay estimates that peers report for the
/// messages this node sends them.
pub struct OutgoingOwdTracker {
    estimates: HashMap<NodeId, i64>,
    default_owd: i64,
}

/// The largest estimate of the map, or `default` for an empty map.
pub open spec fn max_estimate(m: Map<NodeId, i64>, default: i64, r: i64) -> bool {
    &&& m.dom().len() == 0 ==> r == default
    &&& m.dom().len() > 0 ==> {
        &&& m.values().contains(r)
        &&& forall|k: NodeId| #[trigger] m.contains_key(k) ==> m[k] <= r
    }
}

/// There is only one largest estimate.
pub proof fn lemma_max_estimate_unique(m: Map<NodeId, i64>, default: i64, r1: i64, r2: i64)
    requires
        max_estimate(m, default, r1),
        max_estimate(m, default, r2),
    ensures
        r1 == r2,
{
    if m.dom().len() > 0 {
        let k1 = choose|k: NodeId| m.contains_key(k) && m[k] == r1;
        let k2 = choose|k: NodeId| m.contains_key(k) && m[k] == r2;
        assert(m[k1] <= r2);
        assert(m[k2] <= r1);
    }
}

impl OutgoingOwdTracker {
    /// Every estimate that a peer reported is non-negative: a new tracker has
    /// none, and an update stores a negative report as zero, so this holds
    /// after any sequence of updates.
    pub open spec fn estimates_nonnegative(&self) -> bool {
        forall|k: NodeId| #[trigger] self.estimates().contains_key(k) ==> self.estimates()[k] >= 0
    }

    /// The largest reported estimate, or the default where no peer reported one.
    pub open spec fn max_owd_spec(&self) -> i64 {
        choose|r: i64| max_estimate(self.estimates(), self.default_owd(), r)
    }

    /// The estimates reported by the peers, by peer.
    pub closed spec fn estimates(&self) -> Map<NodeId, i64> {
        self.estimates@
    }

    /// The estimate used for a peer that reported none.
    pub closed spec fn default_owd(&self) -> i64 {
        self.default_owd
    }

    /// Creates a new tracker with the given default OWD.
    pub fn new(default_owd: i64) -> (t: Self)
        ensures
            t.estimates() == Map::<NodeId, i64>::empty(),
            t.default_owd() == default_owd,
            t.estimates_nonnegative(),
    {
        let t = Self { estimates: HashMap::new(), default_owd };
        assert(t.estimates@ =~= Map::<NodeId, i64>::empty());
        t
    }

    /// Records the OWD estimate reported by the given peer; a negative one counts as zero.
    pub fn update(&mut self, receiver: NodeId, estimated_owd: i64)
        ensures
            final(self).estimates() == old(self).estimates().insert(
                receiver,
                max_int(estimated_owd as int, 0) as i64,
            ),
            final(self).default_owd() == old(self).default_owd(),
            old(self).estimates_nonnegative() ==> final(self).estimates_nonnegative(),
    {
        let v = max_i64(estimated_owd, 0);
        self.estimates.insert(receiver, v);
        proof {
            if old(self).estimates_nonnegative() {
                assert forall|k: NodeId| #[trigger] self.estimates().contains_key(k) implies self.estimates()[k] >= 0 by {
                    if k != receiver {
                        assert(old(self).estimates().contains_key(k));
                    }
                }
            }
        }
    }

    /// Returns the current OWD estimate for the given peer, or the default.
    pub fn get(&self, receiver: NodeId) -> (r: i64)
        ensures
            r == (if self.estimates().contains_key(receiver) {
                self.estimates()[receiver]
            } else {
                self.default_owd()
            }),
    {
        match self.estimates.get(&receiver) {
            Some(e) => *e,
            None => self.default_owd,
        }
    }

    /// Returns the maximum OWD estimate across all peers, or the default
    /// where no peer reported one.
    pub fn get_max_owd(&self) -> (r: i64)
        ensures
            max_estimate(self.estimates(), self.default_owd(), r),
            r == self.max_owd_spec(),
            (self.estimates_nonnegative() && self.estimates().dom().len() > 0) ==> r >= 0,
    {
        let m = &self.estimates;
        let ghost vals: Seq<i64> = vstd::std_specs::hash::spec_values_iter(m).remaining().unref();
        proof {
            vstd::std_specs::hash::axiom_spec_values_iter(m);
        }
        let mut best: Option<i64> = None;
        let ghost mut n: int = 0;
        for v in it: m.values()
            invariant
                vals == it.seq().unref(),
                n == it.index(),
                best matches Some(b) ==> (exists|j: int| 0 <= j < n && vals[j] == b) && forall|j: int|
                    0 <= j < n ==> vals[j] <= b,
                best is None ==> n == 0,
        {
            match best {
                Some(b) => {
                    if *v > b {
                        best = Some(*v);
                    }
                },
                None => {
                    best = Some(*v);
                },
            }
            proof {
                n = n + 1;
            }
        }
        proof {
            assert(vals.to_set() == m@.values());
            if let Some(b) = best {
                let j = choose|j: int| 0 <= j < n && vals[j] == b;
                assert(vals.to_set().contains(vals[j]));
                assert forall|k: NodeId| #[trigger] m@.contains_key(k) implies m@[k] <= b by {
                    assert(m@.values().contains(m@[k]));
                    assert(vals.to_set().contains(m@[k]));
                    let i = choose|i: int| 0 <= i < vals.len() && vals[i] == m@[k];
                }
            }
        }
        let r = match best {
            Some(b) => b,
            None => self.default_owd,
        };
        proof {
            let c = self.max_owd_spec();
            assert(max_estimate(self.estimates(), self.default_owd(), r));
            lemma_max_estimate_unique(self.estimates(), self.default_owd(), r, c);
        }
        r
    }

    /// A copy of the current estimates.
    pub fn estimates_snapshot(&self) -> (m: HashMap<NodeId, i64>)
        ensures
            m@ == self.estimates(),
    {
        self.estimates.clone()
    }
}

} // verus!
