//! The perceptron engine: online mistake-driven training of a weight vector,
//! threshold-at-zero classification, and accuracy counting. Features and
//! weights are fixed-point integers (`FEATURE_SCALE` units per 1.0); the
//! update adds `(label - prediction) * feature` to each weight, which absorbs
//! the constant learning rate — with a strict `> 0` decision rule, scaling
//! every weight by the same positive constant never changes a prediction.

use vstd::prelude::*;

verus! {

/// Fixed-point units per 1.0 of a real-valued feature.
pub const FEATURE_SCALE: i64 = 10_000;

/// Magnitude bound on every feature value the engine accepts.
pub const VAL_BOUND: i64 = 1_000_000;

/// Magnitude bound on every weight the engine accepts or produces; wide
/// enough for the largest drift a full training run can cause.
pub const WEIGHT_BOUND: i64 = 130_000_000_000;

/// Most feature slots a sample may have.
pub const DIM_MAX: usize = 64;

/// Most samples one training run may take.
pub const SAMPLES_MAX: usize = 1000;

/// Epoch budget of one training run.
pub const MAX_EPOCHS: usize = 100;

/// A labeled feature vector; `values[0]` is conventionally the bias input of
/// one whole `FEATURE_SCALE`, and `class` is 0 or 1.
pub struct Sample {
    pub values: Vec<i64>,
    pub class: i8,
}

/// The mathematical value of a sample.
pub struct SampleV {
    pub values: Seq<int>,
    pub class: int,
}

pub open spec fn i64_views(s: Seq<i64>) -> Seq<int> {
    s.map_values(|x: i64| x as int)
}

pub open spec fn i8_views(s: Seq<i8>) -> Seq<int> {
    s.map_values(|x: i8| x as int)
}

impl View for Sample {
    type V = SampleV;

    open spec fn view(&self) -> SampleV {
        SampleV { values: i64_views(self.values@), class: self.class as int }
    }
}

pub open spec fn sample_views(ss: Seq<Sample>) -> Seq<SampleV> {
    ss.map_values(|s: Sample| s@)
}

/// A sample the engine accepts: the right dimension, a 0/1 label, and
/// features within the fixed-point range.
pub open spec fn sample_ok(s: SampleV, dim: int) -> bool {
    &&& s.values.len() == dim
    &&& (s.class == 0 || s.class == 1)
    &&& forall|k: int|
        0 <= k < s.values.len() ==> -(VAL_BOUND as int) <= #[trigger] s.values[k] <= VAL_BOUND
            as int
}

pub open spec fn samples_ok(ss: Seq<SampleV>, dim: int) -> bool {
    forall|i: int| 0 <= i < ss.len() ==> sample_ok(#[trigger] ss[i], dim)
}

pub open spec fn weights_ok(w: Seq<int>) -> bool {
    forall|k: int|
        0 <= k < w.len() ==> -(WEIGHT_BOUND as int) <= #[trigger] w[k] <= WEIGHT_BOUND as int
}

pub open spec fn vals_ok(v: Seq<int>) -> bool {
    forall|k: int| 0 <= k < v.len() ==> -(VAL_BOUND as int) <= #[trigger] v[k] <= VAL_BOUND as int
}

/// Every weight within magnitude `m`.
pub open spec fn weights_bounded(w: Seq<int>, m: int) -> bool {
    forall|k: int| 0 <= k < w.len() ==> -m <= #[trigger] w[k] <= m
}

/// Dot product of two equally long vectors.
pub open spec fn dot_spec(a: Seq<int>, b: Seq<int>) -> int
    decreases a.len(),
{
    if a.len() == 0 || b.len() == 0 {
        0
    } else {
        dot_spec(a.drop_last(), b.drop_last()) + a.last() * b.last()
    }
}

/// The decision rule: predict 1 exactly when the dot product is positive; a
/// dot product of exactly zero classifies as 0.
pub open spec fn predict_spec(w: Seq<int>, x: Seq<int>) -> int {
    if dot_spec(w, x) > 0 {
        1
    } else {
        0
    }
}

/// The mistake-driven update: add `(label - prediction) * feature` to every
/// weight; a correct prediction leaves the weights unchanged.
pub open spec fn update_spec(w: Seq<int>, s: SampleV, y: int) -> Seq<int> {
    Seq::new(w.len(), |k: int| w[k] + (s.class - y) * s.values[k])
}

/// One epoch: visit every sample in order, predicting with the current
/// weights and updating after each; yields the final weights and the number
/// of mistakes made.
pub open spec fn epoch_spec(w: Seq<int>, ss: Seq<SampleV>) -> (Seq<int>, int)
    decreases ss.len(),
{
    if ss.len() == 0 {
        (w, 0)
    } else {
        let t = epoch_spec(w, ss.drop_last());
        let s = ss.last();
        let y = predict_spec(t.0, s.values);
        (
            update_spec(t.0, s, y),
            t.1 + if s.class != y {
                1int
            } else {
                0int
            },
        )
    }
}

/// Training: run epochs until one makes no mistake (converged, stop early)
/// or the budget runs out (return the last weights, not converged). Yields
/// the weights, the number of epochs run, and whether training converged.
pub open spec fn train_spec(w: Seq<int>, ss: Seq<SampleV>, budget: nat) -> (Seq<int>, int, bool)
    decreases budget,
{
    if budget == 0 {
        (w, 0, false)
    } else {
        let e = epoch_spec(w, ss);
        if e.1 == 0 {
            (e.0, 1, true)
        } else {
            let t = train_spec(e.0, ss, (budget - 1) as nat);
            (t.0, t.1 + 1, t.2)
        }
    }
}

/// One predicted label per sample, in order.
pub open spec fn classify_spec(w: Seq<int>, ss: Seq<SampleV>) -> Seq<int> {
    ss.map_values(|s: SampleV| predict_spec(w, s.values))
}

/// How many samples the weights classify correctly.
pub open spec fn match_count(w: Seq<int>, ss: Seq<SampleV>) -> int
    decreases ss.len(),
{
    if ss.len() == 0 {
        0
    } else {
        match_count(w, ss.drop_last()) + if predict_spec(w, ss.last().values) == ss.last().class {
            1int
        } else {
            0int
        }
    }
}

/// Dot product of two equally long vectors of fixed-point numbers.
pub fn dot(v1: &Vec<i64>, v2: &Vec<i64>) -> (r: i64)
    requires
        v1@.len() == v2@.len(),
        v1@.len() <= DIM_MAX as int,
        weights_ok(i64_views(v1@)),
        vals_ok(i64_views(v2@)),
    ensures
        r as int == dot_spec(i64_views(v1@), i64_views(v2@)),
{
    let ghost a = i64_views(v1@);
    let ghost b = i64_views(v2@);
    let mut acc: i64 = 0;
    let mut i: usize = 0;
    while i < v1.len()
        invariant
            i <= v1@.len(),
            v1@.len() == v2@.len(),
            v1@.len() <= DIM_MAX as int,
            a == i64_views(v1@),
            b == i64_views(v2@),
            weights_ok(a),
            vals_ok(b),
            acc as int == dot_spec(a.take(i as int), b.take(i as int)),
            -(i as int) * (WEIGHT_BOUND as int) * (VAL_BOUND as int) <= acc as int <= (i as int) * (
            WEIGHT_BOUND as int) * (VAL_BOUND as int),
        decreases v1@.len() - i,
    {
        let ghost x = v1@[i as int] as int;
        let ghost y = v2@[i as int] as int;
        proof {
            assert(x == a[i as int] && y == b[i as int]);
            assert(-(WEIGHT_BOUND as int) * (VAL_BOUND as int) <= x * y <= (WEIGHT_BOUND as int) * (
            VAL_BOUND as int)) by (nonlinear_arith)
                requires
                    -(WEIGHT_BOUND as int) <= x <= WEIGHT_BOUND as int,
                    -(VAL_BOUND as int) <= y <= VAL_BOUND as int,
            ;
        }
        let p = v1[i] * v2[i];
        acc = acc + p;
        i = i + 1;
        proof {
            assert(a.take(i as int).drop_last() =~= a.take(i - 1));
            assert(b.take(i as int).drop_last() =~= b.take(i - 1));
            assert(a.take(i as int).last() == x);
            assert(b.take(i as int).last() == y);
        }
    }
    proof {
        assert(a.take(a.len() as int) =~= a);
        assert(b.take(b.len() as int) =~= b);
    }
    acc
}

/// Elementwise sum of two equally long vectors.
pub fn sum(v1: &Vec<i64>, v2: &Vec<i64>) -> (r: Vec<i64>)
    requires
        v1@.len() == v2@.len(),
        forall|k: int|
            0 <= k < v1@.len() ==> i64::MIN as int <= #[trigger] (v1@[k] as int + v2@[k] as int)
                <= i64::MAX as int,
    ensures
        r@.len() == v1@.len(),
        forall|k: int| 0 <= k < r@.len() ==> #[trigger] r@[k] as int == v1@[k] as int + v2@[k] as int,
{
    let mut out: Vec<i64> = Vec::new();
    let mut i: usize = 0;
    while i < v1.len()
        invariant
            i <= v1@.len(),
            v1@.len() == v2@.len(),
            out@.len() == i,
            forall|k: int|
                0 <= k < v1@.len() ==> i64::MIN as int <= #[trigger] (v1@[k] as int + v2@[k] as int)
                    <= i64::MAX as int,
            forall|k: int|
                0 <= k < i as int ==> #[trigger] out@[k] as int == v1@[k] as int + v2@[k] as int,
        decreases v1@.len() - i,
    {
        out.push(v1[i] + v2[i]);
        i = i + 1;
    }
    out
}

/// Predict a sample's label with the given weights.
pub fn predict(weights: &Vec<i64>, s: &Sample) -> (r: i8)
    requires
        weights@.len() == s@.values.len(),
        weights@.len() <= DIM_MAX as int,
        weights_ok(i64_views(weights@)),
        sample_ok(s@, weights@.len() as int),
    ensures
        r as int == predict_spec(i64_views(weights@), s@.values),
        r == 0 || r == 1,
{
    if dot(weights, &s.values) > 0 {
        1
    } else {
        0
    }
}

/// One mistake-driven update of the weights for one sample.
pub fn update_weights(weights: &Vec<i64>, xj: &Sample, yj: i8) -> (r: Vec<i64>)
    requires
        weights@.len() == xj@.values.len(),
        weights_ok(i64_views(weights@)),
        sample_ok(xj@, weights@.len() as int),
        yj == 0 || yj == 1,
    ensures
        i64_views(r@) == update_spec(i64_views(weights@), xj@, yj as int),
{
    let delta: i64 = (xj.class - yj) as i64;
    let mut out: Vec<i64> = Vec::new();
    let mut k: usize = 0;
    while k < weights.len()
        invariant
            k <= weights@.len(),
            weights@.len() == xj.values@.len(),
            weights_ok(i64_views(weights@)),
            sample_ok(xj@, weights@.len() as int),
            yj == 0 || yj == 1,
            delta as int == xj@.class - yj as int,
            -1 <= delta as int <= 1,
            out@.len() == k,
            forall|kk: int|
                0 <= kk < k as int ==> #[trigger] out@[kk] as int == weights@[kk] as int + (
                xj@.class - yj as int) * xj@.values[kk],
        decreases weights@.len() - k,
    {
        let ghost d = delta as int;
        let ghost v = xj.values@[k as int] as int;
        proof {
            assert(v == xj@.values[k as int]);
            assert(weights@[k as int] as int == i64_views(weights@)[k as int]);
            assert(-(VAL_BOUND as int) <= d * v <= VAL_BOUND as int) by (nonlinear_arith)
                requires
                    -1 <= d <= 1,
                    -(VAL_BOUND as int) <= v <= VAL_BOUND as int,
            ;
        }
        out.push(weights[k] + delta * xj.values[k]);
        k = k + 1;
    }
    proof {
        assert(i64_views(out@) =~= update_spec(i64_views(weights@), xj@, yj as int));
    }
    out
}

proof fn lemma_update_bound(w: Seq<int>, s: SampleV, y: int, m: int)
    requires
        s.class == 0 || s.class == 1,
        y == 0 || y == 1,
        s.values.len() == w.len(),
        m >= 0,
        weights_bounded(w, m),
        forall|k: int|
            0 <= k < s.values.len() ==> -(VAL_BOUND as int) <= #[trigger] s.values[k] <= VAL_BOUND
                as int,
    ensures
        weights_bounded(update_spec(w, s, y), m + VAL_BOUND as int),
{
    assert forall|k: int|
        0 <= k < update_spec(w, s, y).len() implies -(m + VAL_BOUND as int) <= #[trigger] update_spec(
        w,
        s,
        y,
    )[k] <= m + VAL_BOUND as int by {
        let d = s.class - y;
        let v = s.values[k];
        assert(-(VAL_BOUND as int) <= d * v <= VAL_BOUND as int) by (nonlinear_arith)
            requires
                -1 <= d <= 1,
                -(VAL_BOUND as int) <= v <= VAL_BOUND as int,
        ;
    }
}

/// What one training run is given: an initial weight vector of small
/// nonnegative fixed-point values, and samples that fit the engine's bounds.
pub open spec fn train_inputs_ok(ss: Seq<SampleV>, init: Seq<int>) -> bool {
    &&& init.len() <= DIM_MAX as int
    &&& ss.len() <= SAMPLES_MAX as int
    &&& forall|k: int| 0 <= k < init.len() ==> 0 <= #[trigger] init[k] <= FEATURE_SCALE as int
    &&& samples_ok(ss, init.len() as int)
}

/// What training yields: the final weights, how many epochs ran, and whether
/// some epoch finished without a mistake.
pub struct TrainResult {
    pub weights: Vec<i64>,
    pub epochs: usize,
    pub converged: bool,
}

/// Train a weight vector from the given initial weights. Runs up to
/// `MAX_EPOCHS` passes over the samples in order; stops early after the
/// first pass with zero mistakes. Reaching the budget without such a pass is
/// reported through `converged == false`, not as an error.
pub fn train(samples: &Vec<Sample>, init: Vec<i64>) -> (r: TrainResult)
    requires
        train_inputs_ok(sample_views(samples@), i64_views(init@)),
    ensures
        ({
            let t = train_spec(i64_views(init@), sample_views(samples@), MAX_EPOCHS as nat);
            &&& i64_views(r.weights@) == t.0
            &&& r.epochs as int == t.1
            &&& r.converged == t.2
        }),
{
    let ghost ss: Seq<SampleV> = sample_views(samples@);
    let ghost w0: Seq<int> = i64_views(init@);
    let ghost full: (Seq<int>, int, bool) = train_spec(w0, ss, MAX_EPOCHS as nat);
    let ghost dim: int = init@.len() as int;
    let mut weights: Vec<i64> = init;
    let mut epoch: usize = 0;
    let mut stop: bool = false;
    while epoch < MAX_EPOCHS && !stop
        invariant
            epoch <= MAX_EPOCHS,
            ss == sample_views(samples@),
            ss.len() == samples@.len(),
            full == train_spec(w0, ss, MAX_EPOCHS as nat),
            train_inputs_ok(ss, w0),
            samples_ok(ss, dim),
            ss.len() <= SAMPLES_MAX as int,
            dim <= DIM_MAX as int,
            weights@.len() == dim,
            weights_bounded(
                i64_views(weights@),
                FEATURE_SCALE as int + epoch as int * (SAMPLES_MAX as int) * (VAL_BOUND as int),
            ),
            !stop ==> ({
                let t = train_spec(i64_views(weights@), ss, (MAX_EPOCHS - epoch) as nat);
                full.0 == t.0 && full.1 == epoch as int + t.1 && full.2 == t.2
            }),
            stop ==> full.0 == i64_views(weights@) && full.1 == epoch as int && full.2 == true,
        decreases MAX_EPOCHS - epoch,
    {
        let ghost we: Seq<int> = i64_views(weights@);
        let ghost b0: int = FEATURE_SCALE as int + epoch as int * (SAMPLES_MAX as int) * (VAL_BOUND
            as int);
        let mut errors: usize = 0;
        let mut j: usize = 0;
        while j < samples.len()
            invariant
                j <= samples@.len(),
                ss == sample_views(samples@),
                ss.len() == samples@.len(),
                samples_ok(ss, dim),
                ss.len() <= SAMPLES_MAX as int,
                dim <= DIM_MAX as int,
                weights@.len() == dim,
                0 <= b0 <= FEATURE_SCALE as int + 99 * (SAMPLES_MAX as int) * (VAL_BOUND as int),
                weights_bounded(i64_views(weights@), b0 + j as int * (VAL_BOUND as int)),
                (i64_views(weights@), errors as int) == epoch_spec(we, ss.take(j as int)),
                errors <= j,
            decreases samples@.len() - j,
        {
            let s = &samples[j];
            proof {
                assert(ss[j as int] == s@);
            }
            let yj = predict(&weights, s);
            let new_weights = update_weights(&weights, s, yj);
            proof {
                lemma_update_bound(
                    i64_views(weights@),
                    s@,
                    yj as int,
                    b0 + j as int * (VAL_BOUND as int),
                );
            }
            proof {
                assert(i64_views(new_weights@).len() == new_weights@.len());
                assert(i64_views(new_weights@).len() == dim);
            }
            weights = new_weights;
            if s.class != yj {
                errors = errors + 1;
            }
            j = j + 1;
            proof {
                assert(ss.take(j as int).drop_last() =~= ss.take(j - 1));
                assert(ss.take(j as int).last() == s@);
            }
        }
        proof {
            assert(ss.take(ss.len() as int) =~= ss);
        }
        epoch = epoch + 1;
        if errors == 0 {
            stop = true;
        }
        proof {
            let t = train_spec(we, ss, (MAX_EPOCHS - (epoch - 1)) as nat);
            assert(MAX_EPOCHS - (epoch - 1) >= 1);
            if errors == 0 {
                assert(t == (i64_views(weights@), 1int, true));
            } else {
                let t2 = train_spec(i64_views(weights@), ss, (MAX_EPOCHS - epoch) as nat);
                assert(t == (t2.0, t2.1 + 1, t2.2));
            }
        }
    }
    proof {
        if !stop {
            assert(epoch == MAX_EPOCHS);
            assert(train_spec(i64_views(weights@), ss, 0) == (i64_views(weights@), 0int, false));
        }
    }
    TrainResult { weights, epochs: epoch, converged: stop }
}

/// Classify each sample with fixed weights: one 0/1 label per sample, in the
/// samples' order, and the weights are read only.
pub fn classify(weights: &Vec<i64>, samples: &Vec<Sample>) -> (r: Vec<i8>)
    requires
        weights@.len() <= DIM_MAX as int,
        weights_ok(i64_views(weights@)),
        samples_ok(sample_views(samples@), weights@.len() as int),
    ensures
        i8_views(r@) == classify_spec(i64_views(weights@), sample_views(samples@)),
        r@.len() == samples@.len(),
{
    let ghost ss: Seq<SampleV> = sample_views(samples@);
    let mut out: Vec<i8> = Vec::new();
    let mut j: usize = 0;
    while j < samples.len()
        invariant
            j <= samples@.len(),
            ss == sample_views(samples@),
            ss.len() == samples@.len(),
            weights@.len() <= DIM_MAX as int,
            weights_ok(i64_views(weights@)),
            samples_ok(ss, weights@.len() as int),
            out@.len() == j,
            i8_views(out@) == classify_spec(i64_views(weights@), ss.take(j as int)),
        decreases samples@.len() - j,
    {
        let s = &samples[j];
        proof {
            assert(ss[j as int] == s@);
        }
        let y = predict(weights, s);
        let ghost prev: Seq<i8> = out@;
        out.push(y);
        j = j + 1;
        proof {
            let w = i64_views(weights@);
            assert forall|k: int| 0 <= k < j as int implies i8_views(out@)[k] == classify_spec(
                w,
                ss.take(j as int),
            )[k] by {
                assert(ss.take(j as int)[k] == ss[k]);
                if k < j - 1 {
                    assert(out@[k] == prev[k]);
                    assert(i8_views(prev)[k] == classify_spec(w, ss.take(j - 1))[k]);
                    assert(ss.take(j - 1)[k] == ss[k]);
                } else {
                    assert(out@[k] == y);
                }
            }
            assert(i8_views(out@) =~= classify_spec(w, ss.take(j as int)));
        }
    }
    proof {
        assert(ss.take(ss.len() as int) =~= ss);
    }
    out
}

/// Count how many labeled samples the weights classify correctly; yields
/// (matches, total).
pub fn test(weights: &Vec<i64>, samples: &Vec<Sample>) -> (r: (usize, usize))
    requires
        weights@.len() <= DIM_MAX as int,
        weights_ok(i64_views(weights@)),
        samples_ok(sample_views(samples@), weights@.len() as int),
    ensures
        r.0 as int == match_count(i64_views(weights@), sample_views(samples@)),
        r.1 == samples@.len(),
        r.0 <= r.1,
{
    let ghost ss: Seq<SampleV> = sample_views(samples@);
    let mut matches: usize = 0;
    let mut j: usize = 0;
    while j < samples.len()
        invariant
            j <= samples@.len(),
            ss == sample_views(samples@),
            ss.len() == samples@.len(),
            weights@.len() <= DIM_MAX as int,
            weights_ok(i64_views(weights@)),
            samples_ok(ss, weights@.len() as int),
            matches as int == match_count(i64_views(weights@), ss.take(j as int)),
            matches <= j,
        decreases samples@.len() - j,
    {
        let s = &samples[j];
        proof {
            assert(ss[j as int] == s@);
        }
        let y = predict(weights, s);
        if y == s.class {
            matches = matches + 1;
        }
        j = j + 1;
        proof {
            assert(ss.take(j as int).drop_last() =~= ss.take(j - 1));
            assert(ss.take(j as int).last() == s@);
        }
    }
    proof {
        assert(ss.take(ss.len() as int) =~= ss);
    }
    (matches, samples.len())
}

/// The engine's fatal error: samples that do not share one vector length.
#[derive(Debug, PartialEq, Eq)]
pub enum PerceptronError {
    DimensionMismatch,
}

/// Train after checking that every sample matches the initial weights'
/// dimension; a mismatch is the fatal `DimensionMismatch`.
pub fn train_checked(samples: &Vec<Sample>, init: Vec<i64>) -> (r: Result<
    TrainResult,
    PerceptronError,
>)
    requires
        init@.len() <= DIM_MAX as int,
        samples@.len() <= SAMPLES_MAX as int,
        forall|k: int| 0 <= k < init@.len() ==> 0 <= #[trigger] init@[k] as int <= FEATURE_SCALE as int,
        forall|i: int|
            0 <= i < samples@.len() ==> (#[trigger] sample_views(samples@)[i].class == 0
                || sample_views(samples@)[i].class == 1),
        forall|i: int, k: int|
            0 <= i < samples@.len() && 0 <= k < sample_views(samples@)[i].values.len() ==> -(
            VAL_BOUND as int) <= #[trigger] sample_views(samples@)[i].values[k] <= VAL_BOUND as int,
    ensures
        r is Ok <==> samples_ok(sample_views(samples@), init@.len() as int),
        r is Ok ==> ({
            let t = train_spec(i64_views(init@), sample_views(samples@), MAX_EPOCHS as nat);
            &&& i64_views(r.unwrap().weights@) == t.0
            &&& r.unwrap().epochs as int == t.1
            &&& r.unwrap().converged == t.2
        }),
{
    let ghost ss: Seq<SampleV> = sample_views(samples@);
    let dim = init.len();
    let mut j: usize = 0;
    while j < samples.len()
        invariant
            j <= samples@.len(),
            ss == sample_views(samples@),
            ss.len() == samples@.len(),
            dim == init@.len(),
            forall|i: int| 0 <= i < j as int ==> #[trigger] ss[i].values.len() == dim as int,
        decreases samples@.len() - j,
    {
        if samples[j].values.len() != dim {
            proof {
                assert(ss[j as int].values.len() != dim as int);
            }
            return Err(PerceptronError::DimensionMismatch);
        }
        proof {
            assert(ss[j as int] == samples@[j as int]@);
        }
        j = j + 1;
    }
    Ok(train(samples, init))
}

/// Relies on rand::Rng::gen_range over `0..bound` (rand 0.8): it panics only
/// on an empty range and returns a value drawn below `bound`; nothing more
/// is assumed of the draw.
#[verifier::external_body]
fn random_below(bound: u64) -> (r: u64)
    requires
        bound >= 1,
    ensures
        r < bound,
{
    let mut rng = rand::thread_rng();
    rand::Rng::gen_range(&mut rng, std::ops::Range { start: 0u64, end: bound })
}

/// An acceptable initial weight vector: the right dimension, every entry a
/// small nonnegative fixed-point value.
pub open spec fn init_weights_ok(w0: Seq<int>, dim: int) -> bool {
    w0.len() == dim && forall|k: int|
        0 <= k < w0.len() ==> 0 <= #[trigger] w0[k] <= FEATURE_SCALE as int
}

/// Whether a training outcome is exactly what `train_spec` yields from the
/// given initial weights over the given samples.
pub open spec fn train_outcome_from(
    weights: Seq<int>,
    epochs: int,
    converged: bool,
    w0: Seq<int>,
    ss: Seq<SampleV>,
) -> bool {
    let t = train_spec(w0, ss, MAX_EPOCHS as nat);
    weights == t.0 && epochs == t.1 && converged == t.2
}

/// A fresh random weight vector: one small nonnegative value per feature
/// slot, each below one whole `FEATURE_SCALE`.
pub fn fresh_weights(dim: usize) -> (r: Vec<i64>)
    ensures
        r@.len() == dim,
        forall|k: int|
            0 <= k < dim as int ==> 0 <= (#[trigger] r@[k] as int) && (r@[k] as int) < (
            FEATURE_SCALE as int),
{
    let mut out: Vec<i64> = Vec::new();
    let mut k: usize = 0;
    while k < dim
        invariant
            k <= dim,
            out@.len() == k,
            forall|kk: int|
                0 <= kk < k as int ==> 0 <= (#[trigger] out@[kk] as int) && (out@[kk] as int) < (
                FEATURE_SCALE as int),
        decreases dim - k,
    {
        let w = random_below(10_000);
        out.push(w as i64);
        k = k + 1;
    }
    out
}

/// Train with a fresh random initialization, the dimension taken from the
/// first sample. Whatever the draw, the result is a training run from some
/// initial weight vector of small nonnegative values.
pub fn train_fresh(samples: &Vec<Sample>) -> (r: TrainResult)
    requires
        1 <= samples@.len() <= SAMPLES_MAX as int,
        sample_views(samples@)[0].values.len() <= DIM_MAX as int,
        samples_ok(sample_views(samples@), sample_views(samples@)[0].values.len() as int),
    ensures
        exists|w0: Seq<int>|
            #[trigger] init_weights_ok(w0, sample_views(samples@)[0].values.len() as int)
                && train_outcome_from(
                i64_views(r.weights@),
                r.epochs as int,
                r.converged,
                w0,
                sample_views(samples@),
            ),
{
    let ghost ss: Seq<SampleV> = sample_views(samples@);
    proof {
        assert(ss[0] == samples@[0]@);
    }
    let dim = samples[0].values.len();
    let init = fresh_weights(dim);
    let ghost w0: Seq<int> = i64_views(init@);
    let r = train(samples, init);
    proof {
        assert(init_weights_ok(w0, ss[0].values.len() as int));
        assert(train_outcome_from(i64_views(r.weights@), r.epochs as int, r.converged, w0, ss));
    }
    r
}

proof fn lemma_epoch_errors_nonneg(w: Seq<int>, ss: Seq<SampleV>)
    ensures
        epoch_spec(w, ss).1 >= 0,
    decreases ss.len(),
{
    if ss.len() > 0 {
        lemma_epoch_errors_nonneg(w, ss.drop_last());
    }
}

/// An epoch with zero mistakes never touched the weights, and every sample
/// was classified as its own label by those very weights.
pub proof fn lemma_zero_error_epoch(w: Seq<int>, ss: Seq<SampleV>)
    requires
        epoch_spec(w, ss).1 == 0,
    ensures
        epoch_spec(w, ss).0 == w,
        forall|k: int|
            0 <= k < ss.len() ==> predict_spec(w, #[trigger] ss[k].values) == ss[k].class,
    decreases ss.len(),
{
    if ss.len() > 0 {
        lemma_epoch_errors_nonneg(w, ss.drop_last());
        lemma_zero_error_epoch(w, ss.drop_last());
        let s = ss.last();
        let y = predict_spec(w, s.values);
        assert(s.class == y);
        assert forall|k: int| 0 <= k < w.len() implies update_spec(w, s, y)[k] == w[k] by {
            let d = s.class - y;
            assert(d * s.values[k] == 0) by (nonlinear_arith)
                requires
                    d == 0,
            ;
        }
        assert(update_spec(w, s, y) =~= w);
        assert forall|k: int|
            0 <= k < ss.len() implies predict_spec(w, #[trigger] ss[k].values) == ss[k].class by {
            if k < ss.len() - 1 {
                assert(ss.drop_last()[k] == ss[k]);
            } else {
                assert(ss[k] == ss.last());
            }
        }
    }
}

/// A sample set holding one feature vector under both labels can never give
/// a zero-mistake epoch — the weights would have had to stay fixed through
/// the epoch and classify the same vector both as 1 and as 0 — so training
/// on it always exhausts its whole epoch budget and reports non-convergence.
pub proof fn lemma_contradictory_labels_prevent_convergence(
    w: Seq<int>,
    ss: Seq<SampleV>,
    i: int,
    j: int,
    budget: nat,
)
    requires
        0 <= i < ss.len(),
        0 <= j < ss.len(),
        ss[i].values == ss[j].values,
        ss[i].class == 1,
        ss[j].class == 0,
    ensures
        !train_spec(w, ss, budget).2,
        train_spec(w, ss, budget).1 == budget,
    decreases budget,
{
    if budget > 0 {
        let e = epoch_spec(w, ss);
        if e.1 == 0 {
            lemma_zero_error_epoch(w, ss);
            assert(predict_spec(w, ss[i].values) == 1);
            assert(predict_spec(w, ss[j].values) == 0);
            assert(false);
        }
        lemma_contradictory_labels_prevent_convergence(e.0, ss, i, j, (budget - 1) as nat);
    }
}

/// Classification with fixed weights is deterministic: two classification
/// runs over the same weights and samples agree label for label.
pub proof fn lemma_classify_deterministic(
    w: Seq<int>,
    ss: Seq<SampleV>,
    r1: Seq<int>,
    r2: Seq<int>,
)
    requires
        r1 == classify_spec(w, ss),
        r2 == classify_spec(w, ss),
    ensures
        r1 == r2,
{
}

} // verus!
