//! The feature vector builder: projects a document summary into the
//! fixed-length fingerprint the classifier consumes — a bias input of one
//! whole unit and four fixed-point ratios, each scaled by `FEATURE_SCALE`
//! and rounded down.

use vstd::prelude::*;
use crate::perceptron::FEATURE_SCALE;
use crate::perceptron::Sample;
use crate::perceptron::i64_views;
use crate::stats::CorpusStats;

verus! {

/// Largest numerator a ratio feature may carry, so that scaling by
/// `FEATURE_SCALE` stays within the fixed-point range.
pub const RATIO_NUM_MAX: u64 = 900_000_000_000_000;

/// The error of asking for a ratio whose denominator is zero: a degenerate
/// document must be rejected before feature extraction, never turned into an
/// undefined ratio.
#[derive(Debug, PartialEq, Eq)]
pub enum FeatureError {
    DivisionUndefined,
}

/// `num / den` in fixed-point units, rounded down.
pub open spec fn ratio_feature(num: int, den: int) -> int {
    (FEATURE_SCALE as int) * num / den
}

/// The five features of a summary: bias, commas per sentence, and the hapax,
/// dis-legomena and unique-word fractions of the total word count.
pub open spec fn feature_values(s: CorpusStats) -> Seq<int> {
    seq![
        FEATURE_SCALE as int,
        ratio_feature(s.total_commas as int, s.total_sentences as int),
        ratio_feature(s.hapax_legomena as int, s.total_words as int),
        ratio_feature(s.dis_legomena as int, s.total_words as int),
        ratio_feature(s.unique_words as int, s.total_words as int),
    ]
}

/// Fold a summary into a labeled classifier sample. A summary with no
/// sentences or no words has no defined ratios and is rejected with
/// `DivisionUndefined`; every other summary yields exactly the five
/// features of `feature_values`.
pub fn to_sample(stats: &CorpusStats, label: i8) -> (r: Result<Sample, FeatureError>)
    requires
        label == 0 || label == 1,
        stats.total_commas as int <= RATIO_NUM_MAX as int,
        stats.hapax_legomena as int <= RATIO_NUM_MAX as int,
        stats.dis_legomena as int <= RATIO_NUM_MAX as int,
        stats.unique_words as int <= RATIO_NUM_MAX as int,
    ensures
        r is Ok <==> (stats.total_sentences != 0 && stats.total_words != 0),
        r is Ok ==> r.unwrap()@.values == feature_values(*stats),
        r is Ok ==> r.unwrap()@.class == label as int,
{
    if stats.total_sentences == 0 || stats.total_words == 0 {
        return Err(FeatureError::DivisionUndefined);
    }
    let scale: u64 = FEATURE_SCALE as u64;
    let commas = scale * (stats.total_commas as u64) / (stats.total_sentences as u64);
    let hapax = scale * (stats.hapax_legomena as u64) / (stats.total_words as u64);
    let dis = scale * (stats.dis_legomena as u64) / (stats.total_words as u64);
    let unique = scale * (stats.unique_words as u64) / (stats.total_words as u64);
    let values: Vec<i64> = vec![
        FEATURE_SCALE,
        commas as i64,
        hapax as i64,
        dis as i64,
        unique as i64,
    ];
    proof {
        assert(i64_views(values@) =~= feature_values(*stats));
    }
    Ok(Sample { values, class: label })
}

} // verus!
