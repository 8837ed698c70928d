//! Resampling-based inference over one-dimensional numeric samples:
//! bootstrap, jackknife, sign-flip and subsampling generators together with
//! the estimators, order statistics and hypothesis tests built on them.
//!
//! The library is written over the scalars of [`scalar::Real`]; every
//! statistic states what it returns in terms of the operations of those
//! scalars, and every resampler states what holds of each resample whatever
//! the random source draws.

pub mod hypothesis;
pub mod random;
pub mod resample;
pub mod sample;
pub mod scalar;
pub mod statistics;

pub use hypothesis::dagostino::{DagostinoPearson, DagostinoPearsonResult};
pub use hypothesis::kolmogorov::KSTest;
pub use hypothesis::mean::MeanTest;
pub use hypothesis::permutation::{clamp_permutations, TestResult};
pub use hypothesis::reading::{Evidence, Skew, Tails};
pub use hypothesis::variance::VarianceTest;
pub use resample::bootstrap::{resample_at, Bootstrap, BootstrapIter};
pub use resample::flipper::{
    flip_with, Flip, Flipper, FlipperIter, MultiplyFlip, SignBitFlip,
};
pub use resample::jackknife::{Jackknife, JackknifeIter};
pub use resample::shuffle::{shuffle_with, Shuffle, ShuffleIter};
pub use resample::subsampling::{
    fixed_ratio_policy, fixed_size_policy, log_policy, sqrt_policy, subsample_with, SamplingMode,
    Subsample, SubsampleIter,
};
pub use resample::{Re, ReStrategy, SamplingIterator};
pub use sample::Sample;
pub use scalar::Real;
pub use statistics::basic::cumulant::{FourthCumulant, ThirdCumulant};
pub use statistics::basic::kurtosis::Kurtosis;
pub use statistics::basic::skewness::Skewness;
pub use statistics::basic::variance::Variance;
pub use statistics::cdf::{EmpiricalCDF, CDF};
pub use statistics::ci::{FormattedInterval, Interval, IntervalStyle, Layout, Shape};
pub use statistics::mean::Mean;
pub use statistics::quantile::{Quantile, QuantileInterval};
pub use statistics::se::{SEMean, SE};
pub use statistics::studentized::Studentized;
pub use statistics::studentized_bootstrap::StudentizedBootstrap;
pub use statistics::{Observations, Standardize, Statistic};
