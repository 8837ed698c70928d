pub mod dagostino;
pub mod kolmogorov;
pub mod mean;
pub mod permutation;
pub mod reading;
pub mod variance;
