pub mod cumulant;
pub mod kurtosis;
pub mod moments;
pub mod skewness;
pub mod variance;
