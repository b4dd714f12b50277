pub mod defs;
pub mod metrics;
pub mod mlops;
pub mod normalize;
pub mod ratio;
pub mod shapes;
pub mod trainer;
