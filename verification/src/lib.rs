pub mod contribution;
pub mod engine;
pub mod entropy;
pub mod errors;
pub mod flags;
pub mod g1;
pub mod g2;
pub mod hexstr;
pub mod scalar;
