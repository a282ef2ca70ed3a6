pub mod expression;
pub mod laws;
pub mod surface;
