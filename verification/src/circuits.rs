//! Example circuits built on the core: each is data over the Module Graph
//! builder, with a driver that runs it through the cycle simulator and a
//! contract pinning the committed results to their mathematical meaning.

pub mod adder;
pub mod dot_product;
pub mod matmul;
pub mod matmul_seq;
pub mod max_pipeline;
pub mod pattern;
pub mod tree_pipeline;
