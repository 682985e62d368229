//! Verified host side of graph neural network kernels.

pub mod bfloat;
pub mod device;
pub mod dtype;
pub mod edges;
pub mod element;
pub mod elementwise;
pub mod error;
pub mod graph;
pub mod inplace_ops;
pub mod layout;
pub mod message_passing;
pub mod modules;
pub mod product;
pub mod sparse;
pub mod spmm;
pub mod storage;
pub mod text;
