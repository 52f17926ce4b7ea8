//! Batching of 2D draw requests: requests are ordered by layer, their vertex
//! and index data are concatenated into one buffer pair, and runs of requests
//! with equal pipeline keys are merged into sections that each need a single
//! indexed draw.

pub mod batch;
pub mod colored;
pub mod descriptor;
pub mod draw;
pub mod laws;
pub mod pipeline;
pub mod sort;
pub mod vertex;
