//! Decision core of a multi-source price oracle: combining readings from
//! independent providers, checking that they agree, and assembling one
//! response per data request, in request order.
//!
//! Numbers are fixed-point integers: a value `v` stands for `v / SCALE`
//! (see [`types::SCALE`]).

pub mod types;
pub mod text;
pub mod aggregation;
pub mod response;
pub mod parallel;
pub mod decimal;
pub mod tree;
pub mod sources;
pub mod readers;

