//! Verified configuration, calendar and canonical meteorology contract logic
//! for GPU-oriented FLEXPART-style Lagrangian dispersion modelling.

pub mod text;
pub mod timestamp;
pub mod namelist;
pub mod config;
pub mod adapter;
pub mod reference;
pub mod cli;
pub mod meteorology;
pub mod digest;
pub mod corpus;
pub mod gpu_sizes;
pub mod pbl;
pub mod species;
pub mod input_files;
