//! Scalar fields that seed raw terrain.

pub mod noise;
