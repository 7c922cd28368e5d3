//! The scattering models' shared vocabulary.

pub mod lambertian;
