//! A Monte Carlo path tracer's integer core: the order in which the sampler
//! emits pixels, the depth-bounded control of a light path, and the PPM
//! encoding of a quantized image.

pub mod material;
pub mod path;
pub mod ppm;
pub mod raster;
