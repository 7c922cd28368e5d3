use raytracer::material::lambertian::Distribution;
use raytracer::path::{after, start, Step, Surface};

#[test]
fn no_bounces_left_is_black_without_tracing() {
    assert_eq!(start(0), Step::Black);
    assert_eq!(start(-4), Step::Black);
}

#[test]
fn positive_depth_traces_first_ray() {
    assert_eq!(start(50), Step::Trace(50));
    assert_eq!(start(1), Step::Trace(1));
}

#[test]
fn miss_shows_sky_and_absorption_is_black() {
    assert_eq!(after(5, Surface::Missed), Step::Sky);
    assert_eq!(after(1, Surface::Missed), Step::Sky);
    assert_eq!(after(5, Surface::Absorbed), Step::Black);
}

#[test]
fn scatter_spends_one_bounce() {
    assert_eq!(after(2, Surface::Scattered), Step::Trace(1));
    assert_eq!(after(1, Surface::Scattered), Step::Black);
}

#[test]
fn endless_scattering_traces_depth_rays() {
    let mut step = start(50);
    let mut traced = 0;
    while let Step::Trace(depth) = step {
        traced += 1;
        step = after(depth, Surface::Scattered);
    }
    assert_eq!(traced, 50);
    assert_eq!(step, Step::Black);
}

#[test]
fn distributions_are_distinct() {
    assert_eq!(Distribution::Lambertian, Distribution::Lambertian);
    assert_ne!(Distribution::Lambertian, Distribution::Sphere);
    assert_ne!(Distribution::Uniform, Distribution::Sphere);
}
