use raytracer::{Bounce, Path, Shade, Step};

/// Runs a path over the given bounces and returns how it ended and how
/// many bounces it asked for.
fn run(depth: u32, bounces: &[Bounce]) -> (Shade, usize) {
    let mut path = Path::new(depth);
    let mut used = 0;
    loop {
        match path.next() {
            Step::Done(shade) => return (shade, used),
            Step::Trace => {
                path.record(bounces[used]);
                used += 1;
            }
        }
    }
}

#[test]
fn zero_depth_is_black_without_tracing() {
    assert_eq!(Path::new(0).next(), Step::Done(Shade::Black));
    assert_eq!(run(0, &[]), (Shade::Black, 0));
    assert_eq!(run(0, &[Bounce::Miss]), (Shade::Black, 0));
}

#[test]
fn miss_ends_on_the_sky() {
    assert_eq!(run(1, &[Bounce::Miss]), (Shade::Sky, 1));
}

#[test]
fn absorption_ends_in_black() {
    assert_eq!(run(5, &[Bounce::Absorbed]), (Shade::Black, 1));
}

#[test]
fn scatter_then_miss_reaches_the_sky() {
    assert_eq!(
        run(3, &[Bounce::Scattered, Bounce::Scattered, Bounce::Miss]),
        (Shade::Sky, 3)
    );
}

#[test]
fn depth_runs_out_after_scattering() {
    assert_eq!(
        run(2, &[Bounce::Scattered, Bounce::Scattered, Bounce::Miss]),
        (Shade::Black, 2)
    );
}

#[test]
fn single_bounce_on_lambertian_sphere_is_darker_than_sky() {
    // Depth 1: a ray that hits a diffuse surface scatters and runs out of
    // depth; a ray that misses sees the sky.
    assert_eq!(run(1, &[Bounce::Scattered]), (Shade::Black, 1));
    assert_eq!(run(1, &[Bounce::Miss]), (Shade::Sky, 1));
}
