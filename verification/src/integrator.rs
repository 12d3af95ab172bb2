//! The recursive radiance estimator.
//!
//! A ray is followed through the scene one bounce at a time. At each step
//! the first object of the scene, in scene order, that the ray hits
//! scatters it; the path ends when a ray hits nothing or when the depth
//! limit is reached. The radiance of the ray is what the objects along the
//! path make, from the last to the first, of the radiance at its end.

use vstd::prelude::*;
use crate::ray::Ray;
use crate::renderables::Renderable;
use crate::scalar::Scalar;
use crate::scalar::ONE_BITS;
use crate::vector::Color;
use crate::vector::Vector3;

verus! {

/// The number of bounces after which a path is cut off.
pub const MAX_DEPTH: i32 = 10;

/// The pattern of the red channel of the background, four fifths.
pub const BACKGROUND_RED_BITS: u64 = 0x3FE9_9999_9999_999A;

/// The pattern of the green channel of the background, one.
pub const BACKGROUND_GREEN_BITS: u64 = ONE_BITS;

/// The pattern of the blue channel of the background, one.
pub const BACKGROUND_BLUE_BITS: u64 = ONE_BITS;

/// One bounce of a light path: the ray hit the object at index `object` of
/// the scene at `point` and went on as `scattered`.
pub struct Bounce {
    pub object: int,
    pub point: Vector3,
    pub scattered: Ray,
}

/// The radiance of a ray that hits nothing.
pub open spec fn background_spec() -> Color {
    Vector3 {
        x: Scalar { bits: BACKGROUND_RED_BITS },
        y: Scalar { bits: BACKGROUND_GREEN_BITS },
        z: Scalar { bits: BACKGROUND_BLUE_BITS },
    }
}

/// The radiance of a path that was cut off: none.
pub open spec fn black_spec() -> Color {
    Vector3::zero_spec()
}

/// Whether `ray` hits no object of the scene.
pub open spec fn misses_all(scene: Seq<Box<dyn Renderable>>, ray: Ray) -> bool {
    forall|j: int| 0 <= j < scene.len() ==> (#[trigger] scene[j].intersect_spec(ray)) is None
}

/// Whether the object at index `i` is the first of the scene, in scene
/// order, that `ray` hits, and `point` is where it hits it. An object that
/// comes later is not looked at, however near it is.
pub open spec fn is_first_hit(
    scene: Seq<Box<dyn Renderable>>,
    ray: Ray,
    i: int,
    point: Vector3,
) -> bool {
    &&& 0 <= i < scene.len()
    &&& scene[i].intersect_spec(ray) == Some(point)
    &&& forall|j: int| 0 <= j < i ==> (#[trigger] scene[j].intersect_spec(ray)) is None
}

/// Whether `path` is a light path of `ray`, traced from `depth` on: each
/// bounce is at the first hit of the ray that arrives, each object scatters
/// at its hit point the direction that arrived, and the path ends where the
/// depth limit is reached or the last ray hits nothing.
pub open spec fn follows(
    scene: Seq<Box<dyn Renderable>>,
    ray: Ray,
    depth: int,
    path: Seq<Bounce>,
) -> bool
    decreases path.len(),
{
    if path.len() == 0 {
        depth >= MAX_DEPTH || misses_all(scene, ray)
    } else {
        let bounce = path[0];
        &&& depth < MAX_DEPTH
        &&& is_first_hit(scene, ray, bounce.object, bounce.point)
        &&& scene[bounce.object].reflected_ray_spec(bounce.point, ray.direction, bounce.scattered)
        &&& follows(scene, bounce.scattered, depth + 1, path.drop_first())
    }
}

/// The radiance that arrives along a light path traced from `depth` on:
/// black at the end of a path that was cut off at the depth limit, the
/// background at the end of one that left the scene, and at each bounce
/// what the object makes of the radiance of the rest of the path.
pub open spec fn radiance(scene: Seq<Box<dyn Renderable>>, depth: int, path: Seq<Bounce>) -> Color
    decreases path.len(),
{
    if path.len() == 0 {
        if depth >= MAX_DEPTH {
            black_spec()
        } else {
            background_spec()
        }
    } else {
        scene[path[0].object].reflectance_color_spec(
            radiance(scene, depth + 1, path.drop_first()),
        )
    }
}

/// Whether no object of the scene scatters by chance: at each point and for
/// each direction that arrives it sends the ray on in one way.
pub open spec fn scatters_without_chance(scene: Seq<Box<dyn Renderable>>) -> bool {
    forall|i: int, pt: Vector3, incident_dir: Vector3, one: Ray, other: Ray|
        0 <= i < scene.len() && #[trigger] scene[i].reflected_ray_spec(pt, incident_dir, one)
            && #[trigger] scene[i].reflected_ray_spec(pt, incident_dir, other) ==> one == other
}

/// The radiance of a ray that hits nothing.
pub fn background_color() -> (color: Color)
    ensures
        color == background_spec(),
{
    Vector3::new(
        Scalar::from_bits(BACKGROUND_RED_BITS),
        Scalar::from_bits(BACKGROUND_GREEN_BITS),
        Scalar::from_bits(BACKGROUND_BLUE_BITS),
    )
}

/// Finds the first object of the scene, in scene order, that `ray` hits,
/// and the point where it hits it.
pub fn first_hit(scene: &Vec<Box<dyn Renderable>>, ray: &Ray) -> (found: Option<(usize, Vector3)>)
    ensures
        match found {
            Some((i, point)) => is_first_hit(scene@, *ray, i as int, point),
            None => misses_all(scene@, *ray),
        },
{
    let mut i: usize = 0;
    while i < scene.len()
        invariant
            i <= scene.len(),
            forall|j: int| 0 <= j < i ==> (#[trigger] scene@[j].intersect_spec(*ray)) is None,
        decreases scene.len() - i,
    {
        match scene[i].intersect(ray) {
            Some(point) => {
                return Some((i, point));
            },
            None => {},
        }
        i += 1;
    }
    None
}

/// Estimates the radiance that arrives along `ray`, which has `depth`
/// bounces behind it.
///
/// At the depth limit the radiance is black, whatever the scene holds.
/// Below it, a ray that hits nothing has the background's radiance; any
/// other ray is scattered by the first object it hits, and its radiance is
/// what that object makes of the radiance of the scattered ray, estimated
/// one level deeper. Each call follows one path and never branches, so the
/// result is the radiance along some light path of the ray; which one is
/// up to the chance in the scattering.
pub fn intersection(
    ray: &Ray,
    scene: &Vec<Box<dyn Renderable>>,
    rng: &mut rand::rngs::ThreadRng,
    depth: i32,
) -> (color: Color)
    requires
        depth <= MAX_DEPTH,
    ensures
        exists|path: Seq<Bounce>|
            #[trigger] follows(scene@, *ray, depth as int, path)
                && color == radiance(scene@, depth as int, path),
        depth == MAX_DEPTH ==> color == black_spec(),
        depth < MAX_DEPTH && misses_all(scene@, *ray) ==> color == background_spec(),
    decreases MAX_DEPTH - depth,
{
    if depth == MAX_DEPTH {
        proof {
            assert(follows(scene@, *ray, depth as int, Seq::<Bounce>::empty()));
        }
        return Vector3::zero();
    }
    match first_hit(scene, ray) {
        None => {
            proof {
                assert(follows(scene@, *ray, depth as int, Seq::<Bounce>::empty()));
            }
            background_color()
        },
        Some((i, point)) => {
            let new_ray = scene[i].get_reflected_ray(&point, &ray.direction, rng);
            let incident_color = intersection(&new_ray, scene, rng, depth + 1);
            let color = scene[i].reflectance_color(&incident_color);
            proof {
                let rest = choose|rest: Seq<Bounce>|
                    #[trigger] follows(scene@, new_ray, depth + 1, rest)
                        && incident_color == radiance(scene@, depth + 1, rest);
                let bounce = Bounce { object: i as int, point, scattered: new_ray };
                let path = seq![bounce] + rest;
                assert(path.drop_first() =~= rest);
                assert(follows(scene@, *ray, depth as int, path));
                assert(scene@[i as int].intersect_spec(*ray) is Some);
            }
            color
        },
    }
}

/// A light path never has more bounces than the depth limit leaves room
/// for: traced from `depth` on, it is at most `MAX_DEPTH - depth` long.
pub proof fn lemma_path_is_bounded(
    scene: Seq<Box<dyn Renderable>>,
    ray: Ray,
    depth: int,
    path: Seq<Bounce>,
)
    requires
        depth <= MAX_DEPTH,
        follows(scene, ray, depth, path),
    ensures
        depth + path.len() <= MAX_DEPTH,
    decreases path.len(),
{
    if path.len() > 0 {
        lemma_path_is_bounded(scene, path[0].scattered, depth + 1, path.drop_first());
    }
}

/// At the depth limit every ray is black, whatever the scene holds: its
/// only light path is the empty one.
pub proof fn lemma_black_at_depth_limit(
    scene: Seq<Box<dyn Renderable>>,
    ray: Ray,
    path: Seq<Bounce>,
)
    requires
        follows(scene, ray, MAX_DEPTH as int, path),
    ensures
        path.len() == 0,
        radiance(scene, MAX_DEPTH as int, path) == black_spec(),
{
}

/// Below the depth limit a ray that hits nothing has exactly the
/// background's radiance.
pub proof fn lemma_background_on_miss(
    scene: Seq<Box<dyn Renderable>>,
    ray: Ray,
    depth: int,
    path: Seq<Bounce>,
)
    requires
        depth < MAX_DEPTH,
        misses_all(scene, ray),
        follows(scene, ray, depth, path),
    ensures
        path.len() == 0,
        radiance(scene, depth, path) == background_spec(),
{
    if path.len() > 0 {
        let bounce = path[0];
        assert(scene[bounce.object].intersect_spec(ray) is None);
    }
}

/// In a scene without objects every ray below the depth limit has exactly
/// the background's radiance.
pub proof fn lemma_background_in_empty_scene(
    scene: Seq<Box<dyn Renderable>>,
    ray: Ray,
    depth: int,
    path: Seq<Bounce>,
)
    requires
        scene.len() == 0,
        depth < MAX_DEPTH,
        follows(scene, ray, depth, path),
    ensures
        radiance(scene, depth, path) == background_spec(),
{
    lemma_background_on_miss(scene, ray, depth, path);
}

/// The first hit of a ray is one object at one point: the order of the
/// scene decides, not the distance.
pub proof fn lemma_first_hit_is_unique(
    scene: Seq<Box<dyn Renderable>>,
    ray: Ray,
    i: int,
    p: Vector3,
    j: int,
    q: Vector3,
)
    requires
        is_first_hit(scene, ray, i, p),
        is_first_hit(scene, ray, j, q),
    ensures
        i == j,
        p == q,
{
    if i < j {
        assert(scene[i].intersect_spec(ray) is None);
    } else if j < i {
        assert(scene[j].intersect_spec(ray) is None);
    }
}

/// In a scene that scatters without chance a ray has one light path and
/// one radiance: rendering it again gives the same.
pub proof fn lemma_radiance_is_determined(
    scene: Seq<Box<dyn Renderable>>,
    ray: Ray,
    depth: int,
    one: Seq<Bounce>,
    other: Seq<Bounce>,
)
    requires
        scatters_without_chance(scene),
        follows(scene, ray, depth, one),
        follows(scene, ray, depth, other),
    ensures
        one == other,
        radiance(scene, depth, one) == radiance(scene, depth, other),
    decreases one.len(),
{
    if one.len() == 0 {
        if other.len() > 0 {
            assert(scene[other[0].object].intersect_spec(ray) is None);
        }
        assert(one =~= other);
    } else {
        if other.len() == 0 {
            assert(scene[one[0].object].intersect_spec(ray) is None);
        }
        lemma_first_hit_is_unique(
            scene,
            ray,
            one[0].object,
            one[0].point,
            other[0].object,
            other[0].point,
        );
        assert(one[0].scattered == other[0].scattered);
        lemma_radiance_is_determined(
            scene,
            one[0].scattered,
            depth + 1,
            one.drop_first(),
            other.drop_first(),
        );
        assert(one =~= seq![one[0]] + one.drop_first());
        assert(other =~= seq![other[0]] + other.drop_first());
    }
}

} // verus!
