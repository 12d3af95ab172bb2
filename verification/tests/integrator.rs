use pathtracer::integrator::background_color;
use pathtracer::integrator::first_hit;
use pathtracer::integrator::intersection;
use pathtracer::integrator::MAX_DEPTH;
use pathtracer::ray::Ray;
use pathtracer::renderables::Renderable;
use pathtracer::scalar::Scalar;
use pathtracer::vector::Color;
use pathtracer::vector::Vector3;
use rand::rngs::ThreadRng;
use rand::Rng;
use std::cell::Cell;
use std::cell::RefCell;
use std::rc::Rc;

fn scalar(v: f64) -> Scalar {
    Scalar::from_bits(v.to_bits())
}

fn vector(x: f64, y: f64, z: f64) -> Vector3 {
    Vector3::new(scalar(x), scalar(y), scalar(z))
}

fn number(s: Scalar) -> f64 {
    f64::from_bits(s.to_bits())
}

fn camera_ray() -> Ray {
    Ray { origin: vector(0.0, 0.0, 8.0), direction: vector(0.0, 0.0, -1.0) }
}

/// What a plate was asked, in the order of the calls.
#[derive(Clone, Debug, PartialEq)]
enum Call {
    Intersect(usize, Ray),
    Scatter(usize, Vector3, Vector3),
    Reflect(usize, Color),
}

/// A stand-in for an object: it is hit by every ray whose direction has
/// the `z` it listens to, always at the same point, sends the ray on with a
/// fixed direction, and makes `gain * incident + glow` of the radiance.
struct Plate {
    id: usize,
    listens_to: Option<f64>,
    point: Vector3,
    sends: Vector3,
    gain: f64,
    glow: f64,
    log: Rc<RefCell<Vec<Call>>>,
    probes: Rc<Cell<usize>>,
}

impl Plate {
    fn new(id: usize, listens_to: Option<f64>, log: &Rc<RefCell<Vec<Call>>>) -> Plate {
        Plate {
            id,
            listens_to,
            point: vector(id as f64, 0.0, 0.0),
            sends: vector(0.0, 0.0, -1.0),
            gain: 1.0,
            glow: 0.0,
            log: log.clone(),
            probes: Rc::new(Cell::new(0)),
        }
    }
}

impl Renderable for Plate {
    fn intersect_spec(&self, ray: Ray) -> Option<Vector3> {
        match self.listens_to {
            Some(z) if number(ray.direction.z) == z => Some(self.point),
            _ => None,
        }
    }

    fn reflectance_color_spec(&self, incident_color: Color) -> Color {
        vector(
            self.gain * number(incident_color.x) + self.glow,
            self.gain * number(incident_color.y) + self.glow,
            self.gain * number(incident_color.z) + self.glow,
        )
    }

    fn reflected_ray_spec(&self, pt: Vector3, _incident_dir: Vector3, reflected: Ray) -> bool {
        reflected == Ray { origin: pt, direction: self.sends }
    }

    fn intersect(&self, ray: &Ray) -> Option<Vector3> {
        self.probes.set(self.probes.get() + 1);
        self.log.borrow_mut().push(Call::Intersect(self.id, *ray));
        self.intersect_spec(*ray)
    }

    fn reflectance_color(&self, incident_color: &Color) -> Color {
        self.log.borrow_mut().push(Call::Reflect(self.id, *incident_color));
        self.reflectance_color_spec(*incident_color)
    }

    fn normal(&self, _point: &Vector3) -> Vector3 {
        vector(0.0, 0.0, 1.0)
    }

    fn get_reflected_ray(&self, pt: &Vector3, incident_dir: &Vector3, _rng: &mut ThreadRng) -> Ray {
        self.log.borrow_mut().push(Call::Scatter(self.id, *pt, *incident_dir));
        Ray { origin: *pt, direction: self.sends }
    }
}

fn new_log() -> Rc<RefCell<Vec<Call>>> {
    Rc::new(RefCell::new(Vec::new()))
}

#[test]
fn the_background_is_four_fifths_one_one() {
    assert_eq!(background_color(), vector(0.8, 1.0, 1.0));
}

#[test]
fn the_depth_limit_is_ten() {
    assert_eq!(MAX_DEPTH, 10);
}

#[test]
fn an_empty_scene_shows_the_background() {
    let scene: Vec<Box<dyn Renderable>> = Vec::new();
    let mut rng = rand::thread_rng();
    for depth in 0..MAX_DEPTH {
        assert_eq!(intersection(&camera_ray(), &scene, &mut rng, depth), vector(0.8, 1.0, 1.0));
    }
}

#[test]
fn a_ray_that_hits_nothing_shows_the_background() {
    let log = new_log();
    let scene: Vec<Box<dyn Renderable>> = vec![
        Box::new(Plate::new(0, None, &log)),
        Box::new(Plate::new(1, Some(5.0), &log)),
    ];
    let mut rng = rand::thread_rng();
    let color = intersection(&camera_ray(), &scene, &mut rng, 0);
    assert_eq!(color, vector(0.8, 1.0, 1.0));
    assert_eq!(
        *log.borrow(),
        vec![Call::Intersect(0, camera_ray()), Call::Intersect(1, camera_ray())]
    );
}

#[test]
fn at_the_depth_limit_every_ray_is_black() {
    let log = new_log();
    let scene: Vec<Box<dyn Renderable>> = vec![Box::new(Plate::new(0, Some(-1.0), &log))];
    let mut rng = rand::thread_rng();
    let color = intersection(&camera_ray(), &scene, &mut rng, MAX_DEPTH);
    assert_eq!(color, Vector3::zero());
    assert_eq!(color, vector(0.0, 0.0, 0.0));
    assert!(log.borrow().is_empty());
    let empty: Vec<Box<dyn Renderable>> = Vec::new();
    assert_eq!(intersection(&camera_ray(), &empty, &mut rng, MAX_DEPTH), Vector3::zero());
}

#[test]
fn a_path_that_never_leaves_is_cut_off_after_ten_bounces() {
    let log = new_log();
    let mut plate = Plate::new(0, Some(-1.0), &log);
    plate.glow = 1.0;
    let probes = plate.probes.clone();
    let scene: Vec<Box<dyn Renderable>> = vec![Box::new(plate)];
    let mut rng = rand::thread_rng();
    let color = intersection(&camera_ray(), &scene, &mut rng, 0);
    // black at the end, and one added at each of the ten bounces
    assert_eq!(color, vector(10.0, 10.0, 10.0));
    assert_eq!(probes.get(), 10);
    assert_eq!(log.borrow().len(), 30);
}

#[test]
fn the_depth_counts_the_bounces_behind_the_ray() {
    let log = new_log();
    let mut plate = Plate::new(0, Some(-1.0), &log);
    plate.glow = 1.0;
    let probes = plate.probes.clone();
    let scene: Vec<Box<dyn Renderable>> = vec![Box::new(plate)];
    let mut rng = rand::thread_rng();
    let color = intersection(&camera_ray(), &scene, &mut rng, 7);
    assert_eq!(color, vector(3.0, 3.0, 3.0));
    assert_eq!(probes.get(), 3);
}

#[test]
fn a_depth_below_zero_leaves_room_for_more_bounces() {
    let log = new_log();
    let mut plate = Plate::new(0, Some(-1.0), &log);
    plate.glow = 1.0;
    let scene: Vec<Box<dyn Renderable>> = vec![Box::new(plate)];
    let mut rng = rand::thread_rng();
    let color = intersection(&camera_ray(), &scene, &mut rng, -2);
    assert_eq!(color, vector(12.0, 12.0, 12.0));
}

#[test]
fn the_first_hit_is_the_first_in_scene_order() {
    let log = new_log();
    let scene: Vec<Box<dyn Renderable>> = vec![
        Box::new(Plate::new(0, None, &log)),
        Box::new(Plate::new(1, Some(-1.0), &log)),
        Box::new(Plate::new(2, Some(-1.0), &log)),
    ];
    assert_eq!(first_hit(&scene, &camera_ray()), Some((1, vector(1.0, 0.0, 0.0))));
    // the objects behind the first hit are not looked at
    assert_eq!(
        *log.borrow(),
        vec![Call::Intersect(0, camera_ray()), Call::Intersect(1, camera_ray())]
    );
}

#[test]
fn the_order_of_the_scene_decides_not_the_distance() {
    let log = new_log();
    let mut far = Plate::new(0, Some(-1.0), &log);
    far.point = vector(0.0, 0.0, -1000.0);
    let mut near = Plate::new(1, Some(-1.0), &log);
    near.point = vector(0.0, 0.0, 7.0);
    let scene: Vec<Box<dyn Renderable>> = vec![Box::new(far), Box::new(near)];
    assert_eq!(first_hit(&scene, &camera_ray()), Some((0, vector(0.0, 0.0, -1000.0))));
    let swapped: Vec<Box<dyn Renderable>> = {
        let mut far = Plate::new(0, Some(-1.0), &log);
        far.point = vector(0.0, 0.0, -1000.0);
        let mut near = Plate::new(1, Some(-1.0), &log);
        near.point = vector(0.0, 0.0, 7.0);
        vec![Box::new(near), Box::new(far)]
    };
    assert_eq!(first_hit(&swapped, &camera_ray()), Some((0, vector(0.0, 0.0, 7.0))));
}

#[test]
fn no_first_hit_in_an_empty_scene() {
    let scene: Vec<Box<dyn Renderable>> = Vec::new();
    assert_eq!(first_hit(&scene, &camera_ray()), None);
}

#[test]
fn no_first_hit_where_every_object_is_missed() {
    let log = new_log();
    let scene: Vec<Box<dyn Renderable>> = vec![
        Box::new(Plate::new(0, None, &log)),
        Box::new(Plate::new(1, Some(3.0), &log)),
        Box::new(Plate::new(2, None, &log)),
    ];
    assert_eq!(first_hit(&scene, &camera_ray()), None);
    assert_eq!(log.borrow().len(), 3);
}

#[test]
fn the_object_scatters_at_the_hit_point_what_arrived() {
    let log = new_log();
    let mut plate = Plate::new(0, Some(-1.0), &log);
    plate.point = vector(1.0, 2.0, 3.0);
    plate.sends = vector(0.0, 1.0, 0.0);
    let scene: Vec<Box<dyn Renderable>> = vec![Box::new(plate)];
    let mut rng = rand::thread_rng();
    let color = intersection(&camera_ray(), &scene, &mut rng, 0);
    assert_eq!(color, vector(0.8, 1.0, 1.0));
    let scattered = Ray { origin: vector(1.0, 2.0, 3.0), direction: vector(0.0, 1.0, 0.0) };
    assert_eq!(
        *log.borrow(),
        vec![
            Call::Intersect(0, camera_ray()),
            Call::Scatter(0, vector(1.0, 2.0, 3.0), vector(0.0, 0.0, -1.0)),
            Call::Intersect(0, scattered),
            Call::Reflect(0, vector(0.8, 1.0, 1.0)),
        ]
    );
}

#[test]
fn the_objects_along_the_path_attenuate_from_the_last_to_the_first() {
    let log = new_log();
    // the first plate takes the camera ray and sends it on to the second
    let mut first = Plate::new(0, Some(-1.0), &log);
    first.sends = vector(0.0, 0.0, 2.0);
    first.gain = 0.5;
    first.glow = 0.25;
    // the second sends it out of the scene
    let mut second = Plate::new(1, Some(2.0), &log);
    second.sends = vector(0.0, 0.0, 3.0);
    second.gain = 0.25;
    second.glow = 1.0;
    let scene: Vec<Box<dyn Renderable>> = vec![Box::new(first), Box::new(second)];
    let mut rng = rand::thread_rng();
    let color = intersection(&camera_ray(), &scene, &mut rng, 0);
    // 0.5 * (0.25 * background + 1.0) + 0.25
    assert_eq!(
        color,
        vector(
            0.5 * (0.25 * 0.8 + 1.0) + 0.25,
            0.5 * (0.25 * 1.0 + 1.0) + 0.25,
            0.5 * (0.25 * 1.0 + 1.0) + 0.25
        )
    );
    assert_eq!(color, vector(0.85, 0.875, 0.875));
    let calls = log.borrow();
    assert_eq!(calls[calls.len() - 2], Call::Reflect(1, vector(0.8, 1.0, 1.0)));
    assert_eq!(calls[calls.len() - 1], Call::Reflect(0, vector(1.2, 1.25, 1.25)));
}

#[test]
fn one_path_is_followed_without_branching() {
    let log = new_log();
    let mut first = Plate::new(0, Some(-1.0), &log);
    first.sends = vector(0.0, 0.0, 2.0);
    let second = Plate::new(1, Some(2.0), &log);
    let scene: Vec<Box<dyn Renderable>> = vec![Box::new(first), Box::new(second)];
    let mut rng = rand::thread_rng();
    intersection(&camera_ray(), &scene, &mut rng, 0);
    let scatters = log.borrow().iter().filter(|c| matches!(c, Call::Scatter(..))).count();
    let reflects = log.borrow().iter().filter(|c| matches!(c, Call::Reflect(..))).count();
    assert_eq!(scatters, 10);
    assert_eq!(reflects, 10);
}

#[test]
fn a_scene_without_chance_renders_the_same_twice() {
    let render = || {
        let log = new_log();
        let mut first = Plate::new(0, Some(-1.0), &log);
        first.sends = vector(0.0, 0.0, 2.0);
        first.gain = 0.5;
        let mut second = Plate::new(1, Some(2.0), &log);
        second.sends = vector(0.0, 0.0, 3.0);
        second.gain = 0.8;
        second.glow = 0.125;
        let scene: Vec<Box<dyn Renderable>> = vec![Box::new(first), Box::new(second)];
        let mut rng = rand::thread_rng();
        intersection(&camera_ray(), &scene, &mut rng, 0)
    };
    assert_eq!(render(), render());
}

/// A stand-in that scatters by chance: every ray hits it, and it sends the
/// ray on or lets it leave the scene as the generator decides.
struct Dice {
    draws: Rc<Cell<usize>>,
}

impl Renderable for Dice {
    fn intersect_spec(&self, ray: Ray) -> Option<Vector3> {
        if number(ray.direction.z) == -1.0 {
            Some(vector(0.0, 0.0, 0.0))
        } else {
            None
        }
    }

    fn reflectance_color_spec(&self, incident_color: Color) -> Color {
        vector(number(incident_color.x) + 1.0, 0.0, 0.0)
    }

    fn reflected_ray_spec(&self, pt: Vector3, _incident_dir: Vector3, reflected: Ray) -> bool {
        reflected.origin == pt
    }

    fn intersect(&self, ray: &Ray) -> Option<Vector3> {
        self.intersect_spec(*ray)
    }

    fn reflectance_color(&self, incident_color: &Color) -> Color {
        self.reflectance_color_spec(*incident_color)
    }

    fn normal(&self, _point: &Vector3) -> Vector3 {
        vector(0.0, 0.0, 1.0)
    }

    fn get_reflected_ray(&self, pt: &Vector3, _incident_dir: &Vector3, rng: &mut ThreadRng) -> Ray {
        self.draws.set(self.draws.get() + 1);
        let z = if rng.gen_range(0..4) == 0 { 1.0 } else { -1.0 };
        Ray { origin: *pt, direction: vector(0.0, 0.0, z) }
    }
}

#[test]
fn a_path_drawn_by_chance_ends_at_the_background_or_at_the_depth_limit() {
    let mut rng = rand::thread_rng();
    for _ in 0..200 {
        let draws = Rc::new(Cell::new(0));
        let scene: Vec<Box<dyn Renderable>> = vec![Box::new(Dice { draws: draws.clone() })];
        let color = intersection(&camera_ray(), &scene, &mut rng, 0);
        let bounces = draws.get();
        assert!(1 <= bounces && bounces <= 10);
        // one is added at each bounce, to the background's red where the
        // path left the scene and to black where it was cut off
        let mut lit = 0.8;
        let mut dark = 0.0;
        for _ in 0..bounces {
            lit += 1.0;
            dark += 1.0;
        }
        let left_the_scene = color == vector(lit, 0.0, 0.0);
        let was_cut_off = bounces == 10 && color == vector(dark, 0.0, 0.0);
        assert!(left_the_scene || was_cut_off, "{:?} after {} bounces", color, bounces);
    }
}
