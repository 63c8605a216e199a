use n_orbital::{contributions, step_plan, Action, Body};
use nalgebra::{Point3, Vector3};

const G: f64 = 0.0376915586937436;
const SOFTENER: f64 = 0.01;

#[derive(Clone, Debug)]
struct Moving {
    mass: f64,
    position: Point3<f64>,
    velocity: Vector3<f64>,
    acceleration: Vector3<f64>,
}

struct System {
    tests: Vec<Moving>,
    massives: Vec<Moving>,
}

fn moving(mass: f64, position: [f64; 3], velocity: [f64; 3]) -> Moving {
    Moving {
        mass,
        position: position.into(),
        velocity: velocity.into(),
        acceleration: Vector3::zeros(),
    }
}

fn pull(separation: Vector3<f64>) -> Vector3<f64> {
    (G / (separation.magnitude_squared() + SOFTENER)) * separation.normalize()
}

fn at(system: &System, body: Body) -> &Moving {
    match body {
        Body::Test(i) => &system.tests[i],
        Body::Massive(i) => &system.massives[i],
    }
}

fn at_mut(system: &mut System, body: Body) -> &mut Moving {
    match body {
        Body::Test(i) => &mut system.tests[i],
        Body::Massive(i) => &mut system.massives[i],
    }
}

fn carry_out(action: Action, system: &mut System, dt: f64) {
    if let Some((from, toward)) = action.evaluated() {
        let evaluated = pull(at(system, toward).position - at(system, from).position);
        for item in contributions(action) {
            let signed = if item.negated { -evaluated } else { evaluated };
            let scaled = signed * at(system, item.source).mass;
            at_mut(system, item.onto).acceleration += scaled;
        }
    }
    if let Action::Integrate(body) = action {
        let moved = at_mut(system, body);
        let position =
            moved.position + (moved.acceleration * (dt * dt / 2.0) + moved.velocity * dt);
        let velocity = moved.acceleration * dt + moved.velocity;
        moved.position = position;
        moved.velocity = velocity;
    }
    if let Some(body) = action.cleared() {
        at_mut(system, body).acceleration = Vector3::zeros();
    }
}

fn step(plan: &[Action], system: &mut System, dt: f64) {
    for &action in plan {
        carry_out(action, system, dt);
    }
}

#[test]
fn a_test_particle_alone_keeps_its_velocity() {
    let plan = step_plan(1, 0).unwrap();
    let mut system = System {
        tests: vec![moving(0.0, [4.0, 0.0, 0.0], [0.0, 7.0, -0.5])],
        massives: vec![],
    };
    let dt = 0.001;
    for taken in 1..=2000 {
        step(&plan, &mut system, dt);
        assert_eq!(system.tests[0].acceleration, Vector3::zeros());
        assert_eq!(system.tests[0].velocity, Vector3::new(0.0, 7.0, -0.5));
        let time = f64::from(taken) * dt;
        let expected = Point3::new(4.0, 7.0 * time, -0.5 * time);
        assert!((system.tests[0].position - expected).magnitude() < 1e-9);
    }
}

#[test]
fn an_orbit_closes_after_one_period() {
    let plan = step_plan(0, 2).unwrap();
    let mut system = System {
        tests: vec![],
        massives: vec![
            moving(1048.0, [0.0, 0.0, 0.0], [0.0, 0.0, 0.0]),
            moving(0.003146, [1.0, 0.0, 0.0], [0.0, 6.283, 0.0]),
        ],
    };
    let start = Point3::new(1.0, 0.0, 0.0);
    let dt = 0.001;
    let mut farthest: f64 = 0.0;
    let mut closest_return = f64::MAX;
    for taken in 1..=1100 {
        step(&plan, &mut system, dt);
        let away = (system.massives[1].position - start).magnitude();
        farthest = farthest.max(away);
        if taken >= 900 {
            closest_return = closest_return.min(away);
        }
    }
    assert!(farthest > 1.5, "the body went round: {farthest}");
    assert!(closest_return < 0.05, "closest return: {closest_return}");
}

#[test]
fn a_pull_is_counted_once_in_each_step() {
    let plan = step_plan(1, 2).unwrap();
    let mut system = System {
        tests: vec![moving(0.0, [0.0, 3.0, 0.0], [0.0, 0.0, 0.0])],
        massives: vec![
            moving(2.0, [0.0, 0.0, 0.0], [0.0, 0.0, 0.0]),
            moving(3.0, [4.0, 0.0, 0.0], [0.0, 0.0, 0.0]),
        ],
    };
    let dt = 0.5;
    for _ in 0..2 {
        let test = system.tests[0].position;
        let (first, second) = (system.massives[0].position, system.massives[1].position);
        let mut seen = false;
        for &action in &plan {
            if matches!(action, Action::Integrate(_)) && !seen {
                seen = true;
                let between = pull(second - first);
                assert_eq!(system.massives[0].acceleration, between * 3.0);
                assert_eq!(system.massives[1].acceleration, -between * 2.0);
                let on_test = pull(first - test) * 2.0 + pull(second - test) * 3.0;
                assert_eq!(system.tests[0].acceleration, on_test);
            }
            carry_out(action, &mut system, dt);
        }
        assert!(seen);
    }
}

#[test]
fn equal_masses_are_pulled_equally_and_oppositely() {
    let mut system = System {
        tests: vec![],
        massives: vec![
            moving(5.0, [1.0, -2.0, 0.5], [0.0, 0.0, 0.0]),
            moving(5.0, [-3.0, 4.0, 2.5], [0.0, 0.0, 0.0]),
        ],
    };
    carry_out(Action::MassiveMassive { first: 0, second: 1 }, &mut system, 0.001);
    let (onto_first, onto_second) = (system.massives[0].acceleration, system.massives[1].acceleration);
    assert!(onto_first.magnitude() > 0.0);
    assert_eq!(onto_first, -onto_second);
    assert_eq!(onto_first.magnitude(), onto_second.magnitude());
    let toward_second = system.massives[1].position - system.massives[0].position;
    assert!(onto_first.dot(&toward_second) > 0.0);
    assert!(onto_first.cross(&toward_second).magnitude() < 1e-12);
}

#[test]
fn a_massive_body_is_not_moved_by_a_test_particle() {
    let mut system = System {
        tests: vec![moving(0.0, [0.0, 3.0, 0.0], [0.0, 0.0, 0.0])],
        massives: vec![moving(2.0, [0.0, 0.0, 0.0], [0.0, 0.0, 0.0])],
    };
    carry_out(Action::TestMassive { test: 0, massive: 0 }, &mut system, 0.001);
    assert_eq!(system.massives[0].acceleration, Vector3::zeros());
    let expected = pull(Vector3::new(0.0, -3.0, 0.0)) * 2.0;
    assert_eq!(system.tests[0].acceleration, expected);
}

#[test]
fn accumulators_read_zero_right_after_integration() {
    let plan = step_plan(1, 2).unwrap();
    let mut system = System {
        tests: vec![moving(0.0, [0.0, 3.0, 0.0], [0.1, 0.0, 0.0])],
        massives: vec![
            moving(2.0, [0.0, 0.0, 0.0], [0.0, 0.0, 0.0]),
            moving(3.0, [4.0, 0.0, 0.0], [0.0, 0.2, 0.0]),
        ],
    };
    for _ in 0..3 {
        for &action in &plan {
            let loaded = match action {
                Action::Integrate(body) => Some((body, at(&system, body).acceleration)),
                _ => None,
            };
            carry_out(action, &mut system, 0.01);
            if let Some((body, held)) = loaded {
                assert!(held.magnitude() > 0.0);
                assert_eq!(at(&system, body).acceleration, Vector3::zeros());
            }
        }
        for body in [Body::Test(0), Body::Massive(0), Body::Massive(1)] {
            assert_eq!(at(&system, body).acceleration, Vector3::zeros());
        }
    }
}
