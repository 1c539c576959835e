use gravity_wars::constants::{
    MISSILE_TICKS_TO_LIVE, MISSILE_TIME_TO_LIVE, TICKS_PER_SECOND,
};
use gravity_wars::missile::{Encounter, MissileEvent, MissileTrail, TrailStep};
use gravity_wars::scalar::{Scalar, Vector3};

fn vector(x: f32, y: f32, z: f32) -> Vector3 {
    Vector3::new(
        Scalar::from_bits(x.to_bits()),
        Scalar::from_bits(y.to_bits()),
        Scalar::from_bits(z.to_bits()),
    )
}

fn flight(n: u32) -> TrailStep {
    TrailStep { velocity: vector(1.0, n as f32, 0.0), position: vector(n as f32, 0.0, 0.0), hit: None }
}

#[test]
fn lifetime_constants() {
    assert_eq!(TICKS_PER_SECOND, 30);
    assert_eq!(MISSILE_TIME_TO_LIVE, 30);
    assert_eq!(MISSILE_TICKS_TO_LIVE, 900);
}

#[test]
fn new_trail() {
    let trail = MissileTrail::new(3, vector(1.0, 2.0, 0.0), vector(0.5, 0.0, 0.0));
    assert_eq!(trail.player_id(), 3);
    assert_eq!(trail.time_to_live(), 900);
    assert!(trail.is_live());
    assert_eq!(trail.velocity(), vector(0.5, 0.0, 0.0));
    assert_eq!(trail.positions(), vec![vector(1.0, 2.0, 0.0)]);
    assert_eq!(trail.last_position(), vector(1.0, 2.0, 0.0));
    assert_eq!(trail.data_version(), 0);
}

#[test]
fn add_position_appends_and_counts() {
    let mut trail = MissileTrail::new(0, vector(0.0, 0.0, 0.0), vector(1.0, 0.0, 0.0));
    trail.add_position(vector(1.0, 0.0, 0.0));
    trail.add_position(vector(2.0, 0.0, 0.0));
    assert_eq!(trail.data_version(), 2);
    assert_eq!(
        trail.positions(),
        vec![vector(0.0, 0.0, 0.0), vector(1.0, 0.0, 0.0), vector(2.0, 0.0, 0.0)]
    );
    assert_eq!(trail.last_position(), vector(2.0, 0.0, 0.0));
    assert_eq!(trail.position_at(0), Some(vector(0.0, 0.0, 0.0)));
    assert_eq!(trail.position_at(2), Some(vector(2.0, 0.0, 0.0)));
    assert_eq!(trail.position_at(3), None);
    assert_eq!(trail.time_to_live(), 900);
}

#[test]
fn update_without_hit_moves_on() {
    let mut trail = MissileTrail::new(1, vector(0.0, 0.0, 0.0), vector(1.0, 0.0, 0.0));
    let event = trail.update(&flight(1));
    assert_eq!(event, None);
    assert_eq!(trail.time_to_live(), 899);
    assert_eq!(trail.velocity(), vector(1.0, 1.0, 0.0));
    assert_eq!(trail.last_position(), vector(1.0, 0.0, 0.0));
    assert_eq!(trail.data_version(), 1);
    assert_eq!(trail.player_id(), 1);
}

#[test]
fn update_with_hit_ends_the_flight() {
    let mut trail = MissileTrail::new(1, vector(0.0, 0.0, 0.0), vector(1.0, 0.0, 0.0));
    let step = TrailStep {
        velocity: vector(2.0, 0.0, 0.0),
        position: vector(0.25, 0.0, 0.0),
        hit: Some(4),
    };
    assert_eq!(trail.update(&step), Some(MissileEvent::HitEntity(4)));
    assert_eq!(trail.time_to_live(), 0);
    assert!(!trail.is_live());
    assert_eq!(trail.velocity(), vector(2.0, 0.0, 0.0));
    assert_eq!(trail.positions(), vec![vector(0.0, 0.0, 0.0), vector(0.25, 0.0, 0.0)]);
    assert_eq!(trail.data_version(), 1);
}

#[test]
fn hit_on_the_last_tick_is_a_hit() {
    let mut trail =
        MissileTrail::with_time_to_live(0, vector(0.0, 0.0, 0.0), vector(1.0, 0.0, 0.0), 1);
    let step = TrailStep { hit: Some(0), ..flight(1) };
    assert_eq!(trail.update(&step), Some(MissileEvent::HitEntity(0)));
}

#[test]
fn missile_expires_exactly_once() {
    let lifetime = 5;
    let mut trail =
        MissileTrail::with_time_to_live(0, vector(0.0, 0.0, 0.0), vector(1.0, 0.0, 0.0), lifetime);
    let mut expired_on = Vec::new();
    for tick in 1..=20u32 {
        match trail.update(&flight(tick)) {
            Some(MissileEvent::Expired) => expired_on.push(tick),
            Some(MissileEvent::HitEntity(_)) => panic!("nothing was struck"),
            None => {}
        }
    }
    assert_eq!(expired_on, vec![lifetime]);
    assert_eq!(trail.time_to_live(), 0);
    assert_eq!(trail.data_version(), lifetime as usize);
    assert_eq!(trail.positions().len(), lifetime as usize + 1);
    assert_eq!(trail.last_position(), vector(lifetime as f32, 0.0, 0.0));
    assert_eq!(trail.velocity(), vector(1.0, lifetime as f32, 0.0));
}

#[test]
fn full_lifetime_is_nine_hundred_ticks() {
    let mut trail = MissileTrail::new(0, vector(0.0, 0.0, 0.0), vector(1.0, 0.0, 0.0));
    for tick in 1..900u32 {
        assert_eq!(trail.update(&flight(tick)), None, "tick {}", tick);
    }
    assert_eq!(trail.update(&flight(900)), Some(MissileEvent::Expired));
    assert_eq!(trail.update(&flight(901)), None);
    assert_eq!(trail.data_version(), 900);
}

#[test]
fn final_trail_does_not_change() {
    let mut trail =
        MissileTrail::with_time_to_live(2, vector(0.0, 0.0, 0.0), vector(1.0, 0.0, 0.0), 1);
    assert_eq!(trail.update(&flight(1)), Some(MissileEvent::Expired));
    let after = trail.clone();
    let strike = TrailStep { hit: Some(3), ..flight(2) };
    assert_eq!(trail.update(&strike), None);
    assert_eq!(trail.update(&flight(3)), None);
    assert_eq!(trail, after);
}

#[test]
fn trail_without_lifetime_is_final_from_the_start() {
    let mut trail =
        MissileTrail::with_time_to_live(2, vector(0.0, 0.0, 0.0), vector(1.0, 0.0, 0.0), 0);
    assert!(!trail.is_live());
    assert_eq!(trail.update(&flight(1)), None);
    assert_eq!(trail.data_version(), 0);
    assert_eq!(trail.positions(), vec![vector(0.0, 0.0, 0.0)]);
}

fn passed(n: f32) -> Encounter {
    Encounter::Passed { velocity: vector(n, 0.0, 0.0) }
}

fn struck(n: f32) -> Encounter {
    Encounter::Struck { position: vector(0.0, n, 0.0) }
}

#[test]
fn missile_that_meets_nothing_keeps_its_velocity() {
    let step = TrailStep::from_encounters(0, vector(9.0, 0.0, 0.0), &[], vector(1.0, 1.0, 1.0));
    assert_eq!(
        step,
        TrailStep { velocity: vector(9.0, 0.0, 0.0), position: vector(1.0, 1.0, 1.0), hit: None }
    );
}

#[test]
fn missile_that_passes_everything_comes_to_rest() {
    let encounters = [passed(1.0), passed(2.0), passed(3.0)];
    let step =
        TrailStep::from_encounters(3, vector(9.0, 0.0, 0.0), &encounters, vector(1.0, 1.0, 1.0));
    assert_eq!(
        step,
        TrailStep { velocity: vector(3.0, 0.0, 0.0), position: vector(1.0, 1.0, 1.0), hit: None }
    );
}

#[test]
fn first_strike_ends_the_flight() {
    let encounters = [passed(1.0), struck(7.0), passed(3.0), struck(8.0)];
    let step =
        TrailStep::from_encounters(4, vector(9.0, 0.0, 0.0), &encounters, vector(1.0, 1.0, 1.0));
    assert_eq!(
        step,
        TrailStep { velocity: vector(1.0, 0.0, 0.0), position: vector(0.0, 7.0, 0.0), hit: Some(1) }
    );
}

#[test]
fn strike_at_once_keeps_the_starting_velocity() {
    let step = TrailStep::from_encounters(
        5,
        vector(9.0, 0.0, 0.0),
        &[struck(7.0)],
        vector(1.0, 1.0, 1.0),
    );
    assert_eq!(
        step,
        TrailStep { velocity: vector(9.0, 0.0, 0.0), position: vector(0.0, 7.0, 0.0), hit: Some(0) }
    );
}

#[test]
fn entities_behind_the_missile_are_counted_past_it() {
    let encounters = [passed(1.0), passed(2.0), struck(7.0)];
    let hit_of = |missile: usize| {
        TrailStep::from_encounters(missile, vector(9.0, 0.0, 0.0), &encounters, vector(0.0, 0.0, 0.0))
            .hit
    };
    assert_eq!(hit_of(3), Some(2));
    assert_eq!(hit_of(9), Some(2));
    assert_eq!(hit_of(2), Some(3));
    assert_eq!(hit_of(1), Some(3));
    assert_eq!(hit_of(0), Some(3));
    let first = [struck(7.0)];
    let step = TrailStep::from_encounters(0, vector(9.0, 0.0, 0.0), &first, vector(0.0, 0.0, 0.0));
    assert_eq!(step.hit, Some(1));
}
