use gravity_wars::constants::MAX_PLACE_ENTITY_TRIES;
use gravity_wars::entity::{Entity, Proximity, Shape, Ship, ShipState};
use gravity_wars::mapgen::{
    candidate_is_clear, make_players, player_color, MapGenerator, MapgenError, MapgenRequest,
};
use gravity_wars::missile::MissileTrail;
use gravity_wars::scalar::{Quaternion, Scalar, Vector3};
use gravity_wars::state::Rgb;
use gravity_wars::turn::{GamePhase, Turn};

fn scalar(value: f32) -> Scalar {
    Scalar::from_bits(value.to_bits())
}

fn vector(x: f32, y: f32, z: f32) -> Vector3 {
    Vector3::new(scalar(x), scalar(y), scalar(z))
}

fn rgb(r: f32, g: f32, b: f32) -> Rgb {
    Rgb { r: scalar(r), g: scalar(g), b: scalar(b) }
}

fn planet(x: f32) -> Entity {
    Entity::planet(vector(x, 0.0, 0.0), scalar(2.0), scalar(100.0))
}

fn hull(x: f32) -> Entity {
    let mut entity = Entity::new(vector(x, 0.0, 0.0));
    entity.collision_shape = Some(Shape::disc(scalar(0.5)));
    entity
}

fn apart(generator: &MapGenerator) -> Vec<Proximity> {
    vec![Proximity::Disjoint; generator.entities().len()]
}

#[test]
fn player_colors_repeat_after_three() {
    assert_eq!(player_color(0), rgb(1.0, 0.0, 0.0));
    assert_eq!(player_color(1), rgb(0.0, 0.0, 1.0));
    assert_eq!(player_color(2), rgb(1.0, 1.0, 0.0));
    assert_eq!(player_color(3), rgb(1.0, 0.0, 0.0));
    assert_eq!(player_color(7), rgb(0.0, 0.0, 1.0));
}

#[test]
fn make_players_gives_each_their_color() {
    let players = make_players(5);
    assert_eq!(players.len(), 5);
    for (i, player) in players.iter().enumerate() {
        assert_eq!(player.color, player_color(i));
    }
    assert!(make_players(0).is_empty());
}

#[test]
fn clear_candidate() {
    let entities = vec![planet(0.0), Entity::new(vector(1.0, 0.0, 0.0)), planet(9.0)];
    let apart = [Proximity::Disjoint, Proximity::Disjoint, Proximity::Disjoint];
    assert!(candidate_is_clear(&entities, &apart));
    let on_shapeless = [Proximity::Disjoint, Proximity::Intersecting, Proximity::Disjoint];
    assert!(candidate_is_clear(&entities, &on_shapeless));
    let near = [Proximity::Disjoint, Proximity::Disjoint, Proximity::WithinMargin];
    assert!(!candidate_is_clear(&entities, &near));
    let touching = [Proximity::Intersecting, Proximity::Disjoint, Proximity::Disjoint];
    assert!(!candidate_is_clear(&entities, &touching));
    assert!(!candidate_is_clear(&entities, &apart[..2]));
    assert!(candidate_is_clear(&[], &[]));
    assert!(!candidate_is_clear(&[], &apart[..1]));
}

#[test]
fn generator_asks_for_planets_then_ships() {
    let mut generator = MapGenerator::new(2, 2);
    assert_eq!(generator.request(), MapgenRequest::Planet);
    assert_eq!(generator.place_entity(planet(0.0), &[]), Ok(true));
    assert_eq!(generator.request(), MapgenRequest::Planet);
    assert_eq!(generator.place_entity(planet(9.0), &apart(&generator)), Ok(true));
    assert_eq!(generator.request(), MapgenRequest::Ship(0));
    assert_eq!(generator.place_entity(hull(20.0), &apart(&generator)), Ok(true));
    assert_eq!(generator.request(), MapgenRequest::Ship(1));
    assert!(!generator.is_done());
    assert_eq!(generator.place_entity(hull(30.0), &apart(&generator)), Ok(true));
    assert_eq!(generator.request(), MapgenRequest::Nothing);
    assert!(generator.is_done());
    assert!(!generator.has_failed());
}

#[test]
fn generated_world_has_one_active_ship_per_player() {
    let mut generator = MapGenerator::new(3, 1);
    generator.place_entity(planet(0.0), &[]).unwrap();
    for player in 0..3 {
        let proximities = apart(&generator);
        generator.place_entity(hull(10.0 * (player + 1) as f32), &proximities).unwrap();
    }
    let mut state = generator.finish().unwrap();
    assert_eq!(state.players().len(), 3);
    assert_eq!(state.players()[2].color, rgb(1.0, 1.0, 0.0));
    assert_eq!(state.phase(), GamePhase::NotStarted);
    assert_eq!(state.entities().len(), 4);
    assert_eq!(state.entities()[0], planet(0.0));
    for player in 0..3 {
        let entity = &state.entities()[1 + player];
        assert_eq!(entity.ship, Some(Ship { player_id: player, state: ShipState::Active }));
        assert_eq!(*entity.position(), vector(10.0 * (player + 1) as f32, 0.0, 0.0));
        assert_eq!(entity.collision_shape, Some(Shape::disc(scalar(0.5))));
    }
    assert_eq!(state.active_players(), vec![0, 1, 2]);
    state.start_game();
    assert_eq!(state.phase(), GamePhase::Playing(Turn::new(0)));
}

#[test]
fn generator_sets_the_part_of_each_entity() {
    let mut generator = MapGenerator::new(1, 1);
    let mut odd = planet(0.0);
    odd.ship = Some(Ship::new(5));
    odd.missile_trail = Some(MissileTrail::new(0, vector(0.0, 0.0, 0.0), vector(0.0, 0.0, 0.0)));
    generator.place_entity(odd, &[]).unwrap();
    let mut other = Entity::ship(
        vector(9.0, 0.0, 0.0),
        Quaternion::identity(),
        Shape::disc(scalar(0.5)),
        3,
    );
    other.ship = Some(Ship { player_id: 3, state: ShipState::Disabled });
    generator.place_entity(other, &[Proximity::Disjoint]).unwrap();
    let state = generator.finish().unwrap();
    assert_eq!(state.entities()[0], planet(0.0));
    assert_eq!(state.entities()[1].ship, Some(Ship::new(0)));
    assert!(state.entities()[1].missile_trail.is_none());
}

#[test]
fn at_least_one_planet() {
    let mut generator = MapGenerator::new(0, 0);
    assert_eq!(generator.request(), MapgenRequest::Planet);
    assert!(!generator.is_done());
    assert_eq!(generator.place_entity(planet(0.0), &[]), Ok(true));
    assert!(generator.is_done());
    let state = generator.finish().unwrap();
    assert_eq!(state.entities().len(), 1);
    assert_eq!(state.players().len(), 0);
}

#[test]
fn blocked_candidate_is_turned_down() {
    let mut generator = MapGenerator::new(1, 2);
    generator.place_entity(planet(0.0), &[]).unwrap();
    assert_eq!(generator.place_entity(planet(1.0), &[Proximity::Intersecting]), Ok(false));
    assert_eq!(generator.place_entity(planet(2.1), &[Proximity::WithinMargin]), Ok(false));
    assert_eq!(generator.place_entity(planet(2.1), &[]), Ok(false));
    assert_eq!(generator.entities().len(), 1);
    assert_eq!(generator.request(), MapgenRequest::Planet);
    assert_eq!(generator.place_entity(planet(9.0), &[Proximity::Disjoint]), Ok(true));
    assert_eq!(generator.entities().len(), 2);
    assert_eq!(generator.entities()[1], planet(9.0));
}

#[test]
fn generation_fails_after_too_many_tries() {
    assert_eq!(MAX_PLACE_ENTITY_TRIES, 256);
    let mut generator = MapGenerator::new(1, 1);
    generator.place_entity(planet(0.0), &[]).unwrap();
    for attempt in 1..256 {
        assert_eq!(
            generator.place_entity(hull(0.0), &[Proximity::Intersecting]),
            Ok(false),
            "try {}",
            attempt
        );
        assert!(!generator.has_failed());
    }
    assert_eq!(
        generator.place_entity(hull(0.0), &[Proximity::Intersecting]),
        Err(MapgenError::CouldNotPlaceEntity)
    );
    assert!(generator.has_failed());
    assert!(!generator.is_done());
    assert_eq!(generator.request(), MapgenRequest::Nothing);
    assert_eq!(generator.place_entity(hull(50.0), &[Proximity::Disjoint]), Ok(false));
    assert_eq!(generator.entities().len(), 1);
    assert_eq!(generator.finish().err(), Some(MapgenError::CouldNotPlaceEntity));
}

#[test]
fn tries_start_again_for_each_entity() {
    let mut generator = MapGenerator::new(1, 2);
    generator.place_entity(planet(0.0), &[]).unwrap();
    for _ in 0..255 {
        assert_eq!(generator.place_entity(planet(0.0), &[Proximity::Intersecting]), Ok(false));
    }
    assert_eq!(generator.place_entity(planet(9.0), &[Proximity::Disjoint]), Ok(true));
    for _ in 0..255 {
        let blocked = [Proximity::Disjoint, Proximity::Intersecting];
        assert_eq!(generator.place_entity(hull(9.0), &blocked), Ok(false));
    }
    assert_eq!(generator.place_entity(hull(20.0), &apart(&generator)), Ok(true));
    assert!(generator.is_done());
}

#[test]
fn unfinished_world_is_not_handed_out() {
    let mut generator = MapGenerator::new(2, 1);
    assert_eq!(MapGenerator::new(2, 1).finish().err(), Some(MapgenError::CouldNotPlaceEntity));
    generator.place_entity(planet(0.0), &[]).unwrap();
    generator.place_entity(hull(9.0), &[Proximity::Disjoint]).unwrap();
    assert_eq!(generator.finish().err(), Some(MapgenError::CouldNotPlaceEntity));
}

#[test]
fn offer_after_completion_changes_nothing() {
    let mut generator = MapGenerator::new(0, 1);
    generator.place_entity(planet(0.0), &[]).unwrap();
    assert_eq!(generator.place_entity(planet(9.0), &[Proximity::Disjoint]), Ok(false));
    assert_eq!(generator.entities().len(), 1);
    assert!(generator.is_done());
}
