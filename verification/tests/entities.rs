use gravity_wars::entity::{Entity, EntityTransform, Proximity, Shape, Ship, ShipState};
use gravity_wars::missile::MissileTrail;
use gravity_wars::scalar::{Point2, Quaternion, Scalar, Vector3};

fn scalar(value: f32) -> Scalar {
    Scalar::from_bits(value.to_bits())
}

fn vector(x: f32, y: f32, z: f32) -> Vector3 {
    Vector3::new(scalar(x), scalar(y), scalar(z))
}

#[test]
fn new_ship_is_active() {
    let ship = Ship::new(4);
    assert_eq!(ship.player_id, 4);
    assert_eq!(ship.state, ShipState::Active);
    assert!(ship.is_active());
    assert!(!Ship { player_id: 4, state: ShipState::Disabled }.is_active());
}

#[test]
fn transform_at_position() {
    let transform = EntityTransform::at_position(vector(1.0, 2.0, 3.0));
    assert_eq!(transform.position, vector(1.0, 2.0, 3.0));
    assert_eq!(transform.rotation, Quaternion::identity());
    assert_eq!(f32::from_bits(transform.scale.bits), 1.0);
}

#[test]
fn new_entity_is_bare() {
    let entity = Entity::new(vector(1.0, 2.0, 3.0));
    assert_eq!(*entity.position(), vector(1.0, 2.0, 3.0));
    assert_eq!(entity.transform, EntityTransform::at_position(vector(1.0, 2.0, 3.0)));
    assert_eq!(f32::from_bits(entity.mass.bits), 0.0);
    assert!(entity.collision_shape.is_none());
    assert!(entity.missile_trail.is_none());
    assert!(entity.ship.is_none());
}

#[test]
fn planet_has_mass_and_shape_only() {
    let planet = Entity::planet(vector(1.0, 2.0, 0.0), scalar(12.0), scalar(21714.688));
    assert_eq!(*planet.position(), vector(1.0, 2.0, 0.0));
    assert_eq!(planet.transform.scale, scalar(12.0));
    assert_eq!(planet.transform.rotation, Quaternion::identity());
    assert_eq!(planet.mass, scalar(21714.688));
    assert_eq!(planet.collision_shape, Some(Shape::Disc { radius: scalar(12.0) }));
    assert!(planet.missile_trail.is_none());
    assert!(planet.ship.is_none());
}

#[test]
fn ship_has_shape_and_ship_only() {
    let turn = Quaternion { w: scalar(0.5), i: scalar(0.5), j: scalar(0.5), k: scalar(0.5) };
    let hull = Shape::polyline(&[scalar(0.0), scalar(1.0), scalar(2.0), scalar(3.0)]).unwrap();
    let ship = Entity::ship(vector(1.0, 2.0, 0.0), turn, hull.clone(), 1);
    assert_eq!(ship.transform.rotation, turn);
    assert_eq!(f32::from_bits(ship.transform.scale.bits), 1.0);
    assert_eq!(f32::from_bits(ship.mass.bits), 0.0);
    assert_eq!(ship.collision_shape, Some(hull));
    assert_eq!(ship.ship, Some(Ship::new(1)));
    assert!(ship.missile_trail.is_none());
}

#[test]
fn missile_has_trail_only() {
    let trail = MissileTrail::new(2, vector(1.0, 0.0, 0.0), vector(0.0, 1.0, 0.0));
    let missile = Entity::missile(vector(5.0, 5.0, 0.0), trail.clone());
    assert_eq!(*missile.position(), vector(5.0, 5.0, 0.0));
    assert_eq!(missile.missile_trail, Some(trail));
    assert_eq!(f32::from_bits(missile.mass.bits), 0.0);
    assert!(missile.collision_shape.is_none());
    assert!(missile.ship.is_none());
}

#[test]
fn polyline_pairs_up_coordinates() {
    let coordinates: Vec<Scalar> = [0.5f32, -1.0, 2.0, 3.5, -4.0, 0.0].iter().map(|c| scalar(*c)).collect();
    let shape = Shape::polyline(&coordinates);
    assert_eq!(
        shape,
        Some(Shape::Polyline {
            points: vec![
                Point2::new(scalar(0.5), scalar(-1.0)),
                Point2::new(scalar(2.0), scalar(3.5)),
                Point2::new(scalar(-4.0), scalar(0.0)),
            ]
        })
    );
}

#[test]
fn polyline_of_nothing_has_no_points() {
    assert_eq!(Shape::polyline(&[]), Some(Shape::Polyline { points: vec![] }));
}

#[test]
fn polyline_needs_whole_points() {
    assert_eq!(Shape::polyline(&[scalar(1.0)]), None);
    assert_eq!(Shape::polyline(&[scalar(1.0), scalar(2.0), scalar(3.0)]), None);
}

#[test]
fn collision_needs_a_shape_and_contact() {
    let planet = Entity::planet(vector(0.0, 0.0, 0.0), scalar(1.0), scalar(1.0));
    assert!(planet.collides_with_shape(Proximity::Intersecting));
    assert!(planet.collides_with_shape(Proximity::WithinMargin));
    assert!(!planet.collides_with_shape(Proximity::Disjoint));
    let ghost = Entity::new(vector(0.0, 0.0, 0.0));
    assert!(!ghost.collides_with_shape(Proximity::Intersecting));
    assert!(!ghost.collides_with_shape(Proximity::WithinMargin));
    assert!(!ghost.collides_with_shape(Proximity::Disjoint));
}
