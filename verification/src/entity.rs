//! The objects of the world: planets, ships and missiles.
//!
//! One record serves for all three. What an entity is shows in the parts it
//! has: a planet has mass and a shape, a ship has a shape and a `Ship`, a
//! missile has a trail.

use vstd::prelude::*;
use crate::missile::{MissileEvent, MissileTrail, TrailModel, TrailStep};
use crate::scalar::{Point2, Quaternion, Scalar, Vector3, ONE_BITS, ZERO_BITS};

verus! {

/// Whether a ship is still in the game.
#[derive(Clone, Copy, Debug, PartialEq, Eq, Structural)]
pub enum ShipState {
    Active,
    /// Struck by a missile. A disabled ship stays disabled.
    Disabled,
}

/// What makes an entity a player's ship.
#[derive(Clone, Copy, Debug, PartialEq, Eq, Structural)]
pub struct Ship {
    pub player_id: usize,
    pub state: ShipState,
}

impl Ship {
    /// An active ship of `player_id`.
    pub fn new(player_id: usize) -> (ship: Ship)
        ensures
            ship == (Ship { player_id, state: ShipState::Active }),
    {
        Ship { player_id, state: ShipState::Active }
    }

    /// Whether the ship is still in the game.
    pub fn is_active(&self) -> (active: bool)
        ensures
            active == (self.state == ShipState::Active),
    {
        match self.state {
            ShipState::Active => true,
            ShipState::Disabled => false,
        }
    }
}

/// The outline of an entity in the plane of play, by which the host's
/// geometry tells what touches what.
#[derive(Clone, Debug, PartialEq, Eq)]
pub enum Shape {
    /// A disc round the entity's position.
    Disc { radius: Scalar },
    /// A line through the given points, in the entity's own frame.
    Polyline { points: Vec<Point2> },
}

impl Shape {
    /// The points that a flat list of coordinates stands for: each point
    /// takes two numbers in a row, first `x`, then `y`.
    pub open spec fn paired(coordinates: Seq<Scalar>) -> Seq<Point2>
        recommends
            coordinates.len() % 2 == 0,
    {
        Seq::new(
            coordinates.len() / 2,
            |k: int| Point2 { x: coordinates[2 * k], y: coordinates[2 * k + 1] },
        )
    }

    /// A disc of the given radius.
    pub fn disc(radius: Scalar) -> (shape: Shape)
        ensures
            shape == (Shape::Disc { radius }),
    {
        Shape::Disc { radius }
    }

    /// The polyline through the points listed in `coordinates` as `x0, y0,
    /// x1, y1, ...`; `None` when the list ends in the middle of a point.
    pub fn polyline(coordinates: &[Scalar]) -> (shape: Option<Shape>)
        ensures
            coordinates@.len() % 2 != 0 ==> shape is None,
            coordinates@.len() % 2 == 0 ==> (shape matches Some(Shape::Polyline { points })
                && points@ == Shape::paired(coordinates@)),
    {
        let count: usize = coordinates.len() / 2;
        if coordinates.len() % 2 != 0 {
            return None;
        }
        let mut points: Vec<Point2> = Vec::new();
        let mut k: usize = 0;
        while k < count
            invariant
                k <= count,
                coordinates@.len() == 2 * count,
                coordinates@.len() <= usize::MAX,
                points@.len() == k,
                forall|j: int|
                    0 <= j < k ==> #[trigger] points@[j] == (Point2 {
                        x: coordinates@[2 * j],
                        y: coordinates@[2 * j + 1],
                    }),
            decreases count - k,
        {
            points.push(Point2::new(coordinates[2 * k], coordinates[2 * k + 1]));
            k += 1;
        }
        proof {
            assert(points@ =~= Shape::paired(coordinates@));
        }
        Some(Shape::Polyline { points })
    }
}

/// How two shapes lie to each other, as the host's geometry reports it.
#[derive(Clone, Copy, Debug, PartialEq, Eq, Structural)]
pub enum Proximity {
    /// The shapes overlap.
    Intersecting,
    /// The shapes do not overlap, but are within the margin of each other.
    WithinMargin,
    /// The shapes are apart by more than the margin.
    Disjoint,
}

/// Where an entity is, how it is turned and how large it is drawn.
#[derive(Clone, Copy, Debug, PartialEq, Eq, Structural)]
pub struct EntityTransform {
    pub position: Vector3,
    pub rotation: Quaternion,
    pub scale: Scalar,
}

impl EntityTransform {
    /// The transform of an entity at `position`, not turned and of its
    /// natural size.
    pub open spec fn placed(position: Vector3) -> EntityTransform {
        EntityTransform {
            position,
            rotation: Quaternion::unit(),
            scale: Scalar { bits: ONE_BITS },
        }
    }

    /// The transform of an entity at `position`, not turned and of its
    /// natural size.
    pub fn at_position(position: Vector3) -> (transform: EntityTransform)
        ensures
            transform == EntityTransform::placed(position),
    {
        EntityTransform { position, rotation: Quaternion::identity(), scale: Scalar::one() }
    }
}

/// Any object of the world.
#[derive(Clone, Debug, PartialEq, Eq)]
pub struct Entity {
    pub transform: EntityTransform,
    /// Zero for an entity that pulls at nothing.
    pub mass: Scalar,
    pub collision_shape: Option<Shape>,
    pub missile_trail: Option<MissileTrail>,
    pub ship: Option<Ship>,
}

/// An entity as the contracts speak of it: the entity itself, with its trail
/// seen as a `TrailModel`.
pub struct EntityModel {
    pub transform: EntityTransform,
    pub mass: Scalar,
    pub collision_shape: Option<Shape>,
    pub missile_trail: Option<TrailModel>,
    pub ship: Option<Ship>,
}

impl EntityModel {
    /// The entity is an active ship of `player_id`.
    pub open spec fn is_active_ship_of(self, player_id: usize) -> bool {
        self.ship == Some(Ship { player_id, state: ShipState::Active })
    }

    /// The entity is a ship of `player_id`, active or not.
    pub open spec fn is_ship_of(self, player_id: usize) -> bool {
        self.ship matches Some(ship) && ship.player_id == player_id
    }

    /// The entity is a missile that still flies.
    pub open spec fn is_live_missile(self) -> bool {
        self.missile_trail matches Some(trail) && trail.live()
    }

    /// The entity is a planet: a body with a shape that is neither ship nor
    /// missile.
    pub open spec fn is_planet(self) -> bool {
        self.collision_shape is Some && self.ship is None && self.missile_trail is None
    }

    /// An entity at `position` with no mass, no shape and no part to play.
    pub open spec fn bare(position: Vector3) -> EntityModel {
        EntityModel {
            transform: EntityTransform::placed(position),
            mass: Scalar { bits: ZERO_BITS },
            collision_shape: None,
            missile_trail: None,
            ship: None,
        }
    }

    /// A planet: a disc of the given radius and mass, drawn at the scale of
    /// its radius.
    pub open spec fn planet(position: Vector3, radius: Scalar, mass: Scalar) -> EntityModel {
        EntityModel {
            transform: EntityTransform { scale: radius, ..EntityTransform::placed(position) },
            mass,
            collision_shape: Some(Shape::Disc { radius }),
            missile_trail: None,
            ship: None,
        }
    }

    /// The active ship of `player_id`, with the given outline.
    pub open spec fn ship(
        position: Vector3,
        rotation: Quaternion,
        shape: Shape,
        player_id: usize,
    ) -> EntityModel {
        EntityModel {
            transform: EntityTransform { rotation, ..EntityTransform::placed(position) },
            mass: Scalar { bits: ZERO_BITS },
            collision_shape: Some(shape),
            missile_trail: None,
            ship: Some(Ship { player_id, state: ShipState::Active }),
        }
    }

    /// A missile at `position` that leaves `trail`: it has no mass and no
    /// shape, and is nobody's ship.
    pub open spec fn missile(position: Vector3, trail: TrailModel) -> EntityModel {
        EntityModel { missile_trail: Some(trail), ..EntityModel::bare(position) }
    }

    /// The entity with its ship, if it has one, disabled.
    pub open spec fn disabled(self) -> EntityModel {
        match self.ship {
            Some(ship) => EntityModel {
                ship: Some(Ship { player_id: ship.player_id, state: ShipState::Disabled }),
                ..self
            },
            None => self,
        }
    }

    /// The entity after a tick of which the host found `step` for it: a
    /// missile's trail takes the step, if one is given, and the missile is
    /// where its trail ends; anything else stays as it is.
    pub open spec fn moved(self, step: Option<TrailStep>) -> EntityModel {
        match self.missile_trail {
            Some(trail) => {
                let trail = match step {
                    Some(step) => trail.advanced(step),
                    None => trail,
                };
                EntityModel {
                    transform: EntityTransform { position: trail.positions.last(), ..self.transform },
                    missile_trail: Some(trail),
                    ..self
                }
            },
            None => self,
        }
    }

    /// What the tick reports of the entity: the event of its trail, if it is
    /// a missile for which a step is given.
    pub open spec fn event_of(self, step: Option<TrailStep>) -> Option<MissileEvent> {
        match (self.missile_trail, step) {
            (Some(trail), Some(step)) => trail.event_of(step),
            _ => None,
        }
    }
}

impl View for Entity {
    type V = EntityModel;

    open spec fn view(&self) -> EntityModel {
        EntityModel {
            transform: self.transform,
            mass: self.mass,
            collision_shape: self.collision_shape,
            missile_trail: match self.missile_trail {
                Some(trail) => Some(trail@),
                None => None,
            },
            ship: self.ship,
        }
    }
}

impl Entity {

    /// An entity at `position` with no mass, no shape and no part to play.
    pub fn new(position: Vector3) -> (entity: Entity)
        ensures
            entity@ == EntityModel::bare(position),
    {
        Entity {
            transform: EntityTransform::at_position(position),
            mass: Scalar::zero_value(),
            collision_shape: None,
            missile_trail: None,
            ship: None,
        }
    }

    /// A planet: a disc of the given radius and mass, drawn at the scale of
    /// its radius.
    pub fn planet(position: Vector3, radius: Scalar, mass: Scalar) -> (entity: Entity)
        ensures
            entity@ == EntityModel::planet(position, radius, mass),
    {
        let mut entity = Entity::new(position);
        entity.transform.scale = radius;
        entity.mass = mass;
        entity.collision_shape = Some(Shape::disc(radius));
        entity
    }

    /// The active ship of `player_id`, with the given outline.
    pub fn ship(position: Vector3, rotation: Quaternion, shape: Shape, player_id: usize) -> (entity:
        Entity)
        ensures
            entity@ == EntityModel::ship(position, rotation, shape, player_id),
    {
        let mut entity = Entity::new(position);
        entity.transform.rotation = rotation;
        entity.collision_shape = Some(shape);
        entity.ship = Some(Ship::new(player_id));
        entity
    }

    /// A missile at `position` that leaves `trail`: it has no mass and no
    /// shape, and is nobody's ship.
    pub fn missile(position: Vector3, trail: MissileTrail) -> (entity: Entity)
        ensures
            entity@ == EntityModel::missile(position, trail@),
    {
        let mut entity = Entity::new(position);
        entity.missile_trail = Some(trail);
        entity
    }

    pub fn position(&self) -> (position: &Vector3)
        ensures
            *position == self.transform.position,
    {
        &self.transform.position
    }

    /// Whether a shape collides with this entity, given how the host's
    /// geometry found the two to lie to each other: they collide unless they
    /// are disjoint, and nothing collides with an entity that has no shape.
    pub fn collides_with_shape(&self, proximity: Proximity) -> (collides: bool)
        ensures
            collides == (self.collision_shape is Some && proximity != Proximity::Disjoint),
    {
        if self.collision_shape.is_some() {
            match proximity {
                Proximity::Disjoint => false,
                _ => true,
            }
        } else {
            false
        }
    }
}

} // verus!
