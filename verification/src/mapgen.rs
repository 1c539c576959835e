//! Laying out a new world: the players, then the planets, then one ship for
//! each player.
//!
//! Nothing placed may touch anything placed before it. The host draws a
//! position for the entity that is wanted next, has its geometry compare the
//! candidate with every entity already placed, and offers both to the
//! generator. The generator keeps a candidate that is clear of everything and
//! turns down any other; when too many candidates in a row were turned down
//! for one entity, generation has failed and no world comes out of it.

use vstd::prelude::*;
use crate::constants::MAX_PLACE_ENTITY_TRIES;
use crate::entity::{Entity, EntityModel, Proximity, Ship, ShipState};
use crate::scalar::{Scalar, ONE_BITS, ZERO_BITS};
use crate::state::{lemma_active_players, GameModel, GameState, Player, Rgb};
use crate::turn::{
    eligible, is_nearest_eligible, lemma_nearest_eligible_is, GamePhase, Turn, TurnState,
};

verus! {

/// Why no world could be generated.
#[derive(Clone, Copy, Debug, PartialEq, Eq, Structural)]
pub enum MapgenError {
    /// No free place was found for an entity.
    CouldNotPlaceEntity,
    /// The host could not make what draws the planets.
    CouldNotCreatePlanetRenderer,
    /// The host could not make what draws the ships.
    CouldNotCreateShipRenderers,
}

/// What the generator wants to be offered next.
#[derive(Clone, Copy, Debug, PartialEq, Eq, Structural)]
pub enum MapgenRequest {
    /// A candidate for the next planet.
    Planet,
    /// A candidate for the ship of this player.
    Ship(usize),
    /// Nothing: the world is complete, or generation has failed.
    Nothing,
}

/// The colour that the player with number `player` gets: red, blue and yellow
/// in turn.
pub open spec fn default_color(player: usize) -> Rgb {
    let one = Scalar { bits: ONE_BITS };
    let zero = Scalar { bits: ZERO_BITS };
    if player % 3 == 0 {
        Rgb { r: one, g: zero, b: zero }
    } else if player % 3 == 1 {
        Rgb { r: zero, g: zero, b: one }
    } else {
        Rgb { r: one, g: one, b: zero }
    }
}

/// The colour that the player with number `player` gets.
pub fn player_color(player: usize) -> (color: Rgb)
    ensures
        color == default_color(player),
{
    let one = Scalar::one();
    let zero = Scalar::zero_value();
    let place: usize = player % 3;
    if place == 0 {
        Rgb { r: one, g: zero, b: zero }
    } else if place == 1 {
        Rgb { r: zero, g: zero, b: one }
    } else {
        Rgb { r: one, g: one, b: zero }
    }
}

/// A roster of `num_players` players in their default colours.
pub fn make_players(num_players: usize) -> (players: Vec<Player>)
    ensures
        players@.len() == num_players,
        forall|i: int|
            0 <= i < num_players ==> (#[trigger] players@[i]).color == default_color(i as usize),
{
    let mut players: Vec<Player> = Vec::new();
    let mut i: usize = 0;
    while i < num_players
        invariant
            i <= num_players,
            players@.len() == i,
            forall|k: int|
                0 <= k < i ==> (#[trigger] players@[k]).color == default_color(k as usize),
        decreases num_players - i,
    {
        players.push(Player { color: player_color(i) });
        i += 1;
    }
    players
}

/// The candidate is clear of every entity of `world`, given how the host's
/// geometry found it to lie to each of them: there is one finding for each
/// entity, and none of them is a collision.
pub open spec fn is_clear(world: Seq<EntityModel>, proximities: Seq<Proximity>) -> bool {
    &&& proximities.len() == world.len()
    &&& forall|k: int|
        0 <= k < world.len() ==> !((#[trigger] world[k]).collision_shape is Some && proximities[k]
            != Proximity::Disjoint)
}

/// Whether a candidate is clear of every one of `entities`.
pub fn candidate_is_clear(entities: &[Entity], proximities: &[Proximity]) -> (clear: bool)
    ensures
        clear == (proximities@.len() == entities@.len() && forall|k: int|
            0 <= k < entities@.len() ==> !((#[trigger] entities@[k]).collision_shape is Some
                && proximities@[k] != Proximity::Disjoint)),
{
    if proximities.len() != entities.len() {
        return false;
    }
    let mut k: usize = 0;
    while k < entities.len()
        invariant
            k <= entities@.len(),
            proximities@.len() == entities@.len(),
            forall|j: int|
                0 <= j < k ==> !((#[trigger] entities@[j]).collision_shape is Some
                    && proximities@[j] != Proximity::Disjoint),
        decreases entities.len() - k,
    {
        if entities[k].collides_with_shape(proximities[k]) {
            return false;
        }
        k += 1;
    }
    true
}

/// The state of a generator as the contracts speak of it.
pub struct MapModel {
    /// The world as far as it is laid out.
    pub world: GameModel,
    pub num_players: usize,
    pub num_planets: usize,
    pub planets_placed: usize,
    pub ships_placed: usize,
    /// Candidates turned down in a row for the entity that is wanted.
    pub tries: usize,
    pub failed: bool,
    /// For each entity of the world, the findings of the host's geometry
    /// with which it was placed.
    pub findings: Seq<Seq<Proximity>>,
}

impl MapModel {
    /// What the generator wants to be offered next.
    pub open spec fn request(self) -> MapgenRequest {
        if self.failed {
            MapgenRequest::Nothing
        } else if self.planets_placed < self.num_planets {
            MapgenRequest::Planet
        } else if self.ships_placed < self.num_players {
            MapgenRequest::Ship(self.ships_placed)
        } else {
            MapgenRequest::Nothing
        }
    }

    /// The world is complete.
    pub open spec fn done(self) -> bool {
        !self.failed && self.planets_placed == self.num_planets && self.ships_placed
            == self.num_players
    }

    /// The candidate as it goes into the world: a planet is nobody's ship,
    /// a ship is the active ship of the player it is for, and neither is a
    /// missile.
    pub open spec fn entity_for(self, candidate: EntityModel) -> EntityModel {
        EntityModel {
            missile_trail: None,
            ship: match self.request() {
                MapgenRequest::Ship(player) => Some(
                    Ship { player_id: player, state: ShipState::Active },
                ),
                _ => None,
            },
            ..candidate
        }
    }

    /// The generator after it was offered `candidate`.
    ///
    /// When nothing is wanted, nothing changes. A candidate that is clear of
    /// the world goes into it, and the count of tries starts again. Any other
    /// counts as a try, and the last try allowed makes generation fail.
    pub open spec fn offered(self, candidate: EntityModel, proximities: Seq<Proximity>) -> MapModel {
        match self.request() {
            MapgenRequest::Nothing => self,
            request => if is_clear(self.world.entities, proximities) {
                MapModel {
                    world: GameModel {
                        entities: self.world.entities.push(self.entity_for(candidate)),
                        ..self.world
                    },
                    planets_placed: if request == MapgenRequest::Planet {
                        (self.planets_placed + 1) as usize
                    } else {
                        self.planets_placed
                    },
                    ships_placed: if request == MapgenRequest::Planet {
                        self.ships_placed
                    } else {
                        (self.ships_placed + 1) as usize
                    },
                    tries: 0,
                    findings: self.findings.push(proximities),
                    ..self
                }
            } else if self.tries + 1 >= MAX_PLACE_ENTITY_TRIES {
                MapModel { failed: true, ..self }
            } else {
                MapModel { tries: (self.tries + 1) as usize, ..self }
            },
        }
    }

    /// What holds of a generator at all times: the world holds the planets
    /// placed so far, then the ships placed so far, which are the active
    /// ships of the players `0..ships_placed` in that order; no ship is
    /// placed before the last planet; the roster has a player for each
    /// seat, and play has not started; every entity was clear of those
    /// before it when it was placed.
    pub open spec fn well_formed(self) -> bool {
        &&& self.findings.len() == self.world.entities.len()
        &&& forall|i: int|
            0 <= i < self.world.entities.len() ==> is_clear(
                self.world.entities.take(i),
                #[trigger] self.findings[i],
            )
        &&& self.num_planets >= 1
        &&& self.planets_placed <= self.num_planets
        &&& self.ships_placed <= self.num_players
        &&& self.ships_placed > 0 ==> self.planets_placed == self.num_planets
        &&& self.tries < MAX_PLACE_ENTITY_TRIES
        &&& self.world.entities.len() == self.planets_placed + self.ships_placed
        &&& self.world.players.len() == self.num_players
        &&& self.world.phase == GamePhase::NotStarted
        &&& forall|i: int|
            0 <= i < self.world.entities.len() ==> (
            #[trigger] self.world.entities[i]).missile_trail is None
        &&& forall|i: int|
            0 <= i < self.planets_placed ==> (#[trigger] self.world.entities[i]).ship is None
        &&& forall|p: int|
            0 <= p < self.ships_placed ==> (#[trigger] self.world.entities[self.planets_placed
                + p]).ship == Some(Ship { player_id: p as usize, state: ShipState::Active })
    }
}

/// Lays out a world step by step.
pub struct MapGenerator {
    state: GameState,
    num_players: usize,
    num_planets: usize,
    planets_placed: usize,
    ships_placed: usize,
    tries: usize,
    failed: bool,
    findings: Ghost<Seq<Seq<Proximity>>>,
}

impl View for MapGenerator {
    type V = MapModel;

    closed spec fn view(&self) -> MapModel {
        MapModel {
            world: self.state@,
            num_players: self.num_players,
            num_planets: self.num_planets,
            planets_placed: self.planets_placed,
            ships_placed: self.ships_placed,
            tries: self.tries,
            failed: self.failed,
            findings: self.findings@,
        }
    }
}

impl MapGenerator {
    /// A generator for a world of `num_players` players and `num_planets`
    /// planets, or of one planet if `num_planets` is zero. The world has its
    /// players and nothing else yet.
    pub fn new(num_players: usize, num_planets: usize) -> (generator: MapGenerator)
        ensures
            generator@.well_formed(),
            generator@.num_players == num_players,
            generator@.num_planets == if num_planets == 0 {
                1
            } else {
                num_planets
            },
            generator@.planets_placed == 0,
            generator@.ships_placed == 0,
            generator@.tries == 0,
            !generator@.failed,
            generator@.world.entities.len() == 0,
            forall|i: int|
                0 <= i < num_players ==> (#[trigger] generator@.world.players[i]).color
                    == default_color(i as usize),
    {
        let mut state = GameState::new();
        state.set_players(make_players(num_players));
        MapGenerator {
            state,
            num_players,
            num_planets: if num_planets == 0 {
                1
            } else {
                num_planets
            },
            planets_placed: 0,
            ships_placed: 0,
            tries: 0,
            failed: false,
            findings: Ghost(Seq::empty()),
        }
    }

    /// What the generator wants to be offered next.
    pub fn request(&self) -> (request: MapgenRequest)
        ensures
            request == self@.request(),
    {
        if self.failed {
            MapgenRequest::Nothing
        } else if self.planets_placed < self.num_planets {
            MapgenRequest::Planet
        } else if self.ships_placed < self.num_players {
            MapgenRequest::Ship(self.ships_placed)
        } else {
            MapgenRequest::Nothing
        }
    }

    /// Whether the world is complete.
    pub fn is_done(&self) -> (done: bool)
        ensures
            done == self@.done(),
    {
        !self.failed && self.planets_placed == self.num_planets && self.ships_placed
            == self.num_players
    }

    /// Whether generation has failed.
    pub fn has_failed(&self) -> (failed: bool)
        ensures
            failed == self@.failed,
    {
        self.failed
    }

    /// The entities placed so far.
    pub fn entities(&self) -> (entities: &[Entity])
        ensures
            entities@.len() == self@.world.entities.len(),
            forall|i: int| 0 <= i < entities@.len() ==> (#[trigger] entities@[i])@
                == self@.world.entities[i],
    {
        self.state.entities()
    }

    /// Offers `candidate` for the entity that is wanted. `proximities` says,
    /// for each entity placed so far and in their order, how the host's
    /// geometry found the candidate to lie to it.
    ///
    /// The result is `Ok(true)` if the candidate was placed, `Ok(false)` if
    /// it was turned down or nothing was wanted, and an error if with this
    /// candidate generation has failed. A candidate is placed only if it is
    /// clear of everything placed before it.
    pub fn place_entity(&mut self, candidate: Entity, proximities: &[Proximity]) -> (placed: Result<
        bool,
        MapgenError,
    >)
        ensures
            old(self)@.well_formed() ==> final(self)@.well_formed(),
            final(self)@ == old(self)@.offered(candidate@, proximities@),
            placed == match old(self)@.request() {
                MapgenRequest::Nothing => Ok::<bool, MapgenError>(false),
                _ => if is_clear(old(self)@.world.entities, proximities@) {
                    Ok(true)
                } else if old(self)@.tries + 1 >= MAX_PLACE_ENTITY_TRIES {
                    Err(MapgenError::CouldNotPlaceEntity)
                } else {
                    Ok(false)
                },
            },
    {
        let request = self.request();
        if let MapgenRequest::Nothing = request {
            return Ok(false);
        }
        let world = self.state.entities();
        let clear: bool = candidate_is_clear(world, proximities);
        proof {
            assert(clear == is_clear(self@.world.entities, proximities@)) by {
                if clear {
                    assert forall|k: int| 0 <= k < self@.world.entities.len() implies !((
                    #[trigger] self@.world.entities[k]).collision_shape is Some && proximities@[k]
                        != Proximity::Disjoint) by {
                        assert(world@[k]@ == self@.world.entities[k]);
                    }
                } else if proximities@.len() == world@.len() {
                    let k = choose|k: int|
                        0 <= k < world@.len() && (#[trigger] world@[k]).collision_shape is Some
                            && proximities@[k] != Proximity::Disjoint;
                    assert(world@[k]@ == self@.world.entities[k]);
                }
            }
        }
        if !clear {
            if self.tries >= MAX_PLACE_ENTITY_TRIES - 1 {
                self.failed = true;
                return Err(MapgenError::CouldNotPlaceEntity);
            }
            self.tries = self.tries + 1;
            return Ok(false);
        }
        let mut entity = candidate;
        entity.missile_trail = None;
        match request {
            MapgenRequest::Ship(player) => {
                entity.ship = Some(Ship::new(player));
                self.ships_placed = self.ships_placed + 1;
            },
            _ => {
                entity.ship = None;
                self.planets_placed = self.planets_placed + 1;
            },
        }
        self.state.add_entity(entity);
        self.tries = 0;
        self.findings = Ghost(self.findings@.push(proximities@));
        proof {
            let before = old(self)@;
            let after = self@;
            assert forall|i: int|
                before.well_formed() && 0 <= i < after.world.entities.len() implies is_clear(
                after.world.entities.take(i),
                #[trigger] after.findings[i],
            ) by {
                if i < before.world.entities.len() {
                    assert(after.world.entities.take(i) =~= before.world.entities.take(i));
                    assert(is_clear(before.world.entities.take(i), before.findings[i]));
                } else {
                    assert(after.world.entities.take(i) =~= before.world.entities);
                }
            }
        }
        Ok(true)
    }

    /// Hands out the world, if it is complete: it holds the planets, then
    /// the ships, one active ship for each player in the order of the
    /// players. Else the error says that an entity could not be placed.
    pub fn finish(self) -> (world: Result<GameState, MapgenError>)
        ensures
            match world {
                Ok(state) => self@.done() && state@ == self@.world,
                Err(error) => !self@.done() && error == MapgenError::CouldNotPlaceEntity,
            },
    {
        if self.is_done() {
            Ok(self.state)
        } else {
            Err(MapgenError::CouldNotPlaceEntity)
        }
    }
}

/// No two entities of a generated world touch: when the later of the two was
/// placed, the host's geometry had found it disjoint from the earlier one,
/// unless the earlier one has no shape to touch.
pub proof fn lemma_placed_entities_are_apart(map: MapModel, earlier: int, later: int)
    requires
        map.well_formed(),
        0 <= earlier < later < map.world.entities.len(),
    ensures
        map.findings[later].len() == later,
        map.world.entities[earlier].collision_shape is Some ==> map.findings[later][earlier]
            == Proximity::Disjoint,
{
    assert(is_clear(map.world.entities.take(later), map.findings[later]));
    assert(map.world.entities.take(later)[earlier] == map.world.entities[earlier]);
}

/// A generator lays out planets and ships only: no entity of its world is a
/// missile, so none is a ship and a missile at once.
pub proof fn lemma_generated_roles_are_apart(map: MapModel)
    requires
        map.well_formed(),
    ensures
        map.world.roles_apart(),
        forall|i: int|
            0 <= i < map.world.entities.len() ==> (
            #[trigger] map.world.entities[i]).missile_trail is None,
{
}

/// In a complete world every player has exactly one ship, which is active;
/// the ships stand behind the planets in the order of the players, and there
/// is at least one planet.
pub proof fn lemma_complete_world(map: MapModel, player: usize)
    requires
        map.well_formed(),
        map.done(),
        player < map.num_players,
    ensures
        map.num_planets >= 1,
        map.world.entities.len() == map.num_planets + map.num_players,
        map.world.entities[map.num_planets + player].is_active_ship_of(player),
        forall|i: int|
            0 <= i < map.world.entities.len() && (#[trigger] map.world.entities[i]).is_ship_of(
                player,
            ) ==> i == map.num_planets + player,
{
    assert forall|i: int|
        0 <= i < map.world.entities.len() && (#[trigger] map.world.entities[i]).is_ship_of(
            player,
        ) implies i == map.num_planets + player by {
        if i >= map.planets_placed {
            let p = i - map.planets_placed;
            assert(map.world.entities[map.planets_placed + p].ship == Some(
                Ship { player_id: p as usize, state: ShipState::Active },
            ));
        }
    }
}

/// Play in a complete world with at least one player starts with player 0
/// aiming.
pub proof fn lemma_complete_world_starts_with_first_player(map: MapModel)
    requires
        map.well_formed(),
        map.done(),
        map.num_players >= 1,
    ensures
        map.world.started().phase == GamePhase::Playing(
            Turn { current_player: 0, state: TurnState::Aiming },
        ),
{
    let active = map.world.active_players();
    lemma_complete_world(map, 0);
    lemma_active_players(map.world.entities, 0);
    assert(eligible(0, map.num_players, active));
    assert(is_nearest_eligible(0, 0, map.num_players, active));
    lemma_nearest_eligible_is(0, 0, map.num_players, active);
    vstd::arithmetic::div_mod::lemma_small_mod(0, map.num_players as nat);
}

} // verus!
