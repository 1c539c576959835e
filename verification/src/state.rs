//! The game as a whole: the world's entities, the players and the phase of
//! play, and the rules that take the game from one state to the next.

use vstd::prelude::*;
use crate::entity::{Entity, EntityModel, Ship, ShipState};
use crate::event::{InputEventError, Launch, MissileParams};
use crate::missile::{MissileEvent, MissileTrail, TrailModel, TrailStep};
use crate::constants::MISSILE_TICKS_TO_LIVE;
use crate::scalar::Scalar;
use crate::turn::{eligible, GamePhase, Turn, TurnState};

verus! {

/// A colour, by its red, green and blue parts, each from zero to one.
#[derive(Clone, Copy, Debug, PartialEq, Eq, Structural)]
pub struct Rgb {
    pub r: Scalar,
    pub g: Scalar,
    pub b: Scalar,
}

/// One of the players. Players are known by their place in the roster.
#[derive(Clone, Copy, Debug, PartialEq, Eq, Structural)]
pub struct Player {
    pub color: Rgb,
}

/// The state of a game as the contracts speak of it.
pub struct GameModel {
    /// The entities, in the order in which they came into the world.
    pub entities: Seq<EntityModel>,
    pub players: Seq<Player>,
    pub phase: GamePhase,
}

/// The players who have an active ship among `entities`, one entry for each
/// such ship, in the order of the entities.
pub open spec fn active_players_of(entities: Seq<EntityModel>) -> Seq<usize>
    decreases entities.len(),
{
    if entities.len() == 0 {
        Seq::empty()
    } else {
        let before = active_players_of(entities.drop_last());
        match entities.last().ship {
            Some(ship) => if ship.state == ShipState::Active {
                before.push(ship.player_id)
            } else {
                before
            },
            None => before,
        }
    }
}

/// The events that a tick with outcomes `steps` reports of `entities`, in the
/// order of the entities.
pub open spec fn events_of(entities: Seq<EntityModel>, steps: Seq<Option<TrailStep>>) -> Seq<
    MissileEvent,
>
    recommends
        steps.len() == entities.len(),
    decreases entities.len(),
{
    if entities.len() == 0 {
        Seq::empty()
    } else {
        let before = events_of(entities.drop_last(), steps.take(entities.len() - 1));
        match entities.last().event_of(steps[entities.len() - 1]) {
            Some(event) => before.push(event),
            None => before,
        }
    }
}

/// A player is listed by `active_players_of` exactly if one of the entities
/// is an active ship of theirs.
pub proof fn lemma_active_players(entities: Seq<EntityModel>, player: usize)
    ensures
        active_players_of(entities).contains(player) <==> exists|i: int|
            0 <= i < entities.len() && (#[trigger] entities[i]).is_active_ship_of(player),
    decreases entities.len(),
{
    if entities.len() > 0 {
        let front = entities.drop_last();
        let before = active_players_of(front);
        lemma_active_players(front, player);
        if active_players_of(entities).contains(player) {
            if before.contains(player) {
                let i = choose|i: int|
                    0 <= i < front.len() && (#[trigger] front[i]).is_active_ship_of(player);
                assert(entities[i].is_active_ship_of(player));
            } else {
                let k = choose|k: int|
                    0 <= k < active_players_of(entities).len() && active_players_of(entities)[k]
                        == player;
                assert(k == before.len());
                assert(entities[entities.len() - 1].is_active_ship_of(player));
            }
        }
        if exists|i: int|
            0 <= i < entities.len() && (#[trigger] entities[i]).is_active_ship_of(player) {
            let i = choose|i: int|
                0 <= i < entities.len() && (#[trigger] entities[i]).is_active_ship_of(player);
            if i < front.len() {
                assert(front[i].is_active_ship_of(player));
                let k = choose|k: int| 0 <= k < before.len() && before[k] == player;
                assert(active_players_of(entities)[k] == player);
            } else {
                assert(active_players_of(entities)[before.len() as int] == player);
            }
        }
    }
}

impl GameModel {
    /// The turn in progress, if the game is being played.
    pub open spec fn turn(self) -> Option<Turn> {
        match self.phase {
            GamePhase::Playing(turn) => Some(turn),
            _ => None,
        }
    }

    /// The players who have an active ship, one entry for each such ship.
    pub open spec fn active_players(self) -> Seq<usize> {
        active_players_of(self.entities)
    }

    /// Entity `index` is the ship of `player` that comes first in the world.
    pub open spec fn is_first_ship_of(self, index: int, player: usize) -> bool {
        &&& 0 <= index < self.entities.len()
        &&& self.entities[index].is_ship_of(player)
        &&& forall|j: int| 0 <= j < index ==> !(#[trigger] self.entities[j]).is_ship_of(player)
    }

    /// Some entity is a ship of `player`.
    pub open spec fn has_ship_of(self, player: usize) -> bool {
        exists|i: int| 0 <= i < self.entities.len() && (#[trigger] self.entities[i]).is_ship_of(
            player,
        )
    }

    /// No entity is a ship and a missile at once.
    pub open spec fn roles_apart(self) -> bool {
        forall|i: int|
            0 <= i < self.entities.len() ==> !((#[trigger] self.entities[i]).ship is Some
                && self.entities[i].missile_trail is Some)
    }

    /// Some entity is an active ship of `player`.
    pub open spec fn has_active_ship_of(self, player: usize) -> bool {
        exists|i: int|
            0 <= i < self.entities.len() && (#[trigger] self.entities[i]).is_active_ship_of(
                player,
            )
    }

    /// The ship from which the player whose turn it is fires: the first
    /// entity that is a ship of theirs. `None` when the game is not being
    /// played or the player has no ship.
    pub open spec fn ship_index(self) -> Option<int> {
        match self.turn() {
            Some(turn) => if self.has_ship_of(turn.current_player) {
                Some(choose|i: int| self.is_first_ship_of(i, turn.current_player))
            } else {
                None
            },
            None => None,
        }
    }

    /// Why the player whose turn it is may not fire as `params` ask, or
    /// `None` if they may. Reasons are looked for in this order: nobody is
    /// aiming; the angle is not finite; the speed is out of range; the
    /// player has no ship.
    pub open spec fn fire_error(self, params: MissileParams) -> Option<InputEventError> {
        match self.turn() {
            None => Some(InputEventError::CannotFireNow),
            Some(turn) => if turn.state != TurnState::Aiming {
                Some(InputEventError::CannotFireNow)
            } else if !params.valid_angle() {
                Some(InputEventError::InvalidMissileAngle)
            } else if !params.valid_speed() {
                Some(InputEventError::InvalidMissileSpeed)
            } else if !self.has_ship_of(turn.current_player) {
                Some(InputEventError::NoShipToFireMissile)
            } else {
                None
            },
        }
    }

    /// The missile that the player whose turn it is fires: an entity at the
    /// position of their ship, whose trail starts where `launch` says, with
    /// the velocity it says, and has the full lifetime of a missile.
    pub open spec fn missile_fired(self, launch: Launch) -> EntityModel
        recommends
            self.ship_index() is Some,
    {
        EntityModel::missile(
            self.entities[self.ship_index().unwrap()].transform.position,
            TrailModel {
                player_id: self.turn().unwrap().current_player,
                time_to_live: MISSILE_TICKS_TO_LIVE,
                velocity: launch.velocity,
                positions: seq![launch.position],
            },
        )
    }

    /// The game after the player whose turn it is has fired: the missile has
    /// come into the world behind all other entities, and the turn is in its
    /// firing state.
    pub open spec fn fired(self, launch: Launch) -> GameModel
        recommends
            self.ship_index() is Some,
    {
        GameModel {
            entities: self.entities.push(self.missile_fired(launch)),
            players: self.players,
            phase: GamePhase::Playing(
                Turn {
                    current_player: self.turn().unwrap().current_player,
                    state: TurnState::Firing,
                },
            ),
        }
    }

    /// The event speaks of an entity that exists.
    pub open spec fn admits(self, event: MissileEvent) -> bool {
        match event {
            MissileEvent::Expired => true,
            MissileEvent::HitEntity(entity) => entity < self.entities.len(),
        }
    }

    /// The game after `event` has had its effect on the world: a ship that a
    /// missile struck is disabled; nothing else changes.
    pub open spec fn with_event(self, event: MissileEvent) -> GameModel {
        match event {
            MissileEvent::Expired => self,
            MissileEvent::HitEntity(entity) => if entity < self.entities.len() {
                GameModel {
                    entities: self.entities.update(
                        entity as int,
                        self.entities[entity as int].disabled(),
                    ),
                    ..self
                }
            } else {
                self
            },
        }
    }

    /// The game after each of `events` has had its effect, in their order.
    pub open spec fn with_events(self, events: Seq<MissileEvent>) -> GameModel
        decreases events.len(),
    {
        if events.len() == 0 {
            self
        } else {
            self.with_events(events.drop_last()).with_event(events.last())
        }
    }

    /// The game after the missiles of a turn have come to their end with
    /// `events`: the events have had their effect, and then, if the game is
    /// being played, the turn has passed on or the game has ended.
    pub open spec fn resolved(self, events: Seq<MissileEvent>) -> GameModel {
        let world = self.with_events(events);
        match self.phase {
            GamePhase::Playing(turn) => GameModel {
                phase: turn.passing_on(world.players.len() as usize, world.active_players()),
                ..world
            },
            _ => world,
        }
    }

    /// The events that a tick with outcomes `steps` reports, in the order of
    /// the entities that they come from.
    pub open spec fn events(self, steps: Seq<Option<TrailStep>>) -> Seq<MissileEvent>
        recommends
            steps.len() == self.entities.len(),
    {
        events_of(self.entities, steps)
    }

    /// The game after every entity has made its move of the tick.
    pub open spec fn moved(self, steps: Seq<Option<TrailStep>>) -> GameModel
        recommends
            steps.len() == self.entities.len(),
    {
        GameModel {
            entities: Seq::new(self.entities.len(), |i: int| self.entities[i].moved(steps[i])),
            ..self
        }
    }

    /// `steps` can be the outcomes of a tick: there is one entry for each
    /// entity, every missile that still flies has a step, and a missile
    /// strikes only what exists.
    pub open spec fn admits_steps(self, steps: Seq<Option<TrailStep>>) -> bool {
        &&& steps.len() == self.entities.len()
        &&& forall|i: int|
            0 <= i < self.entities.len() && (#[trigger] self.entities[i]).is_live_missile()
                ==> steps[i] is Some
        &&& forall|i: int|
            0 <= i < self.entities.len() ==> match #[trigger] self.entities[i].event_of(steps[i]) {
                Some(event) => self.admits(event),
                None => true,
            }
    }

    /// The game after a tick with outcomes `steps`. Outside of play nothing
    /// happens. In play every missile makes its move; if that brings any
    /// events, they have their effect and the turn passes on or the game
    /// ends.
    pub open spec fn ticked(self, steps: Seq<Option<TrailStep>>) -> GameModel
        recommends
            self.admits_steps(steps),
    {
        match self.phase {
            GamePhase::Playing(_) => {
                let events = self.events(steps);
                if events.len() == 0 {
                    self.moved(steps)
                } else {
                    self.moved(steps).resolved(events)
                }
            },
            _ => self,
        }
    }

    /// The game with play begun: the first turn goes to the player with the
    /// lowest number who has an active ship, and with no such player the
    /// game is over at once.
    pub open spec fn started(self) -> GameModel {
        GameModel {
            phase: (Turn { current_player: 0, state: TurnState::Aiming }).skipping_eliminated(
                self.players.len() as usize,
                self.active_players(),
            ),
            ..self
        }
    }
}

/// The world, the players and the phase of play.
#[derive(Clone, Debug, PartialEq, Eq)]
pub struct GameState {
    entities: Vec<Entity>,
    players: Vec<Player>,
    phase: GamePhase,
}

impl View for GameState {
    type V = GameModel;

    closed spec fn view(&self) -> GameModel {
        GameModel {
            entities: self.entities@.map_values(|entity: Entity| entity@),
            players: self.players@,
            phase: self.phase,
        }
    }
}

impl GameState {
    /// An empty world without players, in which play has not started.
    pub fn new() -> (state: GameState)
        ensures
            state@.entities == Seq::<EntityModel>::empty(),
            state@.players == Seq::<Player>::empty(),
            state@.phase == GamePhase::NotStarted,
    {
        let state = GameState {
            entities: Vec::new(),
            players: Vec::new(),
            phase: GamePhase::NotStarted,
        };
        proof {
            assert(state@.entities =~= Seq::<EntityModel>::empty());
        }
        state
    }

    /// The entities, in the order in which they came into the world. An
    /// entity is known by its index, and entities are never taken out.
    pub fn entities(&self) -> (entities: &[Entity])
        ensures
            entities@.len() == self@.entities.len(),
            forall|i: int| 0 <= i < entities@.len() ==> (#[trigger] entities@[i])@
                == self@.entities[i],
    {
        self.entities.as_slice()
    }

    /// Puts `entity` into the world, behind those that are there.
    pub fn add_entity(&mut self, entity: Entity)
        ensures
            final(self)@ == (GameModel {
                entities: old(self)@.entities.push(entity@),
                ..old(self)@
            }),
    {
        self.entities.push(entity);
        proof {
            assert(self@.entities =~= old(self)@.entities.push(entity@));
        }
    }

    /// Puts `entity` in the place of the entity with number `index`, and says
    /// whether there was such an entity; if not, nothing changes.
    pub fn set_entity(&mut self, index: usize, entity: Entity) -> (done: bool)
        ensures
            done == (index < old(self)@.entities.len()),
            done ==> final(self)@ == (GameModel {
                entities: old(self)@.entities.update(index as int, entity@),
                ..old(self)@
            }),
            !done ==> *final(self) == *old(self),
    {
        if index < self.entities.len() {
            self.entities[index] = entity;
            proof {
                assert(self@.entities =~= old(self)@.entities.update(index as int, entity@));
            }
            true
        } else {
            false
        }
    }

    pub fn players(&self) -> (players: &[Player])
        ensures
            players@ == self@.players,
    {
        self.players.as_slice()
    }

    /// Replaces the roster of players.
    pub fn set_players(&mut self, players: Vec<Player>)
        ensures
            final(self)@ == (GameModel { players: players@, ..old(self)@ }),
    {
        self.players = players;
    }

    pub fn phase(&self) -> (phase: GamePhase)
        ensures
            phase == self@.phase,
    {
        self.phase
    }

    /// The turn in progress, if the game is being played.
    pub fn turn(&self) -> (turn: Option<&Turn>)
        ensures
            match turn {
                Some(turn) => self@.turn() == Some(*turn),
                None => self@.turn() is None,
            },
    {
        self.phase.turn()
    }

    /// The players who have an active ship, one entry for each such ship, in
    /// the order of the entities.
    pub fn active_players(&self) -> (active: Vec<usize>)
        ensures
            active@ == self@.active_players(),
            forall|player: usize|
                active@.contains(player) <==> exists|i: int|
                    0 <= i < self@.entities.len() && (
                    #[trigger] self@.entities[i]).is_active_ship_of(player),
    {
        let mut active: Vec<usize> = Vec::new();
        let mut i: usize = 0;
        while i < self.entities.len()
            invariant
                i <= self.entities@.len(),
                self@.entities == self.entities@.map_values(|entity: Entity| entity@),
                active@ == active_players_of(self@.entities.take(i as int)),
            decreases self.entities.len() - i,
        {
            proof {
                assert(self@.entities.take(i + 1).drop_last() =~= self@.entities.take(i as int));
            }
            if let Some(ship) = &self.entities[i].ship {
                if ship.is_active() {
                    active.push(ship.player_id);
                }
            }
            i += 1;
        }
        proof {
            assert(self@.entities.take(i as int) =~= self@.entities);
            assert forall|player: usize|
                active@.contains(player) <==> exists|i: int|
                    0 <= i < self@.entities.len() && (
                    #[trigger] self@.entities[i]).is_active_ship_of(player) by {
                lemma_active_players(self@.entities, player);
            }
        }
        active
    }

    /// The index of the ship from which the player whose turn it is fires:
    /// the first entity that is a ship of theirs, whether active or not.
    pub fn ship_index(&self) -> (index: Option<usize>)
        ensures
            match index {
                Some(index) => self@.ship_index() == Some(index as int) && index
                    < self@.entities.len(),
                None => self@.ship_index() is None,
            },
            index matches Some(index) ==> self@.turn() matches Some(turn)
                && self@.is_first_ship_of(index as int, turn.current_player),
    {
        let id: usize = match self.phase.turn() {
            Some(turn) => turn.current_player,
            None => {
                return None;
            },
        };
        let mut i: usize = 0;
        while i < self.entities.len()
            invariant
                i <= self.entities@.len(),
                self@.entities == self.entities@.map_values(|entity: Entity| entity@),
                self@.turn() matches Some(turn) && turn.current_player == id,
                forall|j: int| 0 <= j < i ==> !(#[trigger] self@.entities[j]).is_ship_of(id),
            decreases self.entities.len() - i,
        {
            let found: bool = match &self.entities[i].ship {
                Some(ship) => ship.player_id == id,
                None => false,
            };
            if found {
                proof {
                    assert(self@.is_first_ship_of(i as int, id));
                    assert(self@.entities[i as int].is_ship_of(id));
                    let chosen = choose|k: int| self@.is_first_ship_of(k, id);
                    assert(chosen == i) by {
                        if chosen < i {
                            assert(!self@.entities[chosen].is_ship_of(id));
                        } else if chosen > i {
                            assert(!self@.entities[i as int].is_ship_of(id));
                        }
                    }
                }
                return Some(i);
            }
            i += 1;
        }
        None
    }

    /// The ship from which the player whose turn it is fires.
    pub fn get_ship(&self) -> (ship: Option<&Entity>)
        ensures
            match ship {
                Some(ship) => self@.ship_index() matches Some(index) && ship@
                    == self@.entities[index],
                None => self@.ship_index() is None,
            },
    {
        match self.ship_index() {
            Some(index) => Some(&self.entities[index]),
            None => None,
        }
    }

    /// Begins play.
    pub fn start_game(&mut self)
        ensures
            final(self)@ == old(self)@.started(),
    {
        let turn = Turn::new(0);
        let active = self.active_players();
        let next_phase = turn.skip_eliminated_players(self.players.len(), active.as_slice());
        self.phase = next_phase;
    }

    /// Whether the player whose turn it is may fire as `params` ask, and from
    /// which ship: the index of that ship, or the reason why not. Nothing
    /// changes.
    pub fn check_fire(&self, params: MissileParams) -> (result: Result<usize, InputEventError>)
        ensures
            match result {
                Ok(index) => self@.fire_error(params) is None && self@.ship_index() == Some(
                    index as int,
                ) && index < self@.entities.len(),
                Err(error) => self@.fire_error(params) == Some(error),
            },
    {
        let aiming: bool = match self.phase.turn() {
            Some(turn) => match turn.state {
                TurnState::Aiming => true,
                TurnState::Firing => false,
            },
            None => false,
        };
        if !aiming {
            return Err(InputEventError::CannotFireNow);
        }
        if !params.has_valid_angle() {
            return Err(InputEventError::InvalidMissileAngle);
        }
        if !params.has_valid_speed() {
            return Err(InputEventError::InvalidMissileSpeed);
        }
        match self.ship_index() {
            Some(index) => Ok(index),
            None => Err(InputEventError::NoShipToFireMissile),
        }
    }

    /// Fires a missile for the player whose turn it is.
    ///
    /// `launch` is what the host's physics made of `params` for the ship that
    /// `check_fire` names. If the player may not fire, the error says why and
    /// the game is left exactly as it was.
    pub fn fire_missile(&mut self, params: MissileParams, launch: Launch) -> (result: Result<
        (),
        InputEventError,
    >)
        ensures
            match result {
                Ok(_) => old(self)@.fire_error(params) is None && final(self)@ == old(
                    self,
                )@.fired(launch),
                Err(error) => old(self)@.fire_error(params) == Some(error) && *final(self)
                    == *old(self),
            },
    {
        let index: usize = match self.check_fire(params) {
            Ok(index) => index,
            Err(error) => {
                return Err(error);
            },
        };
        let player: usize = match self.phase {
            GamePhase::Playing(turn) => turn.current_player,
            _ => {
                proof {
                    assert(false);
                }
                return Err(InputEventError::CannotFireNow);
            },
        };
        let ship_position = self.entities[index].transform.position;
        let trail = MissileTrail::new(player, launch.position, launch.velocity);
        let missile = Entity::missile(ship_position, trail);
        self.entities.push(missile);
        self.phase = GamePhase::Playing(Turn { current_player: player, state: TurnState::Firing });
        proof {
            assert(self@.entities =~= old(self)@.entities.push(old(self)@.missile_fired(launch)));
        }
        Ok(())
    }

    /// Whether each of `events` speaks of an entity that exists, as
    /// `advance_after_resolution` asks.
    pub fn admits_events(&self, events: &[MissileEvent]) -> (admitted: bool)
        ensures
            admitted == forall|k: int|
                0 <= k < events@.len() ==> self@.admits(#[trigger] events@[k]),
    {
        let mut k: usize = 0;
        while k < events.len()
            invariant
                k <= events@.len(),
                forall|j: int| 0 <= j < k ==> self@.admits(#[trigger] events@[j]),
            decreases events.len() - k,
        {
            if let MissileEvent::HitEntity(entity) = events[k] {
                if entity >= self.entities.len() {
                    proof {
                        assert(!self@.admits(events@[k as int]));
                    }
                    return false;
                }
            }
            k += 1;
        }
        true
    }

    /// Whether `steps` can be the outcomes of a tick, as `update_missiles`
    /// asks: there is one entry for each entity, every missile that still
    /// flies has a step, and a missile strikes only what exists.
    pub fn admits_steps(&self, steps: &[Option<TrailStep>]) -> (admitted: bool)
        ensures
            admitted == self@.admits_steps(steps@),
    {
        if steps.len() != self.entities.len() {
            return false;
        }
        let mut i: usize = 0;
        while i < self.entities.len()
            invariant
                i <= self.entities@.len(),
                steps@.len() == self.entities@.len(),
                self@.entities == self.entities@.map_values(|entity: Entity| entity@),
                forall|j: int|
                    0 <= j < i && (#[trigger] self@.entities[j]).is_live_missile()
                        ==> steps@[j] is Some,
                forall|j: int|
                    0 <= j < i ==> match #[trigger] self@.entities[j].event_of(steps@[j]) {
                        Some(event) => self@.admits(event),
                        None => true,
                    },
            decreases self.entities.len() - i,
        {
            let live: bool = match &self.entities[i].missile_trail {
                Some(trail) => trail.is_live(),
                None => false,
            };
            if live {
                match &steps[i] {
                    Some(step) => {
                        if let Some(target) = step.hit {
                            if target >= self.entities.len() {
                                proof {
                                    assert(self@.entities[i as int].event_of(steps@[i as int])
                                        == Some(MissileEvent::HitEntity(target)));
                                }
                                return false;
                            }
                        }
                    },
                    None => {
                        proof {
                            assert(self@.entities[i as int].is_live_missile());
                        }
                        return false;
                    },
                }
            }
            i += 1;
        }
        true
    }

    /// Lets `event` have its effect on the world: a ship that a missile
    /// struck is disabled.
    pub fn handle_missile_event(&mut self, event: &MissileEvent)
        requires
            old(self)@.admits(*event),
        ensures
            final(self)@ == old(self)@.with_event(*event),
    {
        match event {
            MissileEvent::Expired => {},
            MissileEvent::HitEntity(id) => {
                let id: usize = *id;
                if let Some(ship) = self.entities[id].ship {
                    self.entities[id].ship = Some(
                        Ship { player_id: ship.player_id, state: ShipState::Disabled },
                    );
                }
                proof {
                    assert(self@.entities =~= old(self)@.with_event(*event).entities);
                }
            },
        }
    }

    /// Ends the flight of a turn's missiles: lets each of `events` have its
    /// effect, in their order, and then passes the turn to the next player
    /// who still has an active ship, or ends the game if no other player has
    /// one. Outside of play the phase stays as it is.
    pub fn advance_after_resolution(&mut self, events: &[MissileEvent])
        requires
            forall|k: int| 0 <= k < events@.len() ==> old(self)@.admits(#[trigger] events@[k]),
        ensures
            final(self)@ == old(self)@.resolved(events@),
    {
        let ghost before = self@;
        let mut k: usize = 0;
        while k < events.len()
            invariant
                k <= events@.len(),
                forall|k: int| 0 <= k < events@.len() ==> before.admits(#[trigger] events@[k]),
                self@ == before.with_events(events@.take(k as int)),
                self@.entities.len() == before.entities.len(),
            decreases events.len() - k,
        {
            proof {
                assert(events@.take(k + 1).drop_last() =~= events@.take(k as int));
                assert(before.admits(events@[k as int]));
            }
            self.handle_missile_event(&events[k]);
            k += 1;
        }
        proof {
            assert(events@.take(k as int) =~= events@);
            lemma_events_keep_the_rest(before, events@);
        }
        if let GamePhase::Playing(turn) = self.phase {
            let active = self.active_players();
            let next_phase = turn.next_player(self.players.len(), active.as_slice());
            self.phase = next_phase;
        }
    }

    /// Takes the game through one tick.
    ///
    /// `steps` holds, for each entity, what the host's physics found for it
    /// over the tick; only the steps of missiles are looked at. Every missile
    /// that still flies takes its step, and each missile is moved to the end
    /// of its trail. If a missile struck something or expired, the events
    /// have their effect and the turn passes on or the game ends. Outside of
    /// play nothing happens.
    pub fn update_missiles(&mut self, steps: &[Option<TrailStep>])
        requires
            old(self)@.admits_steps(steps@),
        ensures
            final(self)@ == old(self)@.ticked(steps@),
    {
        match self.phase {
            GamePhase::Playing(_) => {},
            _ => {
                return ;
            },
        }
        let ghost before = self@;
        let mut events: Vec<MissileEvent> = Vec::new();
        let mut i: usize = 0;
        while i < self.entities.len()
            invariant
                i <= self.entities@.len(),
                before.admits_steps(steps@),
                self@.entities.len() == before.entities.len(),
                self@.players == before.players,
                self@.phase == before.phase,
                forall|j: int|
                    0 <= j < i ==> #[trigger] self@.entities[j] == before.entities[j].moved(
                        steps@[j],
                    ),
                forall|j: int|
                    i <= j < before.entities.len() ==> #[trigger] self@.entities[j]
                        == before.entities[j],
                events@ == events_of(before.entities.take(i as int), steps@.take(i as int)),
                forall|k: int| 0 <= k < events@.len() ==> before.admits(#[trigger] events@[k]),
            decreases self.entities.len() - i,
        {
            proof {
                assert(before.entities.take(i + 1).drop_last() =~= before.entities.take(i as int));
                assert(steps@.take(i + 1).take(i as int) =~= steps@.take(i as int));
                assert(before.entities[i as int].event_of(steps@[i as int]) is Some
                    ==> before.admits(
                    before.entities[i as int].event_of(steps@[i as int]).unwrap(),
                ));
            }
            let ghost start = self@;
            let ghost start_entities = self.entities@;
            proof {
                assert(start.entities[i as int] == before.entities[i as int]);
                assert(start.entities[i as int] == start_entities[i as int]@);
            }
            let mut moved_to: Option<crate::scalar::Vector3> = None;
            let mut event: Option<MissileEvent> = None;
            match &mut self.entities[i].missile_trail {
                Some(trail) => {
                    if let Some(step) = &steps[i] {
                        event = trail.update(step);
                    }
                    moved_to = Some(trail.last_position());
                },
                None => {},
            }
            if let Some(position) = moved_to {
                self.entities[i].transform.position = position;
            }
            if let Some(event) = event {
                events.push(event);
            }
            proof {
                let now = self.entities@[i as int]@;
                let want = before.entities[i as int].moved(steps@[i as int]);
                assert(self.entities@.len() == start_entities.len());
                assert forall|j: int| 0 <= j < start_entities.len() && j != i implies #[trigger]
                    self@.entities[j] == start.entities[j] by {
                    assert(self.entities@[j] == start_entities[j]);
                }
                assert(self@.entities[i as int] =~= before.entities[i as int].moved(
                    steps@[i as int],
                ));
            }
            i += 1;
        }
        proof {
            assert(before.entities.take(i as int) =~= before.entities);
            assert(steps@.take(i as int) =~= steps@);
            assert(self@.entities =~= before.moved(steps@).entities);
            assert(self@ == before.moved(steps@));
        }
        if events.len() > 0 {
            self.advance_after_resolution(events.as_slice());
        }
    }
}

/// Events change nothing of a game but the state of ships: the world keeps
/// its size, and the players and the phase stay.
pub proof fn lemma_events_keep_the_rest(game: GameModel, events: Seq<MissileEvent>)
    ensures
        game.with_events(events).entities.len() == game.entities.len(),
        game.with_events(events).players == game.players,
        game.with_events(events).phase == game.phase,
    decreases events.len(),
{
    if events.len() > 0 {
        lemma_events_keep_the_rest(game, events.drop_last());
    }
}

/// A fire command with an angle that is not finite, or with a speed that is
/// no number from zero to the highest speed allowed, is refused whatever the
/// state of the game.
pub proof fn lemma_invalid_fire_is_refused(game: GameModel, params: MissileParams)
    requires
        !params.valid_angle() || !params.valid_speed(),
    ensures
        game.fire_error(params) is Some,
{
}

/// Events leave every entity what it was, but for this: the ship of an entity
/// that a missile struck is disabled. So a disabled ship stays disabled.
pub proof fn lemma_events_only_disable(game: GameModel, events: Seq<MissileEvent>, index: usize)
    requires
        index < game.entities.len(),
    ensures
        game.with_events(events).entities.len() == game.entities.len(),
        game.with_events(events).entities[index as int] == if events.contains(
            MissileEvent::HitEntity(index),
        ) {
            game.entities[index as int].disabled()
        } else {
            game.entities[index as int]
        },
    decreases events.len(),
{
    let hit = MissileEvent::HitEntity(index);
    if events.len() > 0 {
        let front = events.drop_last();
        lemma_events_only_disable(game, front, index);
        lemma_events_keep_the_rest(game, front);
        let world = game.with_events(front);
        if events.last() == hit {
            assert(events[events.len() - 1] == hit);
            assert(game.entities[index as int].disabled().disabled()
                == game.entities[index as int].disabled());
        } else {
            assert(world.with_event(events.last()).entities[index as int]
                == world.entities[index as int]);
            if front.contains(hit) {
                let k = choose|k: int| 0 <= k < front.len() && front[k] == hit;
                assert(events[k] == hit);
            }
            if events.contains(hit) {
                let k = choose|k: int| 0 <= k < events.len() && events[k] == hit;
                assert(front[k] == hit);
            }
        }
    }
}

/// When the flight of a turn's missiles has ended, the game is over exactly
/// if no player but the one whose turn it was still has an active ship.
pub proof fn lemma_game_over_when_no_rival_is_left(
    game: GameModel,
    turn: Turn,
    events: Seq<MissileEvent>,
)
    requires
        game.phase == GamePhase::Playing(turn),
        game.players.len() <= usize::MAX,
    ensures
        game.resolved(events).phase is GameOver <==> forall|i: int|
            0 <= i < game.entities.len() ==> match (#[trigger] game.with_events(
                events,
            ).entities[i]).ship {
                Some(ship) => ship.state == ShipState::Active && ship.player_id
                    < game.players.len() ==> ship.player_id == turn.current_player,
                None => true,
            },
{
    let world = game.with_events(events);
    let count = world.players.len() as usize;
    lemma_events_keep_the_rest(game, events);
    crate::turn::lemma_game_ends_with_last_player(turn, count, world.active_players());
    if game.resolved(events).phase is GameOver {
        assert forall|i: int| 0 <= i < game.entities.len() implies match (
        #[trigger] world.entities[i]).ship {
            Some(ship) => ship.state == ShipState::Active && ship.player_id < game.players.len()
                ==> ship.player_id == turn.current_player,
            None => true,
        } by {
            if let Some(ship) = world.entities[i].ship {
                if ship.state == ShipState::Active && ship.player_id < game.players.len() {
                    assert(world.entities[i].is_active_ship_of(ship.player_id));
                    lemma_active_players(world.entities, ship.player_id);
                    assert(eligible(ship.player_id, count, world.active_players()));
                }
            }
        }
    } else {
        let rival = choose|player: usize| #[trigger]
            eligible(player, count, world.active_players()) && player != turn.current_player;
        lemma_active_players(world.entities, rival);
        let i = choose|i: int|
            0 <= i < world.entities.len() && (#[trigger] world.entities[i]).is_active_ship_of(
                rival,
            );
        assert(world.entities[i].ship.unwrap().player_id == rival);
    }
}

/// While every player has an active ship, the end of a turn's missiles hands
/// the turn to the player with the next number, and from the last player to
/// player 0 again.
pub proof fn lemma_turn_passes_to_next_player(
    game: GameModel,
    turn: Turn,
    events: Seq<MissileEvent>,
)
    requires
        game.phase == GamePhase::Playing(turn),
        2 <= game.players.len() <= usize::MAX,
        turn.current_player < game.players.len(),
        forall|player: usize|
            player < game.players.len() ==> #[trigger] game.with_events(
                events,
            ).has_active_ship_of(player),
    ensures
        game.resolved(events).phase == GamePhase::Playing(
            Turn {
                current_player: ((turn.current_player + 1) % (game.players.len() as int)) as usize,
                state: TurnState::Aiming,
            },
        ),
{
    let world = game.with_events(events);
    let count = world.players.len() as usize;
    lemma_events_keep_the_rest(game, events);
    assert forall|player: usize| player < count implies world.active_players().contains(
        player,
    ) by {
        assert(world.has_active_ship_of(player));
        lemma_active_players(world.entities, player);
    }
    crate::turn::lemma_turn_goes_round(turn, count, world.active_players());
}

/// A tick takes no entity out of the world and makes no entity anything
/// else than it was: a ship stays the ship of its player and can only go from
/// active to disabled, and a missile stays the missile of its player.
pub proof fn lemma_tick_keeps_the_world(game: GameModel, steps: Seq<Option<TrailStep>>, index: int)
    requires
        game.admits_steps(steps),
        0 <= index < game.entities.len() <= usize::MAX,
    ensures
        game.ticked(steps).entities.len() == game.entities.len(),
        game.ticked(steps).players == game.players,
        game.ticked(steps).entities[index].ship is Some <==> game.entities[index].ship is Some,
        game.ticked(steps).entities[index].missile_trail is Some
            <==> game.entities[index].missile_trail is Some,
        game.entities[index].ship matches Some(ship) ==> {
            &&& game.ticked(steps).entities[index].ship.unwrap().player_id == ship.player_id
            &&& ship.state == ShipState::Disabled ==> game.ticked(
                steps,
            ).entities[index].ship.unwrap().state == ShipState::Disabled
        },
        game.ticked(steps).entities[index].mass == game.entities[index].mass,
        game.ticked(steps).entities[index].collision_shape
            == game.entities[index].collision_shape,
{
    let moved = game.moved(steps);
    let events = game.events(steps);
    lemma_events_keep_the_rest(moved, events);
    lemma_events_only_disable(moved, events, index as usize);
}

/// Play begins with the player of the lowest number who has an active ship,
/// and that player is aiming; with no such player the game is over at once.
pub proof fn lemma_first_turn_goes_to_lowest_player(game: GameModel)
    requires
        game.players.len() <= usize::MAX,
    ensures
        match game.started().phase {
            GamePhase::Playing(turn) => {
                &&& turn.state == TurnState::Aiming
                &&& turn.current_player < game.players.len()
                &&& game.has_active_ship_of(turn.current_player)
                &&& forall|player: usize|
                    player < turn.current_player ==> !#[trigger] game.has_active_ship_of(player)
            },
            GamePhase::GameOver => forall|player: usize|
                player < game.players.len() ==> !#[trigger] game.has_active_ship_of(player),
            GamePhase::NotStarted => false,
        },
        game.started().entities == game.entities,
        game.started().players == game.players,
{
    let count = game.players.len() as usize;
    let active = game.active_players();
    assert forall|player: usize|
        eligible(player, count, active) <==> player < count && game.has_active_ship_of(
            player,
        ) by {
        lemma_active_players(game.entities, player);
    }
    if count > 0 {
        vstd::arithmetic::div_mod::lemma_small_mod(0, count as nat);
        if exists|player: usize| eligible(player, count, active) {
            let witness = choose|player: usize| eligible(player, count, active);
            crate::turn::lemma_some_nearest_eligible(witness, 0, count, active);
            let first = choose|player: usize|
                crate::turn::is_nearest_eligible(player, 0, count, active);
            assert(eligible(first, count, active));
            assert forall|player: usize| player < first implies !#[trigger]
                game.has_active_ship_of(player) by {
                if game.has_active_ship_of(player) {
                    assert(eligible(player, count, active));
                    assert(crate::turn::steps_between(0, first, count)
                        <= crate::turn::steps_between(0, player, count));
                }
            }
        } else {
            assert forall|player: usize| player < count implies !#[trigger]
                game.has_active_ship_of(player) by {
                assert(!eligible(player, count, active));
            }
        }
    }
}

/// Play leaves ships ships and missiles missiles: in a world in which no
/// entity is both, none becomes both by starting the game, by a missile being
/// fired, by a tick, or by the events of a turn's end.
pub proof fn lemma_roles_stay_apart(
    game: GameModel,
    launch: Launch,
    steps: Seq<Option<TrailStep>>,
    events: Seq<MissileEvent>,
)
    requires
        game.roles_apart(),
        game.entities.len() <= usize::MAX,
    ensures
        game.started().roles_apart(),
        game.ship_index() is Some ==> game.fired(launch).roles_apart(),
        game.admits_steps(steps) ==> game.ticked(steps).roles_apart(),
        game.resolved(events).roles_apart(),
{
    if game.ship_index() is Some {
        let fired = game.fired(launch);
        assert forall|i: int| 0 <= i < fired.entities.len() implies !((
        #[trigger] fired.entities[i]).ship is Some && fired.entities[i].missile_trail is Some) by {
            if i < game.entities.len() {
                assert(fired.entities[i] == game.entities[i]);
            }
        }
    }
    if game.admits_steps(steps) {
        let ticked = game.ticked(steps);
        assert forall|i: int| 0 <= i < ticked.entities.len() implies !((
        #[trigger] ticked.entities[i]).ship is Some && ticked.entities[i].missile_trail
            is Some) by {
            lemma_tick_keeps_the_world(game, steps, 0);
            lemma_tick_keeps_the_world(game, steps, i);
            assert(!(game.entities[i].ship is Some && game.entities[i].missile_trail is Some));
        }
    }
    let resolved = game.resolved(events);
    lemma_events_keep_the_rest(game, events);
    assert forall|i: int| 0 <= i < resolved.entities.len() implies !((
    #[trigger] resolved.entities[i]).ship is Some && resolved.entities[i].missile_trail
        is Some) by {
        lemma_events_only_disable(game, events, i as usize);
        assert(!(game.entities[i].ship is Some && game.entities[i].missile_trail is Some));
    }
}

} // verus!
