//! The records that the remote store replicates, as plain values.
use vstd::prelude::*;

verus! {

/// Length steps per world unit.
pub const UNIT: i32 = 1000;

/// An opaque, stable credential that identifies a session and owns a player.
#[derive(Clone, Copy, Debug, Eq)]
pub struct Identity {
    pub bytes: [u8; 32],
}

impl PartialEq for Identity {
    fn eq(&self, other: &Identity) -> (r: bool)
        ensures
            r == (self.bytes@ == other.bytes@),
    {
        let mut i: usize = 0;
        while i < 32
            invariant
                i <= 32,
                forall|j: int| 0 <= j < i ==> self.bytes@[j] == other.bytes@[j],
            decreases 32 - i,
        {
            if self.bytes[i] != other.bytes[i] {
                return false;
            }
            i = i + 1;
        }
        assert(self.bytes@ =~= other.bytes@);
        true
    }
}

impl vstd::std_specs::cmp::PartialEqSpecImpl for Identity {
    open spec fn obeys_eq_spec() -> bool {
        true
    }

    open spec fn eq_spec(&self, other: &Identity) -> bool {
        self.bytes@ == other.bytes@
    }
}


/// A point or displacement in fixed-point length steps.
#[derive(Clone, Copy, Debug, PartialEq, Eq, Structural, Default)]
pub struct StdbVector3 {
    pub x: i32,
    pub y: i32,
    pub z: i32,
}

impl StdbVector3 {
    pub fn new(x: i32, y: i32, z: i32) -> (r: StdbVector3)
        ensures
            r == (StdbVector3 { x, y, z }),
    {
        StdbVector3 { x, y, z }
    }

    pub fn zero() -> (r: StdbVector3)
        ensures
            r == (StdbVector3 { x: 0, y: 0, z: 0 }),
    {
        StdbVector3 { x: 0, y: 0, z: 0 }
    }
}

/// The combat posture of an actor.
#[derive(Clone, Copy, Debug, PartialEq, Eq, Structural)]
pub enum PlayerStances {
    NonCombat,
    Combat,
    Precise,
    Defensive,
}

/// What an actor is doing besides moving.
#[derive(Debug, Eq)]
pub enum PlayerAction {
    NoAction,
    Attack,
    Block,
    Dodge,
    UseItem(u32),
    CastSpell(String),
}

/// Equality of actions, spells compared by their text.
pub open spec fn same_action(a: PlayerAction, b: PlayerAction) -> bool {
    match (a, b) {
        (PlayerAction::CastSpell(s), PlayerAction::CastSpell(t)) => s@ == t@,
        (PlayerAction::CastSpell(_), _) => false,
        (_, PlayerAction::CastSpell(_)) => false,
        _ => a == b,
    }
}

impl Clone for PlayerAction {
    fn clone(&self) -> (r: PlayerAction)
        ensures
            r == *self,
    {
        match self {
            PlayerAction::NoAction => PlayerAction::NoAction,
            PlayerAction::Attack => PlayerAction::Attack,
            PlayerAction::Block => PlayerAction::Block,
            PlayerAction::Dodge => PlayerAction::Dodge,
            PlayerAction::UseItem(n) => PlayerAction::UseItem(*n),
            PlayerAction::CastSpell(s) => PlayerAction::CastSpell(s.clone()),
        }
    }
}

impl PartialEq for PlayerAction {
    fn eq(&self, other: &PlayerAction) -> (r: bool)
        ensures
            r == same_action(*self, *other),
    {
        match (self, other) {
            (PlayerAction::NoAction, PlayerAction::NoAction) => true,
            (PlayerAction::Attack, PlayerAction::Attack) => true,
            (PlayerAction::Block, PlayerAction::Block) => true,
            (PlayerAction::Dodge, PlayerAction::Dodge) => true,
            (PlayerAction::UseItem(a), PlayerAction::UseItem(b)) => *a == *b,
            (PlayerAction::CastSpell(a), PlayerAction::CastSpell(b)) => *a == *b,
            _ => false,
        }
    }
}

impl vstd::std_specs::cmp::PartialEqSpecImpl for PlayerAction {
    open spec fn obeys_eq_spec() -> bool {
        true
    }

    open spec fn eq_spec(&self, other: &PlayerAction) -> bool {
        same_action(*self, *other)
    }
}

impl PlayerAction {
    /// True for the idle action, the only state from which an attack may start.
    pub fn is_none(&self) -> (r: bool)
        ensures
            r == (*self == PlayerAction::NoAction),
    {
        match self {
            PlayerAction::NoAction => true,
            _ => false,
        }
    }
}

/// One simulated actor's physical state, as the remote store holds it.
/// `direction` is the yaw in milliradians.
#[derive(Debug, PartialEq, Eq)]
pub struct EntityComponent {
    pub entity_id: u64,
    pub position: StdbVector3,
    pub direction: i32,
    pub moving: bool,
    pub stance: PlayerStances,
    pub action: PlayerAction,
}

impl Clone for EntityComponent {
    fn clone(&self) -> (r: EntityComponent)
        ensures
            r == *self,
    {
        EntityComponent {
            entity_id: self.entity_id,
            position: self.position,
            direction: self.direction,
            moving: self.moving,
            stance: self.stance,
            action: self.action.clone(),
        }
    }
}

impl EntityComponent {
    /// A fresh record: at the origin, facing yaw zero, idle, out of combat.
    pub fn new(entity_id: u64) -> (r: EntityComponent)
        ensures
            r == (EntityComponent {
                entity_id,
                position: StdbVector3 { x: 0, y: 0, z: 0 },
                direction: 0,
                moving: false,
                stance: PlayerStances::NonCombat,
                action: PlayerAction::NoAction,
            }),
    {
        EntityComponent {
            entity_id,
            position: StdbVector3::zero(),
            direction: 0,
            moving: false,
            stance: PlayerStances::NonCombat,
            action: PlayerAction::NoAction,
        }
    }
}

/// Associates an owner identity with an entity.
#[derive(Clone, Copy, Debug, PartialEq, Eq)]
pub struct PlayerComponent {
    pub entity_id: u64,
    pub owner_id: Identity,
}

/// Liveness of one network session.
#[derive(Clone, Copy, Debug, PartialEq, Eq)]
pub struct Client {
    pub client_id: Identity,
    pub connected: bool,
}

/// A remote mutation request issued by the client.
#[derive(Debug, PartialEq, Eq)]
pub enum ReducerCall {
    UpdatePosition { position: StdbVector3, direction: i32, moving: bool },
    UpdateStance { stance: PlayerStances },
    UpdateAction { action: PlayerAction },
}

/// Whether `owner` is the local session's identity.
pub open spec fn owned_by(owner: Identity, local: Option<Identity>) -> bool {
    match local {
        Some(id) => id.bytes@ == owner.bytes@,
        None => false,
    }
}

} // verus!
