//! The local mirror of the replicated player and entity tables.
//!
//! The registry is rebuilt incrementally from notifications: an insert of a
//! known entity is ignored, an update replaces the row with the same
//! `entity_id` (or adds it), a removal drops it. Rows keep the order in which
//! they first arrived.
use vstd::prelude::*;
use crate::bridge::UncbMessage;
use crate::model::{owned_by, EntityComponent, Identity, PlayerComponent};

verus! {

pub open spec fn has_player(s: Seq<PlayerComponent>, id: u64) -> bool {
    exists|i: int| 0 <= i < s.len() && s[i].entity_id == id
}

pub open spec fn player_slot(s: Seq<PlayerComponent>, id: u64) -> int {
    choose|i: int| 0 <= i < s.len() && s[i].entity_id == id
}

pub open spec fn players_unique(s: Seq<PlayerComponent>) -> bool {
    forall|i: int, j: int| 0 <= i < j < s.len() ==> s[i].entity_id != s[j].entity_id
}

pub open spec fn has_entity(s: Seq<EntityComponent>, id: u64) -> bool {
    exists|i: int| 0 <= i < s.len() && s[i].entity_id == id
}

pub open spec fn entity_slot(s: Seq<EntityComponent>, id: u64) -> int {
    choose|i: int| 0 <= i < s.len() && s[i].entity_id == id
}

pub open spec fn entities_unique(s: Seq<EntityComponent>) -> bool {
    forall|i: int, j: int| 0 <= i < j < s.len() ==> s[i].entity_id != s[j].entity_id
}

/// Insert unless a row with the same key is present.
pub open spec fn insert_player(s: Seq<PlayerComponent>, p: PlayerComponent) -> Seq<PlayerComponent> {
    if has_player(s, p.entity_id) { s } else { s.push(p) }
}

/// Replace the row with the same key, or add it.
pub open spec fn upsert_player(s: Seq<PlayerComponent>, p: PlayerComponent) -> Seq<PlayerComponent> {
    if has_player(s, p.entity_id) { s.update(player_slot(s, p.entity_id), p) } else { s.push(p) }
}

pub open spec fn remove_player(s: Seq<PlayerComponent>, id: u64) -> Seq<PlayerComponent> {
    if has_player(s, id) { s.remove(player_slot(s, id)) } else { s }
}

pub open spec fn insert_entity(s: Seq<EntityComponent>, e: EntityComponent) -> Seq<EntityComponent> {
    if has_entity(s, e.entity_id) { s } else { s.push(e) }
}

pub open spec fn upsert_entity(s: Seq<EntityComponent>, e: EntityComponent) -> Seq<EntityComponent> {
    if has_entity(s, e.entity_id) { s.update(entity_slot(s, e.entity_id), e) } else { s.push(e) }
}

pub open spec fn remove_entity(s: Seq<EntityComponent>, id: u64) -> Seq<EntityComponent> {
    if has_entity(s, id) { s.remove(entity_slot(s, id)) } else { s }
}

/// What the registry knows: the session's identity once the handshake is
/// done, and the mirrored rows.
pub ghost struct RegistryState {
    pub local: Option<Identity>,
    pub players: Seq<PlayerComponent>,
    pub entities: Seq<EntityComponent>,
}

/// The effect of one notification on the registry.
pub open spec fn apply_spec(st: RegistryState, m: UncbMessage) -> RegistryState {
    match m {
        UncbMessage::Connected { identity } => RegistryState {
            local: if st.local is None { Some(identity) } else { st.local },
            ..st
        },
        UncbMessage::Disconnected => st,
        UncbMessage::PlayerInserted { data } => RegistryState { players: insert_player(st.players, data), ..st },
        UncbMessage::PlayerUpdated { old, new } => RegistryState { players: upsert_player(st.players, new), ..st },
        UncbMessage::PlayerRemoved { data } => RegistryState {
            players: remove_player(st.players, data.entity_id),
            ..st
        },
        UncbMessage::EntityInserted { data } => RegistryState { entities: insert_entity(st.entities, data), ..st },
        UncbMessage::EntityUpdated { old, new } => RegistryState { entities: upsert_entity(st.entities, new), ..st },
        UncbMessage::EntityRemoved { data } => RegistryState {
            entities: remove_entity(st.entities, data.entity_id),
            ..st
        },
    }
}

/// The registry after the notifications `ms`, applied in delivered order.
pub open spec fn replay(st: RegistryState, ms: Seq<UncbMessage>) -> RegistryState
    decreases ms.len(),
{
    if ms.len() == 0 {
        st
    } else {
        apply_spec(replay(st, ms.drop_last()), ms.last())
    }
}

/// Whether `m` makes a player that belongs to somebody else known for the
/// first time.
pub open spec fn arrives_remote(st: RegistryState, m: UncbMessage) -> bool {
    match m {
        UncbMessage::PlayerInserted { data } => !has_player(st.players, data.entity_id) && !owned_by(
            data.owner_id,
            st.local,
        ),
        _ => false,
    }
}

/// Whether any notification of `ms` makes a remote player known for the first time.
pub open spec fn any_arrives_remote(st: RegistryState, ms: Seq<UncbMessage>) -> bool
    decreases ms.len(),
{
    if ms.len() == 0 {
        false
    } else {
        any_arrives_remote(st, ms.drop_last()) || arrives_remote(replay(st, ms.drop_last()), ms.last())
    }
}

/// The one-shot signal of a batch: a player owned by another session arrived.
#[derive(Clone, Copy, Debug, PartialEq, Eq, Structural)]
pub struct NewPlayer(pub bool);

/// The registry of known players and entities.
pub struct PlayerDataResource {
    pub local: Option<Identity>,
    pub player_vec: Vec<PlayerComponent>,
    pub entity_vec: Vec<EntityComponent>,
}

impl View for PlayerDataResource {
    type V = RegistryState;

    open spec fn view(&self) -> RegistryState {
        RegistryState { local: self.local, players: self.player_vec@, entities: self.entity_vec@ }
    }
}


/// Replaying notifications in two consecutive batches gives the same registry
/// as replaying them all at once, whatever the split: the result depends only on
/// the delivered order.
pub proof fn lemma_replay_batching(st: RegistryState, first: Seq<UncbMessage>, second: Seq<UncbMessage>)
    ensures
        replay(replay(st, first), second) == replay(st, first + second),
    decreases second.len(),
{
    if second.len() == 0 {
        assert(first + second =~= first);
    } else {
        lemma_replay_batching(st, first, second.drop_last());
        assert((first + second).drop_last() =~= first + second.drop_last());
        assert((first + second).last() == second.last());
    }
}

/// Inserting a player or an entity whose key is already known changes nothing,
/// and does not signal a new arrival.
pub proof fn lemma_reinsert_is_noop(st: RegistryState, p: PlayerComponent, e: EntityComponent)
    requires
        has_player(st.players, p.entity_id),
        has_entity(st.entities, e.entity_id),
    ensures
        apply_spec(st, UncbMessage::PlayerInserted { data: p }) == st,
        apply_spec(st, UncbMessage::EntityInserted { data: e }) == st,
        !arrives_remote(st, UncbMessage::PlayerInserted { data: p }),
{
}

/// Once a player has been inserted, inserting it again is a no-op that does
/// not signal a second arrival.
pub proof fn lemma_arrival_fires_once(st: RegistryState, p: PlayerComponent)
    ensures
        ({
            let once = apply_spec(st, UncbMessage::PlayerInserted { data: p });
            &&& apply_spec(once, UncbMessage::PlayerInserted { data: p }) == once
            &&& !arrives_remote(once, UncbMessage::PlayerInserted { data: p })
        }),
{
    let once = apply_spec(st, UncbMessage::PlayerInserted { data: p });
    if !has_player(st.players, p.entity_id) {
        assert(once.players[st.players.len() as int] == p);
        assert(has_player(once.players, p.entity_id));
    }
}

/// Of two updates to the same entity, the later one is what the registry holds.
pub proof fn lemma_last_write_wins(
    st: RegistryState,
    first: PlayerComponent,
    second: PlayerComponent,
    first_e: EntityComponent,
    second_e: EntityComponent,
)
    requires
        players_unique(st.players),
        entities_unique(st.entities),
        first.entity_id == second.entity_id,
        first_e.entity_id == second_e.entity_id,
    ensures
        ({
            let r = apply_spec(
                apply_spec(st, UncbMessage::PlayerUpdated { old: first, new: first }),
                UncbMessage::PlayerUpdated { old: first, new: second },
            );
            has_player(r.players, second.entity_id) && r.players[player_slot(r.players, second.entity_id)] == second
        }),
        ({
            let r = apply_spec(
                apply_spec(st, UncbMessage::EntityUpdated { old: first_e, new: first_e }),
                UncbMessage::EntityUpdated { old: first_e, new: second_e },
            );
            has_entity(r.entities, second_e.entity_id) && r.entities[entity_slot(r.entities, second_e.entity_id)]
                == second_e
        }),
{
    let m1 = UncbMessage::PlayerUpdated { old: first, new: first };
    let m2 = UncbMessage::PlayerUpdated { old: first, new: second };
    let s1 = apply_spec(st, m1);
    lemma_apply_unique(st, m1);
    lemma_apply_unique(s1, m2);
    let k = if has_player(st.players, first.entity_id) {
        player_slot(st.players, first.entity_id)
    } else {
        st.players.len() as int
    };
    assert(s1.players[k].entity_id == first.entity_id);
    let k2 = player_slot(s1.players, second.entity_id);
    let r = apply_spec(s1, m2);
    assert(r.players[k2] == second);
    lemma_player_slot(r.players, k2);

    let n1 = UncbMessage::EntityUpdated { old: first_e, new: first_e };
    let n2 = UncbMessage::EntityUpdated { old: first_e, new: second_e };
    let t1 = apply_spec(st, n1);
    lemma_apply_unique(st, n1);
    lemma_apply_unique(t1, n2);
    let j = if has_entity(st.entities, first_e.entity_id) {
        entity_slot(st.entities, first_e.entity_id)
    } else {
        st.entities.len() as int
    };
    assert(t1.entities[j].entity_id == first_e.entity_id);
    let j2 = entity_slot(t1.entities, second_e.entity_id);
    let q = apply_spec(t1, n2);
    assert(q.entities[j2] == second_e);
    lemma_entity_slot(q.entities, j2);
}

proof fn lemma_player_slot(s: Seq<PlayerComponent>, i: int)
    requires
        players_unique(s),
        0 <= i < s.len(),
    ensures
        has_player(s, s[i].entity_id),
        player_slot(s, s[i].entity_id) == i,
{
    let id = s[i].entity_id;
    assert(has_player(s, id));
    let j = player_slot(s, id);
    assert(s[j].entity_id == id);
    if j < i {
        assert(s[j].entity_id != s[i].entity_id);
    } else if i < j {
        assert(s[i].entity_id != s[j].entity_id);
    }
}

proof fn lemma_entity_slot(s: Seq<EntityComponent>, i: int)
    requires
        entities_unique(s),
        0 <= i < s.len(),
    ensures
        has_entity(s, s[i].entity_id),
        entity_slot(s, s[i].entity_id) == i,
{
    let id = s[i].entity_id;
    assert(has_entity(s, id));
    let j = entity_slot(s, id);
    assert(s[j].entity_id == id);
    if j < i {
        assert(s[j].entity_id != s[i].entity_id);
    } else if i < j {
        assert(s[i].entity_id != s[j].entity_id);
    }
}

/// Keys stay unique under every notification.
proof fn lemma_apply_unique(st: RegistryState, m: UncbMessage)
    requires
        players_unique(st.players),
        entities_unique(st.entities),
    ensures
        players_unique(apply_spec(st, m).players),
        entities_unique(apply_spec(st, m).entities),
{
    let r = apply_spec(st, m);
    match m {
        UncbMessage::PlayerInserted { data } => {
            assert forall|i: int, j: int| 0 <= i < j < r.players.len() implies r.players[i].entity_id
                != r.players[j].entity_id by {
                if !has_player(st.players, data.entity_id) && j == st.players.len() {
                    assert(st.players[i].entity_id != data.entity_id);
                }
            }
        },
        UncbMessage::PlayerUpdated { old, new } => {
            if has_player(st.players, new.entity_id) {
                let k = player_slot(st.players, new.entity_id);
                assert forall|i: int, j: int| 0 <= i < j < r.players.len() implies r.players[i].entity_id
                    != r.players[j].entity_id by {
                    assert(st.players[k].entity_id == new.entity_id);
                }
            } else {
                assert forall|i: int, j: int| 0 <= i < j < r.players.len() implies r.players[i].entity_id
                    != r.players[j].entity_id by {
                    if j == st.players.len() {
                        assert(st.players[i].entity_id != new.entity_id);
                    }
                }
            }
        },
        UncbMessage::PlayerRemoved { data } => {
            if has_player(st.players, data.entity_id) {
                let k = player_slot(st.players, data.entity_id);
                assert forall|i: int, j: int| 0 <= i < j < r.players.len() implies r.players[i].entity_id
                    != r.players[j].entity_id by {
                    let a = if i < k { i } else { i + 1 };
                    let b = if j < k { j } else { j + 1 };
                    assert(r.players[i] == st.players[a]);
                    assert(r.players[j] == st.players[b]);
                }
            }
        },
        UncbMessage::EntityInserted { data } => {
            assert forall|i: int, j: int| 0 <= i < j < r.entities.len() implies r.entities[i].entity_id
                != r.entities[j].entity_id by {
                if !has_entity(st.entities, data.entity_id) && j == st.entities.len() {
                    assert(st.entities[i].entity_id != data.entity_id);
                }
            }
        },
        UncbMessage::EntityUpdated { old, new } => {
            if has_entity(st.entities, new.entity_id) {
                let k = entity_slot(st.entities, new.entity_id);
                assert forall|i: int, j: int| 0 <= i < j < r.entities.len() implies r.entities[i].entity_id
                    != r.entities[j].entity_id by {
                    assert(st.entities[k].entity_id == new.entity_id);
                }
            } else {
                assert forall|i: int, j: int| 0 <= i < j < r.entities.len() implies r.entities[i].entity_id
                    != r.entities[j].entity_id by {
                    if j == st.entities.len() {
                        assert(st.entities[i].entity_id != new.entity_id);
                    }
                }
            }
        },
        UncbMessage::EntityRemoved { data } => {
            if has_entity(st.entities, data.entity_id) {
                let k = entity_slot(st.entities, data.entity_id);
                assert forall|i: int, j: int| 0 <= i < j < r.entities.len() implies r.entities[i].entity_id
                    != r.entities[j].entity_id by {
                    let a = if i < k { i } else { i + 1 };
                    let b = if j < k { j } else { j + 1 };
                    assert(r.entities[i] == st.entities[a]);
                    assert(r.entities[j] == st.entities[b]);
                }
            }
        },
        _ => {},
    }
}

impl PlayerDataResource {
    /// Keys are unique in both tables.
    pub open spec fn wf(&self) -> bool {
        players_unique(self.player_vec@) && entities_unique(self.entity_vec@)
    }

    /// An empty registry whose session identity is not known yet.
    pub fn new() -> (r: PlayerDataResource)
        ensures
            r.wf(),
            r@ == (RegistryState { local: None, players: Seq::empty(), entities: Seq::empty() }),
    {
        PlayerDataResource { local: None, player_vec: Vec::new(), entity_vec: Vec::new() }
    }

    /// Where the player row with key `id` is.
    pub fn find_player(&self, id: u64) -> (r: Option<usize>)
        requires
            self.wf(),
        ensures
            r is None <==> !has_player(self@.players, id),
            r matches Some(i) ==> i < self@.players.len() && self@.players[i as int].entity_id == id
                && player_slot(self@.players, id) == i,
    {
        let mut i: usize = 0;
        while i < self.player_vec.len()
            invariant
                self.wf(),
                i <= self.player_vec@.len(),
                forall|j: int| 0 <= j < i ==> self.player_vec@[j].entity_id != id,
            decreases self.player_vec@.len() - i,
        {
            if self.player_vec[i].entity_id == id {
                proof {
                    lemma_player_slot(self.player_vec@, i as int);
                }
                return Some(i);
            }
            i = i + 1;
        }
        None
    }

    /// Where the entity row with key `id` is.
    pub fn find_entity(&self, id: u64) -> (r: Option<usize>)
        requires
            self.wf(),
        ensures
            r is None <==> !has_entity(self@.entities, id),
            r matches Some(i) ==> i < self@.entities.len() && self@.entities[i as int].entity_id == id
                && entity_slot(self@.entities, id) == i,
    {
        let mut i: usize = 0;
        while i < self.entity_vec.len()
            invariant
                self.wf(),
                i <= self.entity_vec@.len(),
                forall|j: int| 0 <= j < i ==> self.entity_vec@[j].entity_id != id,
            decreases self.entity_vec@.len() - i,
        {
            if self.entity_vec[i].entity_id == id {
                proof {
                    lemma_entity_slot(self.entity_vec@, i as int);
                }
                return Some(i);
            }
            i = i + 1;
        }
        None
    }

    /// Applies one notification. Returns whether it made a player owned by
    /// another session known for the first time.
    pub fn apply(&mut self, m: &UncbMessage) -> (fresh_remote: bool)
        requires
            old(self).wf(),
        ensures
            final(self).wf(),
            final(self)@ == apply_spec(old(self)@, *m),
            fresh_remote == arrives_remote(old(self)@, *m),
    {
        proof {
            lemma_apply_unique(self@, *m);
        }
        match m {
            UncbMessage::Connected { identity } => {
                if self.local.is_none() {
                    self.local = Some(*identity);
                }
                false
            },
            UncbMessage::Disconnected => false,
            UncbMessage::PlayerInserted { data } => {
                match self.find_player(data.entity_id) {
                    Some(_) => false,
                    None => {
                        let remote = !is_owned_by(&data.owner_id, &self.local);
                        self.player_vec.push(*data);
                        remote
                    },
                }
            },
            UncbMessage::PlayerUpdated { old, new } => {
                match self.find_player(new.entity_id) {
                    Some(i) => self.player_vec.set(i, *new),
                    None => self.player_vec.push(*new),
                }
                false
            },
            UncbMessage::PlayerRemoved { data } => {
                match self.find_player(data.entity_id) {
                    Some(i) => {
                        self.player_vec.remove(i);
                    },
                    None => {},
                }
                false
            },
            UncbMessage::EntityInserted { data } => {
                match self.find_entity(data.entity_id) {
                    Some(_) => {},
                    None => self.entity_vec.push(data.clone()),
                }
                false
            },
            UncbMessage::EntityUpdated { old, new } => {
                match self.find_entity(new.entity_id) {
                    Some(i) => self.entity_vec.set(i, new.clone()),
                    None => self.entity_vec.push(new.clone()),
                }
                false
            },
            UncbMessage::EntityRemoved { data } => {
                match self.find_entity(data.entity_id) {
                    Some(i) => {
                        self.entity_vec.remove(i);
                    },
                    None => {},
                }
                false
            },
        }
    }

    /// Applies a frame's notifications in delivered order. The result is set
    /// when at least one of them made a player owned by another session known
    /// for the first time.
    pub fn apply_all(&mut self, ms: &Vec<UncbMessage>) -> (r: NewPlayer)
        requires
            old(self).wf(),
        ensures
            final(self).wf(),
            final(self)@ == replay(old(self)@, ms@),
            r.0 == any_arrives_remote(old(self)@, ms@),
    {
        let ghost start = self@;
        let mut fresh = false;
        let mut i: usize = 0;
        while i < ms.len()
            invariant
                i <= ms@.len(),
                self.wf(),
                self@ == replay(start, ms@.take(i as int)),
                fresh == any_arrives_remote(start, ms@.take(i as int)),
            decreases ms@.len() - i,
        {
            let f = self.apply(&ms[i]);
            fresh = fresh || f;
            i = i + 1;
            proof {
                assert(ms@.take(i as int).drop_last() =~= ms@.take(i - 1 as int));
            }
        }
        assert(ms@.take(ms@.len() as int) =~= ms@);
        NewPlayer(fresh)
    }

    /// Whether the player with key `entity_id` is known and owned by this session.
    pub fn is_local(&self, entity_id: u64) -> (r: bool)
        requires
            self.wf(),
        ensures
            r == (has_player(self@.players, entity_id) && owned_by(
                self@.players[player_slot(self@.players, entity_id)].owner_id,
                self@.local,
            )),
    {
        match self.find_player(entity_id) {
            Some(i) => is_owned_by(&self.player_vec[i].owner_id, &self.local),
            None => false,
        }
    }
}

/// Whether `owner` is the local session's identity; false while that is unknown.
pub fn is_owned_by(owner: &Identity, local: &Option<Identity>) -> (r: bool)
    ensures
        r == owned_by(*owner, *local),
{
    match local {
        Some(id) => *id == *owner,
        None => false,
    }
}

} // verus!
