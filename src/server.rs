//! The backend module's reducer rules, over its three tables.
//!
//! A reducer that fails leaves every table as it was.
use vstd::prelude::*;
use crate::model::{Client, EntityComponent, Identity, PlayerAction, PlayerComponent, PlayerStances, StdbVector3};

verus! {

pub open spec fn same_identity(a: Identity, b: Identity) -> bool {
    a.bytes@ == b.bytes@
}

pub open spec fn owns_player(ps: Seq<PlayerComponent>, owner: Identity) -> bool {
    exists|i: int| 0 <= i < ps.len() && same_identity(ps[i].owner_id, owner)
}

pub open spec fn owner_slot(ps: Seq<PlayerComponent>, owner: Identity) -> int {
    choose|i: int| 0 <= i < ps.len() && same_identity(ps[i].owner_id, owner)
}

pub open spec fn has_client(cs: Seq<Client>, id: Identity) -> bool {
    exists|i: int| 0 <= i < cs.len() && same_identity(cs[i].client_id, id)
}

pub open spec fn client_slot(cs: Seq<Client>, id: Identity) -> int {
    choose|i: int| 0 <= i < cs.len() && same_identity(cs[i].client_id, id)
}

pub open spec fn has_row(es: Seq<EntityComponent>, id: u64) -> bool {
    exists|i: int| 0 <= i < es.len() && es[i].entity_id == id
}

pub open spec fn row_slot(es: Seq<EntityComponent>, id: u64) -> int {
    choose|i: int| 0 <= i < es.len() && es[i].entity_id == id
}

/// The entity row of the player that `sender` owns, when both exist.
pub open spec fn owned_entity(players: Seq<PlayerComponent>, entities: Seq<EntityComponent>, sender: Identity) -> bool {
    owns_player(players, sender) && has_row(entities, players[owner_slot(players, sender)].entity_id)
}

pub open spec fn owned_slot(players: Seq<PlayerComponent>, entities: Seq<EntityComponent>, sender: Identity) -> int {
    row_slot(entities, players[owner_slot(players, sender)].entity_id)
}

/// The tables are as they were.
pub open spec fn unchanged(a: &ServerTables, b: &ServerTables) -> bool {
    a.clients@ == b.clients@ && a.entities@ == b.entities@ && a.players@ == b.players@ && a.next_entity_id
        == b.next_entity_id
}

/// The row a new player's entity starts with.
pub open spec fn fresh_entity(id: u64) -> EntityComponent {
    EntityComponent {
        entity_id: id,
        position: StdbVector3 { x: 0, y: 0, z: 0 },
        direction: 0,
        moving: false,
        stance: PlayerStances::NonCombat,
        action: PlayerAction::NoAction,
    }
}

/// The backend's tables: sessions, entities and players.
pub struct ServerTables {
    pub clients: Vec<Client>,
    pub entities: Vec<EntityComponent>,
    pub players: Vec<PlayerComponent>,
    /// The key the next inserted entity receives.
    pub next_entity_id: u64,
}

impl ServerTables {
    /// Keys are unique: sessions by identity, entities by key, players by key
    /// and by owner; every entity key was handed out already.
    pub open spec fn wf(&self) -> bool {
        &&& forall|i: int, j: int|
            0 <= i < j < self.clients@.len() ==> !same_identity(self.clients@[i].client_id, self.clients@[j].client_id)
        &&& forall|i: int, j: int|
            0 <= i < j < self.entities@.len() ==> self.entities@[i].entity_id != self.entities@[j].entity_id
        &&& forall|i: int, j: int|
            0 <= i < j < self.players@.len() ==> !same_identity(self.players@[i].owner_id, self.players@[j].owner_id)
        &&& forall|i: int| 0 <= i < self.entities@.len() ==> #[trigger] self.entities@[i].entity_id < self.next_entity_id
    }

    /// Empty tables; entity keys start at one.
    pub fn new() -> (r: ServerTables)
        ensures
            r.wf(),
            r.clients@.len() == 0 && r.entities@.len() == 0 && r.players@.len() == 0,
            r.next_entity_id == 1,
    {
        ServerTables { clients: Vec::new(), entities: Vec::new(), players: Vec::new(), next_entity_id: 1 }
    }

    fn find_owner(&self, owner: &Identity) -> (r: Option<usize>)
        requires
            self.wf(),
        ensures
            r is None <==> !owns_player(self.players@, *owner),
            r matches Some(i) ==> i == owner_slot(self.players@, *owner) && i < self.players@.len(),
    {
        let mut i: usize = 0;
        while i < self.players.len()
            invariant
                self.wf(),
                i <= self.players@.len(),
                forall|j: int| 0 <= j < i ==> !same_identity(self.players@[j].owner_id, *owner),
            decreases self.players@.len() - i,
        {
            if self.players[i].owner_id == *owner {
                proof {
                    let k = owner_slot(self.players@, *owner);
                    assert(same_identity(self.players@[k].owner_id, *owner));
                    if k < i {
                        assert(!same_identity(self.players@[k].owner_id, self.players@[i as int].owner_id));
                    } else if k > i {
                        assert(!same_identity(self.players@[i as int].owner_id, self.players@[k].owner_id));
                    }
                }
                return Some(i);
            }
            i = i + 1;
        }
        None
    }

    fn find_client(&self, id: &Identity) -> (r: Option<usize>)
        requires
            self.wf(),
        ensures
            r is None <==> !has_client(self.clients@, *id),
            r matches Some(i) ==> i == client_slot(self.clients@, *id) && i < self.clients@.len(),
    {
        let mut i: usize = 0;
        while i < self.clients.len()
            invariant
                self.wf(),
                i <= self.clients@.len(),
                forall|j: int| 0 <= j < i ==> !same_identity(self.clients@[j].client_id, *id),
            decreases self.clients@.len() - i,
        {
            if self.clients[i].client_id == *id {
                proof {
                    let k = client_slot(self.clients@, *id);
                    assert(same_identity(self.clients@[k].client_id, *id));
                    if k < i {
                        assert(!same_identity(self.clients@[k].client_id, self.clients@[i as int].client_id));
                    } else if k > i {
                        assert(!same_identity(self.clients@[i as int].client_id, self.clients@[k].client_id));
                    }
                }
                return Some(i);
            }
            i = i + 1;
        }
        None
    }

    fn find_row(&self, id: u64) -> (r: Option<usize>)
        requires
            self.wf(),
        ensures
            r is None <==> !has_row(self.entities@, id),
            r matches Some(i) ==> i == row_slot(self.entities@, id) && i < self.entities@.len(),
    {
        let mut i: usize = 0;
        while i < self.entities.len()
            invariant
                self.wf(),
                i <= self.entities@.len(),
                forall|j: int| 0 <= j < i ==> self.entities@[j].entity_id != id,
            decreases self.entities@.len() - i,
        {
            if self.entities[i].entity_id == id {
                proof {
                    let k = row_slot(self.entities@, id);
                    assert(self.entities@[k].entity_id == id);
                    if k < i {
                        assert(self.entities@[k].entity_id != self.entities@[i as int].entity_id);
                    } else if k > i {
                        assert(self.entities@[i as int].entity_id != self.entities@[k].entity_id);
                    }
                }
                return Some(i);
            }
            i = i + 1;
        }
        None
    }

    /// Creates the caller's player and its entity, unless the caller has a
    /// player already.
    pub fn create_player(&mut self, sender: &Identity) -> (r: Result<(), String>)
        requires
            old(self).wf(),
            old(self).next_entity_id < u64::MAX,
        ensures
            final(self).wf(),
            owns_player(old(self).players@, *sender) ==> unchanged(final(self), old(self)) && (r matches Err(e) && e@ == "Player already exists"@),
            !owns_player(old(self).players@, *sender) ==> r is Ok && final(self).clients@ == old(self).clients@
                && final(self).entities@ == old(self).entities@.push(fresh_entity(old(self).next_entity_id))
                && final(self).players@ == old(self).players@.push(
                PlayerComponent { entity_id: old(self).next_entity_id, owner_id: *sender },
            ) && final(self).next_entity_id == old(self).next_entity_id + 1,
    {
        if self.find_owner(sender).is_some() {
            return Err("Player already exists".to_owned());
        }
        let entity_id = self.next_entity_id;
        let ghost before = self.entities@;
        let ghost players_before = self.players@;
        self.entities.push(EntityComponent::new(entity_id));
        self.next_entity_id = entity_id + 1;
        self.players.push(PlayerComponent { entity_id, owner_id: *sender });
        proof {
            assert forall|i: int, j: int| 0 <= i < j < self.entities@.len() implies self.entities@[i].entity_id
                != self.entities@[j].entity_id by {
                if j == before.len() {
                    assert(before[i].entity_id < entity_id);
                }
            }
            assert forall|i: int| 0 <= i < self.entities@.len() implies #[trigger] self.entities@[i].entity_id
                < self.next_entity_id by {
                if i < before.len() {
                    assert(before[i].entity_id < entity_id);
                }
            }
            assert forall|i: int, j: int| 0 <= i < j < self.players@.len() implies !same_identity(
                self.players@[i].owner_id,
                self.players@[j].owner_id,
            ) by {
                if j == players_before.len() {
                    assert(!same_identity(players_before[i].owner_id, *sender));
                }
            }
        }
        Ok(())
    }

    /// Deletes the caller's player row; its entity row stays.
    pub fn remove_player(&mut self, sender: &Identity) -> (r: Result<(), String>)
        requires
            old(self).wf(),
        ensures
            final(self).wf(),
            !owns_player(final(self).players@, *sender),
            !owns_player(old(self).players@, *sender) ==> unchanged(final(self), old(self)) && (r matches Err(e) && e@ == "Player doesn't exist"@),
            owns_player(old(self).players@, *sender) ==> r is Ok && final(self).clients@ == old(self).clients@
                && final(self).entities@ == old(self).entities@ && final(self).players@ == old(self).players@.remove(
                owner_slot(old(self).players@, *sender),
            ) && final(self).next_entity_id == old(self).next_entity_id,
    {
        match self.find_owner(sender) {
            None => Err("Player doesn't exist".to_owned()),
            Some(k) => {
                let ghost before = self.players@;
                self.players.remove(k);
                proof {
                    assert forall|i: int, j: int| 0 <= i < j < self.players@.len() implies !same_identity(
                        self.players@[i].owner_id,
                        self.players@[j].owner_id,
                    ) by {
                        let a = if i < k { i } else { i + 1 };
                        let b = if j < k { j } else { j + 1 };
                        assert(self.players@[i] == before[a]);
                        assert(self.players@[j] == before[b]);
                    }
                    assert forall|i: int| 0 <= i < self.players@.len() implies !same_identity(
                        #[trigger] self.players@[i].owner_id,
                        *sender,
                    ) by {
                        let a = if i < k { i } else { i + 1 };
                        assert(self.players@[i] == before[a]);
                        assert(same_identity(before[k as int].owner_id, *sender));
                        if a < k {
                            assert(!same_identity(before[a].owner_id, before[k as int].owner_id));
                        } else {
                            assert(!same_identity(before[k as int].owner_id, before[a].owner_id));
                        }
                    }
                }
                Ok(())
            },
        }
    }

    /// Records whether the caller's session is connected; a session seen for
    /// the first time gets a row. When a known session disconnects, its flag
    /// is cleared and its player is deleted; a missing player is reported as
    /// an error, and the flag stays cleared.
    pub fn update_player_login_state(&mut self, sender: &Identity, connected: bool) -> (r: Result<(), String>)
        requires
            old(self).wf(),
        ensures
            final(self).wf(),
            final(self).entities@ == old(self).entities@,
            final(self).next_entity_id == old(self).next_entity_id,
            !has_client(old(self).clients@, *sender) ==> r is Ok && final(self).clients@ == old(self).clients@.push(
                Client { client_id: *sender, connected },
            ) && final(self).players@ == old(self).players@,
            has_client(old(self).clients@, *sender) ==> ({
                let k = client_slot(old(self).clients@, *sender);
                let owned = owns_player(old(self).players@, *sender);
                &&& final(self).clients@ == old(self).clients@.update(
                    k,
                    Client { client_id: old(self).clients@[k].client_id, connected },
                )
                &&& final(self).players@ == if !connected && owned {
                    old(self).players@.remove(owner_slot(old(self).players@, *sender))
                } else {
                    old(self).players@
                }
                &&& (!connected && !owned ==> (r matches Err(e) && e@ == "Player doesn't exist"@))
                &&& (connected || owned ==> r is Ok)
                &&& (!connected ==> !owns_player(final(self).players@, *sender))
            }),
    {
        match self.find_client(sender) {
            Some(k) => {
                let ghost before = self.clients@;
                let row = Client { client_id: self.clients[k].client_id, connected };
                self.clients.set(k, row);
                proof {
                    assert forall|i: int, j: int| 0 <= i < j < self.clients@.len() implies !same_identity(
                        self.clients@[i].client_id,
                        self.clients@[j].client_id,
                    ) by {
                        assert(!same_identity(before[i].client_id, before[j].client_id));
                    }
                }
                if connected {
                    Ok(())
                } else {
                    self.remove_player(sender)
                }
            },
            None => {
                let ghost before = self.clients@;
                self.clients.push(Client { client_id: *sender, connected });
                proof {
                    assert forall|i: int, j: int| 0 <= i < j < self.clients@.len() implies !same_identity(
                        self.clients@[i].client_id,
                        self.clients@[j].client_id,
                    ) by {
                        if j == before.len() {
                            assert(!same_identity(before[i].client_id, *sender));
                        }
                    }
                }
                Ok(())
            },
        }
    }

    /// A session connected.
    pub fn client_connected(&mut self, sender: &Identity) -> (r: Result<(), String>)
        requires
            old(self).wf(),
        ensures
            final(self).wf(),
            r is Ok,
            !has_client(old(self).clients@, *sender) ==> final(self).clients@ == old(self).clients@.push(
                Client { client_id: *sender, connected: true },
            ),
            has_client(old(self).clients@, *sender) ==> ({
                let k = client_slot(old(self).clients@, *sender);
                final(self).clients@ == old(self).clients@.update(
                    k,
                    Client { client_id: old(self).clients@[k].client_id, connected: true },
                )
            }),
            final(self).entities@ == old(self).entities@,
            final(self).players@ == old(self).players@,
            final(self).next_entity_id == old(self).next_entity_id,
    {
        self.update_player_login_state(sender, true)
    }

    /// A session disconnected: its flag is cleared and its player deleted; a
    /// known session without a player is reported, with the flag still cleared.
    pub fn client_disconnected(&mut self, sender: &Identity) -> (r: Result<(), String>)
        requires
            old(self).wf(),
        ensures
            final(self).wf(),
            final(self).entities@ == old(self).entities@,
            final(self).next_entity_id == old(self).next_entity_id,
            !has_client(old(self).clients@, *sender) ==> r is Ok && final(self).clients@ == old(self).clients@.push(
                Client { client_id: *sender, connected: false },
            ) && final(self).players@ == old(self).players@,
            has_client(old(self).clients@, *sender) ==> ({
                let k = client_slot(old(self).clients@, *sender);
                &&& final(self).clients@ == old(self).clients@.update(
                    k,
                    Client { client_id: old(self).clients@[k].client_id, connected: false },
                )
                &&& owns_player(old(self).players@, *sender) ==> r is Ok && final(self).players@
                    == old(self).players@.remove(owner_slot(old(self).players@, *sender))
                &&& !owns_player(old(self).players@, *sender) ==> final(self).players@ == old(self).players@
                    && (r matches Err(e) && e@ == "Player doesn't exist"@)
                &&& !owns_player(final(self).players@, *sender)
            }),
    {
        self.update_player_login_state(sender, false)
    }

    /// Moves the caller's entity; also called when it stops moving.
    pub fn update_player_position(&mut self, sender: &Identity, position: StdbVector3, direction: i32, moving: bool) -> (r: Result<(), String>)
        requires
            old(self).wf(),
        ensures
            final(self).wf(),
            !owned_entity(old(self).players@, old(self).entities@, *sender) ==> unchanged(final(self), old(self)) && (r matches Err(e) && e@ == "Player not found"@),
            owned_entity(old(self).players@, old(self).entities@, *sender) ==> r is Ok && ({
                let k = owned_slot(old(self).players@, old(self).entities@, *sender);
                &&& final(self).entities@ == old(self).entities@.update(
                    k,
                    EntityComponent { position, direction, moving, ..old(self).entities@[k] },
                )
                &&& final(self).clients@ == old(self).clients@
                &&& final(self).players@ == old(self).players@
                &&& final(self).next_entity_id == old(self).next_entity_id
            }),
    {
        if let Some(p) = self.find_owner(sender) {
            if let Some(k) = self.find_row(self.players[p].entity_id) {
                let ghost before = self.entities@;
                let mut row = self.entities[k].clone();
                row.position = position;
                row.direction = direction;
                row.moving = moving;
                self.entities.set(k, row);
                proof {
                    assert forall|i: int, j: int| 0 <= i < j < self.entities@.len() implies self.entities@[i].entity_id
                        != self.entities@[j].entity_id by {
                        assert(before[i].entity_id != before[j].entity_id);
                    }
                    assert forall|i: int| 0 <= i < self.entities@.len() implies #[trigger] self.entities@[i].entity_id
                        < self.next_entity_id by {
                        assert(before[i].entity_id < self.next_entity_id);
                    }
                }
                return Ok(());
            }
        }
        Err("Player not found".to_owned())
    }

    /// Sets what the caller's entity is doing.
    pub fn update_player_action(&mut self, sender: &Identity, action: PlayerAction) -> (r: Result<(), String>)
        requires
            old(self).wf(),
        ensures
            final(self).wf(),
            !owned_entity(old(self).players@, old(self).entities@, *sender) ==> unchanged(final(self), old(self)) && (r matches Err(e) && e@ == "Player not found"@),
            owned_entity(old(self).players@, old(self).entities@, *sender) ==> r is Ok && ({
                let k = owned_slot(old(self).players@, old(self).entities@, *sender);
                &&& final(self).entities@ == old(self).entities@.update(
                    k,
                    EntityComponent { action, ..old(self).entities@[k] },
                )
                &&& final(self).clients@ == old(self).clients@
                &&& final(self).players@ == old(self).players@
                &&& final(self).next_entity_id == old(self).next_entity_id
            }),
    {
        if let Some(p) = self.find_owner(sender) {
            if let Some(k) = self.find_row(self.players[p].entity_id) {
                let ghost before = self.entities@;
                let mut row = self.entities[k].clone();
                row.action = action;
                self.entities.set(k, row);
                proof {
                    assert forall|i: int, j: int| 0 <= i < j < self.entities@.len() implies self.entities@[i].entity_id
                        != self.entities@[j].entity_id by {
                        assert(before[i].entity_id != before[j].entity_id);
                    }
                    assert forall|i: int| 0 <= i < self.entities@.len() implies #[trigger] self.entities@[i].entity_id
                        < self.next_entity_id by {
                        assert(before[i].entity_id < self.next_entity_id);
                    }
                }
                return Ok(());
            }
        }
        Err("Player not found".to_owned())
    }

    /// Sets the caller's entity's stance.
    pub fn update_player_stance(&mut self, sender: &Identity, stance: PlayerStances) -> (r: Result<(), String>)
        requires
            old(self).wf(),
        ensures
            final(self).wf(),
            !owned_entity(old(self).players@, old(self).entities@, *sender) ==> unchanged(final(self), old(self)) && (r matches Err(e) && e@ == "Player not found"@),
            owned_entity(old(self).players@, old(self).entities@, *sender) ==> r is Ok && ({
                let k = owned_slot(old(self).players@, old(self).entities@, *sender);
                &&& final(self).entities@ == old(self).entities@.update(
                    k,
                    EntityComponent { stance, ..old(self).entities@[k] },
                )
                &&& final(self).clients@ == old(self).clients@
                &&& final(self).players@ == old(self).players@
                &&& final(self).next_entity_id == old(self).next_entity_id
            }),
    {
        if let Some(p) = self.find_owner(sender) {
            if let Some(k) = self.find_row(self.players[p].entity_id) {
                let ghost before = self.entities@;
                let mut row = self.entities[k].clone();
                row.stance = stance;
                self.entities.set(k, row);
                proof {
                    assert forall|i: int, j: int| 0 <= i < j < self.entities@.len() implies self.entities@[i].entity_id
                        != self.entities@[j].entity_id by {
                        assert(before[i].entity_id != before[j].entity_id);
                    }
                    assert forall|i: int| 0 <= i < self.entities@.len() implies #[trigger] self.entities@[i].entity_id
                        < self.next_entity_id by {
                        assert(before[i].entity_id < self.next_entity_id);
                    }
                }
                return Ok(());
            }
        }
        Err("Player not found".to_owned())
    }
}

} // verus!
