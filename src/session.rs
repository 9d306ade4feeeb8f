//! One client session: the registry and the world, advanced frame by frame.
use vstd::prelude::*;
use crate::animation::AnimClip;
use crate::bridge::UncbMessage;
use crate::model::ReducerCall;
use crate::movement::InputState;
use crate::registry::{any_arrives_remote, replay, NewPlayer, PlayerDataResource, RegistryState};
use crate::world::{
    clips_all, interpolate_all, route_all, spawn_all, steer_all, steer_calls_all, Actor, Motion, World,
};

verus! {

/// What a frame asks of the engine and of the store.
pub struct FrameOutput {
    /// A player owned by another session arrived in this frame's batch.
    pub new_player: NewPlayer,
    /// Entities materialised this frame, in order.
    pub spawned: Vec<u64>,
    /// Clips to start, as (entity, clip).
    pub started: Vec<(u64, AnimClip)>,
    /// Mutations to send upstream, fire and forget.
    pub calls: Vec<ReducerCall>,
    /// The connection is gone: the session must end.
    pub disconnected: bool,
}

/// Whether the batch reports the end of the connection.
pub open spec fn reports_disconnect(ms: Seq<UncbMessage>) -> bool {
    exists|k: int| 0 <= k < ms.len() && ms[k] is Disconnected
}

/// The session's registry and actors.
pub struct Session {
    pub registry: PlayerDataResource,
    pub world: World,
}

impl Session {
    pub open spec fn wf(&self) -> bool {
        self.registry.wf() && self.world.wf()
    }

    /// A session before the handshake: nothing known, nothing spawned.
    pub fn new() -> (r: Session)
        ensures
            r.wf(),
            r.registry@ == (RegistryState { local: None, players: Seq::empty(), entities: Seq::empty() }),
            r.world@ == Seq::<Actor>::empty(),
    {
        Session { registry: PlayerDataResource::new(), world: World::new() }
    }

    /// One simulation frame. In order: the drained notifications update the
    /// registry; every known player whose entity has arrived and that has no
    /// actor is materialised; entity snapshots reach their actors; the
    /// controlled actor is steered by `input` and `motion`; observed actors
    /// advance their interpolation by `dt` microseconds.
    pub fn frame(&mut self, messages: &Vec<UncbMessage>, dt: u32, input: &InputState, motion: &Motion) -> (out:
        FrameOutput)
        requires
            old(self).wf(),
        ensures
            final(self).wf(),
            final(self).registry@ == replay(old(self).registry@, messages@),
            out.new_player.0 == any_arrives_remote(old(self).registry@, messages@),
            out.disconnected == reports_disconnect(messages@),
            ({
                let reg = final(self).registry@;
                let spawned = spawn_all(old(self).world@, reg.players, reg);
                let routed = route_all(spawned, messages@);
                let steered = steer_all(routed, *input, *motion);
                &&& spawned.len() == old(self).world@.len() + out.spawned@.len()
                &&& forall|k: int|
                    0 <= k < out.spawned@.len() ==> out.spawned@[k] == #[trigger] spawned[old(self).world@.len()
                        + k].player.entity_id
                &&& out.started@ == clips_all(spawned, messages@)
                &&& out.calls@ == steer_calls_all(routed, *input, *motion)
                &&& final(self).world@ == interpolate_all(steered, dt as int)
            }),
    {
        let new_player = self.registry.apply_all(messages);
        let spawned = self.world.spawn_players(&self.registry);
        let ghost after_spawn = self.world@;
        let started = self.world.apply_entity_updates(messages);
        let ghost routed = self.world@;
        let calls = self.world.steer_controlled(input, motion);
        let ghost steered = self.world@;
        proof {
            assert(steered =~= steer_all(routed, *input, *motion));
        }
        self.world.interpolate_positions(dt);
        proof {
            assert(self.world@ =~= interpolate_all(steered, dt as int));
        }
        let mut disconnected = false;
        let mut i: usize = 0;
        while i < messages.len()
            invariant
                i <= messages@.len(),
                disconnected == exists|k: int| 0 <= k < i && messages@[k] is Disconnected,
            decreases messages@.len() - i,
        {
            match &messages[i] {
                UncbMessage::Disconnected => {
                    disconnected = true;
                },
                _ => {},
            }
            i = i + 1;
        }
        FrameOutput { new_player, spawned, started, calls, disconnected }
    }
}

} // verus!
