//! The simulated actors: one per known player whose entity has arrived.
//!
//! Membership in the world is the single source of truth for whether an
//! entity has been materialised.
use vstd::prelude::*;
use crate::bridge::UncbMessage;
use crate::animation::{clip_for, clip_to_start, play_animation, select_clip, AnimClip};
use crate::model::{owned_by, EntityComponent, Identity, PlayerAction, PlayerComponent, ReducerCall, StdbVector3};
use crate::movement::{
    action_after, add_coordinate, advanced, advanced_all, handle_attack, lemma_frames_reach_target, total, PROGRESS_FULL, handle_stance_change, saturating,
    stance_after, InputState, InterpolatedTransform,
};
use crate::registry::{entity_slot, has_entity, is_owned_by, PlayerDataResource, RegistryState};

verus! {

/// One materialised actor.
pub struct Actor {
    /// The player row it was built for.
    pub player: PlayerComponent,
    /// The latest entity state it follows.
    pub entity: EntityComponent,
    /// Steered by local input (true) or by remote snapshots (false).
    pub controlled: bool,
    /// Where it is rendered.
    pub translation: StdbVector3,
    /// Its interpolation window; used only when observed.
    pub interpolation: InterpolatedTransform,
    /// The clip it plays, if any.
    pub clip: Option<AnimClip>,
}

impl Clone for Actor {
    fn clone(&self) -> (r: Actor)
        ensures
            r == *self,
    {
        Actor {
            player: self.player,
            entity: self.entity.clone(),
            controlled: self.controlled,
            translation: self.translation,
            interpolation: self.interpolation,
            clip: self.clip,
        }
    }
}

/// A new actor standing still at its entity's position.
pub open spec fn actor_spec(player: PlayerComponent, entity: EntityComponent, controlled: bool) -> Actor {
    Actor {
        player,
        entity,
        controlled,
        translation: entity.position,
        interpolation: InterpolatedTransform {
            start: entity.position,
            target_position: entity.position,
            progress: crate::movement::PROGRESS_FULL,
        },
        clip: None,
    }
}

/// Builds the actor for a player: controlled when it is the local session's
/// own player, observed otherwise.
pub fn setup_player(player: &PlayerComponent, entity: &EntityComponent, is_main_player: bool) -> (r: Actor)
    ensures
        r == actor_spec(*player, *entity, is_main_player),
{
    Actor {
        player: *player,
        entity: entity.clone(),
        controlled: is_main_player,
        translation: entity.position,
        interpolation: InterpolatedTransform::at_rest(entity.position),
        clip: None,
    }
}

pub open spec fn has_actor(s: Seq<Actor>, id: u64) -> bool {
    exists|i: int| 0 <= i < s.len() && s[i].player.entity_id == id
}

pub open spec fn actor_slot(s: Seq<Actor>, id: u64) -> int {
    choose|i: int| 0 <= i < s.len() && s[i].player.entity_id == id
}

pub open spec fn actors_unique(s: Seq<Actor>) -> bool {
    forall|i: int, j: int| 0 <= i < j < s.len() ==> s[i].player.entity_id != s[j].player.entity_id
}

/// Each actor follows its own entity and has a well-formed window.
pub open spec fn actors_consistent(s: Seq<Actor>) -> bool {
    forall|i: int|
        0 <= i < s.len() ==> #[trigger] s[i].entity.entity_id == s[i].player.entity_id && s[i].interpolation.wf()
}

/// Materialises `p` if the local identity is known, `p` has no actor yet and
/// its entity has arrived; otherwise nothing happens. A missing entity or an
/// unfinished handshake defers the spawn, so that no player is built before it
/// can be told whether it is the local one.
pub open spec fn spawn_one(actors: Seq<Actor>, p: PlayerComponent, st: RegistryState) -> Seq<Actor> {
    if st.local is Some && !has_actor(actors, p.entity_id) && has_entity(st.entities, p.entity_id) {
        actors.push(
            actor_spec(p, st.entities[entity_slot(st.entities, p.entity_id)], owned_by(p.owner_id, st.local)),
        )
    } else {
        actors
    }
}

/// `spawn_one` for each player of `players`, in order.
pub open spec fn spawn_all(actors: Seq<Actor>, players: Seq<PlayerComponent>, st: RegistryState) -> Seq<Actor>
    decreases players.len(),
{
    if players.len() == 0 {
        actors
    } else {
        spawn_one(spawn_all(actors, players.drop_last(), st), players.last(), st)
    }
}

proof fn lemma_actor_slot(s: Seq<Actor>, i: int)
    requires
        actors_unique(s),
        0 <= i < s.len(),
    ensures
        has_actor(s, s[i].player.entity_id),
        actor_slot(s, s[i].player.entity_id) == i,
{
    let id = s[i].player.entity_id;
    assert(has_actor(s, id));
    let j = actor_slot(s, id);
    assert(s[j].player.entity_id == id);
    if j < i {
        assert(s[j].player.entity_id != s[i].player.entity_id);
    } else if i < j {
        assert(s[i].player.entity_id != s[j].player.entity_id);
    }
}

proof fn lemma_spawn_one(actors: Seq<Actor>, p: PlayerComponent, st: RegistryState, id: u64)
    requires
        actors_unique(actors),
    ensures
        actors_unique(spawn_one(actors, p, st)),
        has_actor(actors, id) ==> has_actor(spawn_one(actors, p, st), id),
        st.local is Some && has_entity(st.entities, p.entity_id) ==> has_actor(spawn_one(actors, p, st), p.entity_id),
{
    let r = spawn_one(actors, p, st);
    if st.local is Some && !has_actor(actors, p.entity_id) && has_entity(st.entities, p.entity_id) {
        assert forall|i: int, j: int| 0 <= i < j < r.len() implies r[i].player.entity_id
            != r[j].player.entity_id by {
            if j == actors.len() {
                assert(actors[i].player.entity_id != p.entity_id);
            }
        }
        if has_actor(actors, id) {
            let k = actor_slot(actors, id);
            assert(r[k] == actors[k]);
        }
        assert(r[actors.len() as int].player.entity_id == p.entity_id);
    }
}

proof fn lemma_spawn_all_covers(actors: Seq<Actor>, players: Seq<PlayerComponent>, st: RegistryState)
    requires
        actors_unique(actors),
    ensures
        actors_unique(spawn_all(actors, players, st)),
        forall|id: u64| has_actor(actors, id) ==> has_actor(spawn_all(actors, players, st), id),
        st.local is Some ==> forall|k: int|
            0 <= k < players.len() && has_entity(st.entities, #[trigger] players[k].entity_id) ==> has_actor(
                spawn_all(actors, players, st),
                players[k].entity_id,
            ),
    decreases players.len(),
{
    if players.len() > 0 {
        let prev = spawn_all(actors, players.drop_last(), st);
        lemma_spawn_all_covers(actors, players.drop_last(), st);
        let p = players.last();
        assert forall|id: u64| has_actor(prev, id) implies has_actor(spawn_one(prev, p, st), id) by {
            lemma_spawn_one(prev, p, st, id);
        }
        lemma_spawn_one(prev, p, st, p.entity_id);
        assert forall|k: int|
            st.local is Some && 0 <= k < players.len() && has_entity(st.entities, #[trigger] players[k].entity_id)
                implies has_actor(spawn_all(actors, players, st), players[k].entity_id) by {
            if k < players.len() - 1 {
                assert(players.drop_last()[k] == players[k]);
                assert(has_actor(prev, players[k].entity_id));
            }
        }
    }
}

proof fn lemma_spawn_all_fixpoint(actors: Seq<Actor>, players: Seq<PlayerComponent>, st: RegistryState)
    requires
        st.local is Some ==> forall|k: int|
            0 <= k < players.len() && has_entity(st.entities, #[trigger] players[k].entity_id) ==> has_actor(
                actors,
                players[k].entity_id,
            ),
    ensures
        spawn_all(actors, players, st) == actors,
    decreases players.len(),
{
    if players.len() > 0 {
        assert forall|k: int|
            st.local is Some && 0 <= k < players.drop_last().len() && has_entity(
                st.entities,
                #[trigger] players.drop_last()[k].entity_id,
            ) implies has_actor(actors, players.drop_last()[k].entity_id) by {
            assert(players.drop_last()[k] == players[k]);
        }
        lemma_spawn_all_fixpoint(actors, players.drop_last(), st);
        assert(players.last() == players[players.len() - 1]);
    }
}

/// Spawning never materialises an entity twice: keys stay unique, and
/// spawning again for the same registry, on a later frame, adds nothing.
pub proof fn lemma_spawn_exactly_once(actors: Seq<Actor>, st: RegistryState)
    requires
        actors_unique(actors),
    ensures
        actors_unique(spawn_all(actors, st.players, st)),
        spawn_all(spawn_all(actors, st.players, st), st.players, st) == spawn_all(actors, st.players, st),
{
    lemma_spawn_all_covers(actors, st.players, st);
    lemma_spawn_all_fixpoint(spawn_all(actors, st.players, st), st.players, st);
}

/// This frame's movement of the controlled actor, worked out by the caller
/// from the camera axes that `get_input_vector` selects, the speed and the
/// frame time: `step` is the displacement (its vertical part is not applied),
/// `heading` the yaw (milliradians) that faces along its ground part, `climb`
/// the rise while jump is held.
#[derive(Clone, Copy, Debug, PartialEq, Eq, Structural, Default)]
pub struct Motion {
    pub step: StdbVector3,
    pub heading: i32,
    pub climb: i32,
}

/// An actor moves this frame when its ground displacement is not zero; only
/// then does it turn to `heading`.
pub open spec fn is_moving(m: Motion) -> bool {
    m.step.x != 0 || m.step.z != 0
}

/// The controlled actor after one frame of local prediction: displaced on the
/// ground plane, raised while jump is held, turned to face its motion, marked
/// as moving or not, and with the stance and attack edges applied.
pub open spec fn steered(a: Actor, input: InputState, m: Motion) -> Actor {
    Actor {
        translation: StdbVector3 {
            x: saturating(a.translation.x + m.step.x),
            y: if input.jump { saturating(a.translation.y + m.climb) } else { a.translation.y },
            z: saturating(a.translation.z + m.step.z),
        },
        entity: EntityComponent {
            direction: if is_moving(m) { m.heading } else { a.entity.direction },
            moving: is_moving(m),
            stance: stance_after(a.entity.stance, input.stance_just_pressed),
            action: action_after(a.entity.action, input.attack_just_pressed),
            ..a.entity
        },
        ..a
    }
}

/// Whether the reported position, facing or moving flag changed from `a` to `b`;
/// this includes the frame on which movement stops.
pub open spec fn position_changed(a: Actor, b: Actor) -> bool {
    b.translation != a.translation || b.entity.direction != a.entity.direction || b.entity.moving != a.entity.moving
}

/// The mutations that push the change from `a` to `b` upstream: the position
/// when it changed, the stance when it changed, the action when it changed.
pub open spec fn steer_calls(a: Actor, b: Actor) -> Seq<ReducerCall> {
    (if position_changed(a, b) {
        seq![
            ReducerCall::UpdatePosition {
                position: b.translation,
                direction: b.entity.direction,
                moving: b.entity.moving,
            },
        ]
    } else {
        Seq::empty()
    }) + (if b.entity.stance != a.entity.stance {
        seq![ReducerCall::UpdateStance { stance: b.entity.stance }]
    } else {
        Seq::empty()
    }) + (if b.entity.action != a.entity.action {
        seq![ReducerCall::UpdateAction { action: b.entity.action }]
    } else {
        Seq::empty()
    })
}

/// The calls of one frame for every controlled actor of `s`, in order.
pub open spec fn steer_calls_all(s: Seq<Actor>, input: InputState, m: Motion) -> Seq<ReducerCall>
    decreases s.len(),
{
    if s.len() == 0 {
        Seq::empty()
    } else {
        steer_calls_all(s.drop_last(), input, m) + if s.last().controlled {
            steer_calls(s.last(), steered(s.last(), input, m))
        } else {
            Seq::empty()
        }
    }
}

/// Local prediction for one frame: the actor moves at once, without waiting
/// for the store; the returned calls push what changed upstream.
pub fn player_movement(actor: &mut Actor, input: &InputState, motion: &Motion) -> (calls: Vec<ReducerCall>)
    ensures
        *final(actor) == steered(*old(actor), *input, *motion),
        calls@ == steer_calls(*old(actor), *final(actor)),
{
    let ghost start = *actor;
    let before_translation = actor.translation;
    let before_direction = actor.entity.direction;
    let before_moving = actor.entity.moving;
    let before_stance = actor.entity.stance;
    let attacks = input.attack_just_pressed && actor.entity.action.is_none();
    let moving = motion.step.x != 0 || motion.step.z != 0;
    actor.translation.x = add_coordinate(actor.translation.x, motion.step.x);
    actor.translation.z = add_coordinate(actor.translation.z, motion.step.z);
    if input.jump {
        actor.translation.y = add_coordinate(actor.translation.y, motion.climb);
    }
    if moving {
        actor.entity.direction = motion.heading;
    }
    actor.entity.moving = moving;
    actor.entity.stance = handle_stance_change(actor.entity.stance, input.stance_just_pressed);
    actor.entity.action = handle_attack(&actor.entity.action, input.attack_just_pressed);
    let mut calls: Vec<ReducerCall> = Vec::new();
    if actor.translation != before_translation || actor.entity.direction != before_direction || moving
        != before_moving {
        calls.push(
            ReducerCall::UpdatePosition {
                position: actor.translation,
                direction: actor.entity.direction,
                moving,
            },
        );
    }
    let ghost after_position = calls@;
    if actor.entity.stance != before_stance {
        calls.push(ReducerCall::UpdateStance { stance: actor.entity.stance });
    }
    let ghost after_stance = calls@;
    if attacks {
        calls.push(ReducerCall::UpdateAction { action: actor.entity.action.clone() });
    }
    proof {
        let b = *actor;
        assert(attacks == (b.entity.action != start.entity.action));
        let p: Seq<ReducerCall> = if position_changed(start, b) {
            seq![
                ReducerCall::UpdatePosition {
                    position: b.translation,
                    direction: b.entity.direction,
                    moving: b.entity.moving,
                },
            ]
        } else {
            Seq::empty()
        };
        assert(after_position =~= p);
        assert(calls@ =~= steer_calls(start, b));
    }
    calls
}

/// A frame with a non-zero ground step that stays inside the world moves the
/// actor at once and reports exactly one position update, with `moving` set
/// and the new position.
pub proof fn lemma_step_moves_and_reports(a: Actor, input: InputState, m: Motion)
    requires
        m.step.x != 0 || m.step.z != 0,
        i32::MIN <= a.translation.x + m.step.x <= i32::MAX,
        i32::MIN <= a.translation.z + m.step.z <= i32::MAX,
    ensures
        ({
            let b = steered(a, input, m);
            let calls = steer_calls(a, b);
            &&& b.translation != a.translation
            &&& calls.len() >= 1
            &&& calls[0] == ReducerCall::UpdatePosition { position: b.translation, direction: m.heading, moving: true }
            &&& forall|k: int| 1 <= k < calls.len() ==> !(#[trigger] calls[k] is UpdatePosition)
        }),
{
    let b = steered(a, input, m);
    if m.step.x != 0 {
        assert(b.translation.x != a.translation.x);
    } else {
        assert(b.translation.z != a.translation.z);
    }
}

/// Actors that are all observed issue no calls.
proof fn lemma_no_controlled_no_calls(s: Seq<Actor>, input: InputState, m: Motion)
    requires
        forall|k: int| 0 <= k < s.len() ==> !(#[trigger] s[k]).controlled,
    ensures
        steer_calls_all(s, input, m) == Seq::<ReducerCall>::empty(),
    decreases s.len(),
{
    if s.len() > 0 {
        lemma_no_controlled_no_calls(s.drop_last(), input, m);
        assert(!s[s.len() - 1].controlled);
        assert(steer_calls_all(s, input, m) =~= Seq::<ReducerCall>::empty());
    }
}

/// When exactly one actor is controlled, a frame's calls are that actor's calls.
pub proof fn lemma_single_controlled_calls(s: Seq<Actor>, j: int, input: InputState, m: Motion)
    requires
        0 <= j < s.len(),
        s[j].controlled,
        forall|k: int| 0 <= k < s.len() && k != j ==> !(#[trigger] s[k]).controlled,
    ensures
        steer_calls_all(s, input, m) == steer_calls(s[j], steered(s[j], input, m)),
    decreases s.len(),
{
    let d = s.drop_last();
    if j < s.len() - 1 {
        assert forall|k: int| 0 <= k < d.len() && k != j implies !(#[trigger] d[k]).controlled by {
            assert(d[k] == s[k]);
        }
        lemma_single_controlled_calls(d, j, input, m);
        assert(!s[s.len() - 1].controlled);
        assert(steer_calls_all(s, input, m) =~= steer_calls_all(d, input, m));
    } else {
        assert forall|k: int| 0 <= k < d.len() implies !(#[trigger] d[k]).controlled by {
            assert(d[k] == s[k]);
        }
        lemma_no_controlled_no_calls(d, input, m);
        assert(steer_calls_all(s, input, m) =~= steer_calls(s[j], steered(s[j], input, m)));
    }
}

/// The clip an actor should play after a remote update that says whether it moves.
pub open spec fn wanted_clip(a: Actor, moving: bool) -> AnimClip {
    clip_for(a.entity.stance, a.entity.action, moving)
}

/// Whether a snapshot moves the stored action from a non-idle one back to idle.
pub open spec fn resets_action(old: EntityComponent, new: EntityComponent) -> bool {
    old.action != PlayerAction::NoAction && new.action == PlayerAction::NoAction
}

/// An actor after a remote snapshot of its entity (`old` is the row before,
/// `new` the row after). An observed actor takes stance, action and direction
/// at once and opens a new interpolation window from where it is rendered
/// towards the new position. The controlled actor keeps its predicted state;
/// only a reset of the stored action to idle reaches it, which allows its next
/// attack. Either way the clip follows the actor's new state.
pub open spec fn remote_updated(a: Actor, old: EntityComponent, new: EntityComponent) -> Actor {
    let b = if a.controlled {
        if resets_action(old, new) {
            Actor { entity: EntityComponent { action: PlayerAction::NoAction, ..a.entity }, ..a }
        } else {
            a
        }
    } else {
        Actor {
            entity: new,
            interpolation: InterpolatedTransform { start: a.translation, target_position: new.position, progress: 0 },
            ..a
        }
    };
    Actor { clip: Some(wanted_clip(b, new.moving)), ..b }
}

/// The clip started by a remote update of `a`, if any.
pub open spec fn remote_clip(a: Actor, old: EntityComponent, new: EntityComponent) -> Option<AnimClip> {
    let b = remote_updated(a, old, new);
    clip_to_start(a.clip, wanted_clip(b, new.moving))
}

/// For the controlled actor, an attack lasts until the store resets it: a
/// further attack edge keeps the attack, a snapshot that is no reset leaves it,
/// and after a reset to idle the next edge attacks again.
pub proof fn lemma_attack_needs_reset(a: Actor, input: InputState, m: Motion, old: EntityComponent, new: EntityComponent)
    requires
        a.controlled,
        a.entity.action == PlayerAction::Attack,
        input.attack_just_pressed,
    ensures
        steered(a, input, m).entity.action == PlayerAction::Attack,
        !resets_action(old, new) ==> remote_updated(a, old, new).entity.action == PlayerAction::Attack,
        resets_action(old, new) ==> remote_updated(a, old, new).entity.action == PlayerAction::NoAction
            && steered(remote_updated(a, old, new), input, m).entity.action == PlayerAction::Attack,
{
}

/// An observed actor after `dt` more microseconds of its window; the
/// controlled actor is left alone.
pub open spec fn interpolated(a: Actor, dt: int) -> Actor {
    if a.controlled {
        a
    } else {
        let w = advanced(a.interpolation, dt);
        Actor { interpolation: w, translation: w.rendered(), ..a }
    }
}

/// An actor after frames of the lengths `dts`, in order.
pub open spec fn interpolated_all(a: Actor, dts: Seq<int>) -> Actor
    decreases dts.len(),
{
    if dts.len() == 0 {
        a
    } else {
        interpolated(interpolated_all(a, dts.drop_last()), dts.last())
    }
}

/// The actors after frames of the lengths `dts`: one call of
/// `World::interpolate_positions` per frame.
pub open spec fn interpolate_frames(s: Seq<Actor>, dts: Seq<int>) -> Seq<Actor>
    decreases dts.len(),
{
    if dts.len() == 0 {
        s
    } else {
        interpolate_all(interpolate_frames(s, dts.drop_last()), dts.last())
    }
}

proof fn lemma_interpolated_all(a: Actor, dts: Seq<int>)
    requires
        !a.controlled,
    ensures
        !interpolated_all(a, dts).controlled,
        interpolated_all(a, dts).interpolation == advanced_all(a.interpolation, dts),
        dts.len() > 0 ==> interpolated_all(a, dts).translation == advanced_all(a.interpolation, dts).rendered(),
    decreases dts.len(),
{
    if dts.len() > 0 {
        lemma_interpolated_all(a, dts.drop_last());
    }
}

/// Stepping the actors frame by frame acts on each actor alone.
pub proof fn lemma_interpolate_frames(s: Seq<Actor>, dts: Seq<int>)
    ensures
        interpolate_frames(s, dts).len() == s.len(),
        forall|i: int| 0 <= i < s.len() ==> #[trigger] interpolate_frames(s, dts)[i] == interpolated_all(s[i], dts),
    decreases dts.len(),
{
    if dts.len() > 0 {
        lemma_interpolate_frames(s, dts.drop_last());
    }
}

/// An observed actor whose window was just opened, stepped by frames of any
/// non-negative lengths that add up to exactly one window, is rendered
/// exactly at the target; so is that actor of the world after one call of
/// `World::interpolate_positions` per frame.
pub proof fn lemma_observed_reaches_target(s: Seq<Actor>, i: int, dts: Seq<int>)
    requires
        0 <= i < s.len(),
        !s[i].controlled,
        s[i].interpolation.progress == 0,
        forall|k: int| 0 <= k < dts.len() ==> 0 <= #[trigger] dts[k],
        total(dts) == PROGRESS_FULL,
    ensures
        interpolated_all(s[i], dts).translation == s[i].interpolation.target_position,
        interpolated_all(s[i], dts).interpolation.progress == PROGRESS_FULL,
        interpolate_frames(s, dts)[i].translation == s[i].interpolation.target_position,
{
    lemma_interpolated_all(s[i], dts);
    lemma_frames_reach_target(s[i].interpolation, dts);
    lemma_interpolate_frames(s, dts);
    if dts.len() == 0 {
        assert(total(dts) == 0);
    }
}

pub fn apply_remote_update(actor: &mut Actor, before: &EntityComponent, new: &EntityComponent) -> (started: Option<
    AnimClip,
>)
    requires
        old(actor).interpolation.wf(),
    ensures
        *final(actor) == remote_updated(*old(actor), *before, *new),
        started == remote_clip(*old(actor), *before, *new),
        final(actor).interpolation.wf(),
{
    if actor.controlled {
        if !before.action.is_none() && new.action.is_none() {
            actor.entity.action = PlayerAction::NoAction;
        }
    } else {
        actor.entity = new.clone();
        actor.interpolation = InterpolatedTransform::retarget(actor.translation, new.position);
    }
    let wanted = select_clip(actor.entity.stance, &actor.entity.action, new.moving);
    play_animation(&mut actor.clip, wanted)
}

pub fn interpolate_actor(actor: &mut Actor, dt: u32)
    requires
        old(actor).interpolation.wf(),
    ensures
        *final(actor) == interpolated(*old(actor), dt as int),
        final(actor).interpolation.wf(),
{
    if !actor.controlled {
        actor.translation = actor.interpolation.advance(dt);
    }
}

/// Every controlled actor of `s` steered for one frame.
pub open spec fn steer_all(s: Seq<Actor>, input: InputState, m: Motion) -> Seq<Actor> {
    Seq::new(s.len(), |i: int| if s[i].controlled { steered(s[i], input, m) } else { s[i] })
}

/// Every actor of `s` after `dt` more microseconds.
pub open spec fn interpolate_all(s: Seq<Actor>, dt: int) -> Seq<Actor> {
    Seq::new(s.len(), |i: int| interpolated(s[i], dt))
}

/// The actors after one notification: an entity snapshot reaches the actor
/// of its entity; everything else leaves the actors alone.
pub open spec fn route_one(s: Seq<Actor>, m: UncbMessage) -> Seq<Actor> {
    match m {
        UncbMessage::EntityUpdated { old, new } => if has_actor(s, new.entity_id) {
            s.update(actor_slot(s, new.entity_id), remote_updated(s[actor_slot(s, new.entity_id)], old, new))
        } else {
            s
        },
        _ => s,
    }
}

/// The clip that one notification starts, as (entity, clip).
pub open spec fn clips_one(s: Seq<Actor>, m: UncbMessage) -> Seq<(u64, AnimClip)> {
    match m {
        UncbMessage::EntityUpdated { old, new } => if has_actor(s, new.entity_id) {
            match remote_clip(s[actor_slot(s, new.entity_id)], old, new) {
                Some(c) => seq![(new.entity_id, c)],
                None => Seq::empty(),
            }
        } else {
            Seq::empty()
        },
        _ => Seq::empty(),
    }
}

pub open spec fn route_all(s: Seq<Actor>, ms: Seq<UncbMessage>) -> Seq<Actor>
    decreases ms.len(),
{
    if ms.len() == 0 {
        s
    } else {
        route_one(route_all(s, ms.drop_last()), ms.last())
    }
}

pub open spec fn clips_all(s: Seq<Actor>, ms: Seq<UncbMessage>) -> Seq<(u64, AnimClip)>
    decreases ms.len(),
{
    if ms.len() == 0 {
        Seq::empty()
    } else {
        clips_all(s, ms.drop_last()) + clips_one(route_all(s, ms.drop_last()), ms.last())
    }
}

/// A player owned by the local identity is materialised as controlled; a
/// player owned by any other identity is materialised as observed.
pub proof fn lemma_controlled_iff_local(actors: Seq<Actor>, p: PlayerComponent, st: RegistryState, local: Identity)
    requires
        st.local == Some(local),
        !has_actor(actors, p.entity_id),
        has_entity(st.entities, p.entity_id),
    ensures
        spawn_one(actors, p, st).len() == actors.len() + 1,
        spawn_one(actors, p, st).last().player == p,
        spawn_one(actors, p, st).last().controlled <==> p.owner_id.bytes@ == local.bytes@,
{
}

/// Whatever the players and the actors already present, spawning keeps the
/// present actors, and every actor it adds is controlled exactly when its
/// player's owner is the local identity: two players with different owners
/// never both come out controlled unless both owners are the local identity.
pub proof fn lemma_spawn_classifies(actors: Seq<Actor>, players: Seq<PlayerComponent>, st: RegistryState, local: Identity)
    requires
        st.local == Some(local),
    ensures
        spawn_all(actors, players, st).len() >= actors.len(),
        spawn_all(actors, players, st).subrange(0, actors.len() as int) == actors,
        forall|k: int|
            actors.len() <= k < spawn_all(actors, players, st).len() ==> (#[trigger] spawn_all(
                actors,
                players,
                st,
            )[k].controlled <==> spawn_all(actors, players, st)[k].player.owner_id.bytes@ == local.bytes@),
    decreases players.len(),
{
    if players.len() == 0 {
        assert(actors.subrange(0, actors.len() as int) =~= actors);
    } else {
        lemma_spawn_classifies(actors, players.drop_last(), st, local);
        let prev = spawn_all(actors, players.drop_last(), st);
        let r = spawn_all(actors, players, st);
        assert(r == spawn_one(prev, players.last(), st));
        assert(r.subrange(0, actors.len() as int) =~= prev.subrange(0, actors.len() as int));
        assert forall|k: int| actors.len() <= k < r.len() implies (#[trigger] r[k].controlled
            <==> r[k].player.owner_id.bytes@ == local.bytes@) by {
            if k < prev.len() {
                assert(r[k] == prev[k]);
            }
        }
    }
}

/// The materialised actors.
pub struct World {
    pub actors: Vec<Actor>,
}

impl View for World {
    type V = Seq<Actor>;

    open spec fn view(&self) -> Seq<Actor> {
        self.actors@
    }
}

impl World {
    pub open spec fn wf(&self) -> bool {
        actors_unique(self@) && actors_consistent(self@)
    }

    pub fn new() -> (r: World)
        ensures
            r.wf(),
            r@ == Seq::<Actor>::empty(),
    {
        World { actors: Vec::new() }
    }

    /// Where the actor for entity `id` is.
    pub fn find_actor(&self, id: u64) -> (r: Option<usize>)
        requires
            self.wf(),
        ensures
            r is None <==> !has_actor(self@, id),
            r matches Some(i) ==> i < self@.len() && self@[i as int].player.entity_id == id && actor_slot(
                self@,
                id,
            ) == i,
    {
        let mut i: usize = 0;
        while i < self.actors.len()
            invariant
                self.wf(),
                i <= self@.len(),
                forall|j: int| 0 <= j < i ==> self@[j].player.entity_id != id,
            decreases self@.len() - i,
        {
            if self.actors[i].player.entity_id == id {
                proof {
                    lemma_actor_slot(self@, i as int);
                }
                return Some(i);
            }
            i = i + 1;
        }
        None
    }

    /// Materialises every known player that has no actor yet and whose entity
    /// has arrived. Returns the keys of the new actors, in the order added.
    pub fn spawn_players(&mut self, registry: &PlayerDataResource) -> (spawned: Vec<u64>)
        requires
            old(self).wf(),
            registry.wf(),
        ensures
            final(self).wf(),
            final(self)@ == spawn_all(old(self)@, registry@.players, registry@),
            final(self)@.len() == old(self)@.len() + spawned@.len(),
            final(self)@.subrange(0, old(self)@.len() as int) == old(self)@,
            forall|k: int|
                0 <= k < spawned@.len() ==> spawned@[k] == #[trigger] final(self)@[old(self)@.len() + k].player.entity_id,
            forall|k: int|
                old(self)@.len() <= k < final(self)@.len() ==> (#[trigger] final(self)@[k].controlled == owned_by(
                    final(self)@[k].player.owner_id,
                    registry@.local,
                )),
    {
        let ghost start = self@;
        let players = &registry.player_vec;
        let mut spawned: Vec<u64> = Vec::new();
        if registry.local.is_none() {
            proof {
                lemma_spawn_all_fixpoint(start, players@, registry@);
                assert(self@.subrange(0, start.len() as int) =~= start);
            }
            return spawned;
        }
        let mut i: usize = 0;
        while i < players.len()
            invariant
                i <= players@.len(),
                players == &registry.player_vec,
                registry.wf(),
                registry@.local is Some,
                self.wf(),
                self@ == spawn_all(start, players@.take(i as int), registry@),
                self@.len() == start.len() + spawned@.len(),
                self@.subrange(0, start.len() as int) == start,
                forall|k: int| 0 <= k < spawned@.len() ==> spawned@[k] == #[trigger] self@[start.len() + k].player.entity_id,
                forall|k: int|
                    start.len() <= k < self@.len() ==> (#[trigger] self@[k].controlled == owned_by(
                        self@[k].player.owner_id,
                        registry@.local,
                    )),
            decreases players@.len() - i,
        {
            let p = players[i];
            proof {
                assert(players@.take(i + 1 as int).drop_last() =~= players@.take(i as int));
                assert(players@.take(i + 1 as int).last() == p);
            }
            if self.find_actor(p.entity_id).is_none() {
                match registry.find_entity(p.entity_id) {
                    Some(j) => {
                        let main = is_owned_by(&p.owner_id, &registry.local);
                        let actor = setup_player(&p, &registry.entity_vec[j], main);
                        let ghost before = self@;
                        self.actors.push(actor);
                        spawned.push(p.entity_id);
                        proof {
                            assert forall|a: int, b: int| 0 <= a < b < self@.len() implies self@[a].player.entity_id
                                != self@[b].player.entity_id by {
                                if b == before.len() {
                                    assert(before[a].player.entity_id != p.entity_id);
                                }
                            }
                            assert(self@.subrange(0, start.len() as int) =~= before.subrange(0, start.len() as int));
                            assert(self@[before.len() as int].interpolation.wf());
                            assert forall|a: int| 0 <= a < self@.len() implies #[trigger] self@[a].entity.entity_id
                                == self@[a].player.entity_id && self@[a].interpolation.wf() by {
                                if a < before.len() {
                                    assert(self@[a] == before[a]);
                                } else {
                                    assert(self@[a] == actor);
                                    assert(registry@.entities[j as int].entity_id == p.entity_id);
                                    assert(actor.entity == registry@.entities[j as int]);
                                }
                            }
                        }
                    },
                    None => {},
                }
            }
            i = i + 1;
        }
        proof {
            assert(players@.take(players@.len() as int) =~= players@);
        }
        spawned
    }

    /// One frame of local prediction for every controlled actor. Returns
    /// the calls that push their new state upstream, in actor order.
    pub fn steer_controlled(&mut self, input: &InputState, motion: &Motion) -> (calls: Vec<ReducerCall>)
        requires
            old(self).wf(),
        ensures
            final(self).wf(),
            final(self)@.len() == old(self)@.len(),
            forall|i: int|
                0 <= i < old(self)@.len() ==> #[trigger] final(self)@[i] == if old(self)@[i].controlled {
                    steered(old(self)@[i], *input, *motion)
                } else {
                    old(self)@[i]
                },
            calls@ == steer_calls_all(old(self)@, *input, *motion),
    {
        let ghost start = self@;
        let mut calls: Vec<ReducerCall> = Vec::new();
        let mut i: usize = 0;
        while i < self.actors.len()
            invariant
                i <= self@.len(),
                self@.len() == start.len(),
                self.wf(),
                forall|k: int|
                    0 <= k < self@.len() ==> #[trigger] self@[k] == if k < i && start[k].controlled {
                        steered(start[k], *input, *motion)
                    } else {
                        start[k]
                    },
                calls@ == steer_calls_all(start.take(i as int), *input, *motion),
            decreases self@.len() - i,
        {
            proof {
                assert(start.take(i + 1 as int).drop_last() =~= start.take(i as int));
                assert(start.take(i + 1 as int).last() == start[i as int]);
            }
            if self.actors[i].controlled {
                let mut actor = self.actors[i].clone();
                let mut more = player_movement(&mut actor, input, motion);
                let ghost before = self@;
                self.actors.set(i, actor);
                calls.append(&mut more);
                proof {
                    assert forall|a: int, b: int| 0 <= a < b < self@.len() implies self@[a].player.entity_id
                        != self@[b].player.entity_id by {
                        assert(before[a].player.entity_id != before[b].player.entity_id);
                    }
                    assert forall|a: int| 0 <= a < self@.len() implies #[trigger] self@[a].entity.entity_id
                        == self@[a].player.entity_id && self@[a].interpolation.wf() by {
                        assert(before[a].entity.entity_id == before[a].player.entity_id);
                    }
                }
            } else {
                proof {
                    assert(steer_calls_all(start.take(i + 1 as int), *input, *motion) =~= steer_calls_all(
                        start.take(i as int),
                        *input,
                        *motion,
                    ));
                }
            }
            i = i + 1;
        }
        proof {
            assert(start.take(start.len() as int) =~= start);
        }
        calls
    }

    /// Routes a remote snapshot to the actor of its entity. Returns the
    /// entity and the clip to start, when one starts.
    pub fn apply_entity_update(&mut self, before: &EntityComponent, new: &EntityComponent) -> (started: Option<
        (u64, AnimClip),
    >)
        requires
            old(self).wf(),
        ensures
            final(self).wf(),
            has_actor(old(self)@, new.entity_id) ==> ({
                let i = actor_slot(old(self)@, new.entity_id);
                &&& final(self)@ == old(self)@.update(i, remote_updated(old(self)@[i], *before, *new))
                &&& started == match remote_clip(old(self)@[i], *before, *new) {
                    Some(c) => Some((new.entity_id, c)),
                    None => None,
                }
            }),
            !has_actor(old(self)@, new.entity_id) ==> final(self)@ == old(self)@ && started is None,
    {
        match self.find_actor(new.entity_id) {
            Some(i) => {
                let mut actor = self.actors[i].clone();
                let clip = apply_remote_update(&mut actor, before, new);
                let ghost before = self@;
                self.actors.set(i, actor);
                proof {
                    assert forall|a: int, b: int| 0 <= a < b < self@.len() implies self@[a].player.entity_id
                        != self@[b].player.entity_id by {
                        assert(before[a].player.entity_id != before[b].player.entity_id);
                    }
                    assert forall|a: int| 0 <= a < self@.len() implies #[trigger] self@[a].entity.entity_id
                        == self@[a].player.entity_id && self@[a].interpolation.wf() by {
                        assert(before[a].entity.entity_id == before[a].player.entity_id);
                    }
                }
                match clip {
                    Some(c) => Some((new.entity_id, c)),
                    None => None,
                }
            },
            None => None,
        }
    }

    /// Advances every observed actor's interpolation by `dt` microseconds.
    pub fn interpolate_positions(&mut self, dt: u32)
        requires
            old(self).wf(),
        ensures
            final(self).wf(),
            final(self)@.len() == old(self)@.len(),
            forall|i: int| 0 <= i < old(self)@.len() ==> #[trigger] final(self)@[i] == interpolated(old(self)@[i], dt as int),
    {
        let ghost start = self@;
        let mut i: usize = 0;
        while i < self.actors.len()
            invariant
                i <= self@.len(),
                self@.len() == start.len(),
                self.wf(),
                forall|k: int|
                    0 <= k < self@.len() ==> #[trigger] self@[k] == if k < i {
                        interpolated(start[k], dt as int)
                    } else {
                        start[k]
                    },
            decreases self@.len() - i,
        {
            proof {
                assert(self@[i as int].entity.entity_id == self@[i as int].player.entity_id);
            }
            let mut actor = self.actors[i].clone();
            interpolate_actor(&mut actor, dt);
            let ghost before = self@;
            self.actors.set(i, actor);
            proof {
                assert forall|a: int, b: int| 0 <= a < b < self@.len() implies self@[a].player.entity_id
                    != self@[b].player.entity_id by {
                    assert(before[a].player.entity_id != before[b].player.entity_id);
                }
                assert forall|a: int| 0 <= a < self@.len() implies #[trigger] self@[a].entity.entity_id
                    == self@[a].player.entity_id && self@[a].interpolation.wf() by {
                    assert(before[a].entity.entity_id == before[a].player.entity_id);
                    if a == i {
                        assert(self@[a] == interpolated(before[a], dt as int));
                    }
                }
                assert(actors_unique(self@));
                assert(actors_consistent(self@));
            }
            i = i + 1;
        }
    }

    /// Hands each entity snapshot of `ms`, in order, to the actor of its
    /// entity. Returns the clips started, as (entity, clip).
    pub fn apply_entity_updates(&mut self, ms: &Vec<UncbMessage>) -> (started: Vec<(u64, AnimClip)>)
        requires
            old(self).wf(),
        ensures
            final(self).wf(),
            final(self)@ == route_all(old(self)@, ms@),
            started@ == clips_all(old(self)@, ms@),
    {
        let ghost start = self@;
        let mut started: Vec<(u64, AnimClip)> = Vec::new();
        let mut i: usize = 0;
        while i < ms.len()
            invariant
                i <= ms@.len(),
                self.wf(),
                self@ == route_all(start, ms@.take(i as int)),
                started@ == clips_all(start, ms@.take(i as int)),
            decreases ms@.len() - i,
        {
            proof {
                assert(ms@.take(i + 1 as int).drop_last() =~= ms@.take(i as int));
                assert(ms@.take(i + 1 as int).last() == ms@[i as int]);
            }
            match &ms[i] {
                UncbMessage::EntityUpdated { old, new } => {
                    match self.apply_entity_update(old, new) {
                        Some(c) => {
                            started.push(c);
                        },
                        None => {
                            proof {
                                assert(started@ =~= started@ + Seq::<(u64, AnimClip)>::empty());
                            }
                        },
                    }
                },
                _ => {
                    proof {
                        assert(started@ =~= started@ + Seq::<(u64, AnimClip)>::empty());
                    }
                },
            }
            i = i + 1;
        }
        proof {
            assert(ms@.take(ms@.len() as int) =~= ms@);
        }
        started
    }
}

} // verus!
