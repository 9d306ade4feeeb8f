use dagalok::animation::{select_clip, AnimClip};
use dagalok::bridge::UncbMessage;
use dagalok::model::{EntityComponent, Identity, PlayerAction, PlayerComponent, PlayerStances, ReducerCall, StdbVector3, UNIT};
use dagalok::movement::{get_input_vector, InputState, InputVector, InterpolatedTransform, PROGRESS_FULL};
use dagalok::session::Session;
use dagalok::world::{Motion, World};
use dagalok::registry::PlayerDataResource;

fn ident(b: u8) -> Identity {
    Identity { bytes: [b; 32] }
}

fn still() -> (InputState, Motion) {
    (InputState::default(), Motion::default())
}

fn entity_at(id: u64, x: i32, y: i32, z: i32) -> EntityComponent {
    let mut e = EntityComponent::new(id);
    e.position = StdbVector3::new(x, y, z);
    e
}

#[test]
fn controlled_actor_moves_and_reports_once() {
    let me = ident(1);
    let mut s = Session::new();
    let (i0, m0) = still();
    let out = s.frame(
        &vec![
            UncbMessage::Connected { identity: me },
            UncbMessage::PlayerInserted { data: PlayerComponent { entity_id: 1, owner_id: me } },
            UncbMessage::EntityInserted { data: entity_at(1, 0, 0, 0) },
        ],
        0,
        &i0,
        &m0,
    );
    assert_eq!(out.spawned, vec![1]);
    assert_eq!(s.world.actors.len(), 1);
    assert!(s.world.actors[0].controlled);
    assert_eq!(s.world.actors[0].translation, StdbVector3::zero());

    // Forward with the camera looking down -z, speed 2 units/s, 0.1 s frame.
    let input = InputState { forward: true, ..InputState::default() };
    assert_eq!(get_input_vector(&input), InputVector::Forward);
    let motion = Motion { step: StdbVector3::new(0, 0, -200), heading: 0, climb: 200 };
    let out = s.frame(&Vec::new(), 100_000, &input, &motion);
    assert_ne!(s.world.actors[0].translation, StdbVector3::zero());
    assert_eq!(s.world.actors[0].translation, StdbVector3::new(0, 0, -200));
    let positions: Vec<&ReducerCall> =
        out.calls.iter().filter(|c| matches!(c, ReducerCall::UpdatePosition { .. })).collect();
    assert_eq!(positions.len(), 1);
    assert_eq!(
        *positions[0],
        ReducerCall::UpdatePosition { position: StdbVector3::new(0, 0, -200), direction: 0, moving: true }
    );
    assert_eq!(out.calls.len(), 1);
    assert!(!out.disconnected);

    // Still moving: another position update; then stopping reports once more.
    let out = s.frame(&Vec::new(), 100_000, &input, &motion);
    assert_eq!(out.calls.len(), 1);
    let out = s.frame(&Vec::new(), 100_000, &InputState::default(), &Motion::default());
    assert_eq!(
        out.calls,
        vec![ReducerCall::UpdatePosition { position: StdbVector3::new(0, 0, -400), direction: 0, moving: false }]
    );
    let out = s.frame(&Vec::new(), 100_000, &InputState::default(), &Motion::default());
    assert!(out.calls.is_empty());
}

#[test]
fn observed_actor_interpolates_halfway() {
    let me = ident(1);
    let other = ident(2);
    let mut s = Session::new();
    let (i0, m0) = still();
    s.frame(
        &vec![
            UncbMessage::Connected { identity: me },
            UncbMessage::PlayerInserted { data: PlayerComponent { entity_id: 2, owner_id: other } },
            UncbMessage::EntityInserted { data: entity_at(2, 0, 0, 0) },
        ],
        0,
        &i0,
        &m0,
    );
    assert!(!s.world.actors[0].controlled);
    let out = s.frame(
        &vec![UncbMessage::EntityUpdated { old: entity_at(2, 0, 0, 0), new: entity_at(2, 10 * UNIT, 0, 0) }],
        0,
        &i0,
        &m0,
    );
    assert_eq!(s.world.actors[0].interpolation.progress, 0);
    assert_eq!(s.world.actors[0].translation, StdbVector3::zero());
    assert_eq!(out.started, vec![(2, AnimClip::Idle)]);
    assert!(out.calls.is_empty());
    s.frame(&Vec::new(), PROGRESS_FULL / 2, &i0, &m0);
    assert_eq!(s.world.actors[0].translation, StdbVector3::new(5 * UNIT, 0, 0));
    s.frame(&Vec::new(), PROGRESS_FULL, &i0, &m0);
    assert_eq!(s.world.actors[0].translation, StdbVector3::new(10 * UNIT, 0, 0));
}

#[test]
fn new_target_starts_from_rendered_point() {
    let mut s = Session::new();
    let (i0, m0) = still();
    s.frame(
        &vec![
            UncbMessage::Connected { identity: ident(1) },
            UncbMessage::PlayerInserted { data: PlayerComponent { entity_id: 5, owner_id: ident(5) } },
            UncbMessage::EntityInserted { data: entity_at(5, 0, 0, 0) },
        ],
        0,
        &i0,
        &m0,
    );
    s.frame(
        &vec![UncbMessage::EntityUpdated { old: entity_at(5, 0, 0, 0), new: entity_at(5, 1000, 0, 0) }],
        PROGRESS_FULL / 2,
        &i0,
        &m0,
    );
    assert_eq!(s.world.actors[0].translation, StdbVector3::new(500, 0, 0));
    s.frame(
        &vec![UncbMessage::EntityUpdated { old: entity_at(5, 1000, 0, 0), new: entity_at(5, 500, 0, 2000) }],
        PROGRESS_FULL / 4,
        &i0,
        &m0,
    );
    let a = &s.world.actors[0];
    assert_eq!(a.interpolation.start, StdbVector3::new(500, 0, 0));
    assert_eq!(a.translation, StdbVector3::new(500, 0, 500));
}

#[test]
fn spawn_waits_for_the_entity_and_happens_once() {
    let mut s = Session::new();
    let (i0, m0) = still();
    let out = s.frame(
        &vec![
            UncbMessage::Connected { identity: ident(1) },
            UncbMessage::PlayerInserted { data: PlayerComponent { entity_id: 3, owner_id: ident(3) } },
        ],
        0,
        &i0,
        &m0,
    );
    assert!(out.new_player.0);
    assert!(out.spawned.is_empty());
    let out = s.frame(&vec![UncbMessage::EntityInserted { data: entity_at(3, 7, 8, 9) }], 0, &i0, &m0);
    assert!(!out.new_player.0);
    assert_eq!(out.spawned, vec![3]);
    assert_eq!(s.world.actors[0].translation, StdbVector3::new(7, 8, 9));
    let again = s.world.spawn_players(&s.registry);
    assert!(again.is_empty());
    let out = s.frame(
        &vec![UncbMessage::PlayerInserted { data: PlayerComponent { entity_id: 3, owner_id: ident(3) } }],
        0,
        &i0,
        &m0,
    );
    assert!(out.spawned.is_empty());
    assert_eq!(s.world.actors.len(), 1);
}

#[test]
fn spawn_classifies_two_identities() {
    let mut reg = PlayerDataResource::new();
    reg.apply_all(&vec![
        UncbMessage::Connected { identity: ident(1) },
        UncbMessage::PlayerInserted { data: PlayerComponent { entity_id: 1, owner_id: ident(1) } },
        UncbMessage::PlayerInserted { data: PlayerComponent { entity_id: 2, owner_id: ident(2) } },
        UncbMessage::EntityInserted { data: entity_at(1, 0, 0, 0) },
        UncbMessage::EntityInserted { data: entity_at(2, 0, 0, 0) },
    ]);
    let mut w = World::new();
    assert_eq!(w.spawn_players(&reg), vec![1, 2]);
    assert!(w.actors[0].controlled);
    assert!(!w.actors[1].controlled);
    assert_eq!(w.find_actor(2), Some(1));
}

#[test]
fn attack_edges_follow_the_action_state_machine() {
    let me = ident(1);
    let mut s = Session::new();
    let (i0, m0) = still();
    s.frame(
        &vec![
            UncbMessage::Connected { identity: me },
            UncbMessage::PlayerInserted { data: PlayerComponent { entity_id: 1, owner_id: me } },
            UncbMessage::EntityInserted { data: entity_at(1, 0, 0, 0) },
        ],
        0,
        &i0,
        &m0,
    );
    let attack = InputState { attack_just_pressed: true, ..InputState::default() };
    let out = s.frame(&Vec::new(), 0, &attack, &m0);
    assert_eq!(out.calls, vec![ReducerCall::UpdateAction { action: PlayerAction::Attack }]);
    let out = s.frame(&Vec::new(), 0, &attack, &m0);
    assert!(out.calls.is_empty());
    assert_eq!(s.world.actors[0].entity.action, PlayerAction::Attack);
    // A stale echo of an idle row is no reset.
    s.frame(&vec![UncbMessage::EntityUpdated { old: entity_at(1, 0, 0, 0), new: entity_at(1, 0, 0, 0) }], 0, &i0, &m0);
    assert_eq!(s.world.actors[0].entity.action, PlayerAction::Attack);
    // The store resets the action; the next edge attacks again.
    let mut attacking = entity_at(1, 0, 0, 0);
    attacking.action = PlayerAction::Attack;
    s.frame(&vec![UncbMessage::EntityUpdated { old: attacking, new: entity_at(1, 0, 0, 0) }], 0, &i0, &m0);
    assert_eq!(s.world.actors[0].entity.action, PlayerAction::NoAction);
    let out = s.frame(&Vec::new(), 0, &attack, &m0);
    assert_eq!(out.calls, vec![ReducerCall::UpdateAction { action: PlayerAction::Attack }]);
}

#[test]
fn stance_key_toggles_on_edges() {
    let me = ident(1);
    let mut s = Session::new();
    let (i0, m0) = still();
    s.frame(
        &vec![
            UncbMessage::Connected { identity: me },
            UncbMessage::PlayerInserted { data: PlayerComponent { entity_id: 1, owner_id: me } },
            UncbMessage::EntityInserted { data: entity_at(1, 0, 0, 0) },
        ],
        0,
        &i0,
        &m0,
    );
    let toggle = InputState { stance_just_pressed: true, ..InputState::default() };
    let out = s.frame(&Vec::new(), 0, &toggle, &m0);
    assert_eq!(out.calls, vec![ReducerCall::UpdateStance { stance: PlayerStances::Combat }]);
    let out = s.frame(&Vec::new(), 0, &i0, &m0);
    assert!(out.calls.is_empty());
    let out = s.frame(&Vec::new(), 0, &toggle, &m0);
    assert_eq!(out.calls, vec![ReducerCall::UpdateStance { stance: PlayerStances::NonCombat }]);
}

#[test]
fn clip_changes_only_restart_on_difference() {
    let mut s = Session::new();
    let (i0, m0) = still();
    s.frame(
        &vec![
            UncbMessage::Connected { identity: ident(1) },
            UncbMessage::PlayerInserted { data: PlayerComponent { entity_id: 2, owner_id: ident(2) } },
            UncbMessage::EntityInserted { data: entity_at(2, 0, 0, 0) },
        ],
        0,
        &i0,
        &m0,
    );
    let mut running = entity_at(2, 100, 0, 0);
    running.moving = true;
    running.stance = PlayerStances::Combat;
    let out = s.frame(
        &vec![
            UncbMessage::EntityUpdated { old: entity_at(2, 0, 0, 0), new: running.clone() },
            UncbMessage::EntityUpdated { old: running.clone(), new: running.clone() },
        ],
        0,
        &i0,
        &m0,
    );
    assert_eq!(out.started, vec![(2, AnimClip::RunSwordAndShield)]);
    let mut slash = running.clone();
    slash.action = PlayerAction::Attack;
    let out = s.frame(&vec![UncbMessage::EntityUpdated { old: running, new: slash }], 0, &i0, &m0);
    assert_eq!(out.started, vec![(2, AnimClip::AttackSwordAndShieldSlash)]);
}

#[test]
fn clip_priority() {
    assert_eq!(select_clip(PlayerStances::Precise, &PlayerAction::Attack, true), AnimClip::AttackSwordAndShieldSlash);
    assert_eq!(select_clip(PlayerStances::Combat, &PlayerAction::NoAction, false), AnimClip::IdleSwordAndShield);
    assert_eq!(select_clip(PlayerStances::Combat, &PlayerAction::Block, true), AnimClip::RunSwordAndShield);
    assert_eq!(select_clip(PlayerStances::NonCombat, &PlayerAction::NoAction, true), AnimClip::RunStandard);
    assert_eq!(select_clip(PlayerStances::Defensive, &PlayerAction::Dodge, false), AnimClip::Idle);
    assert_eq!(select_clip(PlayerStances::Precise, &PlayerAction::UseItem(3), true), AnimClip::RunStandard);
}

#[test]
fn disconnect_is_reported() {
    let mut s = Session::new();
    let (i0, m0) = still();
    let out = s.frame(&vec![UncbMessage::Disconnected], 0, &i0, &m0);
    assert!(out.disconnected);
    let out = s.frame(&Vec::new(), 0, &i0, &m0);
    assert!(!out.disconnected);
}

#[test]
fn interpolation_window_keeps_the_target() {
    let w0 = InterpolatedTransform::retarget(StdbVector3::zero(), StdbVector3::new(7, -3, 1000));
    let mut w = w0;
    let mut last = StdbVector3::zero();
    for _ in 0..10 {
        last = w.advance(PROGRESS_FULL / 10);
    }
    assert_eq!(last, StdbVector3::new(7, -3, 1000));
    assert_eq!(w.progress, PROGRESS_FULL);
    assert_eq!(w.advance(123), StdbVector3::new(7, -3, 1000));
    let mut q = InterpolatedTransform::retarget(StdbVector3::new(-5, 0, 0), StdbVector3::new(9, 0, 0));
    for _ in 0..4 {
        last = q.advance(PROGRESS_FULL / 4);
    }
    assert_eq!(last, StdbVector3::new(9, 0, 0));
}

#[test]
fn spawn_waits_for_the_handshake() {
    let mut s = Session::new();
    let (i0, m0) = still();
    let out = s.frame(
        &vec![
            UncbMessage::PlayerInserted { data: PlayerComponent { entity_id: 1, owner_id: ident(1) } },
            UncbMessage::EntityInserted { data: entity_at(1, 0, 0, 0) },
        ],
        0,
        &i0,
        &m0,
    );
    assert!(out.spawned.is_empty());
    let out = s.frame(&vec![UncbMessage::Connected { identity: ident(1) }], 0, &i0, &m0);
    assert_eq!(out.spawned, vec![1]);
    assert!(s.world.actors[0].controlled);
}

#[test]
fn jump_alone_neither_moves_nor_turns() {
    let me = ident(1);
    let mut s = Session::new();
    let (i0, m0) = still();
    let mut facing = entity_at(1, 0, 0, 0);
    facing.direction = 700;
    s.frame(
        &vec![
            UncbMessage::Connected { identity: me },
            UncbMessage::PlayerInserted { data: PlayerComponent { entity_id: 1, owner_id: me } },
            UncbMessage::EntityInserted { data: facing },
        ],
        0,
        &i0,
        &m0,
    );
    let jump = InputState { jump: true, jump_just_pressed: true, ..InputState::default() };
    let lift = Motion { step: StdbVector3::new(0, 200, 0), heading: -3142, climb: 200 };
    let out = s.frame(&Vec::new(), 100_000, &jump, &lift);
    assert_eq!(s.world.actors[0].entity.direction, 700);
    assert!(!s.world.actors[0].entity.moving);
    assert_eq!(
        out.calls,
        vec![ReducerCall::UpdatePosition { position: StdbVector3::new(0, 200, 0), direction: 700, moving: false }]
    );
}

#[test]
fn unequal_frames_reach_the_target() {
    let mut w = InterpolatedTransform::retarget(StdbVector3::new(3, 4, 5), StdbVector3::new(-999, 17, 123_456));
    let mut last = StdbVector3::zero();
    for dt in [16_667u32, 33_333, 250_000, 400_000, 300_000] {
        last = w.advance(dt);
    }
    assert_eq!(last, StdbVector3::new(-999, 17, 123_456));
    assert_eq!(w.progress, PROGRESS_FULL);
}
