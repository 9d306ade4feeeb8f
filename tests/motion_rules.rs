use dagalok::model::PlayerAction;
use dagalok::model::PlayerStances;
use dagalok::movement::{
    add_coordinate, get_input_vector, handle_attack, handle_stance_change, lerp_coordinate, InputState, InputVector,
    PROGRESS_FULL,
};

fn keys(forward: bool, back: bool, left: bool, right: bool) -> InputState {
    InputState { forward, back, left, right, ..InputState::default() }
}

#[test]
fn diagonals_take_priority() {
    assert_eq!(get_input_vector(&keys(true, false, false, true)), InputVector::ForwardRight);
    assert_eq!(get_input_vector(&keys(true, false, true, false)), InputVector::ForwardLeft);
    assert_eq!(get_input_vector(&keys(false, true, true, false)), InputVector::BackLeft);
    assert_eq!(get_input_vector(&keys(false, true, false, true)), InputVector::BackRight);
    assert_eq!(get_input_vector(&keys(true, true, true, true)), InputVector::ForwardRight);
    assert_eq!(get_input_vector(&keys(true, true, false, false)), InputVector::Forward);
    assert_eq!(get_input_vector(&keys(false, true, false, false)), InputVector::Back);
    assert_eq!(get_input_vector(&keys(false, false, true, true)), InputVector::Left);
    assert_eq!(get_input_vector(&keys(false, false, false, true)), InputVector::Right);
    let jump = InputState { jump_just_pressed: true, ..InputState::default() };
    assert_eq!(get_input_vector(&jump), InputVector::Up);
    assert_eq!(get_input_vector(&InputState::default()), InputVector::Still);
}

#[test]
fn attack_state_machine() {
    let a = handle_attack(&PlayerAction::NoAction, true);
    assert_eq!(a, PlayerAction::Attack);
    assert_eq!(handle_attack(&a, true), PlayerAction::Attack);
    assert_eq!(handle_attack(&PlayerAction::NoAction, false), PlayerAction::NoAction);
    let spell = PlayerAction::CastSpell("frost".to_string());
    assert_eq!(handle_attack(&spell, true), PlayerAction::CastSpell("frost".to_string()));
    assert_eq!(handle_attack(&PlayerAction::Block, true), PlayerAction::Block);
    assert_ne!(PlayerAction::CastSpell("a".to_string()), PlayerAction::CastSpell("b".to_string()));
}

#[test]
fn stance_toggle() {
    assert_eq!(handle_stance_change(PlayerStances::NonCombat, true), PlayerStances::Combat);
    assert_eq!(handle_stance_change(PlayerStances::Combat, true), PlayerStances::NonCombat);
    assert_eq!(handle_stance_change(PlayerStances::Combat, false), PlayerStances::Combat);
    assert_eq!(handle_stance_change(PlayerStances::Precise, true), PlayerStances::Precise);
    assert_eq!(handle_stance_change(PlayerStances::Defensive, true), PlayerStances::Defensive);
}

#[test]
fn coordinates_saturate_at_the_world_edge() {
    assert_eq!(add_coordinate(i32::MAX, 1), i32::MAX);
    assert_eq!(add_coordinate(i32::MIN, -5), i32::MIN);
    assert_eq!(add_coordinate(-3, 10), 7);
}

#[test]
fn lerp_rounds_towards_the_start() {
    assert_eq!(lerp_coordinate(0, 10_000, PROGRESS_FULL / 2), 5_000);
    assert_eq!(lerp_coordinate(10, 0, PROGRESS_FULL / 2), 5);
    assert_eq!(lerp_coordinate(0, -3, PROGRESS_FULL / 2), -1);
    assert_eq!(lerp_coordinate(0, 3, PROGRESS_FULL / 2), 1);
    assert_eq!(lerp_coordinate(i32::MIN, i32::MAX, PROGRESS_FULL), i32::MAX);
    assert_eq!(lerp_coordinate(i32::MAX, i32::MIN, 0), i32::MAX);
    assert_eq!(lerp_coordinate(i32::MAX, i32::MIN, PROGRESS_FULL), i32::MIN);
}
