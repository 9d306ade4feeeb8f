use dagalok::bridge::UncbMessage;
use dagalok::model::{EntityComponent, Identity, PlayerComponent, StdbVector3};
use dagalok::registry::{NewPlayer, PlayerDataResource};

fn ident(b: u8) -> Identity {
    Identity { bytes: [b; 32] }
}

fn player(id: u64, owner: u8) -> PlayerComponent {
    PlayerComponent { entity_id: id, owner_id: ident(owner) }
}

fn entity_at(id: u64, x: i32) -> EntityComponent {
    let mut e = EntityComponent::new(id);
    e.position = StdbVector3::new(x, 0, 0);
    e
}

fn history() -> Vec<UncbMessage> {
    vec![
        UncbMessage::Connected { identity: ident(1) },
        UncbMessage::PlayerInserted { data: player(1, 1) },
        UncbMessage::EntityInserted { data: entity_at(1, 0) },
        UncbMessage::PlayerInserted { data: player(2, 2) },
        UncbMessage::EntityInserted { data: entity_at(2, 5) },
        UncbMessage::EntityUpdated { old: entity_at(2, 5), new: entity_at(2, 9) },
        UncbMessage::PlayerInserted { data: player(3, 3) },
        UncbMessage::EntityUpdated { old: entity_at(1, 0), new: entity_at(1, 4) },
        UncbMessage::PlayerRemoved { data: player(3, 3) },
        UncbMessage::EntityUpdated { old: entity_at(2, 9), new: entity_at(2, 11) },
    ]
}

#[test]
fn replay_is_independent_of_batching() {
    let all = history();
    let mut whole = PlayerDataResource::new();
    whole.apply_all(&all);
    for split in 0..=all.len() {
        let mut parts = PlayerDataResource::new();
        let first: Vec<UncbMessage> = all[..split].iter().map(copy_message).collect();
        let second: Vec<UncbMessage> = all[split..].iter().map(copy_message).collect();
        parts.apply_all(&first);
        parts.apply_all(&second);
        assert_eq!(parts.player_vec, whole.player_vec);
        assert_eq!(parts.entity_vec, whole.entity_vec);
        assert_eq!(parts.local, whole.local);
    }
    let mut one_by_one = PlayerDataResource::new();
    for m in all.iter() {
        one_by_one.apply(m);
    }
    assert_eq!(one_by_one.player_vec, whole.player_vec);
    assert_eq!(one_by_one.entity_vec, whole.entity_vec);
    assert_eq!(whole.player_vec, vec![player(1, 1), player(2, 2)]);
    assert_eq!(whole.entity_vec, vec![entity_at(1, 4), entity_at(2, 11)]);
}

fn copy_message(m: &UncbMessage) -> UncbMessage {
    match m {
        UncbMessage::Connected { identity } => UncbMessage::Connected { identity: *identity },
        UncbMessage::Disconnected => UncbMessage::Disconnected,
        UncbMessage::PlayerInserted { data } => UncbMessage::PlayerInserted { data: *data },
        UncbMessage::PlayerUpdated { old, new } => UncbMessage::PlayerUpdated { old: *old, new: *new },
        UncbMessage::PlayerRemoved { data } => UncbMessage::PlayerRemoved { data: *data },
        UncbMessage::EntityInserted { data } => UncbMessage::EntityInserted { data: data.clone() },
        UncbMessage::EntityUpdated { old, new } => UncbMessage::EntityUpdated { old: old.clone(), new: new.clone() },
        UncbMessage::EntityRemoved { data } => UncbMessage::EntityRemoved { data: data.clone() },
    }
}

#[test]
fn reinsert_is_a_no_op() {
    let mut reg = PlayerDataResource::new();
    reg.apply(&UncbMessage::Connected { identity: ident(1) });
    assert!(reg.apply(&UncbMessage::PlayerInserted { data: player(7, 2) }));
    assert!(!reg.apply(&UncbMessage::PlayerInserted { data: player(7, 9) }));
    assert_eq!(reg.player_vec, vec![player(7, 2)]);
    reg.apply(&UncbMessage::EntityInserted { data: entity_at(7, 3) });
    reg.apply(&UncbMessage::EntityInserted { data: entity_at(7, 8) });
    assert_eq!(reg.entity_vec, vec![entity_at(7, 3)]);
}

#[test]
fn new_player_signal_fires_once_and_only_for_others() {
    let mut reg = PlayerDataResource::new();
    let own = vec![UncbMessage::Connected { identity: ident(1) }, UncbMessage::PlayerInserted { data: player(1, 1) }];
    assert_eq!(reg.apply_all(&own), NewPlayer(false));
    let other = vec![UncbMessage::PlayerInserted { data: player(2, 2) }];
    assert_eq!(reg.apply_all(&other), NewPlayer(true));
    assert_eq!(reg.apply_all(&other), NewPlayer(false));
    assert_eq!(reg.apply_all(&Vec::new()), NewPlayer(false));
}

#[test]
fn local_identity_is_taken_once() {
    let mut reg = PlayerDataResource::new();
    reg.apply(&UncbMessage::Connected { identity: ident(1) });
    reg.apply(&UncbMessage::Connected { identity: ident(2) });
    assert_eq!(reg.local, Some(ident(1)));
}

#[test]
fn classification_by_owner_identity() {
    let mut reg = PlayerDataResource::new();
    reg.apply_all(&vec![
        UncbMessage::Connected { identity: ident(1) },
        UncbMessage::PlayerInserted { data: player(10, 1) },
        UncbMessage::PlayerInserted { data: player(20, 2) },
        UncbMessage::PlayerInserted { data: player(30, 3) },
    ]);
    assert!(reg.is_local(10));
    assert!(!reg.is_local(20));
    assert!(!reg.is_local(30));
    assert!(!reg.is_local(40));
    let mut before_handshake = PlayerDataResource::new();
    before_handshake.apply(&UncbMessage::PlayerInserted { data: player(10, 1) });
    assert!(!before_handshake.is_local(10));
}

#[test]
fn update_replaces_or_adds_and_removal_drops() {
    let mut reg = PlayerDataResource::new();
    reg.apply(&UncbMessage::PlayerUpdated { old: player(4, 1), new: player(4, 2) });
    assert_eq!(reg.player_vec, vec![player(4, 2)]);
    reg.apply(&UncbMessage::PlayerUpdated { old: player(4, 2), new: player(4, 3) });
    assert_eq!(reg.player_vec, vec![player(4, 3)]);
    reg.apply(&UncbMessage::EntityInserted { data: entity_at(4, 1) });
    reg.apply(&UncbMessage::EntityRemoved { data: entity_at(4, 1) });
    reg.apply(&UncbMessage::EntityRemoved { data: entity_at(4, 1) });
    assert!(reg.entity_vec.is_empty());
    reg.apply(&UncbMessage::PlayerRemoved { data: player(4, 3) });
    assert!(reg.player_vec.is_empty());
    assert_eq!(reg.find_player(4), None);
}
