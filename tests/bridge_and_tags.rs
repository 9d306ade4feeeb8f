use dagalok::bridge::{absorb, Received, UncbMessage, UncbReceiver};
use dagalok::connection::{client_inserted, client_updated, identity_leading_hex, ConnectionChange};
use dagalok::model::{Client, Identity, PlayerComponent};
use futures_channel::mpsc;

fn ident(b: u8) -> Identity {
    Identity { bytes: [b; 32] }
}

#[test]
fn drain_keeps_arrival_order() {
    let (tx, rx) = mpsc::unbounded();
    let mut recv = UncbReceiver::new(rx);
    assert!(recv.process_messages().0.is_empty());
    for id in 1..=3u64 {
        tx.unbounded_send(UncbMessage::PlayerInserted { data: PlayerComponent { entity_id: id, owner_id: ident(1) } })
            .unwrap();
    }
    let batch = recv.process_messages().0;
    let ids: Vec<u64> = batch
        .iter()
        .map(|m| match m {
            UncbMessage::PlayerInserted { data } => data.entity_id,
            _ => 0,
        })
        .collect();
    assert_eq!(ids, vec![1, 2, 3]);
    assert!(recv.process_messages().0.is_empty());
}

#[test]
fn closed_channel_ends_with_disconnect() {
    let (tx, rx) = mpsc::unbounded();
    let mut recv = UncbReceiver::new(rx);
    tx.unbounded_send(UncbMessage::Connected { identity: ident(2) }).unwrap();
    drop(tx);
    let batch = recv.process_messages().0;
    assert_eq!(batch.len(), 2);
    assert!(matches!(batch[0], UncbMessage::Connected { .. }));
    assert!(matches!(batch[1], UncbMessage::Disconnected));
    let again = recv.process_messages().0;
    assert_eq!(again.len(), 1);
    assert!(matches!(again[0], UncbMessage::Disconnected));
}

#[test]
fn absorb_steps() {
    let mut batch = Vec::new();
    assert!(absorb(&mut batch, Received::Message(UncbMessage::Disconnected)));
    assert_eq!(batch.len(), 1);
    assert!(!absorb(&mut batch, Received::Empty));
    assert_eq!(batch.len(), 1);
    assert!(!absorb(&mut batch, Received::Closed));
    assert_eq!(batch.len(), 2);
}

#[test]
fn identity_tag_is_leading_hex() {
    let mut bytes = [0u8; 32];
    bytes[0] = 0xab;
    bytes[1] = 0x01;
    bytes[7] = 0xf0;
    bytes[8] = 0xff;
    let tag = identity_leading_hex(&Identity { bytes });
    assert_eq!(tag, "ab010000000000f0");
}

#[test]
fn connection_changes() {
    let up = Client { client_id: ident(1), connected: true };
    let down = Client { client_id: ident(1), connected: false };
    assert_eq!(client_inserted(&up), ConnectionChange::Connected);
    assert_eq!(client_inserted(&down), ConnectionChange::Unchanged);
    assert_eq!(client_updated(&up, &down), ConnectionChange::Disconnected);
    assert_eq!(client_updated(&down, &up), ConnectionChange::Connected);
    assert_eq!(client_updated(&up, &up), ConnectionChange::Unchanged);
}
