//! Session liveness as seen by the client: who connected, who left.
use vstd::prelude::*;
use crate::model::{Client, Identity};

verus! {

/// The lowercase hexadecimal digit for `n < 16`.
pub open spec fn hex_digit(n: int) -> char {
    seq!['0', '1', '2', '3', '4', '5', '6', '7', '8', '9', 'a', 'b', 'c', 'd', 'e', 'f'][n]
}

/// Two lowercase hexadecimal digits per byte, high nibble first.
pub open spec fn hex_of(bytes: Seq<u8>) -> Seq<char>
    decreases bytes.len(),
{
    if bytes.len() == 0 {
        Seq::empty()
    } else {
        hex_of(bytes.drop_last()) + seq![
            hex_digit(bytes.last() as int / 16),
            hex_digit(bytes.last() as int % 16),
        ]
    }
}

/// Relies on hex::encode: it writes each byte as two digits of "0123456789abcdef",
/// high nibble first, in the order of the bytes.
#[verifier::external_body]
fn encode_hex(bytes: &[u8]) -> (r: String)
    ensures
        r@ == hex_of(bytes@),
{
    hex::encode(bytes)
}

/// Number of leading identity bytes shown in a short identity tag.
pub const LEADING_BYTES: usize = 8;

/// The first eight bytes of an identity in hexadecimal: a short tag for logs.
pub fn identity_leading_hex(id: &Identity) -> (r: String)
    ensures
        r@ == hex_of(id.bytes@.subrange(0, 8)),
        r@.len() == 16,
{
    let mut lead: Vec<u8> = Vec::new();
    let mut i: usize = 0;
    while i < LEADING_BYTES
        invariant
            i <= LEADING_BYTES,
            lead@ == id.bytes@.subrange(0, i as int),
        decreases LEADING_BYTES - i,
    {
        lead.push(id.bytes[i]);
        i = i + 1;
        assert(lead@ =~= id.bytes@.subrange(0, i as int));
    }
    proof {
        lemma_hex_len(lead@);
    }
    encode_hex(lead.as_slice())
}

/// Hex text is twice as long as its bytes.
pub proof fn lemma_hex_len(bytes: Seq<u8>)
    ensures
        hex_of(bytes).len() == 2 * bytes.len(),
    decreases bytes.len(),
{
    if bytes.len() > 0 {
        lemma_hex_len(bytes.drop_last());
    }
}

/// A change in a session's liveness worth announcing.
#[derive(Clone, Copy, Debug, PartialEq, Eq, Structural)]
pub enum ConnectionChange {
    Connected,
    Disconnected,
    Unchanged,
}

/// A newly seen session is announced when it arrives connected.
pub fn client_inserted(client: &Client) -> (r: ConnectionChange)
    ensures
        r == (if client.connected { ConnectionChange::Connected } else { ConnectionChange::Unchanged }),
{
    if client.connected {
        ConnectionChange::Connected
    } else {
        ConnectionChange::Unchanged
    }
}

/// A session's row changed: announce a flip of its `connected` flag.
pub fn client_updated(old: &Client, new: &Client) -> (r: ConnectionChange)
    ensures
        r == (if old.connected && !new.connected {
            ConnectionChange::Disconnected
        } else if !old.connected && new.connected {
            ConnectionChange::Connected
        } else {
            ConnectionChange::Unchanged
        }),
{
    if old.connected && !new.connected {
        ConnectionChange::Disconnected
    } else if !old.connected && new.connected {
        ConnectionChange::Connected
    } else {
        ConnectionChange::Unchanged
    }
}

} // verus!
