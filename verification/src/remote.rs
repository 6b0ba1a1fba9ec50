//! The remote-store backend's decision logic.
//!
//! The remote backend speaks a plain key-value wire protocol — SET, GET and
//! DEL over a connection opened from a URI.  The network calls themselves
//! live outside the library, in the surrounding application; what is decided
//! here, and verified, is everything else: which physical keys an operation
//! touches, in which order the writes are issued, and what a fetched pair of
//! keys means.

use vstd::prelude::*;
use crate::cache::CacheError;
use crate::keys::{image_key, mime_key, image_key_spec, mime_key_spec,
    lemma_key_derivation_injective};
use crate::store::EntryModel;

verus! {

/// One command of the remote store's wire protocol.
pub enum StoreCommand {
    /// SET of a binary payload under a key.
    SetPayload(String, Vec<u8>),
    /// SET of a content-type label under a key.
    SetLabel(String, String),
    /// DEL of one key.
    Remove(String),
}

/// The writes an `insert` issues, in the order they must be sent: first the
/// payload under `"{identifier}-image"`, then the label under
/// `"{identifier}-mime"`.  The two writes are sequential, never atomic; a
/// failure after the first leaves an orphaned payload key (see
/// [`lemma_partial_write_observed`]).
pub fn insert_commands(identifier: &str, bytes: Vec<u8>, mime: String) -> (cmds: Vec<StoreCommand>)
    ensures
        cmds@.len() == 2,
        cmds@[0] matches StoreCommand::SetPayload(key, b) && key@ == image_key_spec(identifier@)
            && b@ == bytes@,
        cmds@[1] matches StoreCommand::SetLabel(key, label) && key@ == mime_key_spec(identifier@)
            && label@ == mime@,
{
    let mut cmds: Vec<StoreCommand> = Vec::new();
    cmds.push(StoreCommand::SetPayload(image_key(identifier), bytes));
    cmds.push(StoreCommand::SetLabel(mime_key(identifier), mime));
    cmds
}

/// The removals a `delete` issues, in the order they must be sent: the
/// payload key first, then the label key.
pub fn delete_commands(identifier: &str) -> (cmds: Vec<StoreCommand>)
    ensures
        cmds@.len() == 2,
        cmds@[0] matches StoreCommand::Remove(key) && key@ == image_key_spec(identifier@),
        cmds@[1] matches StoreCommand::Remove(key) && key@ == mime_key_spec(identifier@),
{
    let mut cmds: Vec<StoreCommand> = Vec::new();
    cmds.push(StoreCommand::Remove(image_key(identifier)));
    cmds.push(StoreCommand::Remove(mime_key(identifier)));
    cmds
}

/// The read policy for one fetched pair of derived keys, applied uniformly
/// to both: both keys absent is a miss (`None`); both present is the stored
/// object, byte for byte; one key without its companion is surfaced as
/// [`CacheError::IncompletePair`], never passed off as a miss or as a stale
/// default.
pub fn resolve_pair(image: Option<Vec<u8>>, mime: Option<String>) -> (r: Result<
    Option<(Vec<u8>, String)>,
    CacheError,
>)
    ensures
        match (image, mime) {
            (Some(b), Some(m)) => r matches Ok(Some(found)) && found.0@ == b@ && found.1@ == m@,
            (None, None) => r matches Ok(None),
            _ => r matches Err(CacheError::IncompletePair),
        },
{
    match (image, mime) {
        (Some(b), Some(m)) => Ok(Some((b, m))),
        (None, None) => Ok(None),
        _ => Err(CacheError::IncompletePair),
    }
}

/// The documented inconsistency window of the two-key design: when the
/// payload write of an `insert` lands and its companion label write fails,
/// the store is left holding the payload key with no label key beside it —
/// the keys never coincide — so a fetch of that identifier observes an
/// incomplete pair, not a miss.
pub proof fn lemma_partial_write_observed(
    store: Map<Seq<char>, EntryModel>,
    id: Seq<char>,
    bytes: Seq<u8>,
)
    requires
        !store.contains_key(mime_key_spec(id)),
    ensures
        store.insert(image_key_spec(id), EntryModel::Payload(bytes)).contains_key(
            image_key_spec(id),
        ),
        !store.insert(image_key_spec(id), EntryModel::Payload(bytes)).contains_key(
            mime_key_spec(id),
        ),
{
    lemma_key_derivation_injective(id, id);
}

} // verus!
