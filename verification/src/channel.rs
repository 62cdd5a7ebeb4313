//! The broadcast channels that carry the messages of a room.
use tokio::sync::broadcast::Sender;
use vstd::prelude::*;
use crate::table::Table;

verus! {

/// How many messages a room's channel holds for a receiver that lags behind.
pub const CHANNEL_CAPACITY: usize = 128;

#[verifier::external_type_specification]
#[verifier::external_body]
#[verifier::reject_recursive_types(T)]
pub struct ExSender<T>(tokio::sync::broadcast::Sender<T>);

/// The capacity that a channel was made with.
pub uninterp spec fn channel_capacity(tx: Sender<String>) -> nat;

/// `tokio::sync::broadcast::channel`: a new channel of the given capacity. Two handles are equal
/// where they lead to the same channel; every call makes a channel of its own, so none of the
/// handles that are already known leads to it.
#[allow(unused_variables)]
#[verifier::external_body]
pub(crate) fn open_channel(capacity: usize, known: &Table<Sender<String>>) -> (r: Sender<String>)
    requires
        0 < capacity <= usize::MAX / 2,
    ensures
        channel_capacity(r) == capacity,
        forall|k: Seq<char>| #[trigger] known@.contains_key(k) ==> known@[k] != r,
{
    tokio::sync::broadcast::channel(capacity).0
}

/// `tokio::sync::broadcast::Sender::clone`: another handle to the same channel.
pub assume_specification<T>[ <tokio::sync::broadcast::Sender<T> as Clone>::clone ](
    tx: &tokio::sync::broadcast::Sender<T>,
) -> (r: tokio::sync::broadcast::Sender<T>)
    ensures
        r == *tx,
;

} // verus!
