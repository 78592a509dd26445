//! The handoff channel between the producer and the render loop.
//!
//! It is a channel of the standard library, made by the program with room
//! for no waiting position: a send returns only when the position has been
//! taken or the receiving end is gone.  Nothing here is proved of it; the
//! two calls below say so by promising nothing of their answers.

use crate::position::Position;
use std::sync::mpsc::{Receiver, SyncSender, TryRecvError};
use vstd::prelude::*;

verus! {

/// `std::sync::mpsc::SyncSender`, carried as an opaque value.
#[verifier::external_type_specification]
#[verifier::external_body]
#[verifier::reject_recursive_types(T)]
pub struct ExSyncSender<T>(SyncSender<T>);

/// `std::sync::mpsc::Receiver`, carried as an opaque value.
#[verifier::external_type_specification]
#[verifier::external_body]
#[verifier::reject_recursive_types(T)]
pub struct ExReceiver<T>(Receiver<T>);

/// What one look into the channel found.
#[derive(Clone, Copy, Debug, PartialEq, Eq)]
pub enum Received {
    /// A position was waiting.
    Fresh(Position),
    /// Nothing was waiting.
    Empty,
    /// Nothing was waiting and the sending end is gone.
    Disconnected,
}

/// Calls `SyncSender::send` and tells whether the position was handed
/// over.  Nothing is claimed of the answer: it depends on the other end.
#[verifier::external_body]
pub(crate) fn send(tx: &SyncSender<Position>, position: Position) -> (delivered: bool) {
    tx.send(position).is_ok()
}

/// Calls `Receiver::try_recv`, which does not wait, and tells its three
/// outcomes apart.  Nothing is claimed of the answer: it depends on the
/// other end.
#[verifier::external_body]
pub(crate) fn try_recv(rx: &Receiver<Position>) -> (found: Received) {
    match rx.try_recv() {
        Ok(position) => Received::Fresh(position),
        Err(TryRecvError::Empty) => Received::Empty,
        Err(TryRecvError::Disconnected) => Received::Disconnected,
    }
}

} // verus!
