//! The one-shot channels on which a waiting caller learns how its proposal
//! or its data request ended.
//!
//! The node keeps the sending half until the matter is settled and then
//! gives it away together with the result, so that no channel can carry a
//! second one.

use std::sync::mpsc::Receiver;
use std::sync::mpsc::Sender;
use vstd::prelude::*;

verus! {

/// `std::sync::mpsc::Sender`, carried through as an opaque value.
#[verifier::external_type_specification]
#[verifier::external_body]
#[verifier::reject_recursive_types(T)]
pub struct ExSender<T>(Sender<T>);

/// `std::sync::mpsc::Receiver`, carried through as an opaque value.
#[verifier::external_type_specification]
#[verifier::external_body]
#[verifier::reject_recursive_types(T)]
pub struct ExReceiver<T>(Receiver<T>);

/// Opens a channel with `std::sync::mpsc::channel`.
///
/// Trusted: nothing is claimed of the two halves.
#[verifier::external_body]
pub(crate) fn open_channel<T>() -> (halves: (Sender<T>, Receiver<T>)) {
    std::sync::mpsc::channel()
}

/// Hands `value` to `Sender::send` and lets the sender go.
///
/// Trusted: nothing is claimed. `send` fails when the receiver is gone, which
/// means that the caller has stopped waiting; the failure is dropped.
#[verifier::external_body]
pub(crate) fn notify<T>(notifier: Sender<T>, value: T) {
    let _ = notifier.send(value);
}

} // verus!
