//! The handle through which the host is told that data is ready.

use std::sync::mpsc::Sender;
use vstd::prelude::*;

verus! {

/// The sending half of a standard channel. Nothing is known of what it holds.
#[verifier::external_type_specification]
#[verifier::external_body]
#[verifier::reject_recursive_types(T)]
pub struct ExSender<T>(Sender<T>);

/// Calls `std::sync::mpsc::Sender::send` with the unit value and drops the
/// outcome: a hung-up receiver is not an error here. Nothing is claimed of
/// the call.
#[verifier::external_body]
fn send_unit(tx: &Sender<()>) {
    let _ = tx.send(());
}

/// The host's "data is ready" callback, reached through a channel so that
/// signalling never blocks the caller. It counts the signals it has sent.
pub struct IRTDUpdateEventWrap {
    tx: Sender<()>,
    sent: Ghost<nat>,
}

impl IRTDUpdateEventWrap {
    /// How many times this handle has signalled the host.
    pub closed spec fn notified(&self) -> nat {
        self.sent@
    }

    /// A handle that signals through `tx` and has not signalled yet.
    pub fn new(tx: Sender<()>) -> (r: IRTDUpdateEventWrap)
        ensures
            r.notified() == 0,
    {
        IRTDUpdateEventWrap { tx, sent: Ghost(0) }
    }

    /// Signals the host once that data is ready.
    pub fn update_notify(&mut self)
        ensures
            final(self).notified() == old(self).notified() + 1,
    {
        send_unit(&self.tx);
        proof {
            self.sent@ = self.sent@ + 1;
        }
    }
}

} // verus!
