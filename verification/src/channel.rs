//! The control channel: an unbounded FIFO of boolean run/stop signals
//! shared by the editing surface (producer) and the scheduler loop
//! (consumer). The same channel carries the re-sync pulse.

use vstd::prelude::*;

verus! {

#[verifier::external_type_specification]
#[verifier::external_body]
#[verifier::reject_recursive_types(T)]
pub struct ExSender<T>(crossbeam_channel::Sender<T>);

#[verifier::external_type_specification]
#[verifier::external_body]
#[verifier::reject_recursive_types(T)]
pub struct ExReceiver<T>(crossbeam_channel::Receiver<T>);

/// Relies on crossbeam_channel::Sender::send on an unbounded channel:
/// the signal is enqueued without blocking, in send order. Sending
/// fails only when every receiver is gone, in which case the signal
/// has no observer and is dropped, as the editing surface drops it.
#[verifier::external_body]
fn send_signal(s: &crossbeam_channel::Sender<bool>, on: bool) {
    let _ = s.send(on);
}

/// Relies on crossbeam_channel::Receiver::try_recv: yields the oldest
/// pending signal without blocking, or nothing when the channel is
/// empty or closed. The value depends on the sending threads, so
/// nothing is promised of it; the callers hold for every outcome.
#[verifier::external_body]
pub(crate) fn try_recv_signal(r: &crossbeam_channel::Receiver<bool>) -> Option<bool> {
    r.try_recv().ok()
}

/// Asks the scheduler loop to run: sends `true` on the control channel.
pub fn start(s: &crossbeam_channel::Sender<bool>) {
    send_signal(s, true);
}

/// Asks the scheduler loop to pause: sends `false` on the control channel.
pub fn stop(s: &crossbeam_channel::Sender<bool>) {
    send_signal(s, false);
}

/// The re-sync pulse. After any structural edit of the shared target
/// list, a stop followed by a start is pushed, so that the scheduler
/// loop observes a `true` on its next drain and rebuilds its snapshot
/// from the edited list before its next match attempt.
pub fn send_resync(s: &crossbeam_channel::Sender<bool>) {
    stop(s);
    start(s);
}

} // verus!
