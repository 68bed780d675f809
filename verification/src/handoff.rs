//! The bounded hand-off queue: slot indices travel from the reader to the
//! workers as `Some(idx)` tokens, termination as `None` tokens. The queue is
//! a crossbeam channel behind trusted wrappers; each endpoint carries the
//! ghost log of the tokens it has passed, so the verified thread loops can
//! state exactly what they published or consumed.

use vstd::prelude::*;

verus! {

#[verifier::external_type_specification]
#[verifier::external_body]
#[verifier::reject_recursive_types(T)]
pub struct ExSender<T>(crossbeam_channel::Sender<T>);

#[verifier::external_type_specification]
#[verifier::external_body]
#[verifier::reject_recursive_types(T)]
pub struct ExReceiver<T>(crossbeam_channel::Receiver<T>);

/// The sending half of the hand-off queue, with the ghost log of every
/// token it has accepted, in order.
pub struct TokenSender {
    pub inner: crossbeam_channel::Sender<Option<usize>>,
    pub sent: Ghost<Seq<Option<usize>>>,
}

/// A receiving half of the hand-off queue, with the ghost log of every
/// token this endpoint has handed out, in order.
pub struct TokenReceiver {
    pub inner: crossbeam_channel::Receiver<Option<usize>>,
    pub taken: Ghost<Seq<Option<usize>>>,
}

/// Relies on crossbeam_channel::bounded: a first-in-first-out channel of
/// the given capacity; a send blocks while the queue is full, a receive
/// while it is empty. The capacity bound keeps clear of the size at which
/// the channel refuses to initialize.
#[verifier::external_body]
fn bounded_channel(capacity: usize) -> (q: (
    crossbeam_channel::Sender<Option<usize>>,
    crossbeam_channel::Receiver<Option<usize>>,
))
    requires
        1 <= capacity <= 0x1000_0000,
{
    crossbeam_channel::bounded(capacity)
}

/// A fresh hand-off queue of the given capacity, both endpoints with empty
/// logs.
pub fn new_handoff_queue(capacity: usize) -> (q: (TokenSender, TokenReceiver))
    requires
        1 <= capacity <= 0x1000_0000,
    ensures
        q.0.sent@ == Seq::<Option<usize>>::empty(),
        q.1.taken@ == Seq::<Option<usize>>::empty(),
{
    let (tx, rx) = bounded_channel(capacity);
    (
        TokenSender { inner: tx, sent: Ghost(Seq::empty()) },
        TokenReceiver { inner: rx, taken: Ghost(Seq::empty()) },
    )
}

impl TokenSender {
    /// Relies on crossbeam_channel::Sender::send: blocks until there is
    /// room, delivers the token exactly once, and fails only when every
    /// receiver is gone.
    #[verifier::external_body]
    pub fn send_token(&mut self, token: Option<usize>) -> (ok: bool)
        ensures
            ok ==> final(self).sent@ == old(self).sent@.push(token),
            !ok ==> final(self).sent@ == old(self).sent@,
    {
        self.inner.send(token).is_ok()
    }
}

impl TokenReceiver {
    /// Relies on crossbeam_channel::Receiver::recv: blocks until a token
    /// arrives, hands each sent token to exactly one receiver, and fails
    /// only when the queue is empty and every sender is gone.
    #[verifier::external_body]
    pub fn recv_token(&mut self) -> (t: Option<Option<usize>>)
        ensures
            t matches Some(token) ==> final(self).taken@ == old(self).taken@.push(token),
            t is None ==> final(self).taken@ == old(self).taken@,
    {
        match self.inner.recv() {
            Ok(v) => Some(v),
            Err(_) => None,
        }
    }

    /// Another endpoint of the same queue, competing for the same tokens;
    /// its own log starts empty.
    pub fn clone_endpoint(&self) -> (r: TokenReceiver)
        ensures
            r.taken@ == Seq::<Option<usize>>::empty(),
    {
        TokenReceiver { inner: clone_receiver(&self.inner), taken: Ghost(Seq::empty()) }
    }
}

/// Relies on crossbeam_channel::Receiver::clone: a second receiving
/// endpoint of the same queue.
#[verifier::external_body]
fn clone_receiver(rx: &crossbeam_channel::Receiver<Option<usize>>) -> (r: crossbeam_channel::Receiver<
    Option<usize>,
>) {
    rx.clone()
}

} // verus!
