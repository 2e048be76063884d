//! The channels that carry messages to subscribers and bytes to the runner,
//! from the `async-channel` crate. Whether a send arrives depends on the
//! receiving side, which lives elsewhere: nothing is promised of it here, and
//! the callers handle either outcome.
use vstd::prelude::*;

verus! {

#[verifier::external_type_specification]
#[verifier::external_body]
#[verifier::reject_recursive_types(T)]
pub struct ExSender<T>(async_channel::Sender<T>);

#[verifier::external_type_specification]
#[verifier::external_body]
#[verifier::reject_recursive_types(T)]
pub struct ExReceiver<T>(async_channel::Receiver<T>);

#[verifier::external_type_specification]
#[verifier::external_body]
#[verifier::reject_recursive_types(T)]
pub struct ExTrySendError<T>(async_channel::TrySendError<T>);

/// Relies on `async_channel::unbounded`: a new channel without a bound.
pub assume_specification<T>[ async_channel::unbounded::<T> ]() -> (async_channel::Sender<T>, async_channel::Receiver<T>);

/// Relies on `async_channel::Sender::try_send`: it queues the message, or
/// fails when the channel is full or closed.
pub assume_specification<T>[ async_channel::Sender::<T>::try_send ](s: &async_channel::Sender<T>, msg: T) -> Result<(), async_channel::TrySendError<T>>;

/// Relies on `async_channel::Sender::close`: it closes the channel, and says
/// whether this call was the one that closed it.
pub assume_specification<T>[ async_channel::Sender::<T>::close ](s: &async_channel::Sender<T>) -> bool;

/// Relies on `Clone for async_channel::Sender`: another handle to the same
/// channel.
pub assume_specification<T>[ <async_channel::Sender<T> as Clone>::clone ](s: &async_channel::Sender<T>) -> async_channel::Sender<T>;

} // verus!
