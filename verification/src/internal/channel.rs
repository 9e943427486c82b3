use vstd::prelude::*;

verus! {

/// `async_channel::Sender`, the sending side of a token channel: a handle
/// with nothing known of what lies behind it.
#[verifier::external_type_specification]
#[verifier::external_body]
#[verifier::reject_recursive_types(T)]
pub struct ExTokenSender<T>(async_channel::Sender<T>);

/// `async_channel::Receiver`, the receiving side of a token channel: a handle
/// with nothing known of what lies behind it.
#[verifier::external_type_specification]
#[verifier::external_body]
#[verifier::reject_recursive_types(T)]
pub struct ExTokenReceiver<T>(async_channel::Receiver<T>);

/// `async_channel::unbounded`: the two sides of a new channel, of which
/// nothing is claimed.
pub assume_specification<T>[ async_channel::unbounded::<T> ]() -> (pair: (
    async_channel::Sender<T>,
    async_channel::Receiver<T>,
))
;

/// `async_channel::Sender::close`: whether this call closed the channel, of
/// which nothing is claimed, since other handles may have closed it before.
pub assume_specification<T>[ async_channel::Sender::<T>::close ](
    sender: &async_channel::Sender<T>,
) -> (closed_now: bool)
;

} // verus!
