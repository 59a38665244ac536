//! The clock and the command channel of the standard library, as the search
//! reads them. Nothing is claimed of what they answer.

use vstd::prelude::*;

verus! {

/// `std::time::Instant`: a reading of the monotonic clock.
#[verifier::external_type_specification]
#[verifier::external_body]
pub struct ExInstant(std::time::Instant);

/// `std::sync::mpsc::Receiver`: the receiving end of a channel.
#[verifier::external_type_specification]
#[verifier::external_body]
#[verifier::reject_recursive_types(T)]
pub struct ExReceiver<T>(std::sync::mpsc::Receiver<T>);

/// `std::sync::mpsc::TryRecvError`: why nothing was received.
#[verifier::external_type_specification]
#[verifier::external_body]
pub struct ExTryRecvError(std::sync::mpsc::TryRecvError);

/// `Instant::now`: the clock as it stands.
pub assume_specification[ std::time::Instant::now ]() -> (now: std::time::Instant)
;

/// `Instant::elapsed`: the time since the reading was taken.
pub assume_specification[ std::time::Instant::elapsed ](start: &std::time::Instant) -> (elapsed:
    std::time::Duration)
;

/// `Duration::as_millis`: the whole milliseconds of a duration.
pub assume_specification[ std::time::Duration::as_millis ](duration: &std::time::Duration) -> (millis:
    u128)
;

/// `Duration::as_nanos`: the whole nanoseconds of a duration.
pub assume_specification[ std::time::Duration::as_nanos ](duration: &std::time::Duration) -> (nanos:
    u128)
;

/// `Receiver::try_recv`: the next value that waits in the channel, if one
/// does.
pub assume_specification<T>[ std::sync::mpsc::Receiver::<T>::try_recv ](
    receiver: &std::sync::mpsc::Receiver<T>,
) -> (received: Result<T, std::sync::mpsc::TryRecvError>)
;

} // verus!
