//! What callers of a connection are told.

use crate::errors::{BackpressureError, Error, InvalidInputError};
use crate::media::ReceivedFrame;
use crate::time::Duration;
use vstd::prelude::*;

verus! {

/// What became of something that was put in a queue.
#[derive(Clone, Copy, Debug, PartialEq, Eq, Structural)]
pub enum Queued {
    Taken,
    Full,
    Closed,
}

/// Nothing is taken once the connection is closed.
pub fn ensure_open(closed: bool) -> (result: Result<(), Error>)
    ensures
        result == (if closed {
            Err::<(), Error>(Error::Closed)
        } else {
            Ok::<(), Error>(())
        }),
{
    if closed {
        Err(Error::Closed)
    } else {
        Ok(())
    }
}

/// Nobody waits for nothing.
pub fn ensure_max_len(max_len: usize) -> (result: Result<(), Error>)
    ensures
        result == (if max_len == 0 {
            Err::<(), Error>(Error::InvalidInput(InvalidInputError::ZeroMaxLen))
        } else {
            Ok::<(), Error>(())
        }),
{
    if max_len == 0 {
        Err(Error::InvalidInput(InvalidInputError::ZeroMaxLen))
    } else {
        Ok(())
    }
}

/// What became of a command.
pub fn command_queued(queued: Queued) -> (result: Result<(), Error>)
    ensures
        result == (match queued {
            Queued::Taken => Ok::<(), Error>(()),
            Queued::Full => Err::<(), Error>(
                Error::Backpressure(BackpressureError::CommandQueueFull),
            ),
            Queued::Closed => Err::<(), Error>(Error::Closed),
        }),
{
    match queued {
        Queued::Taken => Ok(()),
        Queued::Full => Err(Error::Backpressure(BackpressureError::CommandQueueFull)),
        Queued::Closed => Err(Error::Closed),
    }
}

/// What became of media.
pub fn media_queued(queued: Queued) -> (result: Result<(), Error>)
    ensures
        result == (match queued {
            Queued::Taken => Ok::<(), Error>(()),
            Queued::Full => Err::<(), Error>(Error::Backpressure(BackpressureError::MediaQueueFull)),
            Queued::Closed => Err::<(), Error>(Error::Closed),
        }),
{
    match queued {
        Queued::Taken => Ok(()),
        Queued::Full => Err(Error::Backpressure(BackpressureError::MediaQueueFull)),
        Queued::Closed => Err(Error::Closed),
    }
}

/// What a caller gets who waits for a frame for some time: nothing, where no frame came.
/// Other errors stay, and so does another time that was over.
pub fn frame_in_time<Raw>(result: Result<ReceivedFrame<Raw>, Error>, max_wait: Duration) -> (frame:
    Result<Option<ReceivedFrame<Raw>>, Error>)
    ensures
        frame == (match result {
            Ok(frame) => Ok::<Option<ReceivedFrame<Raw>>, Error>(Some(frame)),
            Err(error) => if error == (Error::Timeout { stage: None, duration: max_wait }) {
                Ok::<Option<ReceivedFrame<Raw>>, Error>(None)
            } else {
                Err::<Option<ReceivedFrame<Raw>>, Error>(error)
            },
        }),
{
    match result {
        Ok(frame) => Ok(Some(frame)),
        Err(error) => {
            let over = match &error {
                Error::Timeout { stage, duration } => stage.is_none() && *duration == max_wait,
                _ => false,
            };
            if over {
                Ok(None)
            } else {
                Err(error)
            }
        },
    }
}

} // verus!
