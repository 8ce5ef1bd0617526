//! A caller who gets every frame.

use super::frames::frame_for;
use super::receive::{limit_voice_frame_result, ReadyFrameQueue};
use crate::errors::{BackpressureError, Error};
use crate::media::ReceivedFrame;
use vstd::prelude::*;

verus! {

/// Who gets the frames, and how long a frame may be.
#[derive(Clone, Copy, Debug, PartialEq, Eq, Structural)]
pub struct FrameStream {
    pub id: u64,
    pub max_len: usize,
}

/// The stream of a connection: there is one at most.
pub struct FrameStreams {
    pub open: Option<FrameStream>,
}

impl FrameStreams {
    pub fn new() -> (streams: Self)
        ensures
            streams.open is None,
    {
        FrameStreams { open: None }
    }

    /// Opens a stream. While one is open another is refused.
    pub fn attach(&mut self, id: u64, max_len: usize) -> (result: Result<(), Error>)
        ensures
            match old(self).open {
                None => {
                    &&& result == Ok::<(), Error>(())
                    &&& final(self).open == Some(FrameStream { id, max_len })
                },
                Some(_) => {
                    &&& result == Err::<(), Error>(
                        Error::Backpressure(BackpressureError::ActiveFrameStream),
                    )
                    &&& *final(self) == *old(self)
                },
            },
    {
        if self.open.is_some() {
            return Err(Error::Backpressure(BackpressureError::ActiveFrameStream));
        }
        self.open = Some(FrameStream { id, max_len });
        Ok(())
    }

    /// Closes a stream, if it is the one that is open.
    pub fn detach(&mut self, id: u64) -> (closed: bool)
        ensures
            closed == (old(self).open matches Some(stream) && stream.id == id),
            final(self).open == (if closed {
                None
            } else {
                old(self).open
            }),
    {
        let closed = match self.open {
            Some(stream) => stream.id == id,
            None => false,
        };
        if closed {
            self.open = None;
        }
        closed
    }

    /// Gives the frame that is ready first to the stream. Says which stream gets what;
    /// nothing happens where there is no frame, or no stream is open.
    pub fn give<Raw>(&self, ready: &mut ReadyFrameQueue<Raw>) -> (given: Option<
        (u64, Result<ReceivedFrame<Raw>, Error>),
    >)
        ensures
            final(ready).room() == old(ready).room(),
            match self.open {
                Some(stream) if old(ready)@.len() > 0 => {
                    &&& given == Some((stream.id, frame_for(stream.max_len, old(ready)@[0])))
                    &&& final(ready)@ == old(ready)@.drop_first()
                },
                _ => {
                    &&& given is None
                    &&& final(ready)@ == old(ready)@
                },
            },
    {
        let stream = match self.open {
            Some(stream) => stream,
            None => {
                return None;
            },
        };
        match ready.pop_front() {
            Some(result) => Some((stream.id, limit_voice_frame_result(result, stream.max_len))),
            None => None,
        }
    }
}

} // verus!
