use vstd::prelude::*;

use crate::frame::{spec_parse, spec_serialize, Frame, FrameView};
use crate::Error;

verus! {

/// The codec that turns datagrams into frames and frames into datagrams.
#[derive(Debug)]
pub struct Codec;

impl Codec {
    /// Reads the frame that a datagram holds. Every datagram gives a frame or
    /// an error; `Ok(None)` never comes back.
    pub fn decode(&mut self, bytes: &[u8]) -> (r: Result<Option<Frame>, Error>)
        ensures
            match r {
                Ok(Some(f)) => spec_parse(bytes@) == Ok::<FrameView, Error>(f@),
                Ok(None) => false,
                Err(e) => spec_parse(bytes@) == Err::<FrameView, Error>(e),
            },
    {
        match Frame::parse(bytes) {
            Ok(f) => Ok(Some(f)),
            Err(e) => Err(e),
        }
    }

    /// Appends the wire format of `frame` to `bytes`; this never fails.
    pub fn encode(&mut self, frame: Frame, bytes: &mut Vec<u8>) -> (r: Result<(), Error>)
        requires
            old(bytes)@.len() + spec_serialize(frame@).len() <= usize::MAX,
        ensures
            r is Ok,
            final(bytes)@ == old(bytes)@ + spec_serialize(frame@),
    {
        frame.write_to_buf(bytes);
        Ok(())
    }
}

} // verus!
