use vstd::bytes::{
    lemma_auto_spec_u64_to_from_le_bytes, spec_u64_from_le_bytes, spec_u64_to_le_bytes,
};
use vstd::prelude::*;

use crate::outside::{
    buf_copy_to_slice, buf_get_u64_le, buf_get_u8, buf_put, buf_put_u64_le, buf_put_u8,
};
use crate::{Error, MessageTypeID, TaskID};

verus! {

/// A frame, the unit of communication between StahlNet peers.
#[derive(Clone, Debug)]
pub enum Frame {
    /// A peer announces itself.
    PeerHello,
    /// A peer leaves.
    PeerBye,
    /// A task can be reached in the given number of hops.
    TaskHello(u64, TaskID),
    /// A task has gone away.
    TaskBye(TaskID),
    /// A peer asks for a route to a task.
    FindTask(TaskID),
    /// A message from a task to a task, with its type and payload.
    Message(TaskID, TaskID, MessageTypeID, Vec<u8>),
}

/// What a frame holds, with the payload of a message as a sequence of bytes.
pub ghost enum FrameView {
    PeerHello,
    PeerBye,
    TaskHello(u64, TaskID),
    TaskBye(TaskID),
    FindTask(TaskID),
    Message(TaskID, TaskID, MessageTypeID, Seq<u8>),
}

impl View for Frame {
    type V = FrameView;

    open spec fn view(&self) -> FrameView {
        match self {
            Frame::PeerHello => FrameView::PeerHello,
            Frame::PeerBye => FrameView::PeerBye,
            Frame::TaskHello(hops, task) => FrameView::TaskHello(*hops, *task),
            Frame::TaskBye(task) => FrameView::TaskBye(*task),
            Frame::FindTask(task) => FrameView::FindTask(*task),
            Frame::Message(from, to, msg_type, data) => FrameView::Message(
                *from,
                *to,
                *msg_type,
                data@,
            ),
        }
    }
}

/// The eight bytes from `i` read as a little-endian number.
pub open spec fn u64_at(s: Seq<u8>, i: int) -> u64 {
    spec_u64_from_le_bytes(s.subrange(i, i + 8))
}

/// The wire format of a frame: a tag byte, then the fields in order, each
/// number as eight little-endian bytes, and a message's payload last.
pub open spec fn spec_serialize(f: FrameView) -> Seq<u8> {
    match f {
        FrameView::PeerHello => seq![0u8],
        FrameView::PeerBye => seq![1u8],
        FrameView::TaskHello(hops, task) => seq![2u8] + spec_u64_to_le_bytes(hops)
            + spec_u64_to_le_bytes(task.0),
        FrameView::TaskBye(task) => seq![3u8] + spec_u64_to_le_bytes(task.0),
        FrameView::FindTask(task) => seq![4u8] + spec_u64_to_le_bytes(task.0),
        FrameView::Message(from, to, msg_type, data) => seq![5u8] + spec_u64_to_le_bytes(from.0)
            + spec_u64_to_le_bytes(to.0) + spec_u64_to_le_bytes(msg_type.0) + data,
    }
}

/// The number of bytes that follow the tag byte in a frame with this tag,
/// not counting a message's payload; `None` for an unknown tag.
pub open spec fn body_len(tag: u8) -> Option<int> {
    if tag == 0 || tag == 1 {
        Some(0)
    } else if tag == 2 {
        Some(16)
    } else if tag == 3 || tag == 4 {
        Some(8)
    } else if tag == 5 {
        Some(24)
    } else {
        None
    }
}

/// How a datagram is read as a frame. An empty or truncated datagram is an
/// unexpected end of packet, an unknown tag byte is reported with its value,
/// and bytes left over after a complete frame are trailing data. A message
/// takes every byte after its three numbers as its payload.
pub open spec fn spec_parse(s: Seq<u8>) -> Result<FrameView, Error> {
    if s.len() == 0 {
        Err(Error::UnexpectedEof)
    } else {
        let tag = s[0];
        match body_len(tag) {
            None => Err(Error::UnknownFrameType(tag)),
            Some(n) => if s.len() < 1 + n {
                Err(Error::UnexpectedEof)
            } else if tag != 5 && s.len() > 1 + n {
                Err(Error::UnexpectedTrailing)
            } else if tag == 0 {
                Ok(FrameView::PeerHello)
            } else if tag == 1 {
                Ok(FrameView::PeerBye)
            } else if tag == 2 {
                Ok(FrameView::TaskHello(u64_at(s, 1), TaskID(u64_at(s, 9))))
            } else if tag == 3 {
                Ok(FrameView::TaskBye(TaskID(u64_at(s, 1))))
            } else if tag == 4 {
                Ok(FrameView::FindTask(TaskID(u64_at(s, 1))))
            } else {
                Ok(
                    FrameView::Message(
                        TaskID(u64_at(s, 1)),
                        TaskID(u64_at(s, 9)),
                        MessageTypeID(u64_at(s, 17)),
                        s.subrange(25, s.len() as int),
                    ),
                )
            },
        }
    }
}

/// Reading back what a frame was written as gives that frame.
pub proof fn lemma_serialize_parse_roundtrip(f: FrameView)
    ensures
        spec_parse(spec_serialize(f)) == Ok::<FrameView, Error>(f),
{
    lemma_auto_spec_u64_to_from_le_bytes();
    let s = spec_serialize(f);
    match f {
        FrameView::TaskHello(hops, task) => {
            assert(s.subrange(1, 9) =~= spec_u64_to_le_bytes(hops));
            assert(s.subrange(9, 17) =~= spec_u64_to_le_bytes(task.0));
        },
        FrameView::TaskBye(task) => {
            assert(s.subrange(1, 9) =~= spec_u64_to_le_bytes(task.0));
        },
        FrameView::FindTask(task) => {
            assert(s.subrange(1, 9) =~= spec_u64_to_le_bytes(task.0));
        },
        FrameView::Message(from, to, msg_type, data) => {
            assert(s.subrange(1, 9) =~= spec_u64_to_le_bytes(from.0));
            assert(s.subrange(9, 17) =~= spec_u64_to_le_bytes(to.0));
            assert(s.subrange(17, 25) =~= spec_u64_to_le_bytes(msg_type.0));
            assert(s.subrange(25, s.len() as int) =~= data);
        },
        _ => {},
    }
}

/// A datagram that reads as a frame is exactly what that frame is written as.
pub proof fn lemma_parse_serialize_roundtrip(s: Seq<u8>)
    ensures
        spec_parse(s) matches Ok(f) ==> spec_serialize(f) == s,
{
    lemma_auto_spec_u64_to_from_le_bytes();
    if let Ok(f) = spec_parse(s) {
        let tag = s[0];
        let b1 = s.subrange(1, 9);
        let b9 = s.subrange(9, 17);
        let b17 = s.subrange(17, 25);
        if tag == 0 || tag == 1 {
            assert(spec_serialize(f) =~= s);
        } else if tag == 2 {
            assert(spec_u64_to_le_bytes(spec_u64_from_le_bytes(b1)) == b1);
            assert(spec_u64_to_le_bytes(spec_u64_from_le_bytes(b9)) == b9);
            assert(spec_serialize(f) =~= s);
        } else if tag == 3 || tag == 4 {
            assert(spec_u64_to_le_bytes(spec_u64_from_le_bytes(b1)) == b1);
            assert(spec_serialize(f) =~= s);
        } else {
            assert(spec_u64_to_le_bytes(spec_u64_from_le_bytes(b1)) == b1);
            assert(spec_u64_to_le_bytes(spec_u64_from_le_bytes(b9)) == b9);
            assert(spec_u64_to_le_bytes(spec_u64_from_le_bytes(b17)) == b17);
            assert(spec_serialize(f) =~= s);
        }
    }
}

impl Frame {
    /// Reads a frame from a datagram.
    pub fn parse(bytes: &[u8]) -> (r: Result<Frame, Error>)
        ensures
            match r {
                Ok(f) => spec_parse(bytes@) == Ok::<FrameView, Error>(f@),
                Err(e) => spec_parse(bytes@) == Err::<FrameView, Error>(e),
            },
    {
        let len = bytes.len();
        if len == 0 {
            return Err(Error::UnexpectedEof);
        }
        let tag = buf_get_u8(bytes, 0);
        let body: usize = if tag == 0 || tag == 1 {
            0
        } else if tag == 2 {
            16
        } else if tag == 3 || tag == 4 {
            8
        } else if tag == 5 {
            24
        } else {
            return Err(Error::UnknownFrameType(tag));
        };
        if len - 1 < body {
            return Err(Error::UnexpectedEof);
        }
        if tag != 5 && len - 1 > body {
            return Err(Error::UnexpectedTrailing);
        }
        if tag == 0 {
            Ok(Frame::PeerHello)
        } else if tag == 1 {
            Ok(Frame::PeerBye)
        } else if tag == 2 {
            let hops = buf_get_u64_le(bytes, 1);
            let task = buf_get_u64_le(bytes, 9);
            Ok(Frame::TaskHello(hops, TaskID::from(task)))
        } else if tag == 3 {
            Ok(Frame::TaskBye(TaskID::from(buf_get_u64_le(bytes, 1))))
        } else if tag == 4 {
            Ok(Frame::FindTask(TaskID::from(buf_get_u64_le(bytes, 1))))
        } else {
            let from = buf_get_u64_le(bytes, 1);
            let to = buf_get_u64_le(bytes, 9);
            let msg_type = buf_get_u64_le(bytes, 17);
            let mut data: Vec<u8> = vec![0u8; len - 25];
            buf_copy_to_slice(bytes, 25, &mut data);
            Ok(Frame::Message(TaskID::from(from), TaskID::from(to), MessageTypeID::from(msg_type), data))
        }
    }

    /// Appends the frame, in its wire format, to `buf`.
    pub fn write_to_buf(&self, buf: &mut Vec<u8>)
        requires
            old(buf)@.len() + spec_serialize(self@).len() <= usize::MAX,
        ensures
            final(buf)@ == old(buf)@ + spec_serialize(self@),
    {
        proof {
            lemma_auto_spec_u64_to_from_le_bytes();
        }
        match self {
            Frame::PeerHello => buf_put_u8(buf, 0x00),
            Frame::PeerBye => buf_put_u8(buf, 0x01),
            Frame::TaskHello(hops, task) => {
                buf_put_u8(buf, 0x02);
                buf_put_u64_le(buf, *hops);
                buf_put_u64_le(buf, u64::from(*task));
            },
            Frame::TaskBye(task) => {
                buf_put_u8(buf, 0x03);
                buf_put_u64_le(buf, u64::from(*task));
            },
            Frame::FindTask(task) => {
                buf_put_u8(buf, 0x04);
                buf_put_u64_le(buf, u64::from(*task));
            },
            Frame::Message(from, to, msg_type, data) => {
                buf_put_u8(buf, 0x05);
                buf_put_u64_le(buf, u64::from(*from));
                buf_put_u64_le(buf, u64::from(*to));
                buf_put_u64_le(buf, u64::from(*msg_type));
                buf_put(buf, data);
            },
        }
        assert(final(buf)@ =~= old(buf)@ + spec_serialize(self@));
    }
}

} // verus!
