//! Frames: a message on a stream of bytes is its length, as eight bytes
//! big-endian, and then the message itself.

use crate::endian::{be64_bytes, be64_decode, be64_encode, be64_value, lemma_be64_round_trip};
use vstd::prelude::*;
use vstd::slice::*;

verus! {

/// Why no message could be read.
#[derive(Debug, Clone, Copy, PartialEq, Eq, Structural)]
pub enum FrameError {
    /// The stream ended before the length or the message was complete.
    UnexpectedEof,
}

/// The frame around `payload`.
pub open spec fn frame(payload: Seq<u8>) -> Seq<u8> {
    be64_bytes(payload.len() as u64) + payload
}

/// The message of the frame at the front of `stream`, or `None` where the
/// stream ends before the frame does.
pub open spec fn frame_prefix(stream: Seq<u8>) -> Option<Seq<u8>> {
    if stream.len() < 8 {
        None
    } else if stream.len() - 8 < be64_value(stream) {
        None
    } else {
        Some(stream.subrange(8, 8 + be64_value(stream) as int))
    }
}

/// Reading undoes writing: the message of a frame is read back from the
/// front of a stream that begins with the frame, and what follows the frame
/// is what the stream goes on with.
pub proof fn law_frame_round_trip(payload: Seq<u8>, rest: Seq<u8>)
    requires
        payload.len() <= u64::MAX,
    ensures
        frame_prefix(frame(payload) + rest) == Some(payload),
        (frame(payload) + rest).skip(8 + payload.len() as int) == rest,
{
    let stream = frame(payload) + rest;
    let header = be64_bytes(payload.len() as u64);
    lemma_be64_round_trip(payload.len() as u64);
    assert(forall|i: int| 0 <= i < 8 ==> stream[i] == header[i]);
    assert(be64_value(stream) == be64_value(header));
    assert(stream.subrange(8, 8 + payload.len() as int) =~= payload);
    assert(stream.skip(8 + payload.len() as int) =~= rest);
}

/// Bytes that are read from the front, once each.
pub struct ByteStream {
    bytes: Vec<u8>,
    position: usize,
}

impl ByteStream {
    #[verifier::type_invariant]
    spec fn within(&self) -> bool {
        self.position <= self.bytes@.len()
    }

    /// The bytes that are still to be read.
    pub closed spec fn remaining(&self) -> Seq<u8> {
        self.bytes@.skip(self.position as int)
    }

    /// A stream that will hand out `bytes` from the first on.
    pub fn new(bytes: Vec<u8>) -> (stream: ByteStream)
        ensures
            stream.remaining() == bytes@,
    {
        let stream = ByteStream { bytes, position: 0 };
        assert(stream.remaining() =~= bytes@);
        stream
    }

    /// How many bytes are still to be read.
    pub fn remaining_len(&self) -> (count: usize)
        ensures
            count == self.remaining().len(),
    {
        proof {
            use_type_invariant(self);
        }
        self.bytes.len() - self.position
    }

    /// Reads the next `count` bytes. Where fewer are left, the stream is
    /// read to its end and the read fails.
    pub fn read_exact(&mut self, count: usize) -> (read: Result<Vec<u8>, FrameError>)
        ensures
            match read {
                Ok(bytes) => count <= old(self).remaining().len() && bytes@
                    == old(self).remaining().subrange(0, count as int)
                    && final(self).remaining() == old(self).remaining().skip(count as int),
                Err(error) => count > old(self).remaining().len() && error
                    == FrameError::UnexpectedEof && final(self).remaining() == Seq::<u8>::empty(),
            },
    {
        proof {
            use_type_invariant(&*self);
        }
        let left = self.bytes.len() - self.position;
        if count <= left {
            let start = self.position;
            let bytes = slice_to_vec(slice_subrange(self.bytes.as_slice(), start, start + count));
            self.position = start + count;
            assert(bytes@ =~= old(self).remaining().subrange(0, count as int));
            assert(self.remaining() =~= old(self).remaining().skip(count as int));
            Ok(bytes)
        } else {
            self.position = self.bytes.len();
            assert(self.remaining() =~= Seq::<u8>::empty());
            Err(FrameError::UnexpectedEof)
        }
    }
}

/// Writes `message` to the end of `stream` as one frame.
pub fn write_message(stream: &mut Vec<u8>, message: &[u8]) -> (written: Result<(), FrameError>)
    ensures
        written is Ok,
        final(stream)@ == old(stream)@ + frame(message@),
{
    let mut header = be64_encode(message.len() as u64);
    let mut payload = slice_to_vec(message);
    stream.append(&mut header);
    stream.append(&mut payload);
    assert(stream@ =~= old(stream)@ + frame(message@));
    Ok(())
}

/// Reads one frame from `stream` and returns its message.
///
/// Where the stream ends before the eight bytes of the length, or before as
/// many bytes as the length says, the read fails and the stream is read to
/// its end.
pub fn read_message(stream: &mut ByteStream) -> (read: Result<Vec<u8>, FrameError>)
    ensures
        match frame_prefix(old(stream).remaining()) {
            Some(payload) => read matches Ok(message) && message@ == payload
                && final(stream).remaining() == old(stream).remaining().skip(8 + payload.len() as int),
            None => read matches Err(error) && error == FrameError::UnexpectedEof
                && final(stream).remaining() == Seq::<u8>::empty(),
        },
{
    let header = match stream.read_exact(8) {
        Ok(header) => header,
        Err(e) => {
            return Err(e);
        },
    };
    let len = be64_decode(header.as_slice());
    assert(be64_value(header@) == be64_value(old(stream).remaining()));
    let left = stream.remaining_len();
    if (left as u64) < len {
        let _ = stream.read_exact(left);
        assert(stream.remaining() =~= Seq::<u8>::empty());
        Err(FrameError::UnexpectedEof)
    } else {
        let read = stream.read_exact(len as usize);
        proof {
            let all = old(stream).remaining();
            assert(all.skip(8).subrange(0, len as int) =~= all.subrange(8, 8 + len));
            assert(all.skip(8).skip(len as int) =~= all.skip(8 + len));
        }
        read
    }
}

} // verus!
