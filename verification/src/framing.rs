//! Framing of the unframed byte stream.
//!
//! The board marks the end of a message by falling silent. The reader takes
//! one byte at a time; a read that brings nothing, because the line ran dry
//! or the read timed out, is the boundary at which what has been gathered is
//! handed on. Two buffers gather bytes: one for the broadcast stream, which
//! sees every byte, and one for the reply to the command in progress.
use crate::text::{decode_lossy, permissive_text};
use vstd::prelude::*;

verus! {

/// What one read of at most one byte from the port came to.
#[derive(Clone, Copy, PartialEq, Eq, Debug, Structural)]
pub enum ReadEvent {
    /// One byte arrived.
    Byte(u8),
    /// The read returned without a byte: the transport has no more data.
    EndOfData,
    /// Nothing arrived within the read timeout.
    TimedOut,
    /// The read failed for any other reason.
    Failed,
}

/// The two accumulation buffers as sequences of bytes.
pub struct Buffers {
    /// Bytes gathered for the broadcast stream since the last boundary.
    pub broadcast: Seq<u8>,
    /// Bytes gathered for the reply to the command in progress.
    pub reply: Seq<u8>,
}

/// A read that brought nothing: the point at which gathered bytes are handed
/// on.
pub open spec fn is_boundary(event: ReadEvent) -> bool {
    event is EndOfData || event is TimedOut
}

/// A reply is complete at a boundary that follows a command which has been
/// sent in full. A command that is in progress but not yet fully sent keeps
/// gathering across boundaries.
pub open spec fn reply_completes(event: ReadEvent, in_progress: bool, fully_sent: bool) -> bool {
    is_boundary(event) && in_progress && fully_sent
}

/// The broadcast chunk that `event` releases: the gathered bytes, at a
/// boundary, unless there are none.
pub open spec fn chunk_released(buffers: Buffers, event: ReadEvent) -> Option<Seq<u8>> {
    if is_boundary(event) && buffers.broadcast.len() > 0 {
        Some(buffers.broadcast)
    } else {
        None
    }
}

/// The reply bytes that `event` releases: all that was gathered for the
/// command, when the reply completes.
pub open spec fn reply_released(
    buffers: Buffers,
    event: ReadEvent,
    in_progress: bool,
    fully_sent: bool,
) -> Option<Seq<u8>> {
    if reply_completes(event, in_progress, fully_sent) {
        Some(buffers.reply)
    } else {
        None
    }
}

/// The buffers after `event`.
///
/// A byte always joins the broadcast buffer, and joins the reply buffer while
/// a command is in progress. A boundary empties the broadcast buffer, and
/// empties the reply buffer when the reply completes. A failed read leaves
/// both as they are.
pub open spec fn gathered(
    buffers: Buffers,
    event: ReadEvent,
    in_progress: bool,
    fully_sent: bool,
) -> Buffers {
    match event {
        ReadEvent::Byte(byte) => Buffers {
            broadcast: buffers.broadcast.push(byte),
            reply: if in_progress {
                buffers.reply.push(byte)
            } else {
                buffers.reply
            },
        },
        ReadEvent::EndOfData | ReadEvent::TimedOut => Buffers {
            broadcast: Seq::empty(),
            reply: if in_progress && fully_sent {
                Seq::empty()
            } else {
                buffers.reply
            },
        },
        ReadEvent::Failed => buffers,
    }
}

/// What a read event released from the buffers.
#[derive(Clone, PartialEq, Eq, Debug)]
pub struct Flush {
    /// A chunk for the broadcast bus.
    pub chunk: Option<Vec<u8>>,
    /// The decoded reply to the command in progress.
    pub reply: Option<String>,
}

impl Flush {
    /// The released chunk as a sequence of bytes.
    pub open spec fn chunk_bytes(&self) -> Option<Seq<u8>> {
        match self.chunk {
            Some(chunk) => Some(chunk@),
            None => None,
        }
    }

    /// The released reply as a sequence of characters.
    pub open spec fn reply_text(&self) -> Option<Seq<char>> {
        match self.reply {
            Some(reply) => Some(reply@),
            None => None,
        }
    }
}

/// The text of released reply bytes, decoded permissively.
pub open spec fn decoded(reply: Option<Seq<u8>>) -> Option<Seq<char>> {
    match reply {
        Some(bytes) => Some(permissive_text(bytes)),
        None => None,
    }
}

/// The accumulation buffers of the reader.
pub struct Framer {
    broadcast_buffer: Vec<u8>,
    command_buffer: Vec<u8>,
}

impl View for Framer {
    type V = Buffers;

    closed spec fn view(&self) -> Buffers {
        Buffers { broadcast: self.broadcast_buffer@, reply: self.command_buffer@ }
    }
}

impl Framer {
    /// A framer with both buffers empty.
    pub fn new() -> (framer: Self)
        ensures
            framer@ == (Buffers { broadcast: Seq::empty(), reply: Seq::empty() }),
    {
        Framer { broadcast_buffer: Vec::new(), command_buffer: Vec::new() }
    }

    /// Empties the broadcast buffer and returns what it held, or `None` when
    /// it held nothing.
    pub fn dump_broadcast_buffer(&mut self) -> (chunk: Option<Vec<u8>>)
        ensures
            final(self)@ == (Buffers { broadcast: Seq::empty(), reply: old(self)@.reply }),
            chunk.is_some() <==> old(self)@.broadcast.len() > 0,
            match chunk {
                Some(bytes) => bytes@ == old(self)@.broadcast,
                None => true,
            },
    {
        if self.broadcast_buffer.len() > 0 {
            let mut to_broadcast: Vec<u8> = Vec::new();
            core::mem::swap(&mut self.broadcast_buffer, &mut to_broadcast);
            Some(to_broadcast)
        } else {
            assert(self.broadcast_buffer@ =~= Seq::<u8>::empty());
            None
        }
    }

    /// Empties the reply buffer and returns what it held as text, decoded
    /// permissively.
    pub fn dump_command_buffer(&mut self) -> (response: String)
        ensures
            final(self)@ == (Buffers { broadcast: old(self)@.broadcast, reply: Seq::empty() }),
            response@ == permissive_text(old(self)@.reply),
    {
        let response = decode_lossy(self.command_buffer.as_slice());
        self.command_buffer.clear();
        response
    }

    /// Empties the reply buffer.
    pub fn clear_command_buffer(&mut self)
        ensures
            final(self)@ == (Buffers { broadcast: old(self)@.broadcast, reply: Seq::empty() }),
    {
        self.command_buffer.clear();
    }

    /// Takes one read event into the buffers and returns what it releases.
    ///
    /// `in_progress` and `fully_sent` are the command flags as they stand
    /// when the event is taken.
    pub fn accept(&mut self, event: ReadEvent, in_progress: bool, fully_sent: bool) -> (flush:
        Flush)
        ensures
            final(self)@ == gathered(old(self)@, event, in_progress, fully_sent),
            flush.chunk_bytes() == chunk_released(old(self)@, event),
            flush.reply_text() == decoded(
                reply_released(old(self)@, event, in_progress, fully_sent),
            ),
    {
        match event {
            ReadEvent::Byte(byte) => {
                self.broadcast_buffer.push(byte);
                if in_progress {
                    self.command_buffer.push(byte);
                }
                Flush { chunk: None, reply: None }
            },
            ReadEvent::EndOfData | ReadEvent::TimedOut => {
                let reply = if in_progress && fully_sent {
                    Some(self.dump_command_buffer())
                } else {
                    None
                };
                let chunk = self.dump_broadcast_buffer();
                Flush { chunk, reply }
            },
            ReadEvent::Failed => Flush { chunk: None, reply: None },
        }
    }
}

} // verus!
