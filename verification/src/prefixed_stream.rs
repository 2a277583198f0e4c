//! A stream of which the first bytes have been read already. A reader gets
//! those bytes first and then what the stream still holds, so that to the
//! reader nothing has been read yet.

use crate::buffers;
use crate::sni;
use bytes::Bytes;
use vstd::prelude::*;
use vstd::slice::slice_subrange;

verus! {

/// A stream, and the bytes that were read from it and are still to be handed
/// out.
pub struct PrefixedStream<S> {
    prefix: Bytes,
    pos: usize,
    pub inner: S,
}

impl<S> PrefixedStream<S> {
    /// The bytes that were read ahead.
    pub closed spec fn prefix(self) -> Seq<u8> {
        buffers::shared_bytes(self.prefix)
    }

    /// How many of them have been handed out.
    pub closed spec fn position(self) -> int {
        self.pos as int
    }

    /// The stream itself.
    pub closed spec fn stream(self) -> S {
        self.inner
    }

    /// The bytes handed out so far.
    pub open spec fn handed_out(self) -> Seq<u8> {
        self.prefix().take(self.position())
    }

    pub open spec fn well_formed(self) -> bool {
        0 <= self.position() <= self.prefix().len()
    }

    pub fn new(prefix: Bytes, inner: S) -> (res: PrefixedStream<S>)
        ensures
            res.well_formed(),
            res.prefix() == buffers::shared_bytes(prefix),
            res.position() == 0,
            res.stream() == inner,
    {
        PrefixedStream { prefix, pos: 0, inner }
    }

    /// The next bytes for a reader with so much room: as many of the bytes
    /// read ahead as fit. `None` once all of them have been handed out, and
    /// the reader is to read from the stream itself.
    pub fn read_prefix(&mut self, room: usize) -> (res: Option<Vec<u8>>)
        requires
            old(self).well_formed(),
        ensures
            final(self).well_formed(),
            final(self).prefix() == old(self).prefix(),
            final(self).stream() == old(self).stream(),
            res is None <==> old(self).position() == old(self).prefix().len(),
            match res {
                Some(piece) => {
                    &&& final(self).handed_out() == old(self).handed_out() + piece@
                    &&& piece@.len() == (if room < old(self).prefix().len() - old(self).position() {
                        room as int
                    } else {
                        old(self).prefix().len() - old(self).position()
                    })
                    &&& final(self).position() == old(self).position() + piece@.len()
                },
                None => final(self).position() == old(self).position(),
            },
    {
        let data = buffers::shared_slice(&self.prefix);
        if self.pos >= data.len() {
            return None;
        }
        let left: usize = data.len() - self.pos;
        let n: usize = if room < left {
            room
        } else {
            left
        };
        let piece = vstd::slice::slice_to_vec(slice_subrange(data, self.pos, self.pos + n));
        proof {
            assert(data@.take(self.pos + n) =~= data@.take(self.pos as int) + piece@);
        }
        self.pos = self.pos + n;
        Some(piece)
    }
}

/// A reader gets every byte that was read ahead, in order: however the reads
/// are sized, once all has been handed out what was handed out is the prefix.
pub proof fn law_all_of_the_prefix_is_handed_out<S>(stream: PrefixedStream<S>)
    requires
        stream.well_formed(),
        stream.position() == stream.prefix().len(),
    ensures
        stream.handed_out() == stream.prefix(),
{
    assert(stream.handed_out() =~= stream.prefix());
}

/// Nothing that was read from a connection while its server name was looked
/// for is lost: a reader of the connection gets all of it, in order, before
/// anything else.
pub proof fn law_nothing_read_ahead_is_lost<S>(
    probe: sni::Probe,
    prefix: Bytes,
    stream: PrefixedStream<S>,
)
    requires
        buffers::shared_bytes(prefix) == probe.gathered(),
        stream.prefix() == buffers::shared_bytes(prefix),
        stream.well_formed(),
        stream.position() == stream.prefix().len(),
    ensures
        stream.handed_out() == probe.gathered(),
{
    law_all_of_the_prefix_is_handed_out(stream);
}

/// What has been handed out is the beginning of what was read ahead, byte by
/// byte, up to the position.
pub proof fn law_bytes_are_handed_out_in_order<S>(stream: PrefixedStream<S>, i: int)
    requires
        0 <= stream.position() <= stream.prefix().len(),
    ensures
        stream.well_formed(),
        stream.handed_out().len() == stream.position(),
        0 <= i < stream.position() ==> stream.handed_out()[i] == stream.prefix()[i],
{
}

} // verus!
