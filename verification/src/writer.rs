//! The sending side of a request body: a byte buffer that collects the
//! little-endian encodings of scalars and says when it has grown large
//! enough to be flushed to the network.
//!
//! Sending is not done here: each `add_*` reports whether the buffer has
//! passed [`FLUSH_THRESHOLD`], and the caller then sends `buf` to `sender`
//! and calls [`SenderWriter::mark_flushed`].

use vstd::prelude::*;
use crate::codec::{
    byte_of_i8,
    le_bytes_i16,
    le_bytes_i32,
    le_bytes_i64,
    le_bytes_u16,
    le_bytes_u32,
    le_bytes_u64,
};

verus! {

/// A buffer longer than this many bytes is flushed after a write.
pub const FLUSH_THRESHOLD: usize = 1048576;

/// A request body being streamed to `sender`, with the bytes written since
/// the last flush held in `buf`.
pub struct SenderWriter<S> {
    pub buf: Vec<u8>,
    pub sender: S,
}

impl<S> SenderWriter<S> {
    /// A writer with an empty buffer, reserved to the flush threshold.
    pub fn new(sender: S) -> (r: SenderWriter<S>)
        ensures
            r.buf@ == Seq::<u8>::empty(),
            r.sender == sender,
    {
        SenderWriter { buf: Vec::with_capacity(FLUSH_THRESHOLD), sender }
    }

    /// Whether the buffer has grown past the flush threshold (checked after
    /// every write).
    pub fn needs_flush(&self) -> (r: bool)
        ensures
            r == (self.buf@.len() > FLUSH_THRESHOLD),
    {
        self.buf.len() > FLUSH_THRESHOLD
    }

    /// Whether a flush has anything to send.
    pub fn has_pending(&self) -> (r: bool)
        ensures
            r == (self.buf@.len() > 0),
    {
        self.buf.len() > 0
    }

    /// Empties the buffer once its bytes have been sent.
    pub fn mark_flushed(&mut self)
        ensures
            final(self).buf@ == Seq::<u8>::empty(),
            final(self).sender == old(self).sender,
    {
        self.buf.clear();
    }

    fn push_byte(&mut self, b: u8)
        ensures
            final(self).buf@ == old(self).buf@.push(b),
            final(self).sender == old(self).sender,
    {
        self.buf.push(b);
    }

    /// Appends one byte; returns whether a flush is due.
    pub fn add_u8(&mut self, value: u8) -> (flush: bool)
        ensures
            final(self).buf@ == old(self).buf@.push(value),
            final(self).sender == old(self).sender,
            flush == (final(self).buf@.len() > FLUSH_THRESHOLD),
    {
        self.push_byte(value);
        self.needs_flush()
    }

    /// Appends the two's-complement byte of an `i8`; returns whether a flush
    /// is due.
    pub fn add_i8(&mut self, value: i8) -> (flush: bool)
        ensures
            final(self).buf@ == old(self).buf@.push(byte_of_i8(value)),
            final(self).sender == old(self).sender,
            flush == (final(self).buf@.len() > FLUSH_THRESHOLD),
    {
        self.push_byte(value as u8);
        self.needs_flush()
    }

    /// Appends a `u16` in little-endian order; returns whether a flush is due.
    pub fn add_u16(&mut self, value: u16) -> (flush: bool)
        ensures
            final(self).buf@ == old(self).buf@ + le_bytes_u16(value),
            final(self).sender == old(self).sender,
            flush == (final(self).buf@.len() > FLUSH_THRESHOLD),
    {
        let ghost old_buf = self.buf@;
        self.push_byte(value as u8);
        self.push_byte((value >> 8u16) as u8);
        assert(self.buf@ =~= old_buf + le_bytes_u16(value));
        self.needs_flush()
    }

    /// Appends an `i16` in little-endian order; returns whether a flush is due.
    pub fn add_i16(&mut self, value: i16) -> (flush: bool)
        ensures
            final(self).buf@ == old(self).buf@ + le_bytes_i16(value),
            final(self).sender == old(self).sender,
            flush == (final(self).buf@.len() > FLUSH_THRESHOLD),
    {
        self.add_u16(value as u16)
    }

    /// Appends a `u32` in little-endian order; returns whether a flush is due.
    pub fn add_u32(&mut self, value: u32) -> (flush: bool)
        ensures
            final(self).buf@ == old(self).buf@ + le_bytes_u32(value),
            final(self).sender == old(self).sender,
            flush == (final(self).buf@.len() > FLUSH_THRESHOLD),
    {
        let ghost old_buf = self.buf@;
        self.push_byte(value as u8);
        self.push_byte((value >> 8u32) as u8);
        self.push_byte((value >> 16u32) as u8);
        self.push_byte((value >> 24u32) as u8);
        assert(self.buf@ =~= old_buf + le_bytes_u32(value));
        self.needs_flush()
    }

    /// Appends an `i32` in little-endian order; returns whether a flush is due.
    pub fn add_i32(&mut self, value: i32) -> (flush: bool)
        ensures
            final(self).buf@ == old(self).buf@ + le_bytes_i32(value),
            final(self).sender == old(self).sender,
            flush == (final(self).buf@.len() > FLUSH_THRESHOLD),
    {
        self.add_u32(value as u32)
    }

    /// Appends a `u64` in little-endian order; returns whether a flush is due.
    pub fn add_u64(&mut self, value: u64) -> (flush: bool)
        ensures
            final(self).buf@ == old(self).buf@ + le_bytes_u64(value),
            final(self).sender == old(self).sender,
            flush == (final(self).buf@.len() > FLUSH_THRESHOLD),
    {
        let ghost old_buf = self.buf@;
        self.push_byte(value as u8);
        self.push_byte((value >> 8u64) as u8);
        self.push_byte((value >> 16u64) as u8);
        self.push_byte((value >> 24u64) as u8);
        self.push_byte((value >> 32u64) as u8);
        self.push_byte((value >> 40u64) as u8);
        self.push_byte((value >> 48u64) as u8);
        self.push_byte((value >> 56u64) as u8);
        assert(self.buf@ =~= old_buf + le_bytes_u64(value));
        self.needs_flush()
    }

    /// Appends an `i64` in little-endian order; returns whether a flush is due.
    pub fn add_i64(&mut self, value: i64) -> (flush: bool)
        ensures
            final(self).buf@ == old(self).buf@ + le_bytes_i64(value),
            final(self).sender == old(self).sender,
            flush == (final(self).buf@.len() > FLUSH_THRESHOLD),
    {
        self.add_u64(value as u64)
    }

    /// Appends a slice of bytes; returns whether a flush is due.
    pub fn put_slice(&mut self, src: &[u8]) -> (flush: bool)
        ensures
            final(self).buf@ == old(self).buf@ + src@,
            final(self).sender == old(self).sender,
            flush == (final(self).buf@.len() > FLUSH_THRESHOLD),
    {
        let ghost old_buf = self.buf@;
        let mut i: usize = 0;
        while i < src.len()
            invariant
                i <= src@.len(),
                self.buf@ == old_buf + src@.take(i as int),
                self.sender == old(self).sender,
            decreases src@.len() - i,
        {
            self.push_byte(src[i]);
            assert(src@.take(i + 1) =~= src@.take(i as int).push(src@[i as int]));
            i = i + 1;
        }
        assert(src@.take(src@.len() as int) =~= src@);
        self.needs_flush()
    }
}

/// A request body that is an R value to be serialised in the binary format.
pub struct TsonBodyWriter<C> {
    object: C,
}

impl<C> TsonBodyWriter<C> {
    /// Wraps the value to be sent.
    pub fn new(object: C) -> (r: TsonBodyWriter<C>)
        ensures
            r.object() == object,
    {
        TsonBodyWriter { object }
    }

    /// The value to be sent.
    pub closed spec fn object(&self) -> C {
        self.object
    }

    /// The value to be sent.
    pub fn value(&self) -> (r: &C)
        ensures
            *r == self.object(),
    {
        &self.object
    }
}

} // verus!
