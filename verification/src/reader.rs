//! The receiving side of a response body: a buffer that collects the chunks
//! read from the network and hands out little-endian scalars from its front.
//!
//! Reading from the network is not done here. The caller asks
//! [`ReceiverReader::ensure_step`] what to do next, reads a chunk when told
//! to [`EnsureStep::Fetch`], and hands it over with
//! [`ReceiverReader::accept_chunk`].

use bytes::Buf;
use bytes::Bytes;
use std::io::BufRead;
use std::io::Cursor;
use vstd::prelude::*;
use crate::codec::{decode_i16, decode_i32, decode_i64, decode_u16, decode_u32, decode_u64};

verus! {

/// The size of the chunk buffer used to read the body from the network.
pub const CHUNK_SIZE: usize = 4096;

/// What a caller has to do before `n` more bytes can be taken.
#[derive(Clone, Copy, Debug, PartialEq, Eq, Structural)]
pub enum EnsureStep {
    /// Enough bytes are buffered.
    Ready,
    /// The stream has more to give: read the next chunk.
    Fetch,
    /// The stream is finished and too few bytes are left.
    Eof,
}

/// Declares `std::io::Cursor` to Verus as an opaque type; what is known of
/// one over `Bytes` is its contents and its position.
#[verifier::external_type_specification]
#[verifier::external_body]
#[verifier::reject_recursive_types(T)]
pub struct ExCursor<T>(Cursor<T>);

/// Declares `bytes::Bytes` to Verus as an opaque type.
#[verifier::external_type_specification]
#[verifier::external_body]
pub struct ExBytes(Bytes);

/// The bytes a cursor runs over: what `Cursor::get_ref` holds.
pub uninterp spec fn cursor_data(c: Cursor<Bytes>) -> Seq<u8>;

/// The position of a cursor: what `Cursor::position` returns.
pub uninterp spec fn cursor_pos(c: Cursor<Bytes>) -> nat;

/// What `Buf::remaining` gives for contents `data` at position `pos`.
pub open spec fn remaining_of(data: Seq<u8>, pos: nat) -> int {
    if pos >= data.len() {
        0
    } else {
        data.len() - pos
    }
}

/// Calls `Cursor::new` on `Bytes::with_capacity(0)`. Claims that the cursor
/// runs over no bytes, at position 0.
#[verifier::external_body]
fn empty_cursor() -> (r: Cursor<Bytes>)
    ensures
        cursor_data(r) == Seq::<u8>::empty(),
        cursor_pos(r) == 0,
{
    Cursor::new(Bytes::with_capacity(0))
}

/// Calls `Cursor::new` on the `Bytes` made from `chunk`. Claims that the
/// cursor runs over a copy of `chunk`, at position 0.
#[verifier::external_body]
fn cursor_of_chunk(chunk: &[u8]) -> (r: Cursor<Bytes>)
    ensures
        cursor_data(r) == chunk@,
        cursor_pos(r) == 0,
{
    Cursor::new(Bytes::from(chunk))
}

/// Calls `Buf::remaining`. Claims the number of bytes after the position,
/// zero when the position is at or past the end.
#[verifier::external_body]
fn cursor_remaining(c: &Cursor<Bytes>) -> (r: usize)
    ensures
        r == remaining_of(cursor_data(*c), cursor_pos(*c)),
{
    c.remaining()
}

/// Calls `Cursor::get_ref`. Claims that the result is all the bytes the
/// cursor runs over, the consumed ones included.
#[verifier::external_body]
fn cursor_bytes(c: &Cursor<Bytes>) -> (r: &[u8])
    ensures
        r@ == cursor_data(*c),
{
    c.get_ref()
}

/// Calls `Bytes::extend_from_slice` on the cursor's bytes (reached with
/// `Cursor::get_mut`). Claims that `chunk` is appended and the position
/// kept. The call panics when the new length overflows `usize`.
#[verifier::external_body]
fn cursor_extend(c: &mut Cursor<Bytes>, chunk: &[u8])
    requires
        cursor_data(*old(c)).len() + chunk@.len() <= usize::MAX,
    ensures
        cursor_data(*final(c)) == cursor_data(*old(c)) + chunk@,
        cursor_pos(*final(c)) == cursor_pos(*old(c)),
{
    c.get_mut().extend_from_slice(chunk)
}

/// Calls `Cursor::position`. Claims that the result is the cursor's position.
#[verifier::external_body]
fn cursor_position(c: &Cursor<Bytes>) -> (r: u64)
    ensures
        r == cursor_pos(*c),
{
    c.position()
}

/// Calls `BufRead::consume` of `Cursor`. Claims that the position moves on
/// by `amt`, past the end if need be, and the bytes are kept. The position
/// is a `u64`, which the `requires` keeps from overflowing.
#[verifier::external_body]
fn cursor_consume(c: &mut Cursor<Bytes>, amt: usize)
    requires
        cursor_pos(*old(c)) + amt <= u64::MAX,
    ensures
        cursor_data(*final(c)) == cursor_data(*old(c)),
        cursor_pos(*final(c)) == cursor_pos(*old(c)) + amt,
{
    c.consume(amt)
}

/// Calls `Buf::get_u8`. Claims that the byte at the position is returned
/// and the position moves on by one; it panics with no byte left.
#[verifier::external_body]
fn cursor_get_u8(c: &mut Cursor<Bytes>) -> (r: u8)
    requires
        remaining_of(cursor_data(*old(c)), cursor_pos(*old(c))) >= 1,
    ensures
        r == cursor_data(*old(c))[cursor_pos(*old(c)) as int],
        cursor_data(*final(c)) == cursor_data(*old(c)),
        cursor_pos(*final(c)) == cursor_pos(*old(c)) + 1,
{
    c.get_u8()
}

/// Calls `Buf::get_i8`. Claims that the byte at the position is returned
/// as an `i8` and the position moves on by one; it panics with no byte left.
#[verifier::external_body]
fn cursor_get_i8(c: &mut Cursor<Bytes>) -> (r: i8)
    requires
        remaining_of(cursor_data(*old(c)), cursor_pos(*old(c))) >= 1,
    ensures
        r == cursor_data(*old(c))[cursor_pos(*old(c)) as int] as i8,
        cursor_data(*final(c)) == cursor_data(*old(c)),
        cursor_pos(*final(c)) == cursor_pos(*old(c)) + 1,
{
    c.get_i8()
}

/// Calls `Buf::get_u16_le`. Claims that the two bytes at the position are
/// decoded little-endian and the position moves on by two; it panics with
/// fewer bytes left.
#[verifier::external_body]
fn cursor_get_u16_le(c: &mut Cursor<Bytes>) -> (r: u16)
    requires
        remaining_of(cursor_data(*old(c)), cursor_pos(*old(c))) >= 2,
    ensures
        r == decode_u16(cursor_data(*old(c)).skip(cursor_pos(*old(c)) as int)),
        cursor_data(*final(c)) == cursor_data(*old(c)),
        cursor_pos(*final(c)) == cursor_pos(*old(c)) + 2,
{
    c.get_u16_le()
}

/// Calls `Buf::get_i16_le`. Claims that the two bytes at the position are
/// decoded little-endian in two's complement and the position moves on by
/// two; it panics with fewer bytes left.
#[verifier::external_body]
fn cursor_get_i16_le(c: &mut Cursor<Bytes>) -> (r: i16)
    requires
        remaining_of(cursor_data(*old(c)), cursor_pos(*old(c))) >= 2,
    ensures
        r == decode_i16(cursor_data(*old(c)).skip(cursor_pos(*old(c)) as int)),
        cursor_data(*final(c)) == cursor_data(*old(c)),
        cursor_pos(*final(c)) == cursor_pos(*old(c)) + 2,
{
    c.get_i16_le()
}

/// Calls `Buf::get_u32_le`. Claims that the four bytes at the position are
/// decoded little-endian and the position moves on by four; it panics with
/// fewer bytes left.
#[verifier::external_body]
fn cursor_get_u32_le(c: &mut Cursor<Bytes>) -> (r: u32)
    requires
        remaining_of(cursor_data(*old(c)), cursor_pos(*old(c))) >= 4,
    ensures
        r == decode_u32(cursor_data(*old(c)).skip(cursor_pos(*old(c)) as int)),
        cursor_data(*final(c)) == cursor_data(*old(c)),
        cursor_pos(*final(c)) == cursor_pos(*old(c)) + 4,
{
    c.get_u32_le()
}

/// Calls `Buf::get_i32_le`. Claims that the four bytes at the position are
/// decoded little-endian in two's complement and the position moves on by
/// four; it panics with fewer bytes left.
#[verifier::external_body]
fn cursor_get_i32_le(c: &mut Cursor<Bytes>) -> (r: i32)
    requires
        remaining_of(cursor_data(*old(c)), cursor_pos(*old(c))) >= 4,
    ensures
        r == decode_i32(cursor_data(*old(c)).skip(cursor_pos(*old(c)) as int)),
        cursor_data(*final(c)) == cursor_data(*old(c)),
        cursor_pos(*final(c)) == cursor_pos(*old(c)) + 4,
{
    c.get_i32_le()
}

/// Calls `Buf::get_u64_le`. Claims that the eight bytes at the position are
/// decoded little-endian and the position moves on by eight; it panics with
/// fewer bytes left.
#[verifier::external_body]
fn cursor_get_u64_le(c: &mut Cursor<Bytes>) -> (r: u64)
    requires
        remaining_of(cursor_data(*old(c)), cursor_pos(*old(c))) >= 8,
    ensures
        r == decode_u64(cursor_data(*old(c)).skip(cursor_pos(*old(c)) as int)),
        cursor_data(*final(c)) == cursor_data(*old(c)),
        cursor_pos(*final(c)) == cursor_pos(*old(c)) + 8,
{
    c.get_u64_le()
}

/// Calls `Buf::get_i64_le`. Claims that the eight bytes at the position are
/// decoded little-endian in two's complement and the position moves on by
/// eight; it panics with fewer bytes left.
#[verifier::external_body]
fn cursor_get_i64_le(c: &mut Cursor<Bytes>) -> (r: i64)
    requires
        remaining_of(cursor_data(*old(c)), cursor_pos(*old(c))) >= 8,
    ensures
        r == decode_i64(cursor_data(*old(c)).skip(cursor_pos(*old(c)) as int)),
        cursor_data(*final(c)) == cursor_data(*old(c)),
        cursor_pos(*final(c)) == cursor_pos(*old(c)) + 8,
{
    c.get_i64_le()
}

/// Abstract state of a [`ReceiverReader`].
pub struct ReaderView {
    /// The current buffer, including the bytes already consumed from it.
    pub data: Seq<u8>,
    /// The cursor's position in `data`; after the whole buffer is handed
    /// over it can lie past the end.
    pub pos: nat,
    /// Whether the stream has reported its end.
    pub is_done: bool,
}

impl ReaderView {
    /// The bytes not consumed yet.
    pub open spec fn pending(self) -> Seq<u8> {
        if self.pos >= self.data.len() {
            Seq::empty()
        } else {
            self.data.skip(self.pos as int)
        }
    }

    /// How many bytes are not consumed yet.
    pub open spec fn remaining(self) -> int {
        remaining_of(self.data, self.pos)
    }
}

/// The state after taking in `chunk`: an empty chunk ends the stream, a
/// chunk that arrives while unread bytes remain is appended to the buffer,
/// and one that arrives when none remain replaces it.
pub open spec fn accept_spec(v: ReaderView, chunk: Seq<u8>) -> ReaderView {
    if chunk.len() == 0 {
        ReaderView { is_done: true, ..v }
    } else if v.remaining() > 0 {
        ReaderView { data: v.data + chunk, ..v }
    } else {
        ReaderView { data: chunk, pos: 0, ..v }
    }
}

/// The state after taking in `chunks` in order.
pub open spec fn accept_all(v: ReaderView, chunks: Seq<Seq<u8>>) -> ReaderView
    decreases chunks.len(),
{
    if chunks.len() == 0 {
        v
    } else {
        accept_spec(accept_all(v, chunks.drop_last()), chunks.last())
    }
}

/// The bytes of `chunks` one after the other.
pub open spec fn concat_chunks(chunks: Seq<Seq<u8>>) -> Seq<u8>
    decreases chunks.len(),
{
    if chunks.len() == 0 {
        Seq::empty()
    } else {
        concat_chunks(chunks.drop_last()) + chunks.last()
    }
}

/// Taking in a chunk adds it after the unread bytes.
pub proof fn lemma_accept_appends(v: ReaderView, chunk: Seq<u8>)
    ensures
        accept_spec(v, chunk).pending() == v.pending() + chunk,
{
    assert(accept_spec(v, chunk).pending() =~= v.pending() + chunk);
}

/// Waiting for bytes loses, drops and reorders nothing: whatever chunks are
/// taken in, the unread bytes are the earlier unread bytes followed by the
/// chunks in the order they arrived. So the unread bytes followed by what
/// the stream has yet to give are the same before and after each step.
pub proof fn law_chunks_arrive_in_order(v: ReaderView, chunks: Seq<Seq<u8>>, rest: Seq<u8>)
    ensures
        accept_all(v, chunks).pending() == v.pending() + concat_chunks(chunks),
        accept_all(v, chunks).pending() + rest == v.pending() + (concat_chunks(chunks) + rest),
    decreases chunks.len(),
{
    if chunks.len() > 0 {
        law_chunks_arrive_in_order(v, chunks.drop_last(), rest);
        lemma_accept_appends(accept_all(v, chunks.drop_last()), chunks.last());
        assert(v.pending() + concat_chunks(chunks.drop_last()) + chunks.last() =~= v.pending()
            + concat_chunks(chunks));
    }
    assert(accept_all(v, chunks).pending() + rest =~= v.pending() + (concat_chunks(chunks)
        + rest));
}

/// What `ensure(n)` decides on a reader in state `v`.
pub open spec fn ensure_step_spec(v: ReaderView, n: usize) -> EnsureStep {
    if v.remaining() >= n {
        EnsureStep::Ready
    } else if v.is_done {
        EnsureStep::Eof
    } else {
        EnsureStep::Fetch
    }
}

/// A buffered reader over a body that arrives in chunks.
pub struct ReceiverReader {
    is_done: bool,
    inner: Cursor<Bytes>,
}

impl View for ReceiverReader {
    type V = ReaderView;

    closed spec fn view(&self) -> ReaderView {
        ReaderView {
            data: cursor_data(self.inner),
            pos: cursor_pos(self.inner),
            is_done: self.is_done,
        }
    }
}

impl ReceiverReader {
    /// An empty reader whose stream has not ended.
    pub fn new() -> (r: ReceiverReader)
        ensures
            r@.data == Seq::<u8>::empty(),
            r@.pos == 0,
            !r@.is_done,
    {
        ReceiverReader { is_done: false, inner: empty_cursor() }
    }

    /// Whether the stream has reported its end.
    pub fn is_done(&self) -> (r: bool)
        ensures
            r == self@.is_done,
    {
        self.is_done
    }

    /// The number of bytes not consumed yet.
    pub fn remaining(&self) -> (r: usize)
        ensures
            r == self@.remaining(),
    {
        cursor_remaining(&self.inner)
    }

    /// What to do before `n` bytes can be taken: they are there, the next
    /// chunk has to be read, or the stream ended short of them.
    pub fn ensure_step(&self, n: usize) -> (r: EnsureStep)
        ensures
            r == ensure_step_spec(self@, n),
    {
        if self.remaining() >= n {
            EnsureStep::Ready
        } else if self.is_done {
            EnsureStep::Eof
        } else {
            EnsureStep::Fetch
        }
    }

    /// Whether a chunk of `chunk_len` bytes can be taken in: the buffer's
    /// length with it still fits in a `usize`.
    pub fn can_accept(&self, chunk_len: usize) -> (r: bool)
        ensures
            r == (self@.data.len() + chunk_len <= usize::MAX),
    {
        let len = cursor_bytes(&self.inner).len();
        len <= usize::MAX - chunk_len
    }

    /// Whether the whole buffer can be handed over: the position moved on by
    /// the buffer's length still fits in a `u64`.
    pub fn can_drain(&self) -> (r: bool)
        ensures
            r == (self@.pos + self@.data.len() <= u64::MAX),
    {
        let len = cursor_bytes(&self.inner).len() as u64;
        let pos = cursor_position(&self.inner);
        pos <= u64::MAX - len
    }

    /// Takes in a chunk read from the stream. An empty chunk marks the end of
    /// the stream. Otherwise, while unread bytes remain the chunk is appended
    /// to the buffer, and when none remain the chunk replaces it.
    pub fn accept_chunk(&mut self, chunk: &[u8])
        requires
            old(self)@.data.len() + chunk@.len() <= usize::MAX,
        ensures
            final(self)@ == accept_spec(old(self)@, chunk@),
            chunk@.len() == 0 ==> final(self)@ == (ReaderView { is_done: true, ..old(self)@ }),
            chunk@.len() > 0 && old(self)@.remaining() > 0 ==> final(self)@ == (ReaderView {
                data: old(self)@.data + chunk@,
                ..old(self)@
            }),
            chunk@.len() > 0 && old(self)@.remaining() == 0 ==> final(self)@ == (ReaderView {
                data: chunk@,
                pos: 0,
                ..old(self)@
            }),
            final(self)@.pending() == old(self)@.pending() + chunk@,
            final(self)@.is_done == (old(self)@.is_done || chunk@.len() == 0),
    {
        let ghost old_view = self@;
        if chunk.len() == 0 {
            self.is_done = true;
            return ;
        }
        if cursor_remaining(&self.inner) > 0 {
            cursor_extend(&mut self.inner, chunk);
            assert(self@.pending() =~= old_view.pending() + chunk@);
        } else {
            self.inner = cursor_of_chunk(chunk);
            assert(self@.pending() =~= old_view.pending() + chunk@);
        }
    }

    /// Takes one byte.
    pub fn get_u8(&mut self) -> (r: u8)
        requires
            old(self)@.remaining() >= 1,
        ensures
            r == old(self)@.pending()[0],
            final(self)@ == (ReaderView { pos: old(self)@.pos + 1, ..old(self)@ }),
            final(self)@.pending() == old(self)@.pending().skip(1),
    {
        let r = cursor_get_u8(&mut self.inner);
        proof {
            assert(self@.pending() =~= old(self)@.pending().skip(1));
            assert(old(self)@.pending() =~= old(self)@.data.skip(old(self)@.pos as int));
        }
        r
    }

    /// Takes one byte as a two's-complement `i8`.
    pub fn get_i8(&mut self) -> (r: i8)
        requires
            old(self)@.remaining() >= 1,
        ensures
            r == old(self)@.pending()[0] as i8,
            final(self)@ == (ReaderView { pos: old(self)@.pos + 1, ..old(self)@ }),
            final(self)@.pending() == old(self)@.pending().skip(1),
    {
        let r = cursor_get_i8(&mut self.inner);
        proof {
            assert(self@.pending() =~= old(self)@.pending().skip(1));
            assert(old(self)@.pending() =~= old(self)@.data.skip(old(self)@.pos as int));
        }
        r
    }

    /// Takes a little-endian `u16`.
    pub fn get_u16_le(&mut self) -> (r: u16)
        requires
            old(self)@.remaining() >= 2,
        ensures
            r == decode_u16(old(self)@.pending()),
            final(self)@ == (ReaderView { pos: old(self)@.pos + 2, ..old(self)@ }),
            final(self)@.pending() == old(self)@.pending().skip(2),
    {
        let r = cursor_get_u16_le(&mut self.inner);
        proof {
            assert(self@.pending() =~= old(self)@.pending().skip(2));
            assert(old(self)@.pending() =~= old(self)@.data.skip(old(self)@.pos as int));
        }
        r
    }

    /// Takes a little-endian `i16`.
    pub fn get_i16_le(&mut self) -> (r: i16)
        requires
            old(self)@.remaining() >= 2,
        ensures
            r == decode_i16(old(self)@.pending()),
            final(self)@ == (ReaderView { pos: old(self)@.pos + 2, ..old(self)@ }),
            final(self)@.pending() == old(self)@.pending().skip(2),
    {
        let r = cursor_get_i16_le(&mut self.inner);
        proof {
            assert(self@.pending() =~= old(self)@.pending().skip(2));
            assert(old(self)@.pending() =~= old(self)@.data.skip(old(self)@.pos as int));
        }
        r
    }

    /// Takes a little-endian `u32`.
    pub fn get_u32_le(&mut self) -> (r: u32)
        requires
            old(self)@.remaining() >= 4,
        ensures
            r == decode_u32(old(self)@.pending()),
            final(self)@ == (ReaderView { pos: old(self)@.pos + 4, ..old(self)@ }),
            final(self)@.pending() == old(self)@.pending().skip(4),
    {
        let r = cursor_get_u32_le(&mut self.inner);
        proof {
            assert(self@.pending() =~= old(self)@.pending().skip(4));
            assert(old(self)@.pending() =~= old(self)@.data.skip(old(self)@.pos as int));
        }
        r
    }

    /// Takes a little-endian `i32`.
    pub fn get_i32_le(&mut self) -> (r: i32)
        requires
            old(self)@.remaining() >= 4,
        ensures
            r == decode_i32(old(self)@.pending()),
            final(self)@ == (ReaderView { pos: old(self)@.pos + 4, ..old(self)@ }),
            final(self)@.pending() == old(self)@.pending().skip(4),
    {
        let r = cursor_get_i32_le(&mut self.inner);
        proof {
            assert(self@.pending() =~= old(self)@.pending().skip(4));
            assert(old(self)@.pending() =~= old(self)@.data.skip(old(self)@.pos as int));
        }
        r
    }

    /// Takes a little-endian `u64`.
    pub fn get_u64_le(&mut self) -> (r: u64)
        requires
            old(self)@.remaining() >= 8,
        ensures
            r == decode_u64(old(self)@.pending()),
            final(self)@ == (ReaderView { pos: old(self)@.pos + 8, ..old(self)@ }),
            final(self)@.pending() == old(self)@.pending().skip(8),
    {
        let r = cursor_get_u64_le(&mut self.inner);
        proof {
            assert(self@.pending() =~= old(self)@.pending().skip(8));
            assert(old(self)@.pending() =~= old(self)@.data.skip(old(self)@.pos as int));
        }
        r
    }

    /// Takes a little-endian `i64`.
    pub fn get_i64_le(&mut self) -> (r: i64)
        requires
            old(self)@.remaining() >= 8,
        ensures
            r == decode_i64(old(self)@.pending()),
            final(self)@ == (ReaderView { pos: old(self)@.pos + 8, ..old(self)@ }),
            final(self)@.pending() == old(self)@.pending().skip(8),
    {
        let r = cursor_get_i64_le(&mut self.inner);
        proof {
            assert(self@.pending() =~= old(self)@.pending().skip(8));
            assert(old(self)@.pending() =~= old(self)@.data.skip(old(self)@.pos as int));
        }
        r
    }

    /// The step of reading a whole body: appends the current buffer, all of
    /// it, to `out` and moves the position on by the buffer's length.
    pub fn drain_into(&mut self, out: &mut Vec<u8>)
        requires
            old(self)@.pos + old(self)@.data.len() <= u64::MAX,
        ensures
            final(out)@ == old(out)@ + old(self)@.data,
            final(self)@ == (ReaderView { pos: old(self)@.pos + old(self)@.data.len(), ..old(self)@ }),
            final(self)@.remaining() == 0,
    {
        let ghost old_out = out@;
        let contents = cursor_bytes(&self.inner);
        out.extend_from_slice(contents);
        assert(out@ =~= old_out + self@.data);
        let n = contents.len();
        cursor_consume(&mut self.inner, n);
    }
}

} // verus!
