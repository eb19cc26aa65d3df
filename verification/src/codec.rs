//! The byte-codec contract.
//!
//! A decoder slices a running byte buffer into frames: each call either
//! removes one complete frame from the head of the buffer and returns its
//! decoded item (or a decode error), or reports that no complete frame has
//! arrived yet.  An encoder serialises one item into a buffer and states its
//! encoded length up front so a writer can apply back-pressure.

use crate::buffer::IoBuffer;
use vstd::prelude::*;

verus! {

/// What one decode call yields at the specification level: the view of the
/// decoded item, or the view of the decode error.
pub type DecodeOutcome<D> = Result<
    <<D as Decode>::Item as View>::V,
    <<D as Decode>::Error as View>::V,
>;

/// Pull-style decoding of frames out of a running byte buffer.
///
/// The semantics of a decoder is fixed by `spec_step`, a pure function of the
/// buffer contents alone: either no complete frame is present yet, or the
/// first `n` bytes form a frame with a decode outcome.  The three proof
/// obligations pin down what makes this a *stream* decoder: a frame consumes
/// at least one byte, a frame once complete is not changed by bytes arriving
/// behind it, and the decoder's internal scan state stays consistent when the
/// buffer grows at the tail.  Together they make decoding resumable: feeding
/// a byte sequence in arbitrary chunks yields the items of the whole
/// sequence (see [`lemma_decode_resumable`]).
pub trait Decode: Sized {
    type Item: View;

    type Error: View;

    /// What one decode call does to the given buffer contents: `None` when no
    /// complete frame is present, otherwise the outcome of the first frame
    /// and the number of bytes it occupies.
    spec fn spec_step(src: Seq<u8>) -> Option<(DecodeOutcome<Self>, int)>;

    /// Consistency of the decoder's internal state (for instance a recorded
    /// scan position) with the buffer contents.
    spec fn inv(&self, src: Seq<u8>) -> bool;

    /// A complete frame occupies at least one byte and at most the buffer.
    proof fn lemma_step_bounds(src: Seq<u8>)
        ensures
            Self::spec_step(src) matches Some(step) ==> 1 <= step.1 <= src.len(),
    ;

    /// A complete frame is not changed by bytes that arrive behind it.
    proof fn lemma_step_extend(src: Seq<u8>, ext: Seq<u8>)
        ensures
            Self::spec_step(src) is Some ==> Self::spec_step(src + ext) == Self::spec_step(
                src,
            ),
    ;

    /// Internal state stays consistent when bytes arrive at the tail.
    proof fn lemma_inv_extend(&self, src: Seq<u8>, ext: Seq<u8>)
        requires
            self.inv(src),
        ensures
            self.inv(src + ext),
    ;

    /// Decode one frame from the head of `src`, as `spec_step` describes.
    ///
    /// On an item or a decode error the frame's bytes have been removed from
    /// the head of the buffer; on `Ok(None)` the buffer is untouched and the
    /// decoder has recorded its scan position, so re-entry is proportional to
    /// the new bytes and not to the buffer.
    fn decode(&mut self, src: &mut IoBuffer) -> (r: Result<Option<Self::Item>, Self::Error>)
        requires
            old(self).inv(old(src)@),
        ensures
            final(src).spec_capacity() == old(src).spec_capacity(),
            final(self).inv(final(src)@),
            match Self::spec_step(old(src)@) {
                None => r matches Ok(None) && final(src)@ == old(src)@,
                Some(step) => final(src)@ == old(src)@.skip(step.1) && (match step.0 {
                    Ok(v) => r matches Ok(Some(item)) && item@ == v,
                    Err(e) => r matches Err(err) && err@ == e,
                }),
            },
    ;
}

/// Every frame that one drain pass extracts from the given contents, paired
/// with the bytes that remain (a partial frame at most).
pub open spec fn spec_drain<D: Decode>(src: Seq<u8>) -> (Seq<DecodeOutcome<D>>, Seq<u8>)
    decreases src.len(),
{
    match D::spec_step(src) {
        None => (Seq::<DecodeOutcome<D>>::empty(), src),
        Some(step) => if 1 <= step.1 <= src.len() {
            let rec = spec_drain::<D>(src.skip(step.1));
            (seq![step.0] + rec.0, rec.1)
        } else {
            // Excluded by `Decode::lemma_step_bounds` for conforming decoders.
            (Seq::<DecodeOutcome<D>>::empty(), src)
        },
    }
}

/// The items of the whole stream after the bytes `fed` have arrived.
pub open spec fn stream_items<D: Decode>(fed: Seq<u8>) -> Seq<DecodeOutcome<D>> {
    spec_drain::<D>(fed).0
}

/// The bytes of `fed` that no complete frame covers yet.
pub open spec fn stream_rest<D: Decode>(fed: Seq<u8>) -> Seq<u8> {
    spec_drain::<D>(fed).1
}

/// Decoder resumability: for every byte sequence split arbitrarily into two
/// chunks, draining the first chunk and then the remainder together with the
/// second chunk yields exactly the items of the whole sequence.  Applied
/// chunk by chunk, a stream fed in arbitrary pieces emits the items of the
/// concatenation of all pieces.
pub proof fn lemma_decode_resumable<D: Decode>(a: Seq<u8>, b: Seq<u8>)
    ensures
        stream_items::<D>(a + b) == stream_items::<D>(a) + stream_items::<D>(
            stream_rest::<D>(a) + b,
        ),
        stream_rest::<D>(a + b) == stream_rest::<D>(stream_rest::<D>(a) + b),
    decreases a.len(),
{
    match D::spec_step(a) {
        None => {
            assert(stream_items::<D>(a) =~= Seq::<DecodeOutcome<D>>::empty());
            assert(stream_rest::<D>(a) == a);
            assert(stream_items::<D>(a) + stream_items::<D>(a + b) =~= stream_items::<D>(
                a + b,
            ));
        },
        Some(step) => {
            D::lemma_step_bounds(a);
            D::lemma_step_extend(a, b);
            let k = step.1;
            assert((a + b).skip(k) =~= a.skip(k) + b);
            lemma_decode_resumable::<D>(a.skip(k), b);
            assert(stream_rest::<D>(a) == stream_rest::<D>(a.skip(k)));
            assert(seq![step.0] + (stream_items::<D>(a.skip(k)) + stream_items::<D>(
                stream_rest::<D>(a.skip(k)) + b,
            )) =~= (seq![step.0] + stream_items::<D>(a.skip(k))) + stream_items::<D>(
                stream_rest::<D>(a) + b,
            ));
        },
    }
}

/// Push-style encoding: the byte length of a value, stated before encoding so
/// a writer can apply back-pressure.
pub trait SinkEncodeLen {
    /// The exact serialised form of this value.
    spec fn spec_encoding(&self) -> Seq<u8>;

    /// An upper bound on the encoded length, used for back-pressure.
    fn sink_encode_len(&self) -> (n: usize)
        ensures
            n >= self.spec_encoding().len(),
    ;
}

/// Serialise one value into a byte buffer.
pub trait SinkEncode: SinkEncodeLen {
    type Error;

    /// Append the serialised form of this value at the tail of `dst`; the
    /// caller has reserved room for it.
    fn sink_encode(&self, dst: &mut IoBuffer) -> (r: Result<(), Self::Error>)
        requires
            old(dst)@.len() + self.spec_encoding().len() <= old(dst).spec_capacity(),
        ensures
            final(dst).spec_capacity() == old(dst).spec_capacity(),
            r is Ok ==> final(dst)@ == old(dst)@ + self.spec_encoding(),
            r is Err ==> final(dst)@ == old(dst)@,
    ;
}

/// Raw bytes encode as themselves, and state their length exactly.
impl SinkEncodeLen for Vec<u8> {
    open spec fn spec_encoding(&self) -> Seq<u8> {
        self@
    }

    fn sink_encode_len(&self) -> (n: usize)
        ensures
            n == self@.len(),
    {
        self.len()
    }
}

impl SinkEncode for Vec<u8> {
    type Error = ();

    fn sink_encode(&self, dst: &mut IoBuffer) -> (r: Result<(), ()>) {
        dst.extend_from_slice(self.as_slice());
        Ok(())
    }
}

} // verus!
